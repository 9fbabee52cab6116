use mightypie::admin::admin_flag_path;
use mightypie::admin::elevation_args;
use mightypie::admin::elevation_script;
use mightypie::admin::escape_single_quotes;
use mightypie::admin::fallback_elevation_args;
use mightypie::file_fetch_utils::button_functions_path;
use mightypie::file_fetch_utils::icon_data_url;
use mightypie::file_fetch_utils::mime_for_extension;
use mightypie::file_fetch_utils::resolve_icon_path;
use mightypie::mouse::is_transient_cursor_error;
use mightypie::mouse::window_center;
use mightypie::port_checker::find_available_port;
use mightypie::task_scheduler::create_task_args;
use mightypie::task_scheduler::delete_task_args;
use mightypie::task_scheduler::is_missing_task_error;
use mightypie::task_scheduler::query_task_args;
use mightypie::task_scheduler::xml_marks_admin;

#[test]
fn first_available_port_wins() {
    let mut probes = vec![false; 100];
    probes[3] = true;
    probes[10] = true;
    assert_eq!(find_available_port(9000, &probes), Some(9003));
    assert_eq!(find_available_port(9000, &vec![false; 100]), None);
    let mut first = vec![false; 100];
    first[0] = true;
    assert_eq!(find_available_port(65435, &first), Some(65435));
}

#[test]
fn single_quotes_are_doubled_for_powershell() {
    assert_eq!(escape_single_quotes("C:\\it's here"), "C:\\it''s here");
    assert_eq!(escape_single_quotes("plain"), "plain");
    assert_eq!(
        elevation_script("C:\\a'b.exe"),
        "Start-Process -FilePath 'C:\\a''b.exe' -Verb RunAs"
    );
}

#[test]
fn elevation_invocations_are_exact() {
    assert_eq!(
        elevation_args("C:\\app.exe"),
        vec![
            "-NoProfile",
            "-ExecutionPolicy",
            "Bypass",
            "-Command",
            "Start-Process -FilePath 'C:\\app.exe' -Verb RunAs",
        ]
    );
    assert_eq!(
        fallback_elevation_args("C:\\app.exe"),
        vec!["/C", "runas /user:Administrator \"C:\\app.exe\""]
    );
    assert_eq!(admin_flag_path("/tmp"), "/tmp/mightypie_admin_restart.flag");
}

#[test]
fn task_invocations_are_exact() {
    assert_eq!(
        create_task_args("C:\\app.exe", false),
        vec![
            "/Create",
            "/TN",
            "MightyPieRevamped_Autostart",
            "/TR",
            "C:\\app.exe",
            "/SC",
            "ONLOGON",
            "/F",
        ]
    );
    assert_eq!(
        create_task_args("C:\\app.exe", true),
        vec![
            "/Create",
            "/TN",
            "MightyPieRevamped_Autostart",
            "/TR",
            "C:\\app.exe",
            "/SC",
            "ONLOGON",
            "/RL",
            "HIGHEST",
            "/F",
        ]
    );
    assert_eq!(
        delete_task_args(),
        vec!["/Delete", "/TN", "MightyPieRevamped_Autostart", "/F"]
    );
    assert_eq!(
        query_task_args(false),
        vec!["/Query", "/TN", "MightyPieRevamped_Autostart"]
    );
    assert_eq!(
        query_task_args(true),
        vec!["/Query", "/TN", "MightyPieRevamped_Autostart", "/XML"]
    );
}

#[test]
fn run_level_is_read_in_every_spelling() {
    assert!(xml_marks_admin("<Task RunLevel=\"HighestAvailable\"/>"));
    assert!(xml_marks_admin("<Task RunLevel='HighestAvailable'/>"));
    assert!(xml_marks_admin("<RunLevel>HighestAvailable</RunLevel>"));
    assert!(!xml_marks_admin("<RunLevel>LeastPrivilege</RunLevel>"));
}

#[test]
fn missing_task_failure_is_benign() {
    assert!(is_missing_task_error(
        "ERROR: The system cannot find the file specified."
    ));
    assert!(!is_missing_task_error("ERROR: Access is denied."));
}

#[test]
fn transient_cursor_errors_are_recognized() {
    assert!(is_transient_cursor_error("call failed: 0x80070005"));
    assert!(is_transient_cursor_error("Access Is Denied by the system"));
    assert!(!is_transient_cursor_error("unrelated failure"));
}

#[test]
fn window_center_is_the_midpoint() {
    assert_eq!(window_center(10, 20, 100, 50), (60, 45));
    assert_eq!(window_center(-10, -20, 4, 4), (-8, -18));
}

#[test]
fn mime_types_follow_the_extension() {
    assert_eq!(mime_for_extension(Some("png")), "image/png");
    assert_eq!(mime_for_extension(Some("jpg")), "image/jpeg");
    assert_eq!(mime_for_extension(Some("jpeg")), "image/jpeg");
    assert_eq!(mime_for_extension(Some("svg")), "image/svg+xml");
    assert_eq!(mime_for_extension(Some("gif")), "image/gif");
    assert_eq!(mime_for_extension(Some("webp")), "image/webp");
    assert_eq!(mime_for_extension(Some("bin")), "application/octet-stream");
    assert_eq!(mime_for_extension(None), "application/octet-stream");
}

#[test]
fn data_url_encodes_the_bytes() {
    let data: Vec<u8> = b"hello".to_vec();
    assert_eq!(icon_data_url(Some("png"), &data), "data:image/png;base64,aGVsbG8=");
    assert_eq!(
        icon_data_url(None, &Vec::new()),
        "data:application/octet-stream;base64,"
    );
}

#[test]
fn icon_paths_resolve_under_app_data() {
    assert_eq!(
        resolve_icon_path("/icons/a.png", false, Some("App".to_string()), Some("/local".to_string()), None),
        "/local/App/icons/a.png"
    );
    assert_eq!(
        resolve_icon_path("C:\\abs\\a.png", true, None, None, None),
        "C:\\abs\\a.png"
    );
}

#[test]
fn button_functions_path_needs_a_root() {
    assert_eq!(
        button_functions_path(Some("/root".to_string()), None, None),
        Ok("/root/src-tauri/assets/data/buttonFunctions.json".to_string())
    );
    assert_eq!(
        button_functions_path(
            Some("/root".to_string()),
            Some("assets".to_string()),
            Some("data/bf.json".to_string())
        ),
        Ok("/root/assets/data/bf.json".to_string())
    );
    assert_eq!(
        button_functions_path(None, None, None),
        Err("environment variable not found".to_string())
    );
}
