use mightypie::launcher::LaunchContext;
use mightypie::launcher::LaunchDecision;
use mightypie::launcher::baked_env_pairs;
use mightypie::launcher::is_debug;
use mightypie::launcher::plan_launch;
use mightypie::launcher::resolve_worker_path;
use mightypie::launcher::resolve_working_dir;
use mightypie::launcher::supervisor_env;

fn dev_ctx() -> LaunchContext {
    LaunchContext {
        debug_build: true,
        exe_path: "/home/u/proj/src-tauri/target/debug/app.exe".to_string(),
        resource_dir: "/opt/app/resources".to_string(),
        host_pid: 4242,
    }
}

fn prod_ctx() -> LaunchContext {
    LaunchContext { debug_build: false, ..dev_ctx() }
}

#[test]
fn development_worker_path_sits_under_project_root() {
    assert_eq!(
        resolve_worker_path(&dev_ctx()),
        "/home/u/proj/src-tauri/assets/src-go/bin/main.exe"
    );
}

#[test]
fn production_worker_path_sits_under_resource_dir() {
    assert_eq!(
        resolve_worker_path(&prod_ctx()),
        "/opt/app/resources/assets/src-go/bin/main.exe"
    );
}

#[test]
fn shallow_executable_path_falls_back_to_current_dir() {
    let ctx = LaunchContext { exe_path: "app.exe".to_string(), ..dev_ctx() };
    assert_eq!(resolve_worker_path(&ctx), "./assets/src-go/bin/main.exe");
}

#[test]
fn working_dir_is_the_worker_binary_dir() {
    let worker = resolve_worker_path(&dev_ctx());
    assert_eq!(
        resolve_working_dir(&worker),
        "/home/u/proj/src-tauri/assets/src-go/bin"
    );
    assert_eq!(resolve_working_dir("main.exe"), ".");
}

#[test]
fn is_debug_reflects_the_context() {
    assert!(is_debug(&dev_ctx()));
    assert!(!is_debug(&prod_ctx()));
}

#[test]
fn plan_launch_spawns_or_reports_missing_worker() {
    match plan_launch(&prod_ctx(), true) {
        LaunchDecision::Launch { worker_path, working_dir } => {
            assert_eq!(worker_path, "/opt/app/resources/assets/src-go/bin/main.exe");
            assert_eq!(working_dir, "/opt/app/resources/assets/src-go/bin");
        },
        LaunchDecision::MissingWorker { .. } => panic!("worker was there"),
    }
    match plan_launch(&prod_ctx(), false) {
        LaunchDecision::Launch { .. } => panic!("worker was missing"),
        LaunchDecision::MissingWorker { worker_path } => {
            assert_eq!(worker_path, "/opt/app/resources/assets/src-go/bin/main.exe");
        },
    }
}

#[test]
fn development_environment_pairs() {
    let env = supervisor_env(&dev_ctx(), &Vec::new());
    let expect: Vec<(String, String)> = vec![
        ("APP_ENV".to_string(), "development".to_string()),
        ("MIGHTYPIE_ROOT_DIR".to_string(), "/home/u/proj".to_string()),
        ("PUBLIC_DIR_ASSETS".to_string(), "src-tauri/assets".to_string()),
        ("LAUNCHER_STARTED_FROM_TAURI".to_string(), "1".to_string()),
        ("TAURI_PROCESS_PID".to_string(), "4242".to_string()),
    ];
    assert_eq!(env, expect);
}

#[test]
fn production_environment_pairs_append_baked_values() {
    let baked = vec![("NATS_SERVER_URL".to_string(), "nats://h:4222".to_string())];
    let env = supervisor_env(&prod_ctx(), &baked);
    let expect: Vec<(String, String)> = vec![
        ("APP_ENV".to_string(), "production".to_string()),
        ("TAURI_RESOURCE_DIR".to_string(), "/opt/app/resources".to_string()),
        ("MIGHTYPIE_ROOT_DIR".to_string(), "/opt/app/resources".to_string()),
        ("PUBLIC_DIR_ASSETS".to_string(), "assets".to_string()),
        ("LAUNCHER_STARTED_FROM_TAURI".to_string(), "1".to_string()),
        ("TAURI_PROCESS_PID".to_string(), "4242".to_string()),
        ("NATS_SERVER_URL".to_string(), "nats://h:4222".to_string()),
    ];
    assert_eq!(env, expect);
}

#[test]
fn baked_env_parses_a_json_object() {
    let mut pairs = baked_env_pairs(Some("{\"A\":\"1\",\"B\":\"2\"}"));
    pairs.sort();
    assert_eq!(
        pairs,
        vec![("A".to_string(), "1".to_string()), ("B".to_string(), "2".to_string())]
    );
    assert!(baked_env_pairs(Some("not json")).is_empty());
    assert!(baked_env_pairs(None).is_empty());
}
