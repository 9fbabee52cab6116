use mightypie::env_utils::get_app_data_dir;
use mightypie::env_utils::get_log_dir_for;
use mightypie::env_utils::get_log_level;
use mightypie::env_utils::get_private_env_var;
use mightypie::env_utils::log_buffer_capacity;
use mightypie::env_utils::max_log_files;
use mightypie::env_utils::max_log_size_bytes;
use mightypie::nats_config::NatsConfig;
use mightypie::nats_config::parse_host_port;
use mightypie::nats_config::parse_key_value;
use mightypie::nats_config::parse_nats_config;

fn lines(texts: &[&str]) -> Vec<String> {
    texts.iter().map(|s| s.to_string()).collect()
}

#[test]
fn nats_defaults() {
    let c = NatsConfig::default();
    assert_eq!(c.websocket_host, "127.0.0.1");
    assert_eq!(c.websocket_port, 9090);
    assert_eq!(c.listen_host, "127.0.0.1");
    assert_eq!(c.listen_port, 4222);
}

#[test]
fn key_value_splits_on_colon_or_equals() {
    assert_eq!(
        parse_key_value("host: \"0.0.0.0\""),
        Some(("host".to_string(), "0.0.0.0".to_string()))
    );
    assert_eq!(parse_key_value("a = 'b'"), Some(("a".to_string(), "b".to_string())));
    assert_eq!(parse_key_value("nothing here"), None);
    // the first colon wins over any equals sign
    assert_eq!(
        parse_key_value("listen: 0.0.0.0:4222"),
        Some(("listen".to_string(), "0.0.0.0:4222".to_string()))
    );
}

#[test]
fn host_port_needs_exactly_one_colon() {
    assert_eq!(
        parse_host_port("127.0.0.1:4222"),
        Some(("127.0.0.1".to_string(), "4222".to_string()))
    );
    assert_eq!(parse_host_port("nocolon"), None);
    assert_eq!(parse_host_port("a:b:c"), None);
}

#[test]
fn config_reads_websocket_block_and_listen_address() {
    let c = parse_nats_config(&lines(&[
        "# a comment",
        "",
        "listen: 0.0.0.0:4333",
        "websocket {",
        "  host: \"10.0.0.1\"",
        "  port: 9191",
        "}",
    ]));
    assert_eq!(c.listen_host, "0.0.0.0");
    assert_eq!(c.listen_port, 4333);
    assert_eq!(c.websocket_host, "10.0.0.1");
    assert_eq!(c.websocket_port, 9191);
}

#[test]
fn config_keeps_defaults_on_bad_values() {
    let c = parse_nats_config(&lines(&[
        "websocket {",
        "  port: not_a_number",
        "}",
        "listen: 1.2.3.4:too_big_99999",
    ]));
    assert_eq!(c.websocket_port, 9090);
    assert_eq!(c.listen_host, "1.2.3.4");
    assert_eq!(c.listen_port, 4222);
}

#[test]
fn port_outside_websocket_block_is_ignored() {
    let c = parse_nats_config(&lines(&["port: 1234"]));
    assert_eq!(c.websocket_port, 9090);
    assert_eq!(c.listen_port, 4222);
}

#[test]
fn private_env_prefers_baked_value() {
    assert_eq!(
        get_private_env_var("K", Some("baked".to_string()), Some("runtime".to_string())),
        Ok("baked".to_string())
    );
    assert_eq!(
        get_private_env_var("K", None, Some("runtime".to_string())),
        Ok("runtime".to_string())
    );
    assert_eq!(
        get_private_env_var("MISSING", None, None),
        Err("Environment variable 'MISSING' not found".to_string())
    );
}

#[test]
fn app_data_dir_falls_back_in_order() {
    assert_eq!(
        get_app_data_dir(Some("App".to_string()), Some("/local".to_string()), Some("/roam".to_string())),
        "/local/App"
    );
    assert_eq!(
        get_app_data_dir(None, None, Some("/roam".to_string())),
        "/roam/MightyPieRevamped"
    );
    assert_eq!(get_app_data_dir(None, None, None), "./MightyPieRevamped");
    assert_eq!(get_log_dir_for("/local/App"), "/local/App/logs");
}

#[test]
fn logging_limits_parse_with_defaults() {
    assert_eq!(log_buffer_capacity(Some("50".to_string())), 50);
    assert_eq!(log_buffer_capacity(Some("junk".to_string())), 1000);
    assert_eq!(log_buffer_capacity(None), 1000);
    assert_eq!(max_log_size_bytes(Some("2".to_string())), 2048);
    assert_eq!(max_log_size_bytes(None), 1024 * 1024);
    assert_eq!(max_log_files(Some("3".to_string())), 3);
    assert_eq!(max_log_files(None), 5);
    assert_eq!(get_log_level(Some("debug".to_string())), "debug");
    assert_eq!(get_log_level(None), "info");
}
