use mightypie::log_ingest::LogIngest;
use mightypie::log_ingest::Source;
use mightypie::log_ingest::colorize_go_log;
use mightypie::log_ingest::strip_ansi_codes;
use mightypie::log_store::CircularLogBuffer;

fn store() -> CircularLogBuffer {
    CircularLogBuffer::new(10, "/tmp/logs", 1024, 5)
}

#[test]
fn strip_removes_color_escapes() {
    assert_eq!(strip_ansi_codes("\u{1b}[31mred\u{1b}[0m"), "red");
    assert_eq!(strip_ansi_codes("plain"), "plain");
    assert_eq!(strip_ansi_codes(""), "");
    assert_eq!(strip_ansi_codes("a\u{1b}[38;5;180mb\u{1b}[0mc"), "abc");
}

#[test]
fn colorize_marks_known_levels() {
    assert_eq!(
        colorize_go_log("12:00 [INF] ready"),
        "12:00 [\u{1b}[32mINF\u{1b}[0m\u{1b}[0m] ready"
    );
    assert_eq!(
        colorize_go_log("12:00 [ERR] boom"),
        "12:00 [\u{1b}[31mERR\u{1b}[0m\u{1b}[0m] boom"
    );
}

#[test]
fn colorize_leaves_unrecognized_lines_alone() {
    assert_eq!(colorize_go_log("no level here"), "no level here");
    assert_eq!(colorize_go_log("odd [XYZ] level"), "odd [XYZ] level");
}

#[test]
fn repeats_coalesce_into_one_counted_entry() {
    let mut store = store();
    let mut ingest = LogIngest::new();
    for _ in 0..3 {
        ingest.record_line_at(&mut store, "t0".to_string(), Source::Svelte, "info", "x");
    }
    ingest.record_line_at(&mut store, "t1".to_string(), Source::Svelte, "info", "y");
    let logs = store.get_logs();
    assert_eq!(logs.len(), 2);
    assert_eq!(logs[0].message, "x (repeated 3 times)");
    assert_eq!(logs[1].message, "y");
}

#[test]
fn single_occurrence_stays_as_is() {
    let mut store = store();
    let mut ingest = LogIngest::new();
    ingest.record_line_at(&mut store, "t0".to_string(), Source::Svelte, "info", "x");
    ingest.record_line_at(&mut store, "t1".to_string(), Source::Svelte, "info", "y");
    let logs = store.get_logs();
    assert_eq!(logs.len(), 2);
    assert_eq!(logs[0].message, "x");
    assert_eq!(logs[1].message, "y");
}

#[test]
fn same_message_at_distinct_level_is_distinct() {
    let mut store = store();
    let mut ingest = LogIngest::new();
    ingest.record_line_at(&mut store, "t0".to_string(), Source::Svelte, "info", "x");
    ingest.record_line_at(&mut store, "t1".to_string(), Source::Svelte, "warn", "x");
    assert_eq!(store.get_logs().len(), 2);
}

#[test]
fn repeat_suppresses_output() {
    let mut store = store();
    let mut ingest = LogIngest::new();
    let first = ingest.record_line_at(&mut store, "t".to_string(), Source::Svelte, "info", "x");
    assert_eq!(first.console.len(), 1);
    assert_eq!(first.file_lines.len(), 1);
    let repeat = ingest.record_line_at(&mut store, "t".to_string(), Source::Svelte, "info", "x");
    assert!(repeat.console.is_empty());
    assert!(repeat.file_lines.is_empty());
}

#[test]
fn flush_echoes_counted_message_before_new_line() {
    let mut store = store();
    let mut ingest = LogIngest::new();
    ingest.record_line_at(&mut store, "t0".to_string(), Source::Svelte, "info", "x");
    ingest.record_line_at(&mut store, "t1".to_string(), Source::Svelte, "info", "x");
    let out = ingest.record_line_at(&mut store, "t2".to_string(), Source::Svelte, "info", "y");
    assert_eq!(out.console.len(), 2);
    assert!(out.console[0].text.contains("x (repeated 2 times)"));
    assert!(out.console[1].text.contains("y"));
    // the counted entry goes to the file too, so disk mirrors the buffer,
    // under the run's own timestamp; the new entry's line follows
    assert_eq!(out.file_lines.len(), 2);
    assert_eq!(out.file_lines[0], "[SVELTE] t0 [INF] x (repeated 2 times)\n");
    assert_eq!(out.file_lines[1], "[SVELTE] t2 [INF] y\n");
}

#[test]
fn stream_follows_level() {
    let mut store = store();
    let mut ingest = LogIngest::new();
    let warn = ingest.record_line_at(&mut store, "t".to_string(), Source::Svelte, "warn", "w");
    assert!(warn.console[0].to_stderr);
    let info = ingest.record_line_at(&mut store, "t".to_string(), Source::Svelte, "info", "i");
    assert!(!info.console[0].to_stderr);
    let err = ingest.record_line_at(&mut store, "t".to_string(), Source::Svelte, "Error", "e");
    assert!(err.console[0].to_stderr);
}

#[test]
fn stored_message_is_stripped_of_escapes() {
    let mut store = store();
    let mut ingest = LogIngest::new();
    ingest.record_line_at(
        &mut store,
        "t".to_string(),
        Source::Go,
        "info",
        "12:00 [INF] \u{1b}[32mok\u{1b}[0m",
    );
    let logs = store.get_logs();
    assert_eq!(logs[0].message, "12:00 [INF] ok");
}

#[test]
fn worker_lines_echo_colorized_with_prefix() {
    let mut store = store();
    let mut ingest = LogIngest::new();
    let out = ingest.record_line_at(
        &mut store,
        "t".to_string(),
        Source::Go,
        "info",
        "12:00 [INF] ready",
    );
    assert_eq!(
        out.console[0].text,
        "\u{1b}[34m[  GO  ]\u{1b}[0m 12:00 [\u{1b}[32mINF\u{1b}[0m\u{1b}[0m] ready"
    );
}

#[test]
fn file_line_carries_source_tag() {
    let mut store = store();
    let mut ingest = LogIngest::new();
    let out = ingest.record_line_at(&mut store, "t0".to_string(), Source::Go, "info", "hello");
    assert_eq!(out.file_lines.len(), 1);
    assert_eq!(out.file_lines[0], "[  GO  ] t0 [INF] hello\n");
}

#[test]
fn record_line_stamps_with_wall_clock() {
    let mut store = store();
    let mut ingest = LogIngest::new();
    let out = ingest.record_line(&mut store, Source::Tauri, "info", "up");
    assert_eq!(out.file_lines.len(), 1);
    let logs = store.get_logs();
    assert_eq!(logs.len(), 1);
    // the chrono-formatted timestamp: year/month/day hour:minute:second
    assert_eq!(logs[0].timestamp.len(), 19);
    assert_eq!(&logs[0].timestamp[4..5], "/");
}
