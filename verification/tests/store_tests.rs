use mightypie::log_store::CircularLogBuffer;
use mightypie::log_store::LogEntry;
use mightypie::log_store::LogFileSet;
use mightypie::log_store::file_line;
use mightypie::log_store::level_tag;

fn entry(ts: &str, level: &str, message: &str) -> LogEntry {
    LogEntry { timestamp: ts.to_string(), level: level.to_string(), message: message.to_string() }
}

fn messages(buffer: &CircularLogBuffer) -> Vec<String> {
    buffer.get_logs().into_iter().map(|e| e.message).collect()
}

#[test]
fn ring_keeps_last_capacity_entries() {
    let mut b = CircularLogBuffer::new(3, "/tmp/logs", 1024, 5);
    b.add(entry("t1", "info", "A"));
    b.add(entry("t2", "info", "B"));
    b.add(entry("t3", "info", "C"));
    b.add(entry("t4", "info", "D"));
    assert_eq!(messages(&b), vec!["B".to_string(), "C".to_string(), "D".to_string()]);
}

#[test]
fn ring_returns_partial_fill_in_order() {
    let mut b = CircularLogBuffer::new(4, "/tmp/logs", 1024, 5);
    b.add(entry("t1", "info", "A"));
    b.add(entry("t2", "info", "B"));
    assert_eq!(messages(&b), vec!["A".to_string(), "B".to_string()]);
}

#[test]
fn ring_survives_multiple_wraparounds() {
    let mut b = CircularLogBuffer::new(2, "/tmp/logs", 1024, 5);
    for i in 0..7 {
        b.add(entry("t", "info", &format!("m{}", i)));
    }
    assert_eq!(messages(&b), vec!["m5".to_string(), "m6".to_string()]);
}

#[test]
fn ring_amend_rewrites_newest_entry() {
    let mut b = CircularLogBuffer::new(3, "/tmp/logs", 1024, 5);
    b.add(entry("t1", "info", "A"));
    b.add(entry("t2", "warn", "B"));
    let amended = b.amend_newest("B (repeated 2 times)".to_string());
    assert_eq!(amended.message, "B (repeated 2 times)");
    assert_eq!(amended.timestamp, "t2");
    assert_eq!(amended.level, "warn");
    let logs = b.get_logs();
    assert_eq!(logs.len(), 2);
    assert_eq!(logs[0].message, "A");
    assert_eq!(logs[1].message, "B (repeated 2 times)");
    assert_eq!(logs[1].timestamp, "t2");
    assert_eq!(logs[1].level, "warn");
}

#[test]
fn log_file_path_and_dir() {
    let b = CircularLogBuffer::new(3, "/data/app/logs", 1024, 5);
    assert_eq!(b.log_file_path, "/data/app/logs/mightypie.log");
    assert_eq!(b.get_log_dir(), "/data/app/logs");
}

#[test]
fn level_tags_fold_case_and_default() {
    assert_eq!(level_tag("Error"), "ERR");
    assert_eq!(level_tag("warn"), "WRN");
    assert_eq!(level_tag("INFO"), "INF");
    assert_eq!(level_tag("debug"), "DBG");
    assert_eq!(level_tag("whatever"), "LOG");
}

#[test]
fn file_line_has_source_timestamp_tag_and_message() {
    let e = entry("2024/01/01 00:00:00", "info", "hello");
    let line = file_line("SVELTE", &e);
    assert_eq!(line, "[SVELTE] 2024/01/01 00:00:00 [INF] hello\n");
}

#[test]
fn persist_plan_rotates_only_over_limit() {
    let b = CircularLogBuffer::new(3, "/tmp/logs", 100, 5);
    let p = b.plan_persist("line\n", true, 100);
    assert!(!p.rotate);
    assert!(p.renames.is_empty());
    assert_eq!(p.line, "line\n");
    let p = b.plan_persist("line\n", true, 101);
    assert!(p.rotate);
    let renames: Vec<(String, String)> = vec![
        ("mightypie_4.log".to_string(), "mightypie_5.log".to_string()),
        ("mightypie_3.log".to_string(), "mightypie_4.log".to_string()),
        ("mightypie_2.log".to_string(), "mightypie_3.log".to_string()),
        ("mightypie_1.log".to_string(), "mightypie_2.log".to_string()),
    ];
    assert_eq!(p.renames, renames);
    let p = b.plan_persist("line\n", false, 200);
    assert!(!p.rotate);
}

#[test]
fn rotation_moves_active_into_slot_one() {
    let mut files = LogFileSet::new(2, 4);
    files.append_line("first");
    assert_eq!(files.active.as_deref(), Some(b"first".as_slice()));
    // over the limit now: the next append rotates
    files.append_line("second");
    assert_eq!(files.active.as_deref(), Some(b"second".as_slice()));
    assert_eq!(files.rotated[0].as_deref(), Some(b"first".as_slice()));
    assert!(files.rotated[1].is_none());
}

#[test]
fn rotation_discards_oldest_beyond_limit() {
    let mut files = LogFileSet::new(2, 1);
    files.append_line("aa");
    files.append_line("bb");
    files.append_line("cc");
    files.append_line("dd");
    // every append after the first rotated: dd active, cc in slot 1, bb in slot 2,
    // aa fell off the end; the slot count never grew
    assert_eq!(files.active.as_deref(), Some(b"dd".as_slice()));
    assert_eq!(files.rotated.len(), 2);
    assert_eq!(files.rotated[0].as_deref(), Some(b"cc".as_slice()));
    assert_eq!(files.rotated[1].as_deref(), Some(b"bb".as_slice()));
}

#[test]
fn appends_accumulate_below_limit() {
    let mut files = LogFileSet::new(3, 100);
    files.append_line("one\n");
    files.append_line("two\n");
    assert_eq!(files.active.as_deref(), Some(b"one\ntwo\n".as_slice()));
    assert!(files.rotated.iter().all(|s| s.is_none()));
}
