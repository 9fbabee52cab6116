use mightypie::shutdown::Platform;
use mightypie::shutdown::ShutdownCoordinator;

#[test]
fn every_registered_pid_gets_an_attempt() {
    let mut c = ShutdownCoordinator::new();
    c.register_process(11);
    c.register_process(22);
    c.register_process(33);
    c.trigger_shutdown();
    assert!(c.is_shutting_down());
    let plan = c.terminate_all(Platform::Unix);
    assert_eq!(plan.len(), 3);
    let pids: Vec<u32> = plan.iter().map(|a| a.pid).collect();
    assert_eq!(pids, vec![11, 22, 33]);
    // the registry is empty afterwards: a second drain plans nothing
    assert!(c.terminate_all(Platform::Unix).is_empty());
    assert!(c.is_shutting_down());
}

#[test]
fn unix_attempts_escalate_from_sigterm_to_sigkill() {
    let mut c = ShutdownCoordinator::new();
    c.register_process(7);
    let plan = c.terminate_all(Platform::Unix);
    assert_eq!(plan[0].graceful, vec!["kill", "-15", "7"]);
    assert_eq!(plan[0].forceful, vec!["kill", "-9", "7"]);
    assert_eq!(plan[0].grace_millis, 100);
}

#[test]
fn windows_attempts_use_taskkill_by_tree() {
    let mut c = ShutdownCoordinator::new();
    c.register_process(1234);
    let plan = c.terminate_all(Platform::Windows);
    assert_eq!(plan[0].graceful, vec!["taskkill", "/PID", "1234", "/T"]);
    assert_eq!(plan[0].forceful, vec!["taskkill", "/F", "/PID", "1234", "/T"]);
}

#[test]
fn trigger_is_idempotent_and_keeps_registry() {
    let mut c = ShutdownCoordinator::new();
    assert!(!c.is_shutting_down());
    c.register_process(5);
    c.trigger_shutdown();
    c.trigger_shutdown();
    assert!(c.is_shutting_down());
    let plan = c.terminate_all(Platform::Unix);
    assert_eq!(plan.len(), 1);
}

#[test]
fn empty_registry_terminates_nothing() {
    let mut c = ShutdownCoordinator::new();
    assert!(c.terminate_all(Platform::Windows).is_empty());
}
