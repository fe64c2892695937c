use std::sync::atomic::{AtomicBool, Ordering};
use std::sync::Arc;
use std::time::Duration;

use flash_code::registry::MonitorState;

fn runtime() -> tokio::runtime::Runtime {
    tokio::runtime::Builder::new_multi_thread()
        .worker_threads(1)
        .enable_time()
        .build()
        .unwrap()
}

fn parked_task(rt: &tokio::runtime::Runtime) -> tokio::task::JoinHandle<()> {
    rt.spawn(async {
        tokio::time::sleep(Duration::from_secs(600)).await;
    })
}

#[test]
fn new_registry_is_empty() {
    let reg = MonitorState::new();
    assert_eq!(reg.task_count(), 0);
    assert!(!reg.contains_name(&"anything".to_string()));
}

#[test]
fn register_adds_one_task_per_name() {
    let rt = runtime();
    let mut reg = MonitorState::new();
    reg.register("alpha".to_string(), parked_task(&rt));
    reg.register("beta".to_string(), parked_task(&rt));
    assert_eq!(reg.task_count(), 2);
    assert!(reg.contains_name(&"alpha".to_string()));
    assert!(reg.contains_name(&"beta".to_string()));
    assert!(!reg.contains_name(&"gamma".to_string()));
    reg.stop_all();
}

#[test]
fn stop_all_is_idempotent() {
    let rt = runtime();
    let mut reg = MonitorState::new();
    reg.register("alpha".to_string(), parked_task(&rt));
    reg.register("beta".to_string(), parked_task(&rt));

    reg.stop_all();
    assert_eq!(reg.task_count(), 0);
    assert!(!reg.contains_name(&"alpha".to_string()));

    // A second stop with no intervening start finds and leaves the
    // same empty registry, without error.
    reg.stop_all();
    assert_eq!(reg.task_count(), 0);
}

#[test]
fn stop_named_removes_only_that_task() {
    let rt = runtime();
    let mut reg = MonitorState::new();
    reg.register("alpha".to_string(), parked_task(&rt));
    reg.register("beta".to_string(), parked_task(&rt));
    reg.register("gamma".to_string(), parked_task(&rt));

    reg.stop_named(&"beta".to_string());
    assert_eq!(reg.task_count(), 2);
    assert!(reg.contains_name(&"alpha".to_string()));
    assert!(!reg.contains_name(&"beta".to_string()));
    assert!(reg.contains_name(&"gamma".to_string()));

    // Stopping an unknown or already-stopped name changes nothing.
    reg.stop_named(&"delta".to_string());
    reg.stop_named(&"beta".to_string());
    assert_eq!(reg.task_count(), 2);
    reg.stop_all();
}

#[test]
fn stop_named_then_register_replaces_a_task() {
    let rt = runtime();
    let mut reg = MonitorState::new();
    reg.register("alpha".to_string(), parked_task(&rt));
    // Starting a name anew: stop that name, then register the fresh
    // handle under it.
    reg.stop_named(&"alpha".to_string());
    reg.register("alpha".to_string(), parked_task(&rt));
    assert_eq!(reg.task_count(), 1);
    assert!(reg.contains_name(&"alpha".to_string()));
    reg.stop_all();
}

#[test]
fn stop_all_on_fresh_registry_is_harmless() {
    let mut reg = MonitorState::new();
    reg.stop_all();
    reg.stop_all();
    assert_eq!(reg.task_count(), 0);
}

#[test]
fn start_then_stop_cancels_before_notification() {
    // The spawned loop would raise the flag after its first sleep; a
    // stop-all issued right after the start must cancel it first.
    let rt = runtime();
    let flag = Arc::new(AtomicBool::new(false));
    let task_flag = flag.clone();
    let handle = rt.spawn(async move {
        tokio::time::sleep(Duration::from_millis(1500)).await;
        task_flag.store(true, Ordering::SeqCst);
    });

    let mut reg = MonitorState::new();
    reg.register("target".to_string(), handle);
    reg.stop_all();
    assert_eq!(reg.task_count(), 0);

    // Wait past the point where the task would have fired.
    rt.block_on(async {
        tokio::time::sleep(Duration::from_millis(2500)).await;
    });
    assert!(!flag.load(Ordering::SeqCst));
}
