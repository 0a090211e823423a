use windows_executor::waker::{wake_step, HandleLedger, WakeStep};

#[test]
fn wake_posts_to_resolved_thread() {
    assert_eq!(WakeStep::Post(4242), wake_step(4242));
}

#[test]
fn wake_after_thread_exit_is_skipped() {
    for _ in 0..3 {
        assert_eq!(WakeStep::Skip, wake_step(0));
    }
}

#[test]
fn clones_release_independently_in_any_order() {
    let mut ledger = HandleLedger::new();
    let handles = [0x10usize, 0x24, 0x38, 0x4c];
    for h in handles {
        assert!(ledger.acquire(h));
    }
    assert_eq!(4, ledger.live());
    for h in [0x38usize, 0x10, 0x4c, 0x24] {
        assert!(ledger.release(h));
        assert!(!ledger.is_open(h));
    }
    assert_eq!(0, ledger.live());
}

#[test]
fn double_release_is_refused() {
    let mut ledger = HandleLedger::new();
    assert!(ledger.acquire(7));
    assert!(ledger.release(7));
    assert!(!ledger.release(7));
    assert_eq!(0, ledger.live());
}

#[test]
fn acquiring_an_open_handle_changes_nothing() {
    let mut ledger = HandleLedger::new();
    assert!(ledger.acquire(9));
    assert!(!ledger.acquire(9));
    assert_eq!(1, ledger.live());
    assert!(ledger.is_open(9));
}
