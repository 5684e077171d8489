use nfc_wedge::single_shot::CooldownGuard;
use std::time::Duration;

#[test]
fn first_read_allowed() {
    let mut guard = CooldownGuard::new(Duration::from_secs(2));
    assert!(guard.should_process(b"uid1"));
}

#[test]
fn same_uid_within_cooldown_blocked() {
    let mut guard = CooldownGuard::new(Duration::from_millis(100));
    assert!(guard.should_process(b"uid1"));
    assert!(!guard.should_process(b"uid1"));
}

#[test]
fn different_uid_allowed() {
    let mut guard = CooldownGuard::new(Duration::from_secs(2));
    assert!(guard.should_process(b"uid1"));
    assert!(guard.should_process(b"uid2"));
}

#[test]
fn same_uid_after_cooldown_allowed() {
    let mut guard = CooldownGuard::new(Duration::from_millis(50));
    assert!(guard.should_process_at(b"uid1", 0));
    assert!(guard.should_process_at(b"uid1", 60_000_000));
}

#[test]
fn cooldown_boundary_is_inclusive() {
    let mut guard = CooldownGuard::new(Duration::from_millis(50));
    assert!(guard.should_process_at(b"uid1", 1_000));
    assert!(!guard.should_process_at(b"uid1", 50_000_999));
    assert!(guard.should_process_at(b"uid1", 50_001_000));
}

#[test]
fn blocked_reads_do_not_extend_cooldown() {
    let mut guard = CooldownGuard::new(Duration::from_millis(10));
    assert!(guard.should_process_at(b"a", 0));
    assert!(!guard.should_process_at(b"a", 5_000_000));
    assert!(guard.should_process_at(b"a", 10_000_000));
}

#[test]
fn set_cooldown_applies_to_next_read() {
    let mut guard = CooldownGuard::new(Duration::from_secs(10));
    assert!(guard.should_process_at(b"a", 0));
    assert!(!guard.should_process_at(b"a", 1_000_000));
    guard.set_cooldown(Duration::from_millis(1));
    assert!(guard.should_process_at(b"a", 1_000_000));
}

#[test]
fn cooldown_in_milliseconds() {
    let mut guard = CooldownGuard::from_millis(50);
    assert!(guard.should_process_at(b"uid1", 0));
    assert!(!guard.should_process_at(b"uid1", 49_999_999));
    assert!(guard.should_process_at(b"uid1", 50_000_000));
}

#[test]
fn set_cooldown_ms_replaces_the_cooldown() {
    let mut guard = CooldownGuard::from_millis(1_000);
    assert!(guard.should_process_at(b"uid1", 0));
    guard.set_cooldown_ms(2);
    assert!(!guard.should_process_at(b"uid1", 1_999_999));
    assert!(guard.should_process_at(b"uid1", 2_000_000));
}
