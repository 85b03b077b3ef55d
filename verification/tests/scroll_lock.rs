use ars_dom::scroll_lock::{
    acquire, depth, is_ios_workaround_platform, is_locked, prevent_scroll, release,
    restore_scroll, ScrollLockEffect, ScrollLockManager, ScrollLockState,
};

#[test]
fn depth_starts_at_zero() {
    let st = ScrollLockState::new();
    assert_eq!(depth(&st), 0);
}

#[test]
fn acquire_increments_depth() {
    let mut st = ScrollLockState::new();
    acquire(&mut st);
    assert_eq!(depth(&st), 1);
}

#[test]
fn release_decrements_depth() {
    let mut st = ScrollLockState::new();
    acquire(&mut st);
    release(&mut st);
    assert_eq!(depth(&st), 0);
}

#[test]
fn release_at_zero_saturates() {
    let mut st = ScrollLockState::new();
    release(&mut st);
    assert_eq!(depth(&st), 0, "depth must not underflow");
}

#[test]
fn is_locked_reflects_depth() {
    let mut st = ScrollLockState::new();
    assert!(!is_locked(&st));
    acquire(&mut st);
    assert!(is_locked(&st));
    release(&mut st);
    assert!(!is_locked(&st));
}

#[test]
fn nested_acquire_release_sequence() {
    let mut st = ScrollLockState::new();
    acquire(&mut st);
    assert_eq!(depth(&st), 1);
    acquire(&mut st);
    assert_eq!(depth(&st), 2);
    acquire(&mut st);
    assert_eq!(depth(&st), 3);
    release(&mut st);
    assert_eq!(depth(&st), 2);
    release(&mut st);
    assert_eq!(depth(&st), 1);
    release(&mut st);
    assert_eq!(depth(&st), 0);
}

#[test]
fn depth_returns_current_count() {
    let mut st = ScrollLockState::new();
    for expected in 1..=5 {
        acquire(&mut st);
        assert_eq!(depth(&st), expected);
    }
    for expected in (0..5).rev() {
        release(&mut st);
        assert_eq!(depth(&st), expected);
    }
}

#[test]
fn manager_new_is_unlocked() {
    let mgr = ScrollLockManager::new();
    assert!(!mgr.is_locked());
}

#[test]
fn manager_lock_makes_locked() {
    let mut st = ScrollLockState::new();
    let mut mgr = ScrollLockManager::new();
    mgr.lock(&mut st, "dialog-1");
    assert!(mgr.is_locked());
}

#[test]
fn manager_unlock_makes_unlocked() {
    let mut st = ScrollLockState::new();
    let mut mgr = ScrollLockManager::new();
    mgr.lock(&mut st, "dialog-1");
    mgr.unlock(&mut st, "dialog-1");
    assert!(!mgr.is_locked());
}

#[test]
fn manager_duplicate_lock_ignored() {
    let mut st = ScrollLockState::new();
    let mut mgr = ScrollLockManager::new();
    mgr.lock(&mut st, "dialog-1");
    mgr.lock(&mut st, "dialog-1");
    assert_eq!(depth(&st), 1, "duplicate lock must not increment global depth");
    mgr.unlock(&mut st, "dialog-1");
    assert!(!mgr.is_locked());
    assert_eq!(depth(&st), 0);
}

#[test]
fn manager_unlock_unknown_id_ignored() {
    let mut st = ScrollLockState::new();
    let mut mgr = ScrollLockManager::new();
    mgr.lock(&mut st, "dialog-1");
    mgr.unlock(&mut st, "unknown");
    assert!(mgr.is_locked());
    assert_eq!(depth(&st), 1);
}

#[test]
fn manager_multiple_owners() {
    let mut st = ScrollLockState::new();
    let mut mgr = ScrollLockManager::new();
    mgr.lock(&mut st, "dialog-a");
    mgr.lock(&mut st, "dialog-b");
    assert_eq!(depth(&st), 2);
    mgr.unlock(&mut st, "dialog-a");
    assert!(mgr.is_locked(), "still locked by dialog-b");
    assert_eq!(depth(&st), 1);
}

#[test]
fn manager_last_unlock_clears() {
    let mut st = ScrollLockState::new();
    let mut mgr = ScrollLockManager::new();
    mgr.lock(&mut st, "dialog-a");
    mgr.lock(&mut st, "dialog-b");
    mgr.lock(&mut st, "dialog-c");
    mgr.unlock(&mut st, "dialog-b");
    mgr.unlock(&mut st, "dialog-a");
    mgr.unlock(&mut st, "dialog-c");
    assert!(!mgr.is_locked());
    assert_eq!(depth(&st), 0);
}

#[test]
fn manager_lock_unlock_delegates_to_global_depth() {
    let mut st = ScrollLockState::new();
    let mut mgr = ScrollLockManager::new();
    assert_eq!(depth(&st), 0);
    mgr.lock(&mut st, "overlay-1");
    assert_eq!(depth(&st), 1);
    mgr.lock(&mut st, "overlay-2");
    assert_eq!(depth(&st), 2);
    mgr.unlock(&mut st, "overlay-1");
    assert_eq!(depth(&st), 1);
    mgr.unlock(&mut st, "overlay-2");
    assert_eq!(depth(&st), 0);
}

#[test]
fn prevent_scroll_increments_depth() {
    let mut st = ScrollLockState::new();
    prevent_scroll(&mut st);
    assert_eq!(depth(&st), 1);
    assert!(is_locked(&st));
}

#[test]
fn restore_scroll_decrements_depth() {
    let mut st = ScrollLockState::new();
    prevent_scroll(&mut st);
    restore_scroll(&mut st);
    assert_eq!(depth(&st), 0);
    assert!(!is_locked(&st));
}

#[test]
fn out_of_order_unlock_still_reaches_zero() {
    let mut st = ScrollLockState::new();
    let mut mgr = ScrollLockManager::new();
    mgr.lock(&mut st, "outer");
    mgr.lock(&mut st, "middle");
    mgr.lock(&mut st, "inner");
    assert_eq!(depth(&st), 3);
    mgr.unlock(&mut st, "middle");
    assert_eq!(depth(&st), 2);
    assert!(mgr.is_locked());
    mgr.unlock(&mut st, "inner");
    assert_eq!(depth(&st), 1);
    assert!(mgr.is_locked());
    mgr.unlock(&mut st, "outer");
    assert_eq!(depth(&st), 0);
    assert!(!mgr.is_locked());
}

#[test]
fn relock_after_full_unlock_cycle() {
    let mut st = ScrollLockState::new();
    acquire(&mut st);
    acquire(&mut st);
    release(&mut st);
    release(&mut st);
    assert_eq!(depth(&st), 0);
    acquire(&mut st);
    assert_eq!(depth(&st), 1);
    assert!(is_locked(&st));
    release(&mut st);
    assert_eq!(depth(&st), 0);
    assert!(!is_locked(&st));
}

#[test]
fn manager_relock_same_id_after_unlock() {
    let mut st = ScrollLockState::new();
    let mut mgr = ScrollLockManager::new();
    mgr.lock(&mut st, "dialog-1");
    mgr.unlock(&mut st, "dialog-1");
    assert!(!mgr.is_locked());
    mgr.lock(&mut st, "dialog-1");
    assert!(mgr.is_locked());
    assert_eq!(depth(&st), 1);
}

#[test]
fn two_managers_share_global_depth() {
    let mut st = ScrollLockState::new();
    let mut mgr_a = ScrollLockManager::new();
    let mut mgr_b = ScrollLockManager::new();
    mgr_a.lock(&mut st, "dialog-a");
    assert_eq!(depth(&st), 1);
    mgr_b.lock(&mut st, "drawer-b");
    assert_eq!(depth(&st), 2);
    mgr_a.unlock(&mut st, "dialog-a");
    assert_eq!(depth(&st), 1);
    assert!(!mgr_a.is_locked());
    assert!(mgr_b.is_locked());
    mgr_b.unlock(&mut st, "drawer-b");
    assert_eq!(depth(&st), 0);
    assert!(!mgr_b.is_locked());
}

#[test]
fn bare_acquire_and_manager_lock_share_depth() {
    let mut st = ScrollLockState::new();
    let mut mgr = ScrollLockManager::new();
    acquire(&mut st);
    assert_eq!(depth(&st), 1);
    mgr.lock(&mut st, "overlay");
    assert_eq!(depth(&st), 2);
    mgr.unlock(&mut st, "overlay");
    assert_eq!(depth(&st), 1);
    assert!(is_locked(&st));
    release(&mut st);
    assert_eq!(depth(&st), 0);
    assert!(!is_locked(&st));
}

#[test]
fn manager_default_is_unlocked() {
    let mgr = ScrollLockManager::default();
    assert!(!mgr.is_locked());
}

#[test]
fn manager_debug_format_contains_type_name() {
    let mgr = ScrollLockManager::new();
    let debug = format!("{mgr:?}");
    assert!(debug.contains("ScrollLockManager"));
}

#[test]
fn ios_workaround_helper_matches_platform_rules() {
    assert!(is_ios_workaround_platform(
        "Mozilla/5.0 (iPhone; CPU iPhone OS 18_0 like Mac OS X)",
        "iPhone",
        5,
    ));
    assert!(is_ios_workaround_platform(
        "Mozilla/5.0 (iPad; CPU OS 18_0 like Mac OS X)",
        "iPad",
        5,
    ));
    assert!(is_ios_workaround_platform(
        "Mozilla/5.0 (iPod touch; CPU iPhone OS 18_0 like Mac OS X)",
        "iPod",
        5,
    ));
    assert!(is_ios_workaround_platform(
        "Mozilla/5.0 (Macintosh; Intel Mac OS X 14_0)",
        "MacIntel",
        5,
    ));
    assert!(!is_ios_workaround_platform(
        "Mozilla/5.0 (Macintosh; Intel Mac OS X 14_0)",
        "MacIntel",
        1,
    ));
    assert!(!is_ios_workaround_platform(
        "Mozilla/5.0 (X11; Linux x86_64)",
        "Linux x86_64",
        0,
    ));
}

// Effects: the first acquire captures and locks, the last release restores.

#[test]
fn effects_fire_only_at_the_outermost_lock() {
    let mut st = ScrollLockState::new();
    assert_eq!(acquire(&mut st), ScrollLockEffect::CaptureAndLock);
    assert_eq!(acquire(&mut st), ScrollLockEffect::Noop);
    assert_eq!(release(&mut st), ScrollLockEffect::Noop);
    assert_eq!(release(&mut st), ScrollLockEffect::Restore);
    assert_eq!(release(&mut st), ScrollLockEffect::Noop);
}

#[test]
fn manager_effects_follow_the_shared_depth() {
    let mut st = ScrollLockState::new();
    let mut mgr = ScrollLockManager::new();
    assert_eq!(mgr.lock(&mut st, "a"), ScrollLockEffect::CaptureAndLock);
    assert_eq!(mgr.lock(&mut st, "a"), ScrollLockEffect::Noop);
    assert_eq!(mgr.lock(&mut st, "b"), ScrollLockEffect::Noop);
    assert_eq!(mgr.unlock(&mut st, "zzz"), ScrollLockEffect::Noop);
    assert_eq!(mgr.unlock(&mut st, "a"), ScrollLockEffect::Noop);
    assert_eq!(mgr.unlock(&mut st, "b"), ScrollLockEffect::Restore);
    assert_eq!(depth(&st), 0);
}

#[test]
fn ios_workaround_requires_touch_points_on_mac() {
    assert!(!is_ios_workaround_platform("Mozilla/5.0 (Macintosh)", "MacIntel", 0));
    assert!(is_ios_workaround_platform("Mozilla/5.0 (Macintosh)", "MacIntel", 2));
    assert!(!is_ios_workaround_platform("Mozilla/5.0 (Windows NT 10.0)", "Win32", 10));
}
