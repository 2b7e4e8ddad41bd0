use cryptowipe::unmount::{MountEntry, UnmountAction, UnmountEvent, UnmountGuard, UnmountPhase};

fn entry(path: &str, mounted: bool) -> MountEntry {
    MountEntry { path: path.to_string(), mounted }
}

fn expect_unmount(action: UnmountAction, path: &str) {
    match action {
        UnmountAction::Unmount(p) => assert_eq!(p, path),
        _ => panic!("expected an unmount of {}", path),
    }
}

#[test]
fn usb_stick_with_mounted_partition_is_freed() {
    let descendants = vec![entry("/dev/sdb1", true)];
    let mut guard = UnmountGuard::new("/dev/sdb", false, false, &descendants);
    expect_unmount(guard.next_action(UnmountEvent::Start), "/dev/sdb1");
    assert!(matches!(guard.next_action(UnmountEvent::Done), UnmountAction::Settle));
    match guard.next_action(UnmountEvent::Done) {
        UnmountAction::QueryMounts(paths) => assert_eq!(paths, vec!["/dev/sdb1".to_string(), "/dev/sdb".to_string()]),
        _ => panic!("expected the mount query"),
    }
    assert!(matches!(guard.next_action(UnmountEvent::MountsReported(Vec::new())), UnmountAction::Succeeded));
    assert!(guard.phase() == UnmountPhase::Succeeded);
}

#[test]
fn whole_disk_partitions_first_then_the_disk() {
    let descendants = vec![entry("/dev/sdc1", true), entry("/dev/sdc2", false), entry("/dev/sdc3", true)];
    let mut guard = UnmountGuard::new("/dev/sdc", false, true, &descendants);
    expect_unmount(guard.next_action(UnmountEvent::Start), "/dev/sdc1");
    expect_unmount(guard.next_action(UnmountEvent::Done), "/dev/sdc3");
    expect_unmount(guard.next_action(UnmountEvent::Done), "/dev/sdc");
    assert!(matches!(guard.next_action(UnmountEvent::Done), UnmountAction::Settle));
}

#[test]
fn failed_unmount_is_forced_once() {
    let descendants = vec![entry("/dev/sdb1", true)];
    let mut guard = UnmountGuard::new("/dev/sdb", false, false, &descendants);
    expect_unmount(guard.next_action(UnmountEvent::Start), "/dev/sdb1");
    match guard.next_action(UnmountEvent::Failed("target is busy".to_string())) {
        UnmountAction::ForceUnmount(p) => assert_eq!(p, "/dev/sdb1"),
        _ => panic!("expected a forced unmount"),
    }
    match guard.next_action(UnmountEvent::Failed("still busy".to_string())) {
        UnmountAction::Failed(e) => {
            assert_eq!(e.device, "/dev/sdb1");
            assert_eq!(e.cause, "still busy");
        },
        _ => panic!("expected a failure"),
    }
    assert!(guard.phase() == UnmountPhase::Failed);
}

#[test]
fn forced_unmount_that_succeeds_continues() {
    let mut guard = UnmountGuard::new("/dev/sdb1", true, true, &Vec::new());
    expect_unmount(guard.next_action(UnmountEvent::Start), "/dev/sdb1");
    assert!(matches!(guard.next_action(UnmountEvent::Failed("busy".to_string())), UnmountAction::ForceUnmount(_)));
    assert!(matches!(guard.next_action(UnmountEvent::Done), UnmountAction::Settle));
}

#[test]
fn partition_target_ignores_other_partitions() {
    let descendants = vec![entry("/dev/sdb2", true)];
    let mut guard = UnmountGuard::new("/dev/sdb1", true, false, &descendants);
    match guard.next_action(UnmountEvent::Start) {
        UnmountAction::QueryMounts(paths) => assert_eq!(paths, vec!["/dev/sdb1".to_string()]),
        _ => panic!("expected the mount query"),
    }
    assert!(matches!(guard.next_action(UnmountEvent::MountsReported(Vec::new())), UnmountAction::Succeeded));
}

#[test]
fn remaining_mount_fails_the_post_check() {
    let descendants = vec![entry("/dev/sdb1", true)];
    let mut guard = UnmountGuard::new("/dev/sdb", false, false, &descendants);
    guard.next_action(UnmountEvent::Start);
    guard.next_action(UnmountEvent::Done);
    guard.next_action(UnmountEvent::Done);
    match guard.next_action(UnmountEvent::MountsReported(vec!["/dev/sdb1".to_string()])) {
        UnmountAction::Failed(e) => assert_eq!(e.device, "/dev/sdb1"),
        _ => panic!("expected a failure"),
    }
}

#[test]
fn unmounted_device_only_needs_the_post_check() {
    let mut guard = UnmountGuard::new("/dev/sdd", false, false, &vec![entry("/dev/sdd1", false)]);
    match guard.next_action(UnmountEvent::Start) {
        UnmountAction::QueryMounts(paths) => assert_eq!(paths, vec!["/dev/sdd1".to_string(), "/dev/sdd".to_string()]),
        _ => panic!("expected the mount query"),
    }
    assert!(matches!(guard.next_action(UnmountEvent::Failed("findmnt failed".to_string())), UnmountAction::Failed(_)));
}
