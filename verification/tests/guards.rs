use remotefs_ftp::guard::{TransferFlags, TransferGuard};

fn raised() -> TransferFlags {
    TransferFlags {
        active: true,
        connection_usable: true,
    }
}

#[test]
fn guard_should_release_the_transfer_flag_on_drop() {
    let mut flags = raised();
    let guard = TransferGuard::new(&flags);
    assert!(flags.active);
    guard.release(&mut flags);
    assert!(!flags.active);
    assert!(flags.connection_usable);
}

#[test]
fn guard_should_mark_the_connection_unusable_when_cleanup_fails() {
    let mut flags = raised();
    let guard = TransferGuard::new(&flags);

    guard.invalidate(&mut flags);

    assert!(!flags.connection_usable);
    assert!(flags.active);
    guard.release(&mut flags);
    assert!(!flags.active);
    assert!(!flags.connection_usable);
}

#[test]
fn stream_should_release_the_transfer_flag_on_drop() {
    let mut flags = raised();
    let guard = TransferGuard::new(&flags);
    assert!(flags.active);
    guard.release(&mut flags);
    assert!(!flags.active);
}

#[test]
fn stream_should_mark_the_connection_unusable_when_cleanup_fails() {
    let mut flags = raised();
    let guard = TransferGuard::new(&flags);

    guard.invalidate(&mut flags);

    assert!(!flags.connection_usable);
    guard.release(&mut flags);
    assert!(!flags.active);
}
