use memmaps::Mapping;
use memmaps::PermissionError;
use memmaps::PermissionSet;

#[test]
fn null_address_fails_before_any_system_call() {
    let m = Mapping::new(0, 0x1000, String::from("rw-p"), String::new());
    let r = m.begin_set_permissions(&PermissionSet::from("r--"));
    assert_eq!(r, Err(PermissionError::NullAddress));
}

#[test]
fn request_carries_range_and_native_flags() {
    let m = Mapping::new(0x8048000, 0x804a000, String::from("r-xp"), String::from("/bin/cat"));
    let req = m.begin_set_permissions(&PermissionSet::from("rw-")).unwrap();
    assert_eq!(req.addr, 0x8048000);
    assert_eq!(req.len, 0x2000);
    assert_eq!(req.prot, 3);
}

#[test]
fn record_reflects_requested_permissions_after_success() {
    let mut m = Mapping::new(0x8048000, 0x8049000, String::from("rwxp"), String::from("/bin/cat"));
    let wanted = PermissionSet { readable: true, writeable: false, executable: false };
    let begun = m.begin_set_permissions(&wanted);
    assert!(begun.is_ok());
    let r = m.finish_set_permissions(wanted, Ok(()));
    assert_eq!(r, Ok(()));
    assert_eq!(m.permissions, wanted);
    assert_eq!(m.permissions.display_string(), "r--");
    assert_eq!(m.start_addr, 0x8048000);
    assert_eq!(m.end_addr, 0x8049000);
    assert_eq!(m.path, "/bin/cat");
}

#[test]
fn failed_outcome_leaves_record_unchanged() {
    let mut m = Mapping::new(0x8048000, 0x8049000, String::from("rwxp"), String::from("/bin/cat"));
    let before = m.permissions;
    let r = m.finish_set_permissions(PermissionSet::from("r--"), Err(13));
    assert_eq!(r, Err(PermissionError::ProtectFailed { addr: 0x8048000, errno: 13 }));
    assert_eq!(m.permissions, before);
}
