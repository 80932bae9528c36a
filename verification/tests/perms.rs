use memmaps::PermissionSet;

#[test]
fn parse_empty_is_all_false() {
    let p = PermissionSet::from("");
    assert!(!p.readable);
    assert!(!p.writeable);
    assert!(!p.executable);
}

#[test]
fn parse_any_order_all_true() {
    let p = PermissionSet::from("xrw-");
    assert!(p.readable);
    assert!(p.writeable);
    assert!(p.executable);
}

#[test]
fn parse_standard_fields() {
    let p = PermissionSet::from("r-xp");
    assert!(p.readable);
    assert!(!p.writeable);
    assert!(p.executable);

    let q = PermissionSet::from("rw-s");
    assert!(q.readable);
    assert!(q.writeable);
    assert!(!q.executable);

    let z = PermissionSet::from("---p");
    assert!(!z.readable);
    assert!(!z.writeable);
    assert!(!z.executable);
}

#[test]
fn parse_ignores_unknown_characters() {
    let p = PermissionSet::from("zzrzz");
    assert!(p.readable);
    assert!(!p.writeable);
    assert!(!p.executable);
}

#[test]
fn flags_round_trip_all_fields() {
    for r in ["r", "-"] {
        for w in ["w", "-"] {
            for x in ["x", "-"] {
                for m in ["p", "s"] {
                    let field = format!("{}{}{}{}", r, w, x, m);
                    let parsed = PermissionSet::from(&field);
                    let bits = parsed.to_native_flags();
                    let decoded = PermissionSet::from_native_flags(bits);
                    let shown = decoded.display_string();
                    let expected = format!("{}{}{}", r, w, x);
                    assert_eq!(shown, expected);
                }
            }
        }
    }
}

#[test]
fn native_flag_values() {
    assert_eq!(PermissionSet::from("----").to_native_flags(), 0);
    assert_eq!(PermissionSet::from("r---").to_native_flags(), 1);
    assert_eq!(PermissionSet::from("-w--").to_native_flags(), 2);
    assert_eq!(PermissionSet::from("--x-").to_native_flags(), 4);
    assert_eq!(PermissionSet::from("rwxp").to_native_flags(), 7);
}

#[test]
fn from_native_flags_decodes_bits() {
    let p = PermissionSet::from_native_flags(5);
    assert!(p.readable);
    assert!(!p.writeable);
    assert!(p.executable);
    assert_eq!(PermissionSet::from_native_flags(0), PermissionSet::from(""));
}

#[test]
fn display_fixed_order() {
    assert_eq!(PermissionSet::from("rwxp").display_string(), "rwx");
    assert_eq!(PermissionSet::from("r--p").display_string(), "r--");
    assert_eq!(PermissionSet::from("").display_string(), "---");
    assert_eq!(PermissionSet::from("-w-s").display_string(), "-w-");
}

#[test]
fn overlap_is_per_field_and() {
    let none = PermissionSet::from("");
    let read = PermissionSet::from("r--");
    let write = PermissionSet::from("-w-");
    let rw = PermissionSet::from("rw-");

    assert!(!none.and(&none));
    assert!(!read.and(&write));
    assert!(rw.and(&write));
    assert!(rw.and(&read));
    assert!(!none.and(&rw));
}
