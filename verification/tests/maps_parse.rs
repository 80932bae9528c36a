use memmaps::LineError;
use memmaps::Mapping;
use memmaps::PermissionSet;
use memmaps::parse_addr_range;
use memmaps::parse_hex_u64;
use memmaps::parse_maps_line;
use memmaps::parse_maps_table;
use memmaps::split_fields;
use memmaps::to_hex_string;

#[test]
fn hex_parse_basic() {
    assert_eq!(parse_hex_u64("0"), Some(0));
    assert_eq!(parse_hex_u64("ff"), Some(255));
    assert_eq!(parse_hex_u64("08048000"), Some(0x08048000));
    assert_eq!(parse_hex_u64("FFFFFFFFFFFFFFFF"), Some(u64::MAX));
}

#[test]
fn hex_parse_rejects_bad_text() {
    assert_eq!(parse_hex_u64(""), None);
    assert_eq!(parse_hex_u64("0x10"), None);
    assert_eq!(parse_hex_u64("12g4"), None);
    assert_eq!(parse_hex_u64("-5"), None);
    assert_eq!(parse_hex_u64("10000000000000000"), None);
}

#[test]
fn hex_render_matches_parse() {
    assert_eq!(to_hex_string(0), "0");
    assert_eq!(to_hex_string(255), "ff");
    assert_eq!(to_hex_string(0x08048000), "8048000");
    assert_eq!(to_hex_string(u64::MAX), "ffffffffffffffff");
    assert_eq!(parse_hex_u64(&to_hex_string(0xdead_beef)), Some(0xdead_beef));
}

#[test]
fn addr_range_parses_two_numbers() {
    assert_eq!(parse_addr_range("08048000-08049000"), Some((0x08048000, 0x08049000)));
    assert_eq!(parse_addr_range("0-1"), Some((0, 1)));
}

#[test]
fn addr_range_rejects_other_shapes() {
    assert_eq!(parse_addr_range(""), None);
    assert_eq!(parse_addr_range("08048000"), None);
    assert_eq!(parse_addr_range("-08049000"), None);
    assert_eq!(parse_addr_range("08048000-"), None);
    assert_eq!(parse_addr_range("1-2-3"), None);
    assert_eq!(parse_addr_range("zz-11"), None);
}

#[test]
fn split_fields_drops_extra_whitespace() {
    let fields = split_fields("  a \t bb   c ");
    assert_eq!(fields, vec!["a", "bb", "c"]);
    assert_eq!(split_fields(""), Vec::<String>::new());
    assert_eq!(split_fields("   "), Vec::<String>::new());
}

#[test]
fn entry_parses_exactly() {
    let m = parse_maps_line("08048000-08049000 r-xp 00000000 08:01 123 /bin/cat").unwrap();
    assert_eq!(m.start_addr, 0x08048000);
    assert_eq!(m.end_addr, 0x08049000);
    assert!(m.permissions.readable);
    assert!(!m.permissions.writeable);
    assert!(m.permissions.executable);
    assert_eq!(m.path, "/bin/cat");
    assert_eq!(m.size(), 0x1000);
}

#[test]
fn entry_path_with_embedded_space() {
    let m = parse_maps_line("7f00000-7f01000 r--p 00000000 08:01 9 /usr/lib/my lib.so").unwrap();
    assert_eq!(m.path, "/usr/lib/my lib.so");
}

#[test]
fn entry_without_path_is_anonymous() {
    let m = parse_maps_line("7f00000-7f01000 rw-p 00000000 00:00 0").unwrap();
    assert_eq!(m.path, "");
}

#[test]
fn entry_with_too_few_fields_fails() {
    let e = parse_maps_line("08048000-08049000 r-xp 00000000").unwrap_err();
    assert_eq!(e, LineError::NotEnoughFields { found: 3 });
}

#[test]
fn entry_with_bad_addresses_fails() {
    let e = parse_maps_line("zz-11 r-xp 00000000 08:01 123").unwrap_err();
    assert_eq!(e, LineError::BadAddressRange);
    let e2 = parse_maps_line("1-2-3 r-xp 00000000 08:01 123").unwrap_err();
    assert_eq!(e2, LineError::BadAddressRange);
}

#[test]
fn entry_with_empty_range_fails() {
    let e = parse_maps_line("5000-5000 r-xp 00000000 08:01 123").unwrap_err();
    assert_eq!(e, LineError::EmptyRange);
    let e2 = parse_maps_line("6000-5000 r-xp 00000000 08:01 123").unwrap_err();
    assert_eq!(e2, LineError::EmptyRange);
}

#[test]
fn table_skips_malformed_line_and_keeps_order() {
    let lines = vec![
        String::from("08048000-08049000 r-xp 00000000 08:01 123 /bin/cat"),
        String::from("bad line here"),
        String::from("7f000000-7f004000 rw-p 00000000 00:00 0 [heap]"),
    ];
    let (mappings, diagnostics) = parse_maps_table(&lines);
    assert_eq!(mappings.len(), 2);
    assert_eq!(mappings[0].start_addr, 0x08048000);
    assert_eq!(mappings[0].path, "/bin/cat");
    assert_eq!(mappings[1].start_addr, 0x7f000000);
    assert_eq!(mappings[1].path, "[heap]");
    assert_eq!(diagnostics.len(), 1);
    assert_eq!(diagnostics[0], LineError::NotEnoughFields { found: 3 });
}

#[test]
fn table_of_empty_input_is_empty() {
    let (mappings, diagnostics) = parse_maps_table(&Vec::new());
    assert!(mappings.is_empty());
    assert!(diagnostics.is_empty());
}

#[test]
fn special_mappings_recognized_by_bracket() {
    let heap = parse_maps_line("1000-2000 rw-p 00000000 00:00 0 [heap]").unwrap();
    assert!(heap.is_special());
    let file = parse_maps_line("1000-2000 r-xp 00000000 08:01 5 /bin/cat").unwrap();
    assert!(!file.is_special());
    let anon = parse_maps_line("1000-2000 rw-p 00000000 00:00 0").unwrap();
    assert!(!anon.is_special());
}

#[test]
fn mapping_new_parses_permission_text() {
    let m = Mapping::new(0x1000, 0x3000, String::from("rw-p"), String::from("[stack]"));
    assert_eq!(m.start_addr, 0x1000);
    assert_eq!(m.end_addr, 0x3000);
    assert_eq!(m.permissions, PermissionSet::from("rw-"));
    assert_eq!(m.path, "[stack]");
    assert_eq!(m.size(), 0x2000);
}

#[test]
fn mapping_display_format() {
    let m = parse_maps_line("08048000-08049000 r-xp 00000000 08:01 123 /bin/cat").unwrap();
    assert_eq!(m.display_string(), "Mapping(0x8048000-0x8049000, perms=r-x, path=/bin/cat)");
    let anon = parse_maps_line("0-ff rw-p 00000000 00:00 0").unwrap();
    assert_eq!(anon.display_string(), "Mapping(0x0-0xff, perms=rw-, path=)");
}
