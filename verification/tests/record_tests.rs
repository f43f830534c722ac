use exefind::order::{str_cmp, PathOrder};
use exefind::record::FileData;

#[test]
fn to_string_joins_path_and_digest() {
    let fd = FileData::new(String::from("/bin/x"), Some(String::from("abc")));
    assert_eq!(fd.to_string(), "/bin/x,abc");
}

#[test]
fn to_string_writes_none_for_absent_digest() {
    let fd = FileData::new(String::from("/bin/x"), None);
    assert_eq!(fd.to_string(), "/bin/x,None");
    assert_eq!(fd.print_hash(), "None");
}

#[test]
fn parse_reads_path_and_digest() {
    let fd = FileData::parse_filedata("/bin/x,abc\n").unwrap();
    assert_eq!(fd.path, "/bin/x");
    assert_eq!(fd.hash.as_deref(), Some("abc"));
}

#[test]
fn parse_empty_line_is_end_of_data() {
    assert!(FileData::parse_filedata("").is_none());
}

#[test]
fn parse_exact_none_is_absent_digest() {
    let fd = FileData::parse_filedata("/bin/x,None").unwrap();
    assert_eq!(fd.path, "/bin/x");
    assert!(fd.hash.is_none());
}

#[test]
fn parse_none_with_newline_is_absent_digest() {
    // the absent-digest mark is recognized after trimming, so the line's
    // trailing newline does not hide it
    let fd = FileData::parse_filedata("/bin/x,None\n").unwrap();
    assert!(fd.hash.is_none());
}

#[test]
fn parse_inverts_to_string_with_digest() {
    let fd = FileData::new(String::from("/bin/x"), Some(String::from("abc123")));
    let line = format!("{}\n", fd.to_string());
    let back = FileData::parse_filedata(&line).unwrap();
    assert_eq!(back.path, fd.path);
    assert_eq!(back.hash, fd.hash);
}

#[test]
fn parse_inverts_to_string_without_digest() {
    let fd = FileData::new(String::from("/bin/x"), None);
    let line = format!("{}\n", fd.to_string());
    let back = FileData::parse_filedata(&line).unwrap();
    assert_eq!(back.path, fd.path);
    assert!(back.hash.is_none());
}

#[test]
fn parse_takes_second_comma_field_only() {
    let fd = FileData::parse_filedata("/bin/x,abc,def\n").unwrap();
    assert_eq!(fd.path, "/bin/x");
    assert_eq!(fd.hash.as_deref(), Some("abc"));
}

#[test]
fn to_lines_renders_header_and_records() {
    let records = vec![
        FileData::new(String::from("/bin/a"), Some(String::from("aaa"))),
        FileData::new(String::from("/bin/b"), None),
    ];
    let stamp = exefind::timefmt::Timestamp {
        secs: 1431648000,
        nanos: 0,
    };
    let lines = FileData::to_lines(&records, stamp);
    assert_eq!(lines.len(), 4);
    assert_eq!(lines[0], "2015-05-15 00:00:00 UTC");
    assert_eq!(lines[1], "path,hash");
    assert_eq!(lines[2], "/bin/a,aaa");
    assert_eq!(lines[3], "/bin/b,None");
}

#[test]
fn str_cmp_orders_lexicographically() {
    assert!(matches!(str_cmp("/a", "/b"), PathOrder::Lt));
    assert!(matches!(str_cmp("/b", "/a"), PathOrder::Gt));
    assert!(matches!(str_cmp("/a", "/a"), PathOrder::Eq));
    assert!(matches!(str_cmp("/a", "/ab"), PathOrder::Lt));
    assert!(matches!(str_cmp("", "/a"), PathOrder::Lt));
}
