use exefind::scan::{ScanArgs, ScannedFile};

fn entry(path: &str, mode: u32, hash: Option<&str>) -> ScannedFile {
    ScannedFile {
        path: String::from(path),
        mode,
        hash: hash.map(String::from),
    }
}

#[test]
fn check_bit_reads_single_bits() {
    assert!(ScanArgs::check_bit(0b100, 2));
    assert!(!ScanArgs::check_bit(0b100, 1));
    assert!(ScanArgs::check_bit(1, 0));
}

#[test]
fn is_exe_accepts_each_execute_bit() {
    assert!(ScanArgs::is_exe(0o100755));
    assert!(ScanArgs::is_exe(0o100100));
    assert!(ScanArgs::is_exe(0o100010));
    assert!(ScanArgs::is_exe(0o100001));
}

#[test]
fn is_exe_rejects_modes_without_execute_bits() {
    assert!(!ScanArgs::is_exe(0o100644));
    assert!(!ScanArgs::is_exe(0o100000));
    assert!(!ScanArgs::is_exe(0o100666));
}

#[test]
fn scan_of_only_non_executables_is_empty() {
    let entries = vec![
        entry("/data/a.txt", 0o100644, None),
        entry("/data/b.txt", 0o100600, None),
    ];
    let records = ScanArgs::scan(entries);
    assert_eq!(records.len(), 0);
}

#[test]
fn scan_records_each_executable_once() {
    let entries = vec![
        entry("/bin/tool", 0o100755, Some("aaa")),
        entry("/data/a.txt", 0o100644, None),
        entry("/bin/other", 0o100711, Some("bbb")),
    ];
    let records = ScanArgs::scan(entries);
    assert_eq!(records.len(), 2);
    let with_path: Vec<_> = records.iter().filter(|r| r.path == "/bin/tool").collect();
    assert_eq!(with_path.len(), 1);
    assert_eq!(with_path[0].hash.as_deref(), Some("aaa"));
}

#[test]
fn scan_sorts_records_by_path() {
    let entries = vec![
        entry("/z", 0o100755, Some("1")),
        entry("/a", 0o100755, Some("2")),
        entry("/m", 0o100755, Some("3")),
    ];
    let records = ScanArgs::scan(entries);
    let paths: Vec<&str> = records.iter().map(|r| r.path.as_str()).collect();
    assert_eq!(paths, vec!["/a", "/m", "/z"]);
}

#[test]
fn scan_keeps_unhashable_executable_with_absent_digest() {
    let entries = vec![entry("/bin/ghost", 0o100755, None)];
    let records = ScanArgs::scan(entries);
    assert_eq!(records.len(), 1);
    assert!(records[0].hash.is_none());
}

#[test]
fn lost_execute_bit_reports_deletion() {
    let before = vec![entry("/bin/tool", 0o100755, Some("samehash"))];
    let after = vec![entry("/bin/tool", 0o100644, Some("samehash"))];
    let old_records = ScanArgs::scan(before);
    let new_records = ScanArgs::scan(after);
    assert_eq!(new_records.len(), 0);
    let events = exefind::diff::diff(&old_records, &new_records);
    assert_eq!(events.len(), 1);
    match &events[0] {
        exefind::diff::ChangeEvent::Deleted { path, old_hash } => {
            assert_eq!(path, "/bin/tool");
            assert_eq!(old_hash.as_deref(), Some("samehash"));
        }
        _ => panic!("the vanished executable must be reported deleted"),
    }
}
