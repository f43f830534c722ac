use exefind::diff::{compare, compare_snapshots, diff, ChangeEvent};
use exefind::record::FileData;
use exefind::Error;

fn rec(path: &str, hash: Option<&str>) -> FileData {
    FileData::new(String::from(path), hash.map(String::from))
}

#[test]
fn diff_identical_single_entry_yields_no_event() {
    let s = vec![rec("/usr/x", Some("deadbeef"))];
    let events = diff(&s, &s);
    assert_eq!(events.len(), 0);
}

#[test]
fn diff_identical_snapshot_yields_no_event() {
    let s = vec![
        rec("/bin/a", Some("aaa")),
        rec("/bin/b", None),
        rec("/bin/c", Some("ccc")),
    ];
    let events = diff(&s, &s);
    assert_eq!(events.len(), 0);
}

#[test]
fn diff_classifies_deleted_updated_created() {
    let old = vec![rec("/bin/a", Some("aaa")), rec("/bin/b", Some("bbb"))];
    let new = vec![rec("/bin/b", Some("ccc")), rec("/bin/c", Some("ddd"))];
    let events = diff(&old, &new);
    assert_eq!(events.len(), 3);
    match &events[0] {
        ChangeEvent::Deleted { path, old_hash } => {
            assert_eq!(path, "/bin/a");
            assert_eq!(old_hash.as_deref(), Some("aaa"));
        }
        _ => panic!("first event should be a deletion"),
    }
    match &events[1] {
        ChangeEvent::Updated {
            path,
            old_hash,
            new_hash,
        } => {
            assert_eq!(path, "/bin/b");
            assert_eq!(old_hash.as_deref(), Some("bbb"));
            assert_eq!(new_hash.as_deref(), Some("ccc"));
        }
        _ => panic!("second event should be an update"),
    }
    match &events[2] {
        ChangeEvent::Created { path, new_hash } => {
            assert_eq!(path, "/bin/c");
            assert_eq!(new_hash.as_deref(), Some("ddd"));
        }
        _ => panic!("third event should be a creation"),
    }
}

#[test]
fn diff_disjoint_sets_all_deleted_and_created() {
    let old = vec![rec("/a", Some("1")), rec("/b", Some("2"))];
    let new = vec![rec("/c", Some("3")), rec("/d", Some("4"))];
    let events = diff(&old, &new);
    assert_eq!(events.len(), 4);
    let deleted = events
        .iter()
        .filter(|e| matches!(e, ChangeEvent::Deleted { .. }))
        .count();
    let created = events
        .iter()
        .filter(|e| matches!(e, ChangeEvent::Created { .. }))
        .count();
    assert_eq!(deleted, 2);
    assert_eq!(created, 2);
}

#[test]
fn diff_absent_versus_present_digest_is_update() {
    let old = vec![rec("/bin/a", None)];
    let new = vec![rec("/bin/a", Some("abc"))];
    let events = diff(&old, &new);
    assert_eq!(events.len(), 1);
    match &events[0] {
        ChangeEvent::Updated {
            path,
            old_hash,
            new_hash,
        } => {
            assert_eq!(path, "/bin/a");
            assert!(old_hash.is_none());
            assert_eq!(new_hash.as_deref(), Some("abc"));
        }
        _ => panic!("expected an update"),
    }
}

#[test]
fn compare_merge_rows_carry_digest_columns() {
    let old = vec![rec("/bin/a", Some("aaa")), rec("/bin/b", Some("bbb"))];
    let new = vec![rec("/bin/b", Some("ccc")), rec("/bin/c", Some("ddd"))];
    let lines = compare(&old, &new);
    // /bin/c is only reached after the old side is exhausted, so its row
    // comes from the drain phase and carries no digest column
    assert_eq!(
        lines,
        vec![
            String::from("/bin/a,deleted,aaa"),
            String::from("/bin/b,updated,bbb,ccc"),
            String::from("/bin/c,created"),
        ]
    );
}

#[test]
fn compare_merge_phase_creation_carries_digest_column() {
    let old = vec![rec("/bin/b", Some("bbb"))];
    let new = vec![rec("/bin/a", Some("aaa")), rec("/bin/b", Some("bbb"))];
    let lines = compare(&old, &new);
    assert_eq!(lines, vec![String::from("/bin/a,created,,aaa")]);
}

#[test]
fn compare_drain_rows_omit_digest_columns() {
    let old = vec![rec("/bin/a", Some("aaa")), rec("/bin/b", Some("bbb"))];
    let new: Vec<FileData> = Vec::new();
    let lines = compare(&old, &new);
    assert_eq!(
        lines,
        vec![String::from("/bin/a,deleted"), String::from("/bin/b,deleted")]
    );
    let lines2 = compare(&new, &old);
    assert_eq!(
        lines2,
        vec![String::from("/bin/a,created"), String::from("/bin/b,created")]
    );
}

#[test]
fn compare_unchanged_entry_yields_no_row() {
    let old = vec![rec("/usr/x", Some("deadbeef"))];
    let lines = compare(&old, &old);
    assert_eq!(lines.len(), 0);
}

fn snapshot_lines(stamp: &str, body: &[&str]) -> Vec<String> {
    let mut lines = vec![format!("{}\n", stamp), String::from("path,hash\n")];
    for b in body {
        lines.push(format!("{}\n", b));
    }
    lines
}

#[test]
fn compare_snapshots_produces_full_artifact() {
    let old = snapshot_lines("2024-05-04 10:00:00.500 UTC", &["/bin/a,aaa", "/bin/b,bbb"]);
    let new = snapshot_lines("2024-05-05 10:00:00.500 UTC", &["/bin/b,ccc", "/bin/c,ddd"]);
    let out = compare_snapshots(&old, &new).unwrap();
    assert_eq!(out[1], "Path,Change,Old Hash,New Hash");
    assert_eq!(
        &out[2..],
        &[
            String::from("/bin/a,deleted,aaa"),
            String::from("/bin/b,updated,bbb,ccc"),
            String::from("/bin/c,created"),
        ]
    );
    assert!(out[0].contains(" to "));
}

#[test]
fn compare_snapshots_reconciles_argument_order() {
    let earlier = snapshot_lines("2024-05-04 10:00:00.500 UTC", &["/bin/a,aaa"]);
    let later = snapshot_lines("2024-05-05 10:00:00.500 UTC", &["/bin/b,bbb"]);
    let chronological = compare_snapshots(&earlier, &later).unwrap();
    let swapped = compare_snapshots(&later, &earlier).unwrap();
    assert_eq!(chronological, swapped);
    assert_eq!(
        &chronological[2..],
        &[
            String::from("/bin/a,deleted,aaa"),
            String::from("/bin/b,created")
        ]
    );
}

#[test]
fn compare_snapshots_without_timestamp_fails() {
    let old = snapshot_lines("not a timestamp", &["/bin/a,aaa"]);
    let new = snapshot_lines("2024-05-05 10:00:00.500 UTC", &["/bin/a,aaa"]);
    match compare_snapshots(&old, &new) {
        Err(Error::MissingTime) => {}
        _ => panic!("a snapshot without a parseable timestamp must fail"),
    }
}

#[test]
fn compare_snapshots_stops_at_empty_line() {
    let mut old = snapshot_lines("2024-05-04 10:00:00.500 UTC", &["/bin/a,aaa"]);
    old.push(String::new());
    old.push(String::from("/bin/z,zzz\n"));
    let new = snapshot_lines("2024-05-05 10:00:00.500 UTC", &["/bin/a,aaa"]);
    let out = compare_snapshots(&old, &new).unwrap();
    assert_eq!(out.len(), 2);
}
