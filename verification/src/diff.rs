//! The sorted-merge comparison: two snapshots' record sequences walked by a
//! two-pointer merge over their path order, classifying every path as
//! deleted, created, updated or unchanged; and the line-level driver that
//! reconciles the two snapshots' capture timestamps first.

use vstd::prelude::*;

use crate::order::{lex_lt, str_cmp, PathOrder};
use crate::record::{find_char, hash_view, spec_parse_filedata, FileData, RecordV};
use crate::timefmt::{format_utc_time, parse_snapshot_time, spec_format_utc, spec_parse_utc,
    Timestamp};
use crate::Error;

verus! {

/// Holds all of the data for running the comparison mode: the two snapshot
/// artifacts' locations and the comparison artifact's.
#[derive(Debug)]
pub struct CompArgs {
    pub old: String,
    pub new: String,
    pub out: String,
}

/// One reported difference between the old and the new snapshot.
#[derive(Debug)]
pub enum ChangeEvent {
    Deleted { path: String, old_hash: Option<String> },
    Updated { path: String, old_hash: Option<String>, new_hash: Option<String> },
    Created { path: String, new_hash: Option<String> },
}

/// The events of the sorted merge: while both sides have a record, the
/// lexicographically smaller path has no counterpart and is reported deleted
/// (old side) or created (new side); equal paths are reported updated when
/// their digests differ, and silently passed otherwise; a drained remainder
/// is all deletions (old side) or all creations (new side).
pub open spec fn spec_diff(old: Seq<FileData>, new: Seq<FileData>) -> Seq<ChangeEvent>
    decreases old.len() + new.len(),
{
    if old.len() > 0 && new.len() > 0 {
        if lex_lt(old.first().path@, new.first().path@) {
            seq![
                ChangeEvent::Deleted { path: old.first().path, old_hash: old.first().hash },
            ] + spec_diff(old.drop_first(), new)
        } else if lex_lt(new.first().path@, old.first().path@) {
            seq![
                ChangeEvent::Created { path: new.first().path, new_hash: new.first().hash },
            ] + spec_diff(old, new.drop_first())
        } else {
            let rest = spec_diff(old.drop_first(), new.drop_first());
            if hash_view(old.first().hash) == hash_view(new.first().hash) {
                rest
            } else {
                seq![
                    ChangeEvent::Updated {
                        path: old.first().path,
                        old_hash: old.first().hash,
                        new_hash: new.first().hash,
                    },
                ] + rest
            }
        }
    } else if old.len() > 0 {
        seq![
            ChangeEvent::Deleted { path: old.first().path, old_hash: old.first().hash },
        ] + spec_diff(old.drop_first(), new)
    } else if new.len() > 0 {
        seq![
            ChangeEvent::Created { path: new.first().path, new_hash: new.first().hash },
        ] + spec_diff(old, new.drop_first())
    } else {
        Seq::empty()
    }
}

/// Equality of two digest columns, as the merge tests it: by content,
/// absence counting as its own value.
fn hash_eq(a: &Option<String>, b: &Option<String>) -> (r: bool)
    ensures
        r == (hash_view(*a) == hash_view(*b)),
{
    match (a, b) {
        (None, None) => true,
        (Some(x), Some(y)) => matches!(str_cmp(x.as_str(), y.as_str()), PathOrder::Eq),
        _ => false,
    }
}

/// A copy of a digest column with the same content.
fn clone_hash(h: &Option<String>) -> (r: Option<String>)
    ensures
        r == *h,
{
    match h {
        Some(s) => Some(s.clone()),
        None => None,
    }
}

/// The sorted-merge comparison of two snapshots' record sequences. Both
/// inputs are expected sorted ascending by path (the scanner's order); the
/// result is exactly the merge's event sequence.
pub fn diff(old: &Vec<FileData>, new: &Vec<FileData>) -> (r: Vec<ChangeEvent>)
    ensures
        r@ == spec_diff(old@, new@),
{
    let mut r: Vec<ChangeEvent> = Vec::new();
    let mut i: usize = 0;
    let mut j: usize = 0;
    proof {
        assert(old@.skip(0) =~= old@);
        assert(new@.skip(0) =~= new@);
        assert(r@ + spec_diff(old@, new@) =~= spec_diff(old@, new@));
    }
    while i < old.len() && j < new.len()
        invariant
            i <= old@.len(),
            j <= new@.len(),
            spec_diff(old@, new@) == r@ + spec_diff(old@.skip(i as int), new@.skip(j as int)),
        decreases old@.len() - i + new@.len() - j,
    {
        proof {
            assert(old@.skip(i as int).first() == old@[i as int]);
            assert(new@.skip(j as int).first() == new@[j as int]);
            assert(old@.skip(i as int).drop_first() =~= old@.skip(i + 1));
            assert(new@.skip(j as int).drop_first() =~= new@.skip(j + 1));
        }
        match str_cmp(old[i].path.as_str(), new[j].path.as_str()) {
            PathOrder::Lt => {
                r.push(
                    ChangeEvent::Deleted {
                        path: old[i].path.clone(),
                        old_hash: clone_hash(&old[i].hash),
                    },
                );
                i = i + 1;
            },
            PathOrder::Eq => {
                if !hash_eq(&old[i].hash, &new[j].hash) {
                    r.push(
                        ChangeEvent::Updated {
                            path: old[i].path.clone(),
                            old_hash: clone_hash(&old[i].hash),
                            new_hash: clone_hash(&new[j].hash),
                        },
                    );
                }
                i = i + 1;
                j = j + 1;
            },
            PathOrder::Gt => {
                r.push(
                    ChangeEvent::Created {
                        path: new[j].path.clone(),
                        new_hash: clone_hash(&new[j].hash),
                    },
                );
                j = j + 1;
            },
        }
    }
    while i < old.len()
        invariant
            i <= old@.len(),
            j == new@.len() || i == old@.len(),
            spec_diff(old@, new@) == r@ + spec_diff(old@.skip(i as int), new@.skip(j as int)),
        decreases old@.len() - i,
    {
        proof {
            assert(old@.skip(i as int).first() == old@[i as int]);
            assert(old@.skip(i as int).drop_first() =~= old@.skip(i + 1));
            assert(new@.skip(j as int) =~= Seq::<FileData>::empty());
        }
        r.push(
            ChangeEvent::Deleted { path: old[i].path.clone(), old_hash: clone_hash(&old[i].hash) },
        );
        i = i + 1;
    }
    while j < new.len()
        invariant
            j <= new@.len(),
            i == old@.len(),
            spec_diff(old@, new@) == r@ + spec_diff(old@.skip(i as int), new@.skip(j as int)),
        decreases new@.len() - j,
    {
        proof {
            assert(new@.skip(j as int).first() == new@[j as int]);
            assert(new@.skip(j as int).drop_first() =~= new@.skip(j + 1));
            assert(old@.skip(i as int) =~= Seq::<FileData>::empty());
        }
        r.push(
            ChangeEvent::Created { path: new[j].path.clone(), new_hash: clone_hash(&new[j].hash) },
        );
        j = j + 1;
    }
    proof {
        assert(old@.skip(i as int) =~= Seq::<FileData>::empty());
        assert(new@.skip(j as int) =~= Seq::<FileData>::empty());
        assert(r@ + Seq::<ChangeEvent>::empty() =~= r@);
    }
    r
}

/// What a digest column shows on a comparison row.
pub open spec fn spec_hash_col_v(hash: Option<Seq<char>>) -> Seq<char> {
    match hash {
        Some(h) => h,
        None => "None"@,
    }
}

/// The rows of the comparison artifact's body, in the merge's order. A row
/// from the merge phase carries the change's digest columns; a row from the
/// drain phase (one side already exhausted) carries the path and the change
/// word alone, as the artifact grammar has it.
pub open spec fn spec_compare_lines(old: Seq<RecordV>, new: Seq<RecordV>) -> Seq<Seq<char>>
    decreases old.len() + new.len(),
{
    if old.len() > 0 && new.len() > 0 {
        if lex_lt(old.first().path, new.first().path) {
            seq![old.first().path + ",deleted,"@ + spec_hash_col_v(old.first().hash)]
                + spec_compare_lines(old.drop_first(), new)
        } else if lex_lt(new.first().path, old.first().path) {
            seq![new.first().path + ",created,,"@ + spec_hash_col_v(new.first().hash)]
                + spec_compare_lines(old, new.drop_first())
        } else {
            let rest = spec_compare_lines(old.drop_first(), new.drop_first());
            if old.first().hash == new.first().hash {
                rest
            } else {
                seq![
                    old.first().path + ",updated,"@ + spec_hash_col_v(old.first().hash) + ","@
                        + spec_hash_col_v(new.first().hash),
                ] + rest
            }
        }
    } else if old.len() > 0 {
        seq![old.first().path + ",deleted"@] + spec_compare_lines(old.drop_first(), new)
    } else if new.len() > 0 {
        seq![new.first().path + ",created"@] + spec_compare_lines(old, new.drop_first())
    } else {
        Seq::empty()
    }
}

/// A merge-phase deletion row.
fn deleted_line(fd: &FileData) -> (r: String)
    ensures
        r@ == fd.deep_view().path + ",deleted,"@ + spec_hash_col_v(fd.deep_view().hash),
{
    let mut s = String::new();
    s.append(fd.path.as_str());
    s.append(",deleted,");
    s.append(fd.print_hash());
    s
}

/// A merge-phase creation row (its old-hash column is empty).
fn created_line(fd: &FileData) -> (r: String)
    ensures
        r@ == fd.deep_view().path + ",created,,"@ + spec_hash_col_v(fd.deep_view().hash),
{
    let mut s = String::new();
    s.append(fd.path.as_str());
    s.append(",created,,");
    s.append(fd.print_hash());
    s
}

/// An update row, with both digest columns.
fn updated_line(old: &FileData, new: &FileData) -> (r: String)
    ensures
        r@ == old.deep_view().path + ",updated,"@ + spec_hash_col_v(old.deep_view().hash) + ","@
            + spec_hash_col_v(new.deep_view().hash),
{
    let mut s = String::new();
    s.append(old.path.as_str());
    s.append(",updated,");
    s.append(old.print_hash());
    s.append(",");
    s.append(new.print_hash());
    s
}

/// A drain-phase row: the path and the change word alone.
fn drain_line(fd: &FileData, created: bool) -> (r: String)
    ensures
        created ==> r@ == fd.deep_view().path + ",created"@,
        !created ==> r@ == fd.deep_view().path + ",deleted"@,
{
    let mut s = String::new();
    s.append(fd.path.as_str());
    if created {
        s.append(",created");
    } else {
        s.append(",deleted");
    }
    s
}

/// The comparison artifact's body: the merge's rows, rendered. The output
/// holds one row per change, none for a path whose digest is unchanged.
pub fn compare(old: &Vec<FileData>, new: &Vec<FileData>) -> (r: Vec<String>)
    ensures
        r.deep_view() == spec_compare_lines(old.deep_view(), new.deep_view()),
{
    let ghost ov = old.deep_view();
    let ghost nv = new.deep_view();
    let mut r: Vec<String> = Vec::new();
    let mut i: usize = 0;
    let mut j: usize = 0;
    proof {
        assert(ov.skip(0) =~= ov);
        assert(nv.skip(0) =~= nv);
        assert(r.deep_view() + spec_compare_lines(ov, nv) =~= spec_compare_lines(ov, nv));
    }
    while i < old.len() && j < new.len()
        invariant
            i <= ov.len(),
            j <= nv.len(),
            ov == old.deep_view(),
            nv == new.deep_view(),
            ov.len() == old@.len(),
            nv.len() == new@.len(),
            spec_compare_lines(ov, nv) == r.deep_view() + spec_compare_lines(
                ov.skip(i as int),
                nv.skip(j as int),
            ),
        decreases old@.len() - i + new@.len() - j,
    {
        let ghost rpre = r.deep_view();
        proof {
            assert(ov.skip(i as int).first() == ov[i as int]);
            assert(nv.skip(j as int).first() == nv[j as int]);
            assert(ov.skip(i as int).drop_first() =~= ov.skip(i + 1));
            assert(nv.skip(j as int).drop_first() =~= nv.skip(j + 1));
            assert(ov[i as int] == old@[i as int].deep_view());
            assert(nv[j as int] == new@[j as int].deep_view());
        }
        match str_cmp(old[i].path.as_str(), new[j].path.as_str()) {
            PathOrder::Lt => {
                let line = deleted_line(&old[i]);
                r.push(line);
                proof {
                    assert(r.deep_view() =~= rpre.push(line@));
                }
                i = i + 1;
            },
            PathOrder::Eq => {
                if !hash_eq(&old[i].hash, &new[j].hash) {
                    let line = updated_line(&old[i], &new[j]);
                    r.push(line);
                    proof {
                        assert(r.deep_view() =~= rpre.push(line@));
                    }
                }
                i = i + 1;
                j = j + 1;
            },
            PathOrder::Gt => {
                let line = created_line(&new[j]);
                r.push(line);
                proof {
                    assert(r.deep_view() =~= rpre.push(line@));
                }
                j = j + 1;
            },
        }
    }
    while i < old.len()
        invariant
            i <= ov.len(),
            ov == old.deep_view(),
            nv == new.deep_view(),
            ov.len() == old@.len(),
            nv.len() == new@.len(),
            j == nv.len() || i == ov.len(),
            spec_compare_lines(ov, nv) == r.deep_view() + spec_compare_lines(
                ov.skip(i as int),
                nv.skip(j as int),
            ),
        decreases old@.len() - i,
    {
        let ghost rpre = r.deep_view();
        proof {
            assert(ov.skip(i as int).first() == ov[i as int]);
            assert(ov.skip(i as int).drop_first() =~= ov.skip(i + 1));
            assert(nv.skip(j as int) =~= Seq::<RecordV>::empty());
            assert(ov[i as int] == old@[i as int].deep_view());
        }
        let line = drain_line(&old[i], false);
        r.push(line);
        proof {
            assert(r.deep_view() =~= rpre.push(line@));
        }
        i = i + 1;
    }
    while j < new.len()
        invariant
            j <= nv.len(),
            ov == old.deep_view(),
            nv == new.deep_view(),
            ov.len() == old@.len(),
            nv.len() == new@.len(),
            i == ov.len(),
            spec_compare_lines(ov, nv) == r.deep_view() + spec_compare_lines(
                ov.skip(i as int),
                nv.skip(j as int),
            ),
        decreases new@.len() - j,
    {
        let ghost rpre = r.deep_view();
        proof {
            assert(nv.skip(j as int).first() == nv[j as int]);
            assert(nv.skip(j as int).drop_first() =~= nv.skip(j + 1));
            assert(ov.skip(i as int) =~= Seq::<RecordV>::empty());
            assert(nv[j as int] == new@[j as int].deep_view());
        }
        let line = drain_line(&new[j], true);
        r.push(line);
        proof {
            assert(r.deep_view() =~= rpre.push(line@));
        }
        j = j + 1;
    }
    proof {
        assert(ov.skip(i as int) =~= Seq::<RecordV>::empty());
        assert(nv.skip(j as int) =~= Seq::<RecordV>::empty());
        assert(r.deep_view() + Seq::<Seq<char>>::empty() =~= r.deep_view());
    }
    r
}

/// Every body line of a snapshot artifact, until the empty line that ends
/// the data, holds the comma that separates path from digest.
pub open spec fn body_wellformed(lines: Seq<Seq<char>>, k: int) -> bool
    decreases lines.len() - k,
{
    if k < 0 || k >= lines.len() {
        true
    } else if lines[k].len() == 0 {
        true
    } else {
        find_char(lines[k], ',', 0) is Some && body_wellformed(lines, k + 1)
    }
}

/// The records a snapshot's body holds, from line `k` until its first empty
/// line (or its end).
pub open spec fn spec_parse_body(lines: Seq<Seq<char>>, k: int) -> Seq<RecordV>
    decreases lines.len() - k,
{
    if k < 0 || k >= lines.len() {
        Seq::empty()
    } else if lines[k].len() == 0 {
        Seq::empty()
    } else {
        let parsed = spec_parse_filedata(lines[k])->Some_0;
        seq![RecordV { path: parsed.0, hash: parsed.1 }] + spec_parse_body(lines, k + 1)
    }
}

/// Reads a snapshot body back into records, line by line, stopping at the
/// first empty line as the reader's end-of-data signal.
pub fn parse_body(lines: &Vec<String>, start: usize) -> (r: Vec<FileData>)
    requires
        body_wellformed(lines.deep_view(), start as int),
    ensures
        r.deep_view() == spec_parse_body(lines.deep_view(), start as int),
{
    let ghost lv = lines.deep_view();
    let mut r: Vec<FileData> = Vec::new();
    let mut k: usize = start;
    proof {
        assert(r.deep_view() + spec_parse_body(lv, k as int) =~= spec_parse_body(lv, k as int));
    }
    while k < lines.len() && !lines[k].as_str().is_empty()
        invariant
            start <= k,
            k <= lines@.len() || k == start,
            lv == lines.deep_view(),
            lv.len() == lines@.len(),
            body_wellformed(lv, k as int),
            spec_parse_body(lv, start as int) == r.deep_view() + spec_parse_body(lv, k as int),
        decreases lines@.len() - k,
    {
        let ghost rpre = r.deep_view();
        proof {
            assert(lv[k as int] == lines@[k as int]@);
        }
        match FileData::parse_filedata(lines[k].as_str()) {
            Some(fd) => {
                r.push(fd);
                proof {
                    assert(r.deep_view() =~= rpre.push(fd.deep_view()));
                    let parsed = spec_parse_filedata(lv[k as int])->Some_0;
                    assert(fd.deep_view() == RecordV { path: parsed.0, hash: parsed.1 });
                }
            },
            None => {
                proof {
                    assert(false);
                }
            },
        }
        k = k + 1;
    }
    proof {
        assert(spec_parse_body(lv, k as int) =~= Seq::<RecordV>::empty());
        assert(r.deep_view() + Seq::<RecordV>::empty() =~= r.deep_view());
    }
    r
}

/// A snapshot artifact's timestamp line: its first line, or nothing where
/// the artifact has none.
pub open spec fn spec_time_line(lines: Seq<Seq<char>>) -> Seq<char> {
    if lines.len() > 0 {
        lines[0]
    } else {
        Seq::empty()
    }
}

/// The comparison artifact's header: the two capture instants, earliest
/// first.
pub open spec fn spec_header_line(a: Timestamp, b: Timestamp) -> Seq<char> {
    spec_format_utc(a.secs, a.nanos) + " to "@ + spec_format_utc(b.secs, b.nanos)
}

/// Generates the header for the comparison artifact, and says whether the
/// two snapshots must swap roles: they do exactly when the one labeled "new"
/// was captured strictly before the one labeled "old".
pub fn time_header(old_time: &Timestamp, new_time: &Timestamp) -> (r: (String, bool))
    ensures
        r.1 == new_time.spec_lt(*old_time),
        r.1 ==> r.0@ == spec_header_line(*new_time, *old_time),
        !r.1 ==> r.0@ == spec_header_line(*old_time, *new_time),
{
    let swapped = new_time.lt(old_time);
    let (first, second) = if swapped {
        (new_time, old_time)
    } else {
        (old_time, new_time)
    };
    let mut s = format_utc_time(first.secs, first.nanos);
    s.append(" to ");
    let t = format_utc_time(second.secs, second.nanos);
    s.append(t.as_str());
    (s, swapped)
}

/// The whole comparison artifact, from the two snapshots' lines: `None` when
/// either capture timestamp fails to parse; otherwise the chronological
/// header, the column header, and the merge's rows, the earlier-captured
/// snapshot playing the "old" role whatever order the two artifacts came in.
pub open spec fn spec_compare_snapshots(a: Seq<Seq<char>>, b: Seq<Seq<char>>) -> Option<
    Seq<Seq<char>>,
> {
    match (spec_parse_utc(spec_time_line(a)), spec_parse_utc(spec_time_line(b))) {
        (Some(ta), Some(tb)) => {
            let swap = tb.spec_lt(ta);
            let first = if swap {
                b
            } else {
                a
            };
            let second = if swap {
                a
            } else {
                b
            };
            let tfirst = if swap {
                tb
            } else {
                ta
            };
            let tsecond = if swap {
                ta
            } else {
                tb
            };
            Some(
                seq![spec_header_line(tfirst, tsecond), "Path,Change,Old Hash,New Hash"@]
                    + spec_compare_lines(spec_parse_body(first, 2), spec_parse_body(second, 2)),
            )
        },
        _ => None,
    }
}

/// The first line of a snapshot artifact, where its timestamp stands.
fn time_line<'a>(lines: &'a Vec<String>) -> (r: &'a str)
    ensures
        r@ == spec_time_line(lines.deep_view()),
{
    if lines.len() > 0 {
        proof {
            assert(lines.deep_view()[0] == lines@[0]@);
        }
        lines[0].as_str()
    } else {
        proof {
            reveal_strlit("");
            assert(""@ =~= Seq::<char>::empty());
        }
        ""
    }
}

/// Compares two snapshot artifacts, given as their lines (each line as the
/// reader hands it, trailing newline included). Fails with `MissingTime`
/// exactly when either artifact's first line holds no parseable capture
/// timestamp; otherwise returns the comparison artifact's lines.
pub fn compare_snapshots(old_lines: &Vec<String>, new_lines: &Vec<String>) -> (r: Result<
    Vec<String>,
    Error,
>)
    requires
        body_wellformed(old_lines.deep_view(), 2),
        body_wellformed(new_lines.deep_view(), 2),
    ensures
        match r {
            Ok(out) => spec_compare_snapshots(old_lines.deep_view(), new_lines.deep_view())
                == Some(out.deep_view()),
            Err(e) => e is MissingTime && spec_compare_snapshots(
                old_lines.deep_view(),
                new_lines.deep_view(),
            ) is None,
        },
{
    let old_time = match parse_snapshot_time(time_line(old_lines)) {
        Some(t) => t,
        None => {
            return Err(Error::MissingTime);
        },
    };
    let new_time = match parse_snapshot_time(time_line(new_lines)) {
        Some(t) => t,
        None => {
            return Err(Error::MissingTime);
        },
    };
    let (header, swapped) = time_header(&old_time, &new_time);
    let (first, second) = if swapped {
        (new_lines, old_lines)
    } else {
        (old_lines, new_lines)
    };
    let old_recs = parse_body(first, 2);
    let new_recs = parse_body(second, 2);
    let mut body = compare(&old_recs, &new_recs);
    let mut out: Vec<String> = Vec::new();
    let ghost headerv = header@;
    out.push(header);
    out.push(String::from_str("Path,Change,Old Hash,New Hash"));
    let ghost outpre = out.deep_view();
    out.append(&mut body);
    proof {
        assert(outpre =~= seq![headerv, "Path,Change,Old Hash,New Hash"@]);
        assert(out.deep_view() =~= outpre + spec_compare_lines(
            spec_parse_body(if swapped { new_lines.deep_view() } else { old_lines.deep_view() }, 2),
            spec_parse_body(if swapped { old_lines.deep_view() } else { new_lines.deep_view() }, 2),
        ));
    }
    Ok(out)
}

} // verus!
