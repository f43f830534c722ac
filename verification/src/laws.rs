//! The library's laws: what holds of every scan and every comparison, stated
//! over the spec functions the public contracts use, and proved here.

use vstd::prelude::*;

use crate::diff::{spec_compare_snapshots, spec_diff, spec_time_line, ChangeEvent};
use crate::order::lemma_lex_trichotomy;
use crate::record::{find_char, hash_view, lemma_find_char_exact, lemma_find_char_props,
    lemma_trim_appended_newline, spec_hash_column, spec_is_whitespace, spec_parse_filedata,
    spec_trim, spec_trim_end, spec_trim_start, FileData};
use crate::scan::{spec_is_exe, spec_record, spec_scan, ScannedFile};
use crate::timefmt::spec_parse_utc;

verus! {

/// A traversal that found no executable file yields an empty snapshot.
pub proof fn lemma_scan_no_executables(entries: Seq<ScannedFile>)
    requires
        forall|i: int| 0 <= i < entries.len() ==> !spec_is_exe(entries[i].mode),
    ensures
        spec_scan(entries) == Seq::<FileData>::empty(),
    decreases entries.len(),
{
    if entries.len() > 0 {
        assert(!spec_is_exe(entries[0].mode));
        assert forall|i: int| 0 <= i < entries.drop_first().len() implies !spec_is_exe(
            entries.drop_first()[i].mode,
        ) by {
            assert(entries.drop_first()[i] == entries[i + 1]);
        }
        lemma_scan_no_executables(entries.drop_first());
    }
    assert(spec_scan(entries) =~= Seq::<FileData>::empty());
}

/// Every record of a scan comes from an executable entry of the traversal.
pub proof fn lemma_scan_source(entries: Seq<ScannedFile>, j: int)
    requires
        0 <= j < spec_scan(entries).len(),
    ensures
        exists|i: int|
            0 <= i < entries.len() && spec_is_exe(entries[i].mode) && spec_scan(entries)[j]
                == spec_record(entries[i]),
    decreases entries.len(),
{
    let rest = spec_scan(entries.drop_first());
    if spec_is_exe(entries.first().mode) && j == 0 {
        assert(spec_scan(entries)[0] == spec_record(entries[0]));
    } else {
        let j2 = if spec_is_exe(entries.first().mode) {
            j - 1
        } else {
            j
        };
        lemma_scan_source(entries.drop_first(), j2);
        let i2 = choose|i: int|
            0 <= i < entries.drop_first().len() && spec_is_exe(entries.drop_first()[i].mode)
                && rest[j2] == spec_record(entries.drop_first()[i]);
        assert(entries.drop_first()[i2] == entries[i2 + 1]);
        assert(spec_scan(entries)[j] == rest[j2]);
    }
}

/// In a traversal whose paths are pairwise distinct, an executable entry's
/// record stands in the scan exactly once.
pub proof fn lemma_scan_count(entries: Seq<ScannedFile>, i: int)
    requires
        forall|k: int, l: int| 0 <= k < l < entries.len() ==> entries[k].path@ != entries[l].path@,
        0 <= i < entries.len(),
        spec_is_exe(entries[i].mode),
    ensures
        spec_scan(entries).to_multiset().count(spec_record(entries[i])) == 1,
    decreases entries.len(),
{
    broadcast use vstd::multiset::group_multiset_axioms;

    let rest = spec_scan(entries.drop_first());
    assert forall|k: int, l: int|
        0 <= k < l < entries.drop_first().len() implies entries.drop_first()[k].path@
        != entries.drop_first()[l].path@ by {
        assert(entries.drop_first()[k] == entries[k + 1]);
        assert(entries.drop_first()[l] == entries[l + 1]);
    }
    if i == 0 {
        // the head's record leads the scan; no tail record can repeat it,
        // since every tail record carries a later entry's path
        assert(spec_scan(entries) =~= rest.insert(0, spec_record(entries[0])));
        vstd::seq_lib::to_multiset_insert(rest, 0, spec_record(entries[0]));
        assert(rest.to_multiset().count(spec_record(entries[0])) == 0) by {
            if rest.to_multiset().count(spec_record(entries[0])) > 0 {
                vstd::seq_lib::to_multiset_contains(rest, spec_record(entries[0]));
                let j = choose|j: int| 0 <= j < rest.len() && rest[j] == spec_record(entries[0]);
                lemma_scan_source(entries.drop_first(), j);
                let s = choose|s: int|
                    0 <= s < entries.drop_first().len() && spec_is_exe(
                        entries.drop_first()[s].mode,
                    ) && rest[j] == spec_record(entries.drop_first()[s]);
                assert(entries.drop_first()[s] == entries[s + 1]);
                assert(entries[s + 1].path@ == entries[0].path@);
            }
        }
    } else {
        assert(entries.drop_first()[i - 1] == entries[i]);
        lemma_scan_count(entries.drop_first(), i - 1);
        if spec_is_exe(entries[0].mode) {
            assert(spec_scan(entries) =~= rest.insert(0, spec_record(entries[0])));
            vstd::seq_lib::to_multiset_insert(rest, 0, spec_record(entries[0]));
            assert(spec_record(entries[0]) != spec_record(entries[i])) by {
                assert(entries[0].path@ != entries[i].path@);
            }
        } else {
            assert(spec_scan(entries) =~= rest);
        }
    }
}

/// For a traversal whose paths are pairwise distinct (as one filesystem
/// guarantees), each executable file yields exactly one record in anything
/// that holds the scan's records — once in the multiset, and under no other
/// record's path.
pub proof fn lemma_scan_exactly_one(entries: Seq<ScannedFile>, r: Seq<FileData>, i: int)
    requires
        r.to_multiset() == spec_scan(entries).to_multiset(),
        forall|k: int, l: int| 0 <= k < l < entries.len() ==> entries[k].path@ != entries[l].path@,
        0 <= i < entries.len(),
        spec_is_exe(entries[i].mode),
    ensures
        r.to_multiset().count(spec_record(entries[i])) == 1,
        forall|j: int|
            0 <= j < r.len() && r[j].path@ == entries[i].path@ ==> r[j] == spec_record(entries[i]),
{
    lemma_scan_count(entries, i);
    assert forall|j: int|
        0 <= j < r.len() && r[j].path@ == entries[i].path@ implies r[j] == spec_record(
        entries[i],
    ) by {
        vstd::seq_lib::to_multiset_contains(r, r[j]);
        vstd::seq_lib::to_multiset_contains(spec_scan(entries), r[j]);
        let m = choose|m: int| 0 <= m < spec_scan(entries).len() && spec_scan(entries)[m] == r[j];
        lemma_scan_source(entries, m);
        let s = choose|s: int|
            0 <= s < entries.len() && spec_is_exe(entries[s].mode) && spec_scan(entries)[m]
                == spec_record(entries[s]);
        if s != i {
            assert(entries[s].path@ != entries[i].path@);
        }
    }
}

/// A snapshot compared with itself yields no change event.
pub proof fn lemma_diff_self(s: Seq<FileData>)
    ensures
        spec_diff(s, s) == Seq::<ChangeEvent>::empty(),
    decreases s.len(),
{
    if s.len() > 0 {
        lemma_lex_trichotomy(s.first().path@, s.first().path@);
        lemma_diff_self(s.drop_first());
    }
    assert(spec_diff(s, s) =~= Seq::<ChangeEvent>::empty());
}

/// How many events of a sequence report a deletion.
pub open spec fn count_deleted(s: Seq<ChangeEvent>) -> nat
    decreases s.len(),
{
    if s.len() == 0 {
        0
    } else {
        (if s.first() is Deleted {
            1nat
        } else {
            0nat
        }) + count_deleted(s.drop_first())
    }
}

/// How many events of a sequence report a creation.
pub open spec fn count_created(s: Seq<ChangeEvent>) -> nat
    decreases s.len(),
{
    if s.len() == 0 {
        0
    } else {
        (if s.first() is Created {
            1nat
        } else {
            0nat
        }) + count_created(s.drop_first())
    }
}

/// Over disjoint path sets, the diff reports every old record deleted and
/// every new record created, and nothing else.
pub proof fn lemma_diff_disjoint(old: Seq<FileData>, new: Seq<FileData>)
    requires
        forall|i: int, j: int|
            0 <= i < old.len() && 0 <= j < new.len() ==> old[i].path@ != new[j].path@,
    ensures
        spec_diff(old, new).len() == old.len() + new.len(),
        count_deleted(spec_diff(old, new)) == old.len(),
        count_created(spec_diff(old, new)) == new.len(),
    decreases old.len() + new.len(),
{
    let d = spec_diff(old, new);
    if old.len() > 0 && new.len() > 0 {
        lemma_lex_trichotomy(old.first().path@, new.first().path@);
        if crate::order::lex_lt(old.first().path@, new.first().path@) {
            assert forall|i: int, j: int|
                0 <= i < old.drop_first().len() && 0 <= j < new.len() implies old.drop_first()[i].path@
                != new[j].path@ by {
                assert(old.drop_first()[i] == old[i + 1]);
            }
            lemma_diff_disjoint(old.drop_first(), new);
            let rest = spec_diff(old.drop_first(), new);
            assert(d.drop_first() =~= rest);
        } else {
            assert forall|i: int, j: int|
                0 <= i < old.len() && 0 <= j < new.drop_first().len() implies old[i].path@
                != new.drop_first()[j].path@ by {
                assert(new.drop_first()[j] == new[j + 1]);
            }
            lemma_diff_disjoint(old, new.drop_first());
            let rest = spec_diff(old, new.drop_first());
            assert(d.drop_first() =~= rest);
        }
    } else if old.len() > 0 {
        assert forall|i: int, j: int|
            0 <= i < old.drop_first().len() && 0 <= j < new.len() implies old.drop_first()[i].path@
            != new[j].path@ by {
            assert(old.drop_first()[i] == old[i + 1]);
        }
        lemma_diff_disjoint(old.drop_first(), new);
        assert(d.drop_first() =~= spec_diff(old.drop_first(), new));
    } else if new.len() > 0 {
        assert forall|i: int, j: int|
            0 <= i < old.len() && 0 <= j < new.drop_first().len() implies old[i].path@
            != new.drop_first()[j].path@ by {
            assert(new.drop_first()[j] == new[j + 1]);
        }
        lemma_diff_disjoint(old, new.drop_first());
        assert(d.drop_first() =~= spec_diff(old, new.drop_first()));
    }
}

/// Reconciliation makes the operator's argument order irrelevant: when the
/// snapshot passed as "old" was captured strictly later than the one passed
/// as "new", swapping the two arguments yields the identical comparison
/// artifact.
pub proof fn lemma_reconcile_swap(a: Seq<Seq<char>>, b: Seq<Seq<char>>)
    requires
        spec_parse_utc(spec_time_line(a)) is Some,
        spec_parse_utc(spec_time_line(b)) is Some,
        spec_parse_utc(spec_time_line(b))->Some_0.spec_lt(
            spec_parse_utc(spec_time_line(a))->Some_0,
        ),
    ensures
        spec_compare_snapshots(a, b) == spec_compare_snapshots(b, a),
{
}

/// A path present in the old snapshot and absent from the new one is
/// reported deleted, with its old digest, however the records are ordered:
/// absence from the new snapshot alone decides, whether or not the digest
/// ever changed.
pub proof fn lemma_absent_path_is_deleted(old: Seq<FileData>, new: Seq<FileData>, i: int)
    requires
        0 <= i < old.len(),
        forall|j: int| 0 <= j < new.len() ==> new[j].path@ != old[i].path@,
    ensures
        spec_diff(old, new).contains(
            ChangeEvent::Deleted { path: old[i].path, old_hash: old[i].hash },
        ),
    decreases old.len() + new.len(),
{
    let ev = ChangeEvent::Deleted { path: old[i].path, old_hash: old[i].hash };
    let d = spec_diff(old, new);
    if new.len() == 0 {
        if i == 0 {
            assert(d[0] == ev);
        } else {
            assert(old.drop_first()[i - 1] == old[i]);
            lemma_absent_path_is_deleted(old.drop_first(), new, i - 1);
            let rest = spec_diff(old.drop_first(), new);
            let k = choose|k: int| 0 <= k < rest.len() && rest[k] == ev;
            assert(d[k + 1] == ev);
        }
    } else {
        lemma_lex_trichotomy(old[0].path@, new[0].path@);
        if crate::order::lex_lt(old[0].path@, new[0].path@) {
            if i == 0 {
                assert(d[0] == ev);
            } else {
                assert(old.drop_first()[i - 1] == old[i]);
                lemma_absent_path_is_deleted(old.drop_first(), new, i - 1);
                let rest = spec_diff(old.drop_first(), new);
                let k = choose|k: int| 0 <= k < rest.len() && rest[k] == ev;
                assert(d[k + 1] == ev);
            }
        } else if crate::order::lex_lt(new[0].path@, old[0].path@) {
            assert forall|j: int| 0 <= j < new.drop_first().len() implies new.drop_first()[j].path@
                != old[i].path@ by {
                assert(new.drop_first()[j] == new[j + 1]);
            }
            lemma_absent_path_is_deleted(old, new.drop_first(), i);
            let rest = spec_diff(old, new.drop_first());
            let k = choose|k: int| 0 <= k < rest.len() && rest[k] == ev;
            assert(d[k + 1] == ev);
        } else {
            // equal heads: the entry at i cannot be the head, whose path the
            // new snapshot holds
            assert(i != 0);
            assert(old.drop_first()[i - 1] == old[i]);
            assert forall|j: int| 0 <= j < new.drop_first().len() implies new.drop_first()[j].path@
                != old.drop_first()[i - 1].path@ by {
                assert(new.drop_first()[j] == new[j + 1]);
            }
            lemma_absent_path_is_deleted(old.drop_first(), new.drop_first(), i - 1);
            let rest = spec_diff(old.drop_first(), new.drop_first());
            let k = choose|k: int| 0 <= k < rest.len() && rest[k] == ev;
            if hash_view(old[0].hash) == hash_view(new[0].hash) {
                assert(d[k] == ev);
            } else {
                assert(d[k + 1] == ev);
            }
        }
    }
}

/// Parsing one snapshot line inverts serialization: a record whose path
/// holds no comma and whose digest, if present, holds no comma, carries no
/// surrounding whitespace and is not the absent-digest mark itself, comes
/// back exactly from its serialized line, trailing newline included — in
/// particular, a record written with an absent digest parses back to an
/// absent digest.
pub proof fn lemma_parse_inverts_to_string(fd: FileData)
    requires
        forall|j: int| 0 <= j < fd.path@.len() ==> fd.path@[j] != ',',
        match hash_view(fd.hash) {
            Some(h) => h != "None"@ && spec_trim(h) == h && (forall|j: int|
                0 <= j < h.len() ==> h[j] != ','),
            None => true,
        },
    ensures
        spec_parse_filedata(fd.path@ + ","@ + spec_hash_column(fd.hash) + "\n"@) == Some(
            (fd.path@, hash_view(fd.hash)),
        ),
{
    reveal_strlit(",");
    reveal_strlit("\n");
    reveal_strlit("None");
    let col = spec_hash_column(fd.hash);
    let line = fd.path@ + ","@ + col + "\n"@;
    let plen = fd.path@.len() as int;
    assert(line[plen] == ',');
    assert(line.len() > 0);
    lemma_find_char_exact(line, ',', 0, plen);
    assert(line.subrange(0, plen) =~= fd.path@);
    assert(spec_trim("None"@) == "None"@) by {
        assert(!spec_is_whitespace('N'));
        assert(!spec_is_whitespace('e'));
        assert(spec_trim_start("None"@) == "None"@);
        assert(spec_trim_end("None"@) == "None"@);
    }
    assert forall|j: int| plen + 1 <= j < line.len() implies line[j] != ',' by {
        if j < plen + 1 + col.len() {
            assert(line[j] == col[j - plen - 1]);
            match hash_view(fd.hash) {
                Some(h) => {
                    assert(col == h);
                },
                None => {
                    assert(col == "None"@);
                },
            }
        } else {
            assert(line[j] == '\n');
        }
    }
    if find_char(line, ',', plen + 1) is Some {
        lemma_find_char_props(line, ',', plen + 1);
        assert(false);
    }
    assert(line.subrange(plen + 1, line.len() as int) =~= col + seq!['\n']) by {
        assert("\n"@ =~= seq!['\n']);
    }
    match hash_view(fd.hash) {
        Some(h) => {
            lemma_trim_appended_newline(h);
        },
        None => {
            lemma_trim_appended_newline("None"@);
        },
    }
}

} // verus!
