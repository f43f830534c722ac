//! The scanner's decision logic: which files qualify (any of the three
//! execute permission bits), and how a traversal's findings become a
//! snapshot's record sequence — qualifying files only, sorted by path.

use vstd::prelude::*;

use crate::order::{sorted_by_path, sort_by_path};
use crate::record::FileData;

verus! {

/// What a traversal reports of one regular file: its canonicalized path, its
/// permission mode bits, and its content digest where one was computed (a
/// file that fails to hash is still reported, digest absent).
pub struct ScannedFile {
    pub path: String,
    pub mode: u32,
    pub hash: Option<String>,
}

/// A file qualifies when any of the owner-, group- or other-execute bits of
/// its mode is set.
pub open spec fn spec_is_exe(mode: u32) -> bool {
    mode & 0o111u32 != 0
}

/// The snapshot record a qualifying file becomes.
pub open spec fn spec_record(e: ScannedFile) -> FileData {
    FileData { path: e.path, hash: e.hash }
}

/// The records of a traversal's findings, in traversal order: one per
/// qualifying file, none for the rest.
pub open spec fn spec_scan(entries: Seq<ScannedFile>) -> Seq<FileData>
    decreases entries.len(),
{
    if entries.len() == 0 {
        Seq::empty()
    } else {
        let rest = spec_scan(entries.drop_first());
        if spec_is_exe(entries.first().mode) {
            seq![spec_record(entries.first())] + rest
        } else {
            rest
        }
    }
}

/// Holds all of the data for running the scan mode.
#[derive(Debug)]
pub struct ScanArgs {
    pub dir: String,
    pub out: String,
}

impl ScanArgs {
    /// Whether the given bit of a mode word is set.
    pub fn check_bit(value: u32, bit: u8) -> (r: bool)
        requires
            bit < 32,
        ensures
            r == (value & (1u32 << (bit as u32)) != 0),
    {
        (value & (1u32 << (bit as u32))) > 0
    }

    /// The executable predicate: any of the owner-execute, group-execute or
    /// other-execute permission bits.
    pub fn is_exe(mode: u32) -> (r: bool)
        ensures
            r == spec_is_exe(mode),
    {
        proof {
            assert((mode & (1u32 << 6u32) != 0 || mode & (1u32 << 3u32) != 0 || mode & (1u32
                << 0u32) != 0) == (mode & 0o111u32 != 0)) by (bit_vector);
        }
        // user x
        if ScanArgs::check_bit(mode, 6) {
            return true;
        }
        // group x
        if ScanArgs::check_bit(mode, 3) {
            return true;
        }
        // other x
        if ScanArgs::check_bit(mode, 0) {
            return true;
        }
        false
    }

    /// Turns a traversal's findings into the snapshot's record sequence:
    /// exactly the qualifying files' records, sorted ascending by path.
    pub fn scan(entries: Vec<ScannedFile>) -> (r: Vec<FileData>)
        ensures
            sorted_by_path(r@),
            r@.to_multiset() == spec_scan(entries@).to_multiset(),
    {
        let ghost entries0 = entries@;
        let mut rest = entries;
        let mut files: Vec<FileData> = Vec::new();
        proof {
            assert(files@ + spec_scan(rest@) =~= spec_scan(entries0));
        }
        while rest.len() > 0
            invariant
                spec_scan(entries0) == files@ + spec_scan(rest@),
            decreases rest@.len(),
        {
            let ghost restpre = rest@;
            let ghost filespre = files@;
            let e = rest.remove(0);
            proof {
                assert(rest@ =~= restpre.drop_first());
                assert(e == restpre.first());
            }
            let ScannedFile { path, mode, hash } = e;
            if ScanArgs::is_exe(mode) {
                files.push(FileData { path, hash });
                proof {
                    assert(files@ =~= filespre.push(spec_record(restpre.first())));
                    assert(filespre.push(spec_record(restpre.first())) + spec_scan(rest@)
                        =~= filespre + (seq![spec_record(restpre.first())] + spec_scan(rest@)));
                }
            }
        }
        proof {
            assert(rest@ =~= Seq::<ScannedFile>::empty());
            assert(files@ + spec_scan(rest@) =~= files@);
        }
        sort_by_path(&mut files);
        files
    }
}

} // verus!
