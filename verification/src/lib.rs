//! Inventory of executable files: scan a tree for executables, fingerprint
//! each with a SHA-256 content digest, and diff two such inventories by a
//! sorted merge over their paths.

use vstd::prelude::*;

pub mod args;
pub mod diff;
pub mod hashing;
pub mod laws;
pub mod order;
pub mod record;
pub mod scan;
pub mod timefmt;

verus! {

/// The failures the library and its callers distinguish: bad command-line
/// arguments, a snapshot whose mandatory capture timestamp cannot be parsed,
/// and a fatal I/O failure (carried as the failing operation's message).
#[derive(Debug)]
pub enum Error {
    ArgErr,
    MissingTime,
    IoErr(String),
}

} // verus!
