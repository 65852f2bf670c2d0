//! The per-actor bookkeeping ledger: a map from version to what is known of
//! that version's commit.

use vstd::prelude::*;

use crate::change::Timestamp;

verus! {

/// What is known of one committed version. Versions committed by the local
/// write path are always current; other states belong to the peer-receive
/// path.
#[derive(Clone, Copy, Debug, PartialEq, Eq, Structural)]
pub enum KnownDbVersion {
    Current { db_version: i64, last_seq: i64, ts: Timestamp },
}

/// One actor's ledger. Versions form a contiguous increasing sequence
/// starting at 1, each written exactly once and never deleted, so version `v`
/// is held at index `v - 1`.
pub struct BookedVersions {
    pub entries: Vec<KnownDbVersion>,
}

impl BookedVersions {
    /// An empty ledger: no version has been allocated yet.
    pub fn new() -> (r: BookedVersions)
        ensures
            r.entries@.len() == 0,
    {
        BookedVersions { entries: Vec::new() }
    }

    /// The last allocated version, or `None` when none has been.
    pub fn last(&self) -> (r: Option<u64>)
        ensures
            self.entries@.len() == 0 ==> r is None,
            self.entries@.len() > 0 ==> r == Some(self.entries@.len() as u64),
    {
        if self.entries.len() == 0 {
            None
        } else {
            Some(self.entries.len() as u64)
        }
    }

    /// Records a newly committed version. Versions are allocated
    /// contiguously, so the inserted version must be the successor of the
    /// last one.
    pub fn insert(&mut self, version: u64, known: KnownDbVersion)
        requires
            version == old(self).entries@.len() + 1,
        ensures
            final(self).entries@ == old(self).entries@.push(known),
    {
        self.entries.push(known);
    }

    /// What is known of `version`: its commit metadata when it has been
    /// committed, `None` otherwise.
    pub fn get(&self, version: u64) -> (r: Option<KnownDbVersion>)
        ensures
            1 <= version <= self.entries@.len() ==> r == Some(self.entries@[version - 1]),
            !(1 <= version <= self.entries@.len()) ==> r is None,
    {
        if version >= 1 && version <= self.entries.len() as u64 {
            Some(self.entries[(version - 1) as usize])
        } else {
            None
        }
    }
}

} // verus!
