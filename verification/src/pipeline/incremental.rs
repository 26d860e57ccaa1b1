//! File-level change detection for incremental reindexing.
//!
//! The BLAKE3 hash of a file's contents is the ground truth: a file whose
//! hash matches the stored record is unchanged whatever its modification
//! time says; one whose hash differs, or that cannot be read, is modified;
//! one without a record is new.

use vstd::prelude::*;
use crate::store::{FileRecord, blake3_digest, blake3_hash};

verus! {

/// Classification of a file relative to the previous index run.
#[derive(Debug, Clone, Copy, PartialEq, Eq, Structural)]
pub enum FileStatus {
    /// No previous record: indexed in full.
    New,
    /// Same content hash: parse and queries are skipped.
    Unchanged,
    /// Different content hash: stale nodes are swept, then reindexed.
    Modified,
}

/// The status of a file with stored hash `prev` (if any) and current
/// contents `contents` (`None` when it cannot be read).
pub open spec fn spec_classify(prev: Option<Seq<u8>>, contents: Option<Seq<u8>>) -> FileStatus {
    match prev {
        None => FileStatus::New,
        Some(h) => match contents {
            None => FileStatus::Modified,
            Some(c) => if blake3_digest(c) == h {
                FileStatus::Unchanged
            } else {
                FileStatus::Modified
            },
        },
    }
}

fn same_digest(a: &[u8; 32], b: &[u8; 32]) -> (r: bool)
    ensures
        r == (a@ == b@),
{
    let mut i: usize = 0;
    while i < 32
        invariant
            i <= 32,
            a@.len() == 32,
            b@.len() == 32,
            forall|k: int| 0 <= k < i ==> a@[k] == b@[k],
        decreases 32 - i,
    {
        if a[i] != b[i] {
            return false;
        }
        i = i + 1;
    }
    assert(a@ =~= b@);
    true
}

/// Classifies one file against its previous record.
pub fn classify(prev: Option<&FileRecord>, contents: Option<&[u8]>) -> (r: FileStatus)
    ensures
        r == spec_classify(
            match prev {
                Some(p) => Some(p.blake3@),
                None => None,
            },
            match contents {
                Some(c) => Some(c@),
                None => None,
            },
        ),
{
    let prev = match prev {
        None => {
            return FileStatus::New;
        },
        Some(p) => p,
    };
    let bytes = match contents {
        None => {
            return FileStatus::Modified;
        },
        Some(b) => b,
    };
    let current = blake3_hash(bytes);
    if same_digest(&current, &prev.blake3) {
        FileStatus::Unchanged
    } else {
        FileStatus::Modified
    }
}

/// A fresh record for a file: the hash of its contents, its modification
/// time and its language name; `None` when the file cannot be read.
pub fn file_record(contents: Option<&[u8]>, mtime_ns: u64, lang_str: &str) -> (r: Option<FileRecord>)
    ensures
        match r {
            Some(f) => contents matches Some(c) && f.blake3@ == blake3_digest(c@) && f.mtime_ns == mtime_ns
                && f.lang@ == lang_str@,
            None => contents is None,
        },
{
    match contents {
        None => None,
        Some(bytes) => Some(FileRecord { blake3: blake3_hash(bytes), mtime_ns, lang: String::from_str(lang_str) }),
    }
}

} // verus!
