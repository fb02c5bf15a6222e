//! What copying a set of files into a new worktree amounted to.
use vstd::prelude::*;

use crate::types::CopyOutcome;

verus! {

/// Running totals of a multi-file copy.
#[derive(Debug, Clone, Copy)]
pub struct CopyTally {
    /// Bytes written by plain copies.
    pub total_bytes: u64,
    /// Whether some file was copied on write.
    pub any_reflinked: bool,
}

impl CopyTally {
    /// Nothing copied yet.
    pub fn new() -> (t: Self)
        ensures
            t.total_bytes == 0,
            !t.any_reflinked,
    {
        CopyTally { total_bytes: 0, any_reflinked: false }
    }

    /// Count one file's copy.
    pub fn add(&mut self, o: CopyOutcome)
        requires
            o matches CopyOutcome::StandardCopy { bytes_written } ==> old(self).total_bytes + bytes_written <= u64::MAX,
        ensures
            final(self).total_bytes == old(self).total_bytes + match o {
                CopyOutcome::StandardCopy { bytes_written } => bytes_written as int,
                _ => 0,
            },
            final(self).any_reflinked == (old(self).any_reflinked || o == CopyOutcome::Reflinked),
    {
        match o {
            CopyOutcome::Reflinked => {
                self.any_reflinked = true;
            },
            CopyOutcome::StandardCopy { bytes_written } => {
                self.total_bytes = self.total_bytes + bytes_written;
            },
            CopyOutcome::NoCopy => {},
        }
    }

    /// The outcome of the whole copy: nothing when nothing was written or
    /// reflinked, reflinked when only reflinks happened, else a plain copy
    /// of the bytes written.
    pub fn outcome(&self) -> (o: CopyOutcome)
        ensures
            o == (if self.total_bytes == 0 && !self.any_reflinked {
                CopyOutcome::NoCopy
            } else if self.any_reflinked && self.total_bytes == 0 {
                CopyOutcome::Reflinked
            } else {
                CopyOutcome::StandardCopy { bytes_written: self.total_bytes }
            }),
    {
        if self.total_bytes == 0 && !self.any_reflinked {
            CopyOutcome::NoCopy
        } else if self.any_reflinked && self.total_bytes == 0 {
            CopyOutcome::Reflinked
        } else {
            CopyOutcome::StandardCopy { bytes_written: self.total_bytes }
        }
    }
}

} // verus!
