//! The limits that bound a walk over a directory tree.

use crate::error::Error;
use vstd::prelude::*;

verus! {

/// The two bounds of a walk: how deep directories may nest and how many
/// entries the whole tree may hold.
#[derive(Clone, Copy, Debug)]
pub struct DropConfig {
    /// The deepest level a directory may sit at; the root sits at level 1.
    pub dir_depth_limit: usize,
    /// The largest number of files and directories below the root.
    pub transfer_file_limit: usize,
}

impl DropConfig {
    /// Limits with the given bounds.
    pub fn new(dir_depth_limit: usize, transfer_file_limit: usize) -> (config: DropConfig)
        ensures
            config.dir_depth_limit == dir_depth_limit,
            config.transfer_file_limit == transfer_file_limit,
    {
        DropConfig { dir_depth_limit, transfer_file_limit }
    }

    /// Whether a directory at level `depth` may hold a subdirectory.
    pub open spec fn may_descend(&self, depth: nat) -> bool {
        depth + 1 <= self.dir_depth_limit
    }

    /// Whether one more entry may be counted after `breadth` entries.
    pub open spec fn may_count(&self, breadth: nat) -> bool {
        breadth + 1 <= self.transfer_file_limit
    }

    /// Steps from a directory at level `depth` into one of its
    /// subdirectories: the subdirectory's level, or the refusal where that
    /// level is over the limit.
    pub fn descend(&self, depth: usize) -> (level: Result<usize, Error>)
        ensures
            self.may_descend(depth as nat) ==> level == Ok::<usize, Error>((depth + 1) as usize),
            !self.may_descend(depth as nat) ==> level == Err::<usize, Error>(
                Error::TransferLimitsExceeded,
            ),
    {
        if depth < self.dir_depth_limit {
            Ok(depth + 1)
        } else {
            Err(Error::TransferLimitsExceeded)
        }
    }

    /// Counts one more file or directory after `breadth` of them: the new
    /// count, or the refusal where it is over the limit.
    pub fn count(&self, breadth: usize) -> (count: Result<usize, Error>)
        ensures
            self.may_count(breadth as nat) ==> count == Ok::<usize, Error>((breadth + 1) as usize),
            !self.may_count(breadth as nat) ==> count == Err::<usize, Error>(
                Error::TransferLimitsExceeded,
            ),
    {
        if breadth < self.transfer_file_limit {
            Ok(breadth + 1)
        } else {
            Err(Error::TransferLimitsExceeded)
        }
    }
}

} // verus!
