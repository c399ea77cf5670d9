//! What can stop a run.

use vstd::prelude::*;
use crate::text::{decimal_nat, decimal_of};

verus! {

/// Why a run stopped. A run that stops hands out nothing: neither rows nor
/// clips.
#[derive(Debug, Clone, Copy, PartialEq, Eq, Structural)]
pub enum SyncError {
    /// The catalog item at this position is not in the ledger yet, and its
    /// publish time is no RFC 3339 timestamp, so its year is not known.
    UnparseableTimestamp { item: usize },
    /// The sheet row at this position has fewer than seven cells.
    MalformedRow { row: usize },
    /// The date-prefix pattern is not a regular expression that compiles.
    InvalidPattern,
}

impl SyncError {
    /// The sentence that tells a person what went wrong, and where.
    pub open spec fn description(self) -> Seq<char> {
        match self {
            SyncError::UnparseableTimestamp { item } => "catalog item "@ + decimal_nat(item as nat)
                + ": the publish time is not an RFC 3339 timestamp"@,
            SyncError::MalformedRow { row } => "sheet row "@ + decimal_nat(row as nat)
                + ": fewer than 7 cells"@,
            SyncError::InvalidPattern => "the date-prefix pattern is not a regular expression"@,
        }
    }

    /// Says what went wrong, and where. Positions count from zero.
    pub fn describe(&self) -> (text: String)
        ensures
            text@ == self.description(),
    {
        match self {
            SyncError::UnparseableTimestamp { item } => {
                let mut text = String::from_str("catalog item ");
                text.append(decimal_of(*item as u64).as_str());
                text.append(": the publish time is not an RFC 3339 timestamp");
                text
            },
            SyncError::MalformedRow { row } => {
                let mut text = String::from_str("sheet row ");
                text.append(decimal_of(*row as u64).as_str());
                text.append(": fewer than 7 cells");
                text
            },
            SyncError::InvalidPattern => String::from_str(
                "the date-prefix pattern is not a regular expression",
            ),
        }
    }
}

} // verus!
