//! Where a listing comes from.

use vstd::prelude::*;

verus! {

/// The place that a listing is read from: a file kept from an earlier run,
/// or the service itself.
#[derive(Debug, PartialEq, Eq)]
pub enum Source {
    Sample { file: String },
    Remote { url: String },
}

/// A `Source` as the contracts speak of it.
pub enum Origin {
    Sample { file: Seq<char> },
    Remote { url: Seq<char> },
}

impl View for Source {
    type V = Origin;

    open spec fn view(&self) -> Origin {
        match self {
            Source::Sample { file } => Origin::Sample { file: file@ },
            Source::Remote { url } => Origin::Remote { url: url@ },
        }
    }
}

} // verus!
