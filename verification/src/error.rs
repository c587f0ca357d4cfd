//! The store's error taxonomy. A caller can branch on the kind alone:
//! `Concurrency` means re-read and retry, `NotFound` means no record,
//! everything else is a failure to surface.

use vstd::prelude::*;

verus! {

/// A failure of the store, classified into domain-meaningful kinds.
#[derive(Debug, Clone)]
pub enum Error {
    /// No record is stored under the key.
    NotFound,
    /// The version guard of a conditional write failed: another writer won.
    Concurrency,
    /// Stored attributes are present but fail to parse or convert; the
    /// payload names the offending field.
    Malformed(String),
    /// A communication or service-side failure; the payload carries the
    /// underlying cause for diagnostics.
    Transport(String),
    /// The domain payload failed to encode or decode as structured text.
    Serialization(String),
}

/// The mathematical shape of an error.
#[verifier::ext_equal]
pub ghost enum ErrorV {
    NotFound,
    Concurrency,
    Malformed(Seq<char>),
    Transport(Seq<char>),
    Serialization(Seq<char>),
}

impl View for Error {
    type V = ErrorV;

    open spec fn view(&self) -> ErrorV {
        match self {
            Error::NotFound => ErrorV::NotFound,
            Error::Concurrency => ErrorV::Concurrency,
            Error::Malformed(f) => ErrorV::Malformed(f@),
            Error::Transport(c) => ErrorV::Transport(c@),
            Error::Serialization(c) => ErrorV::Serialization(c@),
        }
    }
}

} // verus!
