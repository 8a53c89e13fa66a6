//! The error taxonomy surfaced by storage backends and by replay.

use vstd::prelude::*;

verus! {

/// Declares `std::io::Error` so that `Error::Io` can carry the lower-level
/// error a filesystem-backed `Storage` implementation ran into. The type is
/// opaque here; the store never inspects it.
#[verifier::external_type_specification]
#[verifier::external_body]
pub struct ExIoError(std::io::Error);

/// The possible errors that can occur when interacting with storage.
#[derive(Debug)]
pub enum Error {
    /// The object failed to be packed for storage.
    ObjectPack,
    /// The object failed to be unpacked from storage.
    ObjectUnpack,
    /// The transaction failed to be packed for storage.
    TransactionPack,
    /// The transaction failed to be unpacked from storage.
    TransactionUnpack,
    /// The packed transaction's key is invalid.
    TransactionUnregistered,
    /// A generic IO error.
    Io(std::io::Error),
}

impl From<std::io::Error> for Error {
    fn from(err: std::io::Error) -> (r: Error) {
        Error::Io(err)
    }
}

impl vstd::std_specs::convert::FromSpecImpl<std::io::Error> for Error {
    open spec fn obeys_from_spec() -> bool {
        true
    }

    open spec fn from_spec(err: std::io::Error) -> Error {
        Error::Io(err)
    }
}

} // verus!
