use vstd::prelude::*;

verus! {

/// The error taxonomy of the library: a malformed entity shape, a record
/// that cannot be encoded, a stored payload that does not decode as the
/// expected entity, a storage-engine fault, and a lookup whose key had to
/// be present but was not.
#[derive(Debug, Clone, Copy, PartialEq, Eq, Structural)]
pub enum HgError {
    ValidationError,
    SerializationError,
    DeserializationError,
    StorageError,
    NotFoundError,
}

} // verus!
