//! The ways in which storing, loading and decoding can fail.

use vstd::prelude::*;

verus! {

/// A recoverable failure of a storage or decoding operation.
#[derive(Clone, Copy, Debug, PartialEq, Eq, Structural)]
pub enum StorageError {
    /// The host answered a write with a status other than zero.
    HostStoreError,
    /// The host reported a negative length for a key: nothing can be read.
    NotFound,
    /// The host handed over a buffer of this many bytes, which is not the
    /// length it had declared.
    InvalidByteLength(usize),
    /// The bytes have no tag, or the text after the tag is not UTF-8.
    InvalidEncoding,
    /// The bytes after the tag do not have the size that the tag fixes.
    MalformedPayload,
    /// The first byte is not the tag of any kind of value.
    UnknownTag(u8),
    /// A value was asked for as a kind that it does not hold.
    TypeMismatch,
}

} // verus!
