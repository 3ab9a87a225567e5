//! The round trips that a program asks of its host, and what it decides on
//! each answer.
//!
//! The library performs no round trip itself. It says which one is due, as a
//! value that holds what must be handed to the host, and it takes the host's
//! answer as a plain value. A write and an invocation are one round trip
//! each. A read is two: the length is asked for first, and the bytes are
//! asked for only when that length is not negative.

use crate::errors::StorageError;
use crate::program::{Value, ValueModel};
use crate::store::Store;
use vstd::prelude::*;

verus! {

/// A write of `value` under `key`, in the storage of program `program_id`.
#[derive(Debug, PartialEq, Eq)]
pub struct StoreBytes {
    pub program_id: u64,
    pub key: Vec<u8>,
    pub value: Vec<u8>,
}

impl StoreBytes {
    /// What the host's status code means: zero is success, and any other
    /// status is a failed write.
    pub fn finish(&self, status: i32) -> (out: Result<(), StorageError>)
        ensures
            status == 0 ==> out == Ok::<(), StorageError>(()),
            status != 0 ==> out == Err::<(), StorageError>(StorageError::HostStoreError),
    {
        if status == 0 {
            Ok(())
        } else {
            Err(StorageError::HostStoreError)
        }
    }
}

/// A question for the length of what is stored under `key`, in the storage
/// of program `program_id`.
#[derive(Debug, PartialEq, Eq)]
pub struct GetBytesLen {
    pub program_id: u64,
    pub key: Vec<u8>,
}

/// What a `GetBytes` holds, as mathematics.
pub ghost struct GetBytesModel {
    pub program_id: u64,
    pub key: Seq<u8>,
    pub len: i32,
}

/// A request for the bytes stored under a key, `len` of them, which is the
/// length that the host reported for that key and is never negative.
#[derive(Debug, PartialEq, Eq)]
pub struct GetBytes {
    program_id: u64,
    key: Vec<u8>,
    len: i32,
}

impl View for GetBytes {
    type V = GetBytesModel;

    closed spec fn view(&self) -> GetBytesModel {
        GetBytesModel { program_id: self.program_id, key: self.key@, len: self.len }
    }
}

impl GetBytesLen {
    /// What the reported length means. A negative length says that there is
    /// nothing to read, or that the host failed: no request for bytes is
    /// made of it. Any other length gives the request for that many bytes
    /// under the same key.
    pub fn finish(self, len: i32) -> (out: Result<GetBytes, StorageError>)
        ensures
            len < 0 ==> out == Err::<GetBytes, StorageError>(StorageError::NotFound),
            len >= 0 ==> out is Ok && out->Ok_0@ == (GetBytesModel {
                program_id: self.program_id,
                key: self.key@,
                len,
            }),
    {
        if len < 0 {
            Err(StorageError::NotFound)
        } else {
            Ok(GetBytes { program_id: self.program_id, key: self.key, len })
        }
    }
}

impl GetBytes {
    #[verifier::type_invariant]
    spec fn len_is_not_negative(&self) -> bool {
        self.len >= 0
    }

    /// The program whose storage is read.
    pub fn program_id(&self) -> (out: u64)
        ensures
            out == self@.program_id,
    {
        self.program_id
    }

    /// The key that is read.
    pub fn key(&self) -> (out: &[u8])
        ensures
            out@ == self@.key,
    {
        self.key.as_slice()
    }

    /// The number of bytes that the host declared and is asked for.
    pub fn len(&self) -> (out: i32)
        ensures
            out == self@.len,
            out >= 0,
    {
        proof {
            use_type_invariant(self);
        }
        self.len
    }

    /// What the buffer that the host handed over means. A buffer that has
    /// not the declared length is refused; one that has it is read as a
    /// stored value.
    pub fn finish<T: Store>(self, bytes: Vec<u8>) -> (out: Result<T, StorageError>)
        ensures
            bytes@.len() != self@.len ==> out == Err::<T, StorageError>(
                StorageError::InvalidByteLength(bytes@.len() as usize),
            ),
            bytes@.len() == self@.len ==> T::restores(bytes@, out),
    {
        proof {
            use_type_invariant(&self);
        }
        if bytes.len() > i32::MAX as usize || bytes.len() as i32 != self.len {
            return Err(StorageError::InvalidByteLength(bytes.len()));
        }
        T::from_bytes(bytes.as_slice())
    }
}

/// A call of method `method` of program `call_program_id` by program
/// `program_id`, with the packed arguments `args`.
#[derive(Debug, PartialEq, Eq)]
pub struct InvokeProgram {
    pub program_id: u64,
    pub call_program_id: u64,
    pub method: Vec<u8>,
    pub args: Vec<u8>,
}

impl InvokeProgram {
    /// The value that the number returned by the call stands for: an
    /// integer.
    pub fn finish(&self, result: i64) -> (out: Value)
        ensures
            out@ == ValueModel::Integer(result),
    {
        Value::Integer(result)
    }
}

} // verus!
