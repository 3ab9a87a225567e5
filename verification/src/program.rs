//! The tagged value: what a program stores, loads and hands to other
//! programs, and the bytes that stand for it.
//!
//! A value is written as one tag byte and a payload. The payload of an
//! integer and of a program handle is eight bytes, most significant first;
//! that of an address is its thirty-two bytes; that of a text is its UTF-8
//! bytes, as many as there are.

use crate::endian::{
    be_bytes_i64, be_bytes_u64, i64_be_bytes, i64_from_be_bytes, i64_to_be_bytes,
    lemma_be_u64_round_trip, lemma_i64_u64_round_trip, lemma_u64_be_round_trip, u64_be_bytes,
    u64_from_be_bytes, u64_to_be_bytes,
};
use crate::errors::StorageError;
use crate::store::{stored_bytes, tagged_bytes, to_string, ProgramContext, Store, Tag};
use crate::types::Address;
use std::borrow::Cow;
use vstd::prelude::*;
use vstd::slice::{slice_subrange, slice_to_vec};
use vstd::std_specs::convert::FromSpecImpl;
use vstd::utf8::{
    decode_utf8, decode_utf8_encode_utf8, encode_utf8, encode_utf8_decode_utf8,
    encode_utf8_valid_utf8, valid_utf8,
};

verus! {

/// The tag byte of an integer.
pub const INTEGER_TAG: u8 = 1;

/// The tag byte of a text.
pub const TEXT_TAG: u8 = 2;

/// The tag byte of an address.
pub const ADDRESS_TAG: u8 = 3;

/// The tag byte of a program handle.
pub const PROGRAM_TAG: u8 = 4;

/// A tagged value: an integer, a text, an address or a program handle.
#[derive(Clone, Debug, PartialEq, Eq)]
pub enum Value {
    Integer(i64),
    Text(String),
    FixedAddress(Address),
    ProgramHandleValue(ProgramContext),
}

/// What a `Value` holds, as mathematics.
pub ghost enum ValueModel {
    Integer(i64),
    Text(Seq<char>),
    FixedAddress(Seq<u8>),
    ProgramHandleValue(u64),
}

impl View for Value {
    type V = ValueModel;

    open spec fn view(&self) -> ValueModel {
        match self {
            Value::Integer(i) => ValueModel::Integer(*i),
            Value::Text(s) => ValueModel::Text(s@),
            Value::FixedAddress(a) => ValueModel::FixedAddress(a@),
            Value::ProgramHandleValue(p) => ValueModel::ProgramHandleValue(p.program_id),
        }
    }
}

impl ValueModel {
    /// An address holds thirty-two bytes; the other kinds have no condition.
    pub open spec fn wf(self) -> bool {
        self matches ValueModel::FixedAddress(a) ==> a.len() == 32
    }

    /// The tag byte of the value's kind.
    pub open spec fn tag(self) -> u8 {
        match self {
            ValueModel::Integer(_) => INTEGER_TAG,
            ValueModel::Text(_) => TEXT_TAG,
            ValueModel::FixedAddress(_) => ADDRESS_TAG,
            ValueModel::ProgramHandleValue(_) => PROGRAM_TAG,
        }
    }

    /// The bytes that follow the tag.
    pub open spec fn payload(self) -> Seq<u8> {
        match self {
            ValueModel::Integer(i) => i64_be_bytes(i),
            ValueModel::Text(s) => encode_utf8(s),
            ValueModel::FixedAddress(a) => a,
            ValueModel::ProgramHandleValue(p) => u64_be_bytes(p),
        }
    }

    /// The tag byte, then the payload.
    pub open spec fn encoding(self) -> Seq<u8> {
        seq![self.tag()] + self.payload()
    }
}

/// The value that a byte sequence stands for, or the reason why it stands
/// for none.
pub open spec fn decoding(bytes: Seq<u8>) -> Result<ValueModel, StorageError> {
    if bytes.len() == 0 {
        Err(StorageError::InvalidEncoding)
    } else {
        let payload = bytes.skip(1);
        if bytes[0] == INTEGER_TAG {
            if payload.len() == 8 {
                Ok(ValueModel::Integer(be_bytes_i64(payload)))
            } else {
                Err(StorageError::MalformedPayload)
            }
        } else if bytes[0] == TEXT_TAG {
            if valid_utf8(payload) {
                Ok(ValueModel::Text(decode_utf8(payload)))
            } else {
                Err(StorageError::InvalidEncoding)
            }
        } else if bytes[0] == ADDRESS_TAG {
            if payload.len() == 32 {
                Ok(ValueModel::FixedAddress(payload))
            } else {
                Err(StorageError::MalformedPayload)
            }
        } else if bytes[0] == PROGRAM_TAG {
            if payload.len() == 8 {
                Ok(ValueModel::ProgramHandleValue(be_bytes_u64(payload)))
            } else {
                Err(StorageError::MalformedPayload)
            }
        } else {
            Err(StorageError::UnknownTag(bytes[0]))
        }
    }
}

/// The model of what a decoder returned.
pub open spec fn decoded_view(out: Result<Value, StorageError>) -> Result<
    ValueModel,
    StorageError,
> {
    match out {
        Ok(v) => Ok(v@),
        Err(e) => Err(e),
    }
}

/// What a value holds is well formed.
pub proof fn lemma_view_wf(value: Value)
    ensures
        value@.wf(),
{
    if let Value::FixedAddress(a) = value {
        a.lemma_len();
    }
}

/// Decoding the encoding of a value gives the value.
pub proof fn lemma_decode_encode(v: ValueModel)
    requires
        v.wf(),
    ensures
        decoding(v.encoding()) == Ok::<ValueModel, StorageError>(v),
{
    let bytes = v.encoding();
    assert(bytes.skip(1) =~= v.payload());
    match v {
        ValueModel::Integer(i) => {
            lemma_u64_be_round_trip(i as u64);
            lemma_i64_u64_round_trip(i, 0);
        },
        ValueModel::Text(s) => {
            encode_utf8_valid_utf8(s);
            encode_utf8_decode_utf8(s);
        },
        ValueModel::FixedAddress(a) => {},
        ValueModel::ProgramHandleValue(p) => {
            lemma_u64_be_round_trip(p);
        },
    }
}

/// What is stored of a value is read back as that value, where the host
/// hands back the bytes that it was handed.
pub proof fn lemma_stored_value_restores(value: Value)
    ensures
        Value::restores(stored_bytes(&value), Ok(value)),
{
    lemma_view_wf(value);
    lemma_decode_encode(value@);
}

/// Bytes that decode to a value are the encoding of that value, which is
/// well formed.
pub proof fn lemma_encode_decode(bytes: Seq<u8>, v: ValueModel)
    requires
        decoding(bytes) == Ok::<ValueModel, StorageError>(v),
    ensures
        v.wf(),
        v.encoding() == bytes,
{
    let payload = bytes.skip(1);
    match v {
        ValueModel::Integer(i) => {
            lemma_be_u64_round_trip(payload);
            lemma_i64_u64_round_trip(0, be_bytes_u64(payload));
        },
        ValueModel::Text(s) => {
            decode_utf8_encode_utf8(payload);
        },
        ValueModel::FixedAddress(a) => {},
        ValueModel::ProgramHandleValue(p) => {
            lemma_be_u64_round_trip(payload);
        },
    }
    assert(v.payload() == payload);
    assert(v.encoding() =~= bytes);
}

/// Two values with the same encoding are the same value.
pub proof fn lemma_encoding_injective(a: ValueModel, b: ValueModel)
    requires
        a.wf(),
        b.wf(),
        a.encoding() == b.encoding(),
    ensures
        a == b,
{
    lemma_decode_encode(a);
    lemma_decode_encode(b);
}

/// A first byte that is the tag of no kind is refused as such, whatever
/// follows it.
pub proof fn lemma_unknown_tag(bytes: Seq<u8>)
    requires
        bytes.len() > 0,
        bytes[0] != INTEGER_TAG,
        bytes[0] != TEXT_TAG,
        bytes[0] != ADDRESS_TAG,
        bytes[0] != PROGRAM_TAG,
    ensures
        decoding(bytes) == Err::<ValueModel, StorageError>(StorageError::UnknownTag(bytes[0])),
{
}

impl Value {
    /// Writes the value as its tag byte and its payload.
    pub fn encode(&self) -> (out: Vec<u8>)
        ensures
            out@ == self@.encoding(),
    {
        tagged_bytes(self)
    }

    /// Reads a value from its tag byte and its payload. Bytes that stand
    /// for no value are refused: with `InvalidEncoding` where there is no
    /// byte at all or the payload of a text is not UTF-8, with
    /// `MalformedPayload` where the payload of an integer, an address or a
    /// program handle has not the size of its kind, and with `UnknownTag`
    /// where the first byte is the tag of no kind.
    pub fn decode(bytes: &[u8]) -> (out: Result<Value, StorageError>)
        ensures
            decoded_view(out) == decoding(bytes@),
    {
        Value::from_bytes(bytes)
    }

    /// The integer that the value holds; `TypeMismatch` where it is of
    /// another kind.
    pub fn into_integer(self) -> (out: Result<i64, StorageError>)
        ensures
            out == match self@ {
                ValueModel::Integer(i) => Ok::<i64, StorageError>(i),
                _ => Err(StorageError::TypeMismatch),
            },
    {
        match self {
            Value::Integer(i) => Ok(i),
            _ => Err(StorageError::TypeMismatch),
        }
    }

    /// The text that the value holds; `TypeMismatch` where it is of another
    /// kind.
    pub fn into_text(self) -> (out: Result<String, StorageError>)
        ensures
            match self@ {
                ValueModel::Text(s) => out is Ok && out->Ok_0@ == s,
                _ => out == Err::<String, StorageError>(StorageError::TypeMismatch),
            },
    {
        match self {
            Value::Text(s) => Ok(s),
            _ => Err(StorageError::TypeMismatch),
        }
    }

    /// The address that the value holds; `TypeMismatch` where it is of
    /// another kind.
    pub fn into_address(self) -> (out: Result<Address, StorageError>)
        ensures
            match self@ {
                ValueModel::FixedAddress(a) => out is Ok && out->Ok_0@ == a,
                _ => out == Err::<Address, StorageError>(StorageError::TypeMismatch),
            },
    {
        match self {
            Value::FixedAddress(a) => Ok(a),
            _ => Err(StorageError::TypeMismatch),
        }
    }

    /// The program handle that the value holds; `TypeMismatch` where it is
    /// of another kind.
    pub fn into_program(self) -> (out: Result<ProgramContext, StorageError>)
        ensures
            out == match self@ {
                ValueModel::ProgramHandleValue(id) => Ok::<ProgramContext, StorageError>(
                    ProgramContext { program_id: id },
                ),
                _ => Err(StorageError::TypeMismatch),
            },
    {
        match self {
            Value::ProgramHandleValue(p) => Ok(p),
            _ => Err(StorageError::TypeMismatch),
        }
    }
}

impl FromSpecImpl<i64> for Value {
    open spec fn obeys_from_spec() -> bool {
        true
    }

    open spec fn from_spec(value: i64) -> Self {
        Value::Integer(value)
    }
}

impl From<i64> for Value {
    fn from(value: i64) -> (out: Self) {
        Value::Integer(value)
    }
}

impl FromSpecImpl<String> for Value {
    open spec fn obeys_from_spec() -> bool {
        true
    }

    open spec fn from_spec(value: String) -> Self {
        Value::Text(value)
    }
}

impl From<String> for Value {
    fn from(value: String) -> (out: Self) {
        Value::Text(value)
    }
}

impl FromSpecImpl<Address> for Value {
    open spec fn obeys_from_spec() -> bool {
        true
    }

    open spec fn from_spec(value: Address) -> Self {
        Value::FixedAddress(value)
    }
}

impl From<Address> for Value {
    fn from(value: Address) -> (out: Self) {
        Value::FixedAddress(value)
    }
}

impl FromSpecImpl<ProgramContext> for Value {
    open spec fn obeys_from_spec() -> bool {
        true
    }

    open spec fn from_spec(value: ProgramContext) -> Self {
        Value::ProgramHandleValue(value)
    }
}

impl From<ProgramContext> for Value {
    fn from(value: ProgramContext) -> (out: Self) {
        Value::ProgramHandleValue(value)
    }
}

impl Store for Value {
    open spec fn stored_payload(&self) -> Seq<u8> {
        self@.payload()
    }

    open spec fn stored_tag(&self) -> u8 {
        self@.tag()
    }

    open spec fn restores(bytes: Seq<u8>, out: Result<Self, StorageError>) -> bool {
        decoded_view(out) == decoding(bytes)
    }

    fn as_bytes(&self) -> (out: Cow<'_, [u8]>) {
        match self {
            Value::Integer(i) => Cow::Owned(i64_to_be_bytes(*i)),
            Value::Text(s) => Cow::Borrowed(s.as_str().as_bytes()),
            Value::FixedAddress(a) => Cow::Borrowed(a.as_bytes()),
            Value::ProgramHandleValue(p) => Cow::Owned(u64_to_be_bytes(p.program_id)),
        }
    }

    fn as_tag(&self) -> (out: Tag) {
        match self {
            Value::Integer(_) => Tag(INTEGER_TAG),
            Value::Text(_) => Tag(TEXT_TAG),
            Value::FixedAddress(_) => Tag(ADDRESS_TAG),
            Value::ProgramHandleValue(_) => Tag(PROGRAM_TAG),
        }
    }

    fn from_bytes(bytes: &[u8]) -> (out: Result<Self, StorageError>) {
        if bytes.len() == 0 {
            return Err(StorageError::InvalidEncoding);
        }
        let tag = bytes[0];
        let payload = slice_subrange(bytes, 1, bytes.len());
        assert(payload@ == bytes@.skip(1));
        if tag == INTEGER_TAG {
            if payload.len() == 8 {
                Ok(Value::Integer(i64_from_be_bytes(payload)))
            } else {
                Err(StorageError::MalformedPayload)
            }
        } else if tag == TEXT_TAG {
            match to_string(slice_to_vec(payload)) {
                Ok(text) => Ok(Value::Text(text)),
                Err(_) => Err(StorageError::InvalidEncoding),
            }
        } else if tag == ADDRESS_TAG {
            if payload.len() == 32 {
                Ok(Value::FixedAddress(Address::from_slice(payload)))
            } else {
                Err(StorageError::MalformedPayload)
            }
        } else if tag == PROGRAM_TAG {
            if payload.len() == 8 {
                Ok(Value::ProgramHandleValue(ProgramContext { program_id: u64_from_be_bytes(payload) }))
            } else {
                Err(StorageError::MalformedPayload)
            }
        } else {
            Err(StorageError::UnknownTag(tag))
        }
    }
}

} // verus!
