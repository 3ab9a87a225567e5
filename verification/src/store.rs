//! Storing and loading values under keys, and calling other programs.

use crate::errors::StorageError;
use crate::host::{GetBytesLen, InvokeProgram, StoreBytes};
use crate::endian::u64_to_be_bytes;
use crate::marshal::{lemma_packing_push, marshalling, models_of, packed_of, packing};
use crate::program::{Value, ValueModel};
use std::borrow::Cow;
use vstd::prelude::*;
use vstd::std_specs::convert::FromSpecImpl;
use vstd::utf8::{encode_utf8, valid_utf8};

verus! {

/// The byte that says which kind of value follows it.
#[derive(Clone, Copy, Debug, PartialEq, Eq)]
pub struct Tag(pub u8);

impl Tag {
    /// The byte.
    #[must_use]
    pub fn as_u8(&self) -> (out: u8)
        ensures
            out == self.0,
    {
        self.0
    }
}

impl FromSpecImpl<u8> for Tag {
    open spec fn obeys_from_spec() -> bool {
        true
    }

    open spec fn from_spec(tag: u8) -> Self {
        Tag(tag)
    }
}

impl From<u8> for Tag {
    fn from(tag: u8) -> (out: Self) {
        Tag(tag)
    }
}

/// Store represents any type that can be stored in the host.
pub trait Store: Sized {
    /// The bytes that `as_bytes` gives: the value without its tag.
    spec fn stored_payload(&self) -> Seq<u8>;

    /// The byte that `as_tag` gives.
    spec fn stored_tag(&self) -> u8;

    /// Whether `out` is what `from_bytes` makes of `bytes`.
    spec fn restores(bytes: Seq<u8>, out: Result<Self, StorageError>) -> bool;

    /// The bytes of the value, without its tag.
    fn as_bytes(&self) -> (out: Cow<'_, [u8]>)
        ensures
            out@ == self.stored_payload(),
    ;

    /// Returns the tag of the type.
    fn as_tag(&self) -> (out: Tag)
        ensures
            out.0 == self.stored_tag(),
    ;

    /// Reads a value from its tag and payload.
    fn from_bytes(bytes: &[u8]) -> (out: Result<Self, StorageError>)
        ensures
            Self::restores(bytes@, out),
    ;
}

/// `ProgramContext` names a program to the host: the program itself, or
/// another one that it calls.
#[derive(Clone, Copy, Debug, PartialEq, Eq)]
pub struct ProgramContext {
    pub program_id: u64,
}

/// The handle that a host integer stands for: the same sixty-four bits.
pub open spec fn handle_of(value: i64) -> ProgramContext {
    ProgramContext { program_id: value as u64 }
}

/// The host integer that stands for a handle: the same sixty-four bits.
pub open spec fn host_integer_of(ctx: ProgramContext) -> i64 {
    ctx.program_id as i64
}

impl FromSpecImpl<i64> for ProgramContext {
    open spec fn obeys_from_spec() -> bool {
        true
    }

    open spec fn from_spec(value: i64) -> Self {
        handle_of(value)
    }
}

/// The handle that the host wrote as a signed integer: the same sixty-four
/// bits, with no check against the programs that the host knows.
impl From<i64> for ProgramContext {
    fn from(value: i64) -> (out: Self) {
        ProgramContext { program_id: #[verifier::truncate] (value as u64) }
    }
}

impl FromSpecImpl<ProgramContext> for i64 {
    open spec fn obeys_from_spec() -> bool {
        true
    }

    open spec fn from_spec(ctx: ProgramContext) -> Self {
        host_integer_of(ctx)
    }
}

/// The signed integer as which a handle crosses to the host: the same
/// sixty-four bits.
impl From<ProgramContext> for i64 {
    fn from(ctx: ProgramContext) -> (out: Self) {
        #[verifier::truncate]
        (ctx.program_id as i64)
    }
}

/// A handle written as a host integer and read back is the same handle, and
/// a host integer read as a handle and written back is the same integer.
pub proof fn lemma_host_integer_round_trip(ctx: ProgramContext, value: i64)
    ensures
        handle_of(host_integer_of(ctx)) == ctx,
        host_integer_of(handle_of(value)) == value,
{
    crate::endian::lemma_i64_u64_round_trip(value, ctx.program_id);
}

/// The bytes under which a value is stored: its tag, then its payload.
pub open spec fn stored_bytes<T: Store>(value: &T) -> Seq<u8> {
    seq![value.stored_tag()] + value.stored_payload()
}

/// The key of a field: the UTF-8 bytes of its name.
pub open spec fn scalar_key_bytes(name: Seq<char>) -> Seq<u8> {
    encode_utf8(name)
}

/// The key of an entry of a map: the UTF-8 bytes of the map's name, then
/// the encoding of the entry's key, tag included, with nothing between them.
pub open spec fn map_key_bytes(map_name: Seq<char>, key: ValueModel) -> Seq<u8> {
    encode_utf8(map_name) + key.encoding()
}

/// In one map, two keys address the same entry only if they are the same
/// key, of whatever kinds they are.
pub proof fn lemma_map_key_injective(map_name: Seq<char>, a: ValueModel, b: ValueModel)
    requires
        a.wf(),
        b.wf(),
    ensures
        map_key_bytes(map_name, a) == map_key_bytes(map_name, b) <==> a == b,
{
    if map_key_bytes(map_name, a) == map_key_bytes(map_name, b) {
        let prefix = encode_utf8(map_name);
        assert(map_key_bytes(map_name, a).skip(prefix.len() as int) =~= a.encoding());
        assert(map_key_bytes(map_name, b).skip(prefix.len() as int) =~= b.encoding());
        crate::program::lemma_encoding_injective(a, b);
    }
}

/// The UTF-8 bytes of two texts put together are the bytes of the one, then
/// those of the other.
pub proof fn lemma_encode_utf8_concat(a: Seq<char>, b: Seq<char>)
    ensures
        encode_utf8(a + b) == encode_utf8(a) + encode_utf8(b),
    decreases a.len(),
{
    if a.len() == 0 {
        assert(a + b =~= b);
        assert(encode_utf8(a) + encode_utf8(b) =~= encode_utf8(b));
    } else {
        assert((a + b).drop_first() =~= a.drop_first() + b);
        lemma_encode_utf8_concat(a.drop_first(), b);
        assert(encode_utf8(a + b) =~= encode_utf8(a) + encode_utf8(b));
    }
}

/// Keys of two maps can be the same bytes, since nothing marks where the
/// name of a map ends: a map whose name ends in the character that the tag
/// of a text is holds, under any text, the key that the map without that
/// character holds under the text with that character before it.
pub proof fn lemma_map_key_overlap(map_name: Seq<char>, text: Seq<char>)
    ensures
        map_key_bytes(map_name.push('\u{2}'), ValueModel::Text(text)) == map_key_bytes(
            map_name,
            ValueModel::Text(seq!['\u{2}'] + text),
        ),
{
    let mark = seq!['\u{2}'];
    assert(encode_utf8(mark) =~= seq![2u8]) by {
        assert((2u32 & 0x7F) as u8 == 2u8) by (bit_vector);
        assert(mark.drop_first() =~= Seq::<char>::empty());
        assert(encode_utf8(mark) =~= vstd::utf8::encode_scalar(2u32) + encode_utf8(
            mark.drop_first(),
        ));
    }
    assert(map_name.push('\u{2}') =~= map_name + mark);
    lemma_encode_utf8_concat(map_name, mark);
    lemma_encode_utf8_concat(mark, text);
    assert(map_key_bytes(map_name.push('\u{2}'), ValueModel::Text(text)) =~= map_key_bytes(
        map_name,
        ValueModel::Text(mark + text),
    ));
}

/// Writes a value as it is stored: its tag, then its payload.
pub fn tagged_bytes<T: Store>(value: &T) -> (out: Vec<u8>)
    ensures
        out@ == stored_bytes(value),
{
    let mut out: Vec<u8> = Vec::new();
    out.push(value.as_tag().as_u8());
    match value.as_bytes() {
        Cow::Borrowed(payload) => out.extend_from_slice(payload),
        Cow::Owned(payload) => out.extend_from_slice(payload.as_slice()),
    }
    out
}

/// The key of the field `name`.
pub fn scalar_key(name: &str) -> (out: Vec<u8>)
    ensures
        out@ == scalar_key_bytes(name@),
{
    vstd::slice::slice_to_vec(name.as_bytes())
}

/// The key of the entry `key` of the map `map_name`.
pub fn get_map_key(map_name: &str, key: &Value) -> (out: Vec<u8>)
    ensures
        out@ == map_key_bytes(map_name@, key@),
{
    let mut out = vstd::slice::slice_to_vec(map_name.as_bytes());
    let mut encoded = tagged_bytes(key);
    out.append(&mut encoded);
    out
}

/// The write of `value` under `key_bytes`.
fn store_key_value<T: Store>(ctx: &ProgramContext, key_bytes: Vec<u8>, value: &T) -> (call:
    StoreBytes)
    ensures
        call.program_id == ctx.program_id,
        call.key@ == key_bytes@,
        call.value@ == stored_bytes(value),
{
    StoreBytes { program_id: ctx.program_id, key: key_bytes, value: tagged_bytes(value) }
}

/// The first round trip of a read of what is stored under `name`.
fn get_field_as_bytes(ctx: &ProgramContext, name: Vec<u8>) -> (call: GetBytesLen)
    ensures
        call.program_id == ctx.program_id,
        call.key@ == name@,
{
    GetBytesLen { program_id: ctx.program_id, key: name }
}

/// The first round trip of a read of the field `name`.
pub fn get_field(ctx: &ProgramContext, name: &str) -> (call: GetBytesLen)
    ensures
        call.program_id == ctx.program_id,
        call.key@ == scalar_key_bytes(name@),
{
    get_field_as_bytes(ctx, scalar_key(name))
}

/// The first round trip of a read of the entry `key` of the map `name`.
pub fn get_map_field(ctx: &ProgramContext, name: &str, key: &Value) -> (call: GetBytesLen)
    ensures
        call.program_id == ctx.program_id,
        call.key@ == map_key_bytes(name@, key@),
{
    get_field_as_bytes(ctx, get_map_key(name, key))
}

impl ProgramContext {
    /// The write that stores `value` in the field `key`. The host's status
    /// goes to `StoreBytes::finish`.
    pub fn store_value<T: Store>(&self, key: &str, value: &T) -> (call: StoreBytes)
        ensures
            call.program_id == self.program_id,
            call.key@ == scalar_key_bytes(key@),
            call.value@ == stored_bytes(value),
    {
        store_key_value(self, scalar_key(key), value)
    }

    /// The write that stores `value` in the entry `key` of the map
    /// `map_name`. The host's status goes to `StoreBytes::finish`.
    pub fn store_map_value<T: Store>(&self, map_name: &str, key: &Value, value: &T) -> (call:
        StoreBytes)
        ensures
            call.program_id == self.program_id,
            call.key@ == map_key_bytes(map_name@, key@),
            call.value@ == stored_bytes(value),
    {
        store_key_value(self, get_map_key(map_name, key), value)
    }

    /// The first round trip of a read of the field `name`. The length that
    /// the host reports goes to `GetBytesLen::finish`.
    pub fn get_value(&self, name: &str) -> (call: GetBytesLen)
        ensures
            call.program_id == self.program_id,
            call.key@ == scalar_key_bytes(name@),
    {
        get_field(self, name)
    }

    /// The first round trip of a read of the entry `key` of the map
    /// `map_name`. The length that the host reports goes to
    /// `GetBytesLen::finish`.
    pub fn get_map_value(&self, map_name: &str, key: &Value) -> (call: GetBytesLen)
        ensures
            call.program_id == self.program_id,
            call.key@ == map_key_bytes(map_name@, key@),
    {
        get_map_field(self, map_name, key)
    }
}

/// Calling another program.
impl ProgramContext {
    /// The call of the method `fn_name` of the program `call_ctx` with the
    /// arguments `call_args`, packed. The number that the host returns goes
    /// to `InvokeProgram::finish`.
    #[must_use]
    pub fn invoke_program_method(
        &self,
        call_ctx: &ProgramContext,
        fn_name: &str,
        call_args: &[Value],
    ) -> (call: InvokeProgram)
        ensures
            call.program_id == self.program_id,
            call.call_program_id == call_ctx.program_id,
            call.method@ == encode_utf8(fn_name@),
            call.args@ == marshalling(models_of(call_args@)),
    {
        InvokeProgram {
            program_id: self.program_id,
            call_program_id: call_ctx.program_id,
            method: vstd::slice::slice_to_vec(fn_name.as_bytes()),
            args: Self::marshal_args(call_args),
        }
    }

    /// Packs the arguments of a call: for each, the length of its payload,
    /// its flag and its payload, in the order of the call.
    pub fn marshal_args(args: &[Value]) -> (bytes: Vec<u8>)
        ensures
            bytes@ == marshalling(models_of(args@)),
    {
        let ghost packed = models_of(args@).map_values(|v: ValueModel| packed_of(v));
        let mut bytes: Vec<u8> = Vec::new();
        let mut i: usize = 0;
        assert(packed.take(0) =~= Seq::empty());
        while i < args.len()
            invariant
                i <= args@.len(),
                packed == models_of(args@).map_values(|v: ValueModel| packed_of(v)),
                bytes@ == packing(packed.take(i as int)),
            decreases args@.len() - i,
        {
            let arg = &args[i];
            let payload = arg.as_bytes();
            let payload: &[u8] = match &payload {
                Cow::Borrowed(held) => held,
                Cow::Owned(held) => held.as_slice(),
            };
            let len = u64_to_be_bytes(payload.len() as u64);
            bytes.extend_from_slice(len.as_slice());
            match arg {
                Value::Integer(_) => {
                    bytes.push(1);
                },
                _ => {
                    bytes.push(0);
                },
            }
            bytes.extend_from_slice(payload);
            proof {
                assert(packed[i as int] == packed_of(args@[i as int]@));
                assert(packed.take(i + 1) =~= packed.take(i as int).push(packed[i as int]));
                lemma_packing_push(packed.take(i as int), packed[i as int]);
            }
            i += 1;
        }
        assert(packed.take(i as int) =~= packed);
        bytes
    }
}

/// The error of `String::from_utf8`.
#[verifier::external_type_specification]
#[verifier::external_body]
pub struct ExFromUtf8Error(std::string::FromUtf8Error);

/// `String::from_utf8` accepts exactly the byte vectors that are valid
/// UTF-8, and the string it makes of one has these bytes.
pub assume_specification[ String::from_utf8 ](vec: Vec<u8>) -> (out: Result<
    String,
    std::string::FromUtf8Error,
>)
    ensures
        out is Ok <==> valid_utf8(vec@),
        out matches Ok(text) ==> encode_utf8(text@) == vec@,
;

/// Converts a byte vector to a string
/// # Errors
/// Returns a `FromUtf8Error` if the bytes are not valid UTF-8.
pub fn to_string(bytes: Vec<u8>) -> (out: Result<String, std::string::FromUtf8Error>)
    ensures
        out is Ok <==> valid_utf8(bytes@),
        out matches Ok(text) ==> text@ == vstd::utf8::decode_utf8(bytes@),
{
    let out = String::from_utf8(bytes);
    proof {
        if out is Ok {
            vstd::utf8::encode_utf8_decode_utf8(out->Ok_0@);
        }
    }
    out
}

} // verus!
