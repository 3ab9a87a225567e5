//! The packed argument list of a call into another program.
//!
//! Each argument is written as the length of its payload in eight bytes,
//! most significant first, then one flag byte, then the payload: the bytes
//! of the value without its tag. The flag is 1 for an integer and 0 for any
//! other kind. Arguments follow one another with nothing between them, in
//! the order of the call. The length never has its highest bit set.
//!
//! The list does not say of which kind an argument is when its flag is 0:
//! the receiver knows that from the method it was called for, and reads the
//! payload under the tag of that kind.

use crate::endian::{
    be_bytes_u64, lemma_be_u64_round_trip, lemma_u64_be_round_trip, u64_be_bytes,
    u64_from_be_bytes,
};
use crate::errors::StorageError;
use crate::program::{decoding, lemma_decode_encode, Value, ValueModel, INTEGER_TAG};
use crate::store::{Store, Tag};
use vstd::prelude::*;
use vstd::slice::{slice_subrange, slice_to_vec};

verus! {

/// One argument as it travels: its flag and its payload.
#[derive(Clone, Debug, PartialEq, Eq)]
pub struct PackedArgument {
    pub is_primitive: bool,
    pub payload: Vec<u8>,
}

/// What a `PackedArgument` holds, as mathematics.
pub ghost struct PackedModel {
    pub is_primitive: bool,
    pub payload: Seq<u8>,
}

impl View for PackedArgument {
    type V = PackedModel;

    open spec fn view(&self) -> PackedModel {
        PackedModel { is_primitive: self.is_primitive, payload: self.payload@ }
    }
}

/// The largest payload length that the length field can hold.
pub open spec fn max_payload_len() -> int {
    0x7fff_ffff_ffff_ffff
}

/// The flag and payload with which a value travels.
pub open spec fn packed_of(v: ValueModel) -> PackedModel {
    PackedModel { is_primitive: v is Integer, payload: v.payload() }
}

/// The flag byte.
pub open spec fn flag_byte(is_primitive: bool) -> u8 {
    if is_primitive {
        1
    } else {
        0
    }
}

/// The bytes of one argument: length, flag, payload.
pub open spec fn entry_bytes(p: PackedModel) -> Seq<u8> {
    u64_be_bytes(p.payload.len() as u64) + seq![flag_byte(p.is_primitive)] + p.payload
}

/// The bytes of a list of arguments: those of each, in order.
pub open spec fn packing(args: Seq<PackedModel>) -> Seq<u8>
    decreases args.len(),
{
    if args.len() == 0 {
        Seq::empty()
    } else {
        entry_bytes(args[0]) + packing(args.drop_first())
    }
}

/// The models of a list of values.
pub open spec fn models_of(args: Seq<Value>) -> Seq<ValueModel> {
    args.map_values(|v: Value| v@)
}

/// The packed argument list of a list of values.
pub open spec fn marshalling(args: Seq<ValueModel>) -> Seq<u8> {
    packing(args.map_values(|v: ValueModel| packed_of(v)))
}

/// An optional list with `front` put before it.
pub open spec fn after(front: Seq<PackedModel>, rest: Option<Seq<PackedModel>>) -> Option<
    Seq<PackedModel>,
> {
    match rest {
        Some(r) => Some(front + r),
        None => None,
    }
}

/// The arguments that a byte sequence packs, or `None` where it is not a
/// packed argument list: where fewer than nine bytes are left for a length
/// and a flag, where a length has its highest bit set or is more than what
/// is left, or where a flag is neither 0 nor 1.
pub open spec fn unpacking(bytes: Seq<u8>) -> Option<Seq<PackedModel>>
    decreases bytes.len(),
{
    if bytes.len() == 0 {
        Some(Seq::empty())
    } else if bytes.len() < 9 {
        None
    } else {
        let declared = be_bytes_u64(bytes.take(8));
        let flag = bytes[8];
        if declared > max_payload_len() || declared > bytes.len() - 9 || flag > 1 {
            None
        } else {
            let first = PackedModel {
                is_primitive: flag == 1,
                payload: bytes.subrange(9, 9 + declared),
            };
            after(seq![first], unpacking(bytes.skip(9 + declared)))
        }
    }
}

/// The value that a packed argument stands for when read as the kind of
/// tag `tag`. An argument flagged as an integer is read as nothing else, and
/// no other is read as an integer.
pub open spec fn packed_value(p: PackedModel, tag: u8) -> Result<ValueModel, StorageError> {
    if p.is_primitive != (tag == INTEGER_TAG) {
        Err(StorageError::TypeMismatch)
    } else {
        decoding(seq![tag] + p.payload)
    }
}

/// Packing one more argument appends its bytes.
pub proof fn lemma_packing_push(args: Seq<PackedModel>, p: PackedModel)
    ensures
        packing(args.push(p)) == packing(args) + entry_bytes(p),
    decreases args.len(),
{
    if args.len() == 0 {
        assert(args.push(p).drop_first() =~= Seq::<PackedModel>::empty());
        assert(packing(args.push(p)) =~= entry_bytes(p) + packing(Seq::empty()));
        assert(packing(args.push(p)) =~= packing(args) + entry_bytes(p));
    } else {
        assert(args.push(p).drop_first() =~= args.drop_first().push(p));
        lemma_packing_push(args.drop_first(), p);
        assert(packing(args.push(p)) =~= packing(args) + entry_bytes(p));
    }
}

/// Unpacking what was packed gives the arguments back, in order, each with
/// its flag and its payload.
pub proof fn lemma_unpack_pack(args: Seq<PackedModel>)
    requires
        forall|i: int| 0 <= i < args.len() ==> (#[trigger] args[i]).payload.len() <= max_payload_len(),
    ensures
        unpacking(packing(args)) == Some(args),
    decreases args.len(),
{
    if args.len() == 0 {
        assert(args =~= Seq::empty());
    } else {
        let first = args[0];
        let rest = args.drop_first();
        let n = first.payload.len() as int;
        let bytes = packing(args);
        assert forall|i: int| 0 <= i < rest.len() implies (#[trigger] rest[i]).payload.len()
            <= max_payload_len() by {
            assert(rest[i] == args[i + 1]);
        }
        lemma_unpack_pack(rest);
        lemma_u64_be_round_trip(n as u64);
        assert(bytes.take(8) =~= u64_be_bytes(n as u64));
        assert(bytes[8] == flag_byte(first.is_primitive));
        assert(bytes.subrange(9, 9 + n) =~= first.payload);
        assert(bytes.skip(9 + n) =~= packing(rest));
        assert(seq![first] + rest =~= args);
    }
}

/// A byte sequence that unpacks is the packing of what it unpacks to.
pub proof fn lemma_pack_unpack(bytes: Seq<u8>)
    requires
        unpacking(bytes) is Some,
    ensures
        packing(unpacking(bytes)->Some_0) == bytes,
    decreases bytes.len(),
{
    if bytes.len() != 0 {
        let declared = be_bytes_u64(bytes.take(8));
        let first = PackedModel {
            is_primitive: bytes[8] == 1,
            payload: bytes.subrange(9, 9 + declared),
        };
        let tail = bytes.skip(9 + declared);
        lemma_pack_unpack(tail);
        let rest = unpacking(tail)->Some_0;
        let args = seq![first] + rest;
        assert(args.drop_first() =~= rest);
        lemma_be_u64_round_trip(bytes.take(8));
        assert(entry_bytes(first) + tail =~= bytes);
    } else {
        assert(bytes =~= Seq::empty());
    }
}

/// A value travels with the flag of its kind, and its packed form read
/// under its own tag is the value.
pub proof fn lemma_packed_value(v: ValueModel)
    requires
        v.wf(),
    ensures
        packed_of(v).is_primitive == (v is Integer),
        packed_value(packed_of(v), v.tag()) == Ok::<ValueModel, StorageError>(v),
{
    lemma_decode_encode(v);
}

/// Whether the packed argument `p` is what the receiver gets of the value
/// `v`: it has the flag of the value's kind and the value's payload, and
/// read under the tag of that kind it is the value.
pub open spec fn received(p: PackedModel, v: ValueModel) -> bool {
    &&& p.is_primitive == (v is Integer)
    &&& p.payload == v.payload()
    &&& packed_value(p, v.tag()) == Ok::<ValueModel, StorageError>(v)
}

/// Unpacking a packed list of values gives as many arguments, in the same
/// order, and each is what the receiver gets of its value.
pub proof fn lemma_unpack_marshal(args: Seq<ValueModel>)
    requires
        forall|i: int| 0 <= i < args.len() ==> (#[trigger] args[i]).wf(),
        forall|i: int| 0 <= i < args.len() ==> (#[trigger] args[i]).payload().len() <= max_payload_len(),
    ensures
        unpacking(marshalling(args)) is Some,
        unpacking(marshalling(args))->Some_0.len() == args.len(),
        forall|i: int|
            0 <= i < args.len() ==> received(
                #[trigger] unpacking(marshalling(args))->Some_0[i],
                args[i],
            ),
{
    let packed = args.map_values(|v: ValueModel| packed_of(v));
    assert forall|i: int| 0 <= i < packed.len() implies (#[trigger] packed[i]).payload.len()
        <= max_payload_len() by {
        assert(packed[i] == packed_of(args[i]));
    }
    lemma_unpack_pack(packed);
    assert forall|i: int| 0 <= i < args.len() implies received(
        #[trigger] unpacking(marshalling(args))->Some_0[i],
        args[i],
    ) by {
        assert(packed[i] == packed_of(args[i]));
        lemma_packed_value(args[i]);
    }
}

/// The models of a list of packed arguments.
pub open spec fn packed_models(args: Seq<PackedArgument>) -> Seq<PackedModel> {
    args.map_values(|a: PackedArgument| a@)
}

/// Reads a packed argument list: the arguments in order, each with its
/// flag and its payload. Bytes that are no packed argument list are
/// refused.
pub fn unpack(bytes: &[u8]) -> (out: Result<Vec<PackedArgument>, StorageError>)
    ensures
        unpacking(bytes@) is Some ==> out is Ok && packed_models(out->Ok_0@) == unpacking(
            bytes@,
        )->Some_0,
        unpacking(bytes@) is Some ==> out->Ok_0@.len() == unpacking(bytes@)->Some_0.len(),
        unpacking(bytes@) is None ==> out == Err::<Vec<PackedArgument>, StorageError>(
            StorageError::MalformedPayload,
        ),
{
    let mut args: Vec<PackedArgument> = Vec::new();
    let mut pos: usize = 0;
    assert(bytes@.skip(0) =~= bytes@);
    assert(packed_models(args@) =~= Seq::empty());
    assert(unpacking(bytes@) == after(packed_models(args@), unpacking(bytes@.skip(0)))) by {
        if let Some(all) = unpacking(bytes@) {
            assert(Seq::<PackedModel>::empty() + all =~= all);
        }
    }
    while pos < bytes.len()
        invariant
            pos <= bytes@.len(),
            unpacking(bytes@) == after(packed_models(args@), unpacking(bytes@.skip(pos as int))),
        decreases bytes@.len() - pos,
    {
        let ghost left = bytes@.skip(pos as int);
        if bytes.len() - pos < 9 {
            return Err(StorageError::MalformedPayload);
        }
        let declared = u64_from_be_bytes(slice_subrange(bytes, pos, pos + 8));
        let flag = bytes[pos + 8];
        assert(left.take(8) =~= bytes@.subrange(pos as int, pos + 8));
        assert(left[8] == flag);
        if declared > 0x7fff_ffff_ffff_ffff || declared > (bytes.len() - pos - 9) as u64 || flag
            > 1 {
            return Err(StorageError::MalformedPayload);
        }
        let start = pos + 9;
        let end = start + declared as usize;
        let arg = PackedArgument {
            is_primitive: flag == 1,
            payload: slice_to_vec(slice_subrange(bytes, start, end)),
        };
        proof {
            let read = packed_models(args@);
            assert(left.subrange(9, 9 + declared) =~= bytes@.subrange(start as int, end as int));
            assert(left.skip(9 + declared) =~= bytes@.skip(end as int));
            assert(packed_models(args@.push(arg)) =~= read.push(arg@));
            if let Some(rest) = unpacking(bytes@.skip(end as int)) {
                assert(read + (seq![arg@] + rest) =~= read.push(arg@) + rest);
            }
        }
        args.push(arg);
        pos = end;
    }
    proof {
        assert(packed_models(args@) + Seq::<PackedModel>::empty() =~= packed_models(args@));
    }
    Ok(args)
}

impl PackedArgument {
    /// Reads the argument as a value of the kind of `tag`, which the
    /// receiver knows from the method it was called for.
    pub fn value(&self, tag: Tag) -> (out: Result<Value, StorageError>)
        ensures
            crate::program::decoded_view(out) == packed_value(self@, tag.0),
    {
        if self.is_primitive != (tag.0 == INTEGER_TAG) {
            return Err(StorageError::TypeMismatch);
        }
        let mut tagged: Vec<u8> = Vec::new();
        tagged.push(tag.0);
        tagged.extend_from_slice(self.payload.as_slice());
        assert(tagged@ =~= seq![tag.0] + self.payload@);
        Value::from_bytes(tagged.as_slice())
    }
}

} // verus!
