//! Fixed-width byte values and the arguments of calls into other programs.

use crate::endian::{i64_be_bytes, i64_to_be_bytes, u64_be_bytes, u64_to_be_bytes};
use crate::store::ProgramContext;
use std::borrow::Cow;
use vstd::prelude::*;
use vstd::std_specs::convert::FromSpecImpl;
use vstd::slice::slice_subrange;
use vstd::utf8::{decode_utf8, encode_utf8, valid_utf8};

verus! {

/// The text that `String::from_utf8_lossy` makes of a byte sequence.
pub uninterp spec fn utf8_lossy(bytes: Seq<u8>) -> Seq<char>;

/// Decodes bytes as UTF-8 with `String::from_utf8_lossy`, which puts the
/// replacement character in place of what is not UTF-8. The result is a
/// function of the bytes alone, and valid UTF-8 is decoded as it stands.
#[verifier::external_body]
fn from_utf8_lossy(bytes: &[u8]) -> (text: String)
    ensures
        text@ == utf8_lossy(bytes@),
        valid_utf8(bytes@) ==> text@ == decode_utf8(bytes@),
{
    String::from_utf8_lossy(bytes).into_owned()
}

/// The number of bytes before the first zero byte, or the whole length
/// where no byte is zero.
pub open spec fn nul_position(bytes: Seq<u8>) -> nat
    decreases bytes.len(),
{
    if bytes.len() == 0 || bytes[0] == 0 {
        0
    } else {
        1 + nul_position(bytes.drop_first())
    }
}

/// `nul_position` is the one index that ends a run of nonzero bytes.
pub proof fn lemma_nul_position(bytes: Seq<u8>, n: int)
    requires
        0 <= n <= bytes.len(),
        forall|j: int| 0 <= j < n ==> bytes[j] != 0,
        n < bytes.len() ==> bytes[n] == 0,
    ensures
        nul_position(bytes) == n,
    decreases bytes.len(),
{
    if n > 0 {
        let rest = bytes.drop_first();
        assert forall|j: int| 0 <= j < n - 1 implies rest[j] != 0 by {
            assert(rest[j] == bytes[j + 1]);
        }
        lemma_nul_position(rest, n - 1);
    }
}

/// A byte sequence of at most thirty-two bytes, followed by zero bytes up
/// to thirty-two.
pub open spec fn zero_padded(bytes: Seq<u8>) -> Seq<u8>
    recommends
        bytes.len() <= 32,
{
    bytes + Seq::new((32 - bytes.len()) as nat, |i: int| 0u8)
}

/// Thirty-two bytes.
#[derive(Clone, Copy, PartialEq, Eq, Debug)]
pub struct Bytes32([u8; 32]);

impl View for Bytes32 {
    type V = Seq<u8>;

    closed spec fn view(&self) -> Seq<u8> {
        self.0@
    }
}

impl Bytes32 {
    pub const LEN: usize = 32;

    /// Thirty-two bytes are held, whatever they are.
    pub proof fn lemma_len(&self)
        ensures
            self@.len() == 32,
    {
        vstd::array::array_len_matches_n(&self.0);
    }

    /// The value that holds `bytes`.
    pub fn new(bytes: [u8; 32]) -> (out: Self)
        ensures
            out@ == bytes@,
    {
        Self(bytes)
    }

    /// The thirty-two bytes.
    pub fn as_bytes(&self) -> (out: &[u8])
        ensures
            out@ == self@,
    {
        self.0.as_slice()
    }

    /// The thirty-two bytes of a slice of that length.
    pub fn from_slice(bytes: &[u8]) -> (out: Self)
        requires
            bytes@.len() == 32,
        ensures
            out@ == bytes@,
    {
        let mut held: [u8; 32] = [0u8; 32];
        let mut i: usize = 0;
        while i < 32
            invariant
                i <= 32,
                bytes@.len() == 32,
                forall|j: int| 0 <= j < i ==> held@[j] == bytes@[j],
            decreases 32 - i,
        {
            held[i] = bytes[i];
            i += 1;
        }
        assert(held@ =~= bytes@);
        Self(held)
    }

    /// The bytes of a text of at most thirty-two bytes, then zero bytes up
    /// to thirty-two.
    pub fn from_string(value: String) -> (out: Self)
        requires
            encode_utf8(value@).len() <= 32,
        ensures
            out@ == zero_padded(encode_utf8(value@)),
    {
        let text = value.as_str().as_bytes();
        let mut held: [u8; 32] = [0u8; 32];
        let mut i: usize = 0;
        while i < text.len()
            invariant
                i <= text@.len() <= 32,
                forall|j: int| 0 <= j < i ==> held@[j] == text@[j],
                forall|j: int| i <= j < 32 ==> held@[j] == 0,
            decreases text@.len() - i,
        {
            held[i] = text[i];
            i += 1;
        }
        assert(held@ =~= zero_padded(text@));
        Self(held)
    }

    /// The text up to the first zero byte, read as UTF-8; what is not UTF-8
    /// is replaced as `String::from_utf8_lossy` replaces it.
    pub fn to_string(&self) -> (text: String)
        ensures
            text@ == utf8_lossy(self@.take(nul_position(self@) as int)),
            valid_utf8(self@.take(nul_position(self@) as int)) ==> text@ == decode_utf8(
                self@.take(nul_position(self@) as int),
            ),
    {
        let bytes = self.0.as_slice();
        let mut null_pos: usize = 0;
        while null_pos < 32 && bytes[null_pos] != 0
            invariant
                bytes@.len() == 32,
                null_pos <= 32,
                forall|j: int| 0 <= j < null_pos ==> bytes@[j] != 0,
            decreases 32 - null_pos,
        {
            null_pos += 1;
        }
        proof {
            lemma_nul_position(bytes@, null_pos as int);
        }
        from_utf8_lossy(slice_subrange(bytes, 0, null_pos))
    }
}

/// An address: thirty-two bytes.
#[derive(Clone, Copy, PartialEq, Eq, Debug)]
pub struct Address(Bytes32);

impl View for Address {
    type V = Seq<u8>;

    closed spec fn view(&self) -> Seq<u8> {
        self.0@
    }
}

impl Address {
    pub const LEN: usize = 32;

    /// Thirty-two bytes are held, whatever they are.
    pub proof fn lemma_len(&self)
        ensures
            self@.len() == 32,
    {
        self.0.lemma_len();
    }

    /// The address that holds `bytes`.
    pub fn new(bytes: [u8; 32]) -> (out: Self)
        ensures
            out@ == bytes@,
    {
        Self(Bytes32::new(bytes))
    }

    /// The thirty-two bytes of the address.
    pub fn as_bytes(&self) -> (out: &[u8])
        ensures
            out@ == self@,
    {
        self.0.as_bytes()
    }

    /// The address made of the thirty-two bytes of a slice of that length.
    pub fn from_slice(bytes: &[u8]) -> (out: Self)
        requires
            bytes@.len() == 32,
        ensures
            out@ == bytes@,
    {
        Self(Bytes32::from_slice(bytes))
    }
}

/// A value that can be handed to another program as an argument of a call.
pub trait Argument {
    /// What `as_bytes` gives.
    spec fn argument_bytes(&self) -> Seq<u8>;

    /// What `is_primitive` gives.
    spec fn argument_is_primitive(&self) -> bool;

    /// The bytes that stand for the argument.
    fn as_bytes(&self) -> (out: Cow<'_, [u8]>)
        ensures
            out@ == self.argument_bytes(),
    ;

    /// Whether the argument travels as a plain number.
    fn is_primitive(&self) -> (out: bool)
        ensures
            out == self.argument_is_primitive(),
    ;

    /// The number of bytes that stand for the argument.
    fn len(&self) -> (out: usize)
        ensures
            out == self.argument_bytes().len(),
    {
        match self.as_bytes() {
            Cow::Borrowed(bytes) => bytes.len(),
            Cow::Owned(bytes) => bytes.len(),
        }
    }
}

impl Argument for Bytes32 {
    open spec fn argument_bytes(&self) -> Seq<u8> {
        self@
    }

    open spec fn argument_is_primitive(&self) -> bool {
        false
    }

    fn as_bytes(&self) -> (out: Cow<'_, [u8]>) {
        Cow::Borrowed(self.0.as_slice())
    }

    fn is_primitive(&self) -> (out: bool) {
        false
    }
}

impl Argument for Address {
    open spec fn argument_bytes(&self) -> Seq<u8> {
        self@
    }

    open spec fn argument_is_primitive(&self) -> bool {
        false
    }

    fn as_bytes(&self) -> (out: Cow<'_, [u8]>) {
        Cow::Borrowed(self.0.as_bytes())
    }

    fn is_primitive(&self) -> (out: bool) {
        false
    }
}

impl Argument for i64 {
    open spec fn argument_bytes(&self) -> Seq<u8> {
        i64_be_bytes(*self)
    }

    open spec fn argument_is_primitive(&self) -> bool {
        true
    }

    fn as_bytes(&self) -> (out: Cow<'_, [u8]>) {
        Cow::Owned(i64_to_be_bytes(*self))
    }

    fn is_primitive(&self) -> (out: bool) {
        true
    }
}

impl Argument for ProgramContext {
    open spec fn argument_bytes(&self) -> Seq<u8> {
        u64_be_bytes(self.program_id)
    }

    open spec fn argument_is_primitive(&self) -> bool {
        true
    }

    fn as_bytes(&self) -> (out: Cow<'_, [u8]>) {
        Cow::Owned(u64_to_be_bytes(self.program_id))
    }

    fn is_primitive(&self) -> (out: bool) {
        true
    }
}

impl FromSpecImpl<i64> for Box<dyn Argument> {
    open spec fn obeys_from_spec() -> bool {
        true
    }

    open spec fn from_spec(value: i64) -> Self {
        Box::new(value)
    }
}

impl From<i64> for Box<dyn Argument> {
    fn from(value: i64) -> (out: Self) {
        Box::new(value)
    }
}

impl FromSpecImpl<Bytes32> for Box<dyn Argument> {
    open spec fn obeys_from_spec() -> bool {
        true
    }

    open spec fn from_spec(value: Bytes32) -> Self {
        Box::new(value)
    }
}

impl From<Bytes32> for Box<dyn Argument> {
    fn from(value: Bytes32) -> (out: Self) {
        Box::new(value)
    }
}

impl FromSpecImpl<Address> for Box<dyn Argument> {
    open spec fn obeys_from_spec() -> bool {
        true
    }

    open spec fn from_spec(value: Address) -> Self {
        Box::new(value)
    }
}

impl From<Address> for Box<dyn Argument> {
    fn from(value: Address) -> (out: Self) {
        Box::new(value)
    }
}

impl FromSpecImpl<ProgramContext> for Box<dyn Argument> {
    open spec fn obeys_from_spec() -> bool {
        true
    }

    open spec fn from_spec(value: ProgramContext) -> Self {
        Box::new(value)
    }
}

impl From<ProgramContext> for Box<dyn Argument> {
    fn from(value: ProgramContext) -> (out: Self) {
        Box::new(value)
    }
}

} // verus!
