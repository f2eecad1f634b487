//! The binary encoding of stored values.
//!
//! A stored value is a byte string, and what a storable type encodes decodes
//! back to the same value. The store reads an empty byte string as "nothing
//! stored": a value whose encoding is empty can be written, and is then read
//! as no value.
//!
//! Numbers, truth values and strings are encoded by postcard. The private
//! functions that call it state what its source shows of the bytes that it
//! writes and reads; those statements are not proved.

use crate::error::{fails_with, ContractError, ContractResult, ErrorView};
use crate::text::lemma_utf8_injective;
use vstd::prelude::*;
use vstd::slice::slice_to_vec;
use vstd::utf8::encode_utf8;

verus! {

/// A number in groups of seven bits, the lowest group first; every byte but
/// the last has its highest bit set.
pub open spec fn varint(n: nat) -> Seq<u8>
    decreases n,
{
    if n < 128 {
        seq![n as u8]
    } else {
        seq![(128 + n % 128) as u8] + varint(n / 128)
    }
}

/// A string as the number of its bytes, then its bytes in UTF-8.
pub open spec fn text_bytes(text: Seq<char>) -> Seq<u8> {
    varint(encode_utf8(text).len()) + encode_utf8(text)
}

/// What `postcard::from_bytes` reads as a `u64` from a byte string that no
/// `u64` is written as.
pub uninterp spec fn postcard_read_u64(bytes: Seq<u8>) -> Option<u64>;

/// What `postcard::from_bytes` reads as a `u32` from a byte string that no
/// `u32` is written as.
pub uninterp spec fn postcard_read_u32(bytes: Seq<u8>) -> Option<u32>;

/// What `postcard::from_bytes` reads as a `String` from a byte string that no
/// string is written as.
pub uninterp spec fn postcard_read_text(bytes: Seq<u8>) -> Option<Seq<char>>;

/// `postcard::to_allocvec` for a `u64`: the number as a varint. Writing into
/// a growable buffer cannot fail.
#[verifier::external_body]
fn write_u64(value: u64) -> (r: Option<Vec<u8>>)
    ensures
        r is Some,
        r->0@ == varint(value as nat),
{
    postcard::to_allocvec(&value).ok()
}

/// `postcard::from_bytes` for a `u64`; `None` where it reports an error.
/// From the bytes that a number is written as it reads that number.
#[verifier::external_body]
fn read_u64(bytes: &[u8]) -> (r: Option<u64>)
    ensures
        r == if exists|v: u64| varint(v as nat) == bytes@ {
            Some(choose|v: u64| varint(v as nat) == bytes@)
        } else {
            postcard_read_u64(bytes@)
        },
{
    postcard::from_bytes::<u64>(bytes).ok()
}

/// `postcard::to_allocvec` for a `u32`: the number as a varint. Writing into
/// a growable buffer cannot fail.
#[verifier::external_body]
fn write_u32(value: u32) -> (r: Option<Vec<u8>>)
    ensures
        r is Some,
        r->0@ == varint(value as nat),
{
    postcard::to_allocvec(&value).ok()
}

/// `postcard::from_bytes` for a `u32`; `None` where it reports an error.
/// From the bytes that a number is written as it reads that number.
#[verifier::external_body]
fn read_u32(bytes: &[u8]) -> (r: Option<u32>)
    ensures
        r == if exists|v: u32| varint(v as nat) == bytes@ {
            Some(choose|v: u32| varint(v as nat) == bytes@)
        } else {
            postcard_read_u32(bytes@)
        },
{
    postcard::from_bytes::<u32>(bytes).ok()
}

/// `postcard::to_allocvec` for a `bool`: one byte, 1 for `true` and 0 for
/// `false`. Writing into a growable buffer cannot fail.
#[verifier::external_body]
fn write_bool(value: bool) -> (r: Option<Vec<u8>>)
    ensures
        r is Some,
        r->0@ == bool::encoding(value),
{
    postcard::to_allocvec(&value).ok()
}

/// `postcard::from_bytes` for a `bool`; `None` where it reports an error. It
/// looks at the first byte alone: 0 is `false`, 1 is `true`, and any other
/// byte, or none, is an error.
#[verifier::external_body]
fn read_bool(bytes: &[u8]) -> (r: Option<bool>)
    ensures
        r == bool::decoding(bytes@),
{
    postcard::from_bytes::<bool>(bytes).ok()
}

/// `postcard::to_allocvec` for a string: the number of its bytes as a
/// varint, then the bytes. Writing into a growable buffer cannot fail.
#[verifier::external_body]
fn write_text(value: &str) -> (r: Option<Vec<u8>>)
    ensures
        r is Some,
        r->0@ == text_bytes(value@),
{
    postcard::to_allocvec(value).ok()
}

/// `postcard::from_bytes` for a `String`; `None` where it reports an error.
/// From the bytes that a string is written as it reads that string.
#[verifier::external_body]
fn read_text(bytes: &[u8]) -> (r: Option<String>)
    ensures
        (match r {
            Some(text) => Some(text@),
            None => None,
        }) == if exists|text: Seq<char>| text_bytes(text) == bytes@ {
            Some(choose|text: Seq<char>| text_bytes(text) == bytes@)
        } else {
            postcard_read_text(bytes@)
        },
{
    postcard::from_bytes::<String>(bytes).ok()
}

/// The first byte of a varint tells whether the number is below 128.
proof fn lemma_varint_head(n: nat)
    ensures
        varint(n).len() >= 1,
        n < 128 ==> varint(n) == seq![n as u8],
        n >= 128 ==> varint(n)[0] == (128 + n % 128) as u8 && varint(n).skip(1) == varint(n / 128),
{
    if n >= 128 {
        assert(varint(n).skip(1) =~= varint(n / 128));
    }
}

/// No varint is the beginning of another: two byte strings that begin with
/// a varint and are equal begin with the same number and go on alike.
proof fn lemma_varint_prefix_free(a: nat, b: nat, x: Seq<u8>, y: Seq<u8>)
    requires
        varint(a) + x == varint(b) + y,
    ensures
        a == b,
        x == y,
    decreases a,
{
    let left = varint(a) + x;
    let right = varint(b) + y;
    lemma_varint_head(a);
    lemma_varint_head(b);
    assert(left[0] == varint(a)[0]);
    assert(right[0] == varint(b)[0]);
    if a < 128 {
        assert(b < 128);
        assert(left.skip(1) =~= x);
        assert(right.skip(1) =~= y);
    } else {
        assert(b >= 128);
        assert(left.skip(1) =~= varint(a / 128) + x);
        assert(right.skip(1) =~= varint(b / 128) + y);
        lemma_varint_prefix_free(a / 128, b / 128, x, y);
    }
}

/// A varint has at least one byte, and so has a string's encoding.
pub proof fn lemma_encodings_not_empty(n: nat, text: Seq<char>)
    ensures
        varint(n).len() > 0,
        text_bytes(text).len() > 0,
{
    lemma_varint_head(n);
    lemma_varint_head(encode_utf8(text).len());
}

/// Two strings of which each is followed by more bytes: where the two byte
/// strings are equal, the strings are equal and so is what follows them.
pub proof fn lemma_text_bytes_prefix_free(a: Seq<char>, x: Seq<u8>, b: Seq<char>, y: Seq<u8>)
    requires
        text_bytes(a) + x == text_bytes(b) + y,
    ensures
        a == b,
        x == y,
{
    let bytes_a = encode_utf8(a);
    let bytes_b = encode_utf8(b);
    assert(text_bytes(a) + x =~= varint(bytes_a.len()) + (bytes_a + x));
    assert(text_bytes(b) + y =~= varint(bytes_b.len()) + (bytes_b + y));
    lemma_varint_prefix_free(bytes_a.len(), bytes_b.len(), bytes_a + x, bytes_b + y);
    let rest = bytes_a + x;
    assert(bytes_a =~= rest.subrange(0, bytes_a.len() as int));
    assert(bytes_b =~= rest.subrange(0, bytes_b.len() as int));
    assert(x =~= rest.subrange(bytes_a.len() as int, rest.len() as int));
    assert(y =~= rest.subrange(bytes_b.len() as int, rest.len() as int));
    lemma_utf8_injective(a, b);
}

/// Two numbers with the same varint are the same number.
pub proof fn lemma_varint_injective(a: nat, b: nat)
    requires
        varint(a) == varint(b),
    ensures
        a == b,
{
    assert(varint(a) + Seq::<u8>::empty() =~= varint(a));
    assert(varint(b) + Seq::<u8>::empty() =~= varint(b));
    lemma_varint_prefix_free(a, b, Seq::empty(), Seq::empty());
}

/// Two strings that are written as the same bytes are the same string.
pub proof fn lemma_text_bytes_injective(a: Seq<char>, b: Seq<char>)
    requires
        text_bytes(a) == text_bytes(b),
    ensures
        a == b,
{
    lemma_varint_prefix_free(
        encode_utf8(a).len(),
        encode_utf8(b).len(),
        encode_utf8(a),
        encode_utf8(b),
    );
    lemma_utf8_injective(a, b);
}

/// The bytes that a string is encoded as.
pub fn encode_text(text: &str) -> (bytes: Vec<u8>)
    ensures
        bytes@ == text_bytes(text@),
{
    match write_text(text) {
        Some(bytes) => bytes,
        None => Vec::new(),
    }
}

/// A type whose values can be stored.
pub trait Storable: Sized + View {
    /// Whether a value can be encoded.
    spec fn encodable(value: Self::V) -> bool;

    /// The bytes that stand for a value.
    spec fn encoding(value: Self::V) -> Seq<u8>;

    /// The value that a byte string stands for, where it stands for one.
    spec fn decoding(bytes: Seq<u8>) -> Option<Self::V>;

    /// The encoding of a value decodes to the value.
    proof fn lemma_faithful(value: Self::V)
        requires
            Self::encodable(value),
        ensures
            Self::decoding(Self::encoding(value)) == Some(value),
    ;

    /// Encodes a value, or fails with `SerializationFailed` where the value
    /// cannot be encoded.
    fn encode(&self) -> (r: ContractResult<Vec<u8>>)
        ensures
            r is Ok <==> Self::encodable(self@),
            r matches Ok(bytes) ==> bytes@ == Self::encoding(self@),
            r is Err ==> fails_with(r, ErrorView::SerializationFailed),
    ;

    /// Decodes a byte string, or fails with `DeserializationFailed` where it
    /// stands for no value.
    fn decode(bytes: &[u8]) -> (r: ContractResult<Self>)
        ensures
            r matches Ok(value) ==> Self::decoding(bytes@) == Some(value@),
            r is Err ==> Self::decoding(bytes@) is None && fails_with(
                r,
                ErrorView::DeserializationFailed,
            ),
    ;
}

impl Storable for u64 {
    open spec fn encodable(value: u64) -> bool {
        true
    }

    open spec fn encoding(value: u64) -> Seq<u8> {
        varint(value as nat)
    }

    open spec fn decoding(bytes: Seq<u8>) -> Option<u64> {
        if exists|v: u64| varint(v as nat) == bytes {
            Some(choose|v: u64| varint(v as nat) == bytes)
        } else {
            postcard_read_u64(bytes)
        }
    }

    proof fn lemma_faithful(value: u64) {
        let bytes = varint(value as nat);
        let found = choose|v: u64| varint(v as nat) == bytes;
        lemma_varint_injective(found as nat, value as nat);
    }

    fn encode(&self) -> (r: ContractResult<Vec<u8>>) {
        match write_u64(*self) {
            Some(bytes) => Ok(bytes),
            None => Err(ContractError::SerializationFailed),
        }
    }

    fn decode(bytes: &[u8]) -> (r: ContractResult<u64>) {
        match read_u64(bytes) {
            Some(value) => Ok(value),
            None => Err(ContractError::DeserializationFailed),
        }
    }
}

impl Storable for u32 {
    open spec fn encodable(value: u32) -> bool {
        true
    }

    open spec fn encoding(value: u32) -> Seq<u8> {
        varint(value as nat)
    }

    open spec fn decoding(bytes: Seq<u8>) -> Option<u32> {
        if exists|v: u32| varint(v as nat) == bytes {
            Some(choose|v: u32| varint(v as nat) == bytes)
        } else {
            postcard_read_u32(bytes)
        }
    }

    proof fn lemma_faithful(value: u32) {
        let bytes = varint(value as nat);
        let found = choose|v: u32| varint(v as nat) == bytes;
        lemma_varint_injective(found as nat, value as nat);
    }

    fn encode(&self) -> (r: ContractResult<Vec<u8>>) {
        match write_u32(*self) {
            Some(bytes) => Ok(bytes),
            None => Err(ContractError::SerializationFailed),
        }
    }

    fn decode(bytes: &[u8]) -> (r: ContractResult<u32>) {
        match read_u32(bytes) {
            Some(value) => Ok(value),
            None => Err(ContractError::DeserializationFailed),
        }
    }
}

impl Storable for bool {
    open spec fn encodable(value: bool) -> bool {
        true
    }

    open spec fn encoding(value: bool) -> Seq<u8> {
        if value {
            seq![1u8]
        } else {
            seq![0u8]
        }
    }

    open spec fn decoding(bytes: Seq<u8>) -> Option<bool> {
        if bytes.len() == 0 {
            None
        } else if bytes[0] == 0 {
            Some(false)
        } else if bytes[0] == 1 {
            Some(true)
        } else {
            None
        }
    }

    proof fn lemma_faithful(value: bool) {
    }

    fn encode(&self) -> (r: ContractResult<Vec<u8>>) {
        match write_bool(*self) {
            Some(bytes) => Ok(bytes),
            None => Err(ContractError::SerializationFailed),
        }
    }

    fn decode(bytes: &[u8]) -> (r: ContractResult<bool>) {
        match read_bool(bytes) {
            Some(value) => Ok(value),
            None => Err(ContractError::DeserializationFailed),
        }
    }
}

impl Storable for String {
    open spec fn encodable(value: Seq<char>) -> bool {
        true
    }

    open spec fn encoding(value: Seq<char>) -> Seq<u8> {
        text_bytes(value)
    }

    open spec fn decoding(bytes: Seq<u8>) -> Option<Seq<char>> {
        if exists|text: Seq<char>| text_bytes(text) == bytes {
            Some(choose|text: Seq<char>| text_bytes(text) == bytes)
        } else {
            postcard_read_text(bytes)
        }
    }

    proof fn lemma_faithful(value: Seq<char>) {
        let bytes = text_bytes(value);
        let found = choose|text: Seq<char>| text_bytes(text) == bytes;
        lemma_text_bytes_injective(found, value);
    }

    fn encode(&self) -> (r: ContractResult<Vec<u8>>) {
        match write_text(self.as_str()) {
            Some(bytes) => Ok(bytes),
            None => Err(ContractError::SerializationFailed),
        }
    }

    fn decode(bytes: &[u8]) -> (r: ContractResult<String>) {
        match read_text(bytes) {
            Some(value) => Ok(value),
            None => Err(ContractError::DeserializationFailed),
        }
    }
}

/// Bytes that are stored as they are. The empty byte string is stored as
/// nothing.
#[derive(Debug, Clone, PartialEq, Eq)]
pub struct RawBytes(pub Vec<u8>);

impl View for RawBytes {
    type V = Seq<u8>;

    open spec fn view(&self) -> Seq<u8> {
        self.0@
    }
}

impl Storable for RawBytes {
    open spec fn encodable(value: Seq<u8>) -> bool {
        true
    }

    open spec fn encoding(value: Seq<u8>) -> Seq<u8> {
        value
    }

    open spec fn decoding(bytes: Seq<u8>) -> Option<Seq<u8>> {
        Some(bytes)
    }

    proof fn lemma_faithful(value: Seq<u8>) {
    }

    fn encode(&self) -> (r: ContractResult<Vec<u8>>) {
        Ok(slice_to_vec(self.0.as_slice()))
    }

    fn decode(bytes: &[u8]) -> (r: ContractResult<RawBytes>) {
        Ok(RawBytes(slice_to_vec(bytes)))
    }
}

} // verus!
