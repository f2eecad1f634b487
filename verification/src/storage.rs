//! Typed storage: values under keys, a map with hashed keys and a vector that
//! tracks its length, all kept in the records of the running contract.
//!
//! A record with an empty payload is a record that is not there: removing a
//! value writes the empty payload.
//!
//! Every operation first acquires the execution context. Where the facts
//! that the host reports are at fault, the operation fails with the
//! context's `InvalidArgument` and leaves the host as it was.

use crate::codec::{lemma_encodings_not_empty, Storable};
use crate::context::{context_fault, try_context};
use crate::error::{fails_with, invalid_argument, ContractError, ContractResult, ErrorView};
use crate::ffi;
use crate::ffi::host::{MockRuntime, RuntimeView};
use crate::primitives::{
    blake3_digest, blake3_hash, decimal, decimal_digit, format_u64, hex_digit, hex_encode,
    hex_lower,
};
use core::marker::PhantomData;
use vstd::prelude::*;
use vstd::string::*;

verus! {

/// What a payload reads as: `None` where it does not decode, `Some(None)`
/// where it is empty, otherwise the value that it decodes to.
pub open spec fn reading<T: Storable>(payload: Seq<u8>) -> Option<Option<T::V>> {
    if payload.len() == 0 {
        Some(None)
    } else {
        match T::decoding(payload) {
            Some(value) => Some(Some(value)),
            None => None,
        }
    }
}

/// Whether a result is what reading a payload gives.
pub open spec fn reads<T: Storable>(r: ContractResult<Option<T>>, payload: Seq<u8>) -> bool {
    match reading::<T>(payload) {
        None => fails_with(r, ErrorView::DeserializationFailed),
        Some(None) => r matches Ok(None),
        Some(Some(value)) => r matches Ok(Some(found)) && found@ == value,
    }
}

/// The payload that the running contract keeps under a key.
pub open spec fn record(host: RuntimeView, key: Seq<char>) -> Seq<u8> {
    host.payload(host.contract_address, key)
}

/// The state after the running contract wrote a payload under a key.
pub open spec fn put(host: RuntimeView, key: Seq<char>, payload: Seq<u8>) -> RuntimeView {
    host.write(host.contract_address, key, payload)
}

/// Whether a result is the refusal that a host with faulty facts meets:
/// `InvalidArgument` with the reason for which the context is rejected.
pub open spec fn refused<T>(r: ContractResult<T>, host: RuntimeView) -> bool {
    context_fault(host) is Some && fails_with(
        r,
        ErrorView::InvalidArgument(context_fault(host)->0),
    )
}

/// The value that the answer of a host to a read stands for. An empty
/// payload is no value: a record that is not there is no failure. A payload
/// that does not decode is `DeserializationFailed`. A read that the host
/// refused stays the error that it is.
pub fn stored_value<T: Storable>(answer: ContractResult<Vec<u8>>) -> (r: ContractResult<Option<T>>)
    ensures
        answer matches Ok(data) ==> reads(r, data@),
        answer matches Err(e) ==> fails_with(r, e@),
{
    match answer {
        Ok(data) => {
            if data.len() == 0 {
                Ok(None)
            } else {
                match T::decode(data.as_slice()) {
                    Ok(value) => Ok(Some(value)),
                    Err(_) => Err(ContractError::DeserializationFailed),
                }
            }
        },
        Err(e) => Err(e),
    }
}

/// Whether the answer of a host to a read shows a stored payload. A read
/// that failed shows none: the error is not passed on.
pub fn stored_presence(answer: ContractResult<Vec<u8>>) -> (present: bool)
    ensures
        present == (answer matches Ok(data) && data@.len() > 0),
{
    match answer {
        Ok(data) => data.len() != 0,
        Err(_) => false,
    }
}

/// Access to the records of the running contract.
pub struct Storage;

impl Storage {
    /// Reads the value under a key: `None` where nothing is stored,
    /// `DeserializationFailed` where the stored bytes do not decode.
    pub fn get<T: Storable>(&self, rt: &MockRuntime, key: &str) -> (r: ContractResult<Option<T>>)
        ensures
            context_fault(rt@) is Some ==> refused(r, rt@),
            context_fault(rt@) is None ==> reads(r, record(rt@, key@)),
    {
        let ctx = try_context(rt)?;
        stored_value(ffi::read_storage(rt, ctx.contract_address(), key))
    }

    /// Encodes a value and writes it under a key. A value that cannot be
    /// encoded is `SerializationFailed` and leaves the host untouched.
    pub fn set<T: Storable>(&mut self, rt: &mut MockRuntime, key: &str, value: &T) -> (r:
        ContractResult<()>)
        ensures
            context_fault(old(rt)@) is Some ==> refused(r, old(rt)@) && final(rt)@ == old(rt)@,
            context_fault(old(rt)@) is None && T::encodable(value@) ==> r is Ok && final(rt)@
                == put(old(rt)@, key@, T::encoding(value@)),
            context_fault(old(rt)@) is None && !T::encodable(value@) ==> final(rt)@ == old(rt)@
                && fails_with(r, ErrorView::SerializationFailed),
    {
        let ctx = try_context(rt)?;
        match value.encode() {
            Ok(data) => ffi::write_storage(rt, ctx.contract_address(), key, data.as_slice()),
            Err(_) => Err(ContractError::SerializationFailed),
        }
    }

    /// Removes the value under a key, by writing the empty payload.
    pub fn remove(&mut self, rt: &mut MockRuntime, key: &str) -> (r: ContractResult<()>)
        ensures
            context_fault(old(rt)@) is Some ==> refused(r, old(rt)@) && final(rt)@ == old(rt)@,
            context_fault(old(rt)@) is None ==> r is Ok && final(rt)@ == put(
                old(rt)@,
                key@,
                Seq::empty(),
            ),
    {
        let ctx = try_context(rt)?;
        let nothing: Vec<u8> = Vec::new();
        ffi::write_storage(rt, ctx.contract_address(), key, nothing.as_slice())
    }

    /// Whether a payload is stored under a key. Every failure is an answer
    /// of `false`: a caller cannot tell a missing record from a host whose
    /// facts are at fault.
    pub fn has(&self, rt: &MockRuntime, key: &str) -> (present: bool)
        ensures
            present == (context_fault(rt@) is None && record(rt@, key@).len() > 0),
    {
        let ctx = match try_context(rt) {
            Ok(ctx) => ctx,
            Err(_) => {
                return false;
            },
        };
        stored_presence(ffi::read_storage(rt, ctx.contract_address(), key))
    }
}

/// The access to the records of the running contract.
pub fn storage() -> Storage {
    Storage
}

/// The key of the record that a map with this prefix keeps for a key with
/// these bytes: the prefix, a colon, and the digest of the bytes in
/// hexadecimal.
pub open spec fn physical_key(prefix: Seq<char>, key_bytes: Seq<u8>) -> Seq<char> {
    digest_key(prefix, blake3_hash(key_bytes)@)
}

/// The key of the record that a map with this prefix keeps for a key whose
/// bytes have this digest.
pub open spec fn digest_key(prefix: Seq<char>, digest: Seq<u8>) -> Seq<char> {
    prefix + seq![':'] + hex_lower(digest)
}

/// Joins a prefix, a colon and a digest in hexadecimal.
pub fn record_key(prefix: &str, digest: &[u8; 32]) -> (key: String)
    ensures
        key@ == digest_key(prefix@, digest@),
{
    let mut key = String::from_str(prefix);
    key.append(":");
    let hex_text = hex_encode(digest.as_slice());
    key.append(hex_text.as_str());
    proof {
        reveal_strlit(":");
        assert(":"@ =~= seq![':']);
    }
    key
}

/// A map from keys to values under a prefix of the records. A key is found
/// through its digest, so the map can be asked for a key and cannot list its
/// keys.
pub struct StorageMap<K, V> {
    prefix: String,
    _phantom: PhantomData<(K, V)>,
}

impl<K, V> View for StorageMap<K, V> {
    type V = Seq<char>;

    /// The prefix of the map.
    closed spec fn view(&self) -> Seq<char> {
        self.prefix@
    }
}

impl<K, V> Clone for StorageMap<K, V> {
    /// A map under the same prefix.
    fn clone(&self) -> (map: Self)
        ensures
            map@ == self@,
    {
        Self { prefix: self.prefix.clone(), _phantom: PhantomData }
    }
}

impl<K: Storable, V: Storable> StorageMap<K, V> {
    /// The map under a prefix.
    pub fn new(prefix: &str) -> (map: Self)
        ensures
            map@ == prefix@,
    {
        Self { prefix: prefix.to_owned(), _phantom: PhantomData }
    }

    /// The key of the record of a map key.
    pub open spec fn slot(&self, key: K::V) -> Seq<char> {
        physical_key(self@, K::encoding(key))
    }

    /// Computes the key of the record of a map key.
    pub fn storage_key(&self, key: &K) -> (r: ContractResult<String>)
        ensures
            K::encodable(key@) ==> (r matches Ok(slot) && slot@ == self.slot(key@)),
            !K::encodable(key@) ==> fails_with(r, ErrorView::SerializationFailed),
    {
        let key_bytes = match key.encode() {
            Ok(bytes) => bytes,
            Err(_) => {
                return Err(ContractError::SerializationFailed);
            },
        };
        let key_hash = blake3_digest(key_bytes.as_slice());
        Ok(record_key(self.prefix.as_str(), &key_hash))
    }

    /// Reads the value of a key: `None` where the map holds none.
    pub fn get(&self, rt: &MockRuntime, key: &K) -> (r: ContractResult<Option<V>>)
        ensures
            !K::encodable(key@) ==> fails_with(r, ErrorView::SerializationFailed),
            K::encodable(key@) && context_fault(rt@) is Some ==> refused(r, rt@),
            K::encodable(key@) && context_fault(rt@) is None ==> reads(
                r,
                record(rt@, self.slot(key@)),
            ),
    {
        let storage_key = self.storage_key(key)?;
        storage().get(rt, storage_key.as_str())
    }

    /// Gives a key a value. A key that cannot be encoded is reported before a
    /// faulty context, and a faulty context before a value that cannot be
    /// encoded; each leaves the host untouched.
    pub fn set(&mut self, rt: &mut MockRuntime, key: &K, value: &V) -> (r: ContractResult<()>)
        ensures
            final(self)@ == old(self)@,
            r is Err ==> final(rt)@ == old(rt)@,
            !K::encodable(key@) ==> fails_with(r, ErrorView::SerializationFailed),
            K::encodable(key@) && context_fault(old(rt)@) is Some ==> refused(r, old(rt)@),
            K::encodable(key@) && context_fault(old(rt)@) is None && !V::encodable(value@)
                ==> fails_with(r, ErrorView::SerializationFailed),
            K::encodable(key@) && context_fault(old(rt)@) is None && V::encodable(value@) ==> r is Ok
                && final(rt)@ == put(old(rt)@, old(self).slot(key@), V::encoding(value@)),
    {
        let storage_key = self.storage_key(key)?;
        storage().set(rt, storage_key.as_str(), value)
    }

    /// Removes the value of a key.
    pub fn remove(&mut self, rt: &mut MockRuntime, key: &K) -> (r: ContractResult<()>)
        ensures
            final(self)@ == old(self)@,
            r is Err ==> final(rt)@ == old(rt)@,
            !K::encodable(key@) ==> fails_with(r, ErrorView::SerializationFailed),
            K::encodable(key@) && context_fault(old(rt)@) is Some ==> refused(r, old(rt)@),
            K::encodable(key@) && context_fault(old(rt)@) is None ==> r is Ok && final(rt)@ == put(
                old(rt)@,
                old(self).slot(key@),
                Seq::empty(),
            ),
    {
        let storage_key = self.storage_key(key)?;
        storage().remove(rt, storage_key.as_str())
    }

    /// Whether the map holds a value for a key. A faulty context is an
    /// answer of `false`.
    pub fn contains_key(&self, rt: &MockRuntime, key: &K) -> (r: ContractResult<bool>)
        ensures
            K::encodable(key@) ==> (r matches Ok(present) && present == (context_fault(rt@) is None
                && record(rt@, self.slot(key@)).len() > 0)),
            !K::encodable(key@) ==> fails_with(r, ErrorView::SerializationFailed),
    {
        let storage_key = self.storage_key(key)?;
        Ok(storage().has(rt, storage_key.as_str()))
    }
}

/// Two values of four bits with the same character are the same value.
proof fn lemma_hex_digit_injective(a: int, b: int)
    requires
        0 <= a < 16,
        0 <= b < 16,
        hex_digit(a) == hex_digit(b),
    ensures
        a == b,
{
}

/// Two byte strings with the same hexadecimal text are the same.
pub proof fn lemma_hex_injective(a: Seq<u8>, b: Seq<u8>)
    requires
        hex_lower(a) == hex_lower(b),
    ensures
        a == b,
{
    assert(hex_lower(a).len() == 2 * a.len());
    assert(hex_lower(b).len() == 2 * b.len());
    assert forall|i: int| 0 <= i < a.len() implies a[i] == b[i] by {
        let high = hex_lower(a)[2 * i];
        let low = hex_lower(a)[2 * i + 1];
        assert(high == hex_lower(b)[2 * i]);
        assert(low == hex_lower(b)[2 * i + 1]);
        assert((2 * i) / 2 == i && (2 * i) % 2 == 0);
        assert((2 * i + 1) / 2 == i && (2 * i + 1) % 2 == 1);
        lemma_hex_digit_injective(a[i] as int / 16, b[i] as int / 16);
        lemma_hex_digit_injective(a[i] as int % 16, b[i] as int % 16);
    }
    assert(a =~= b);
}

/// The key of a record is a function of the prefix and of the digest of the
/// key's bytes, and of nothing else: one prefix and one key give one record,
/// whichever map computes it; two prefixes that differ never share a record;
/// and two keys under one prefix share a record only where their bytes have
/// the same digest.
pub proof fn lemma_physical_keys(
    prefix_a: Seq<char>,
    key_a: Seq<u8>,
    prefix_b: Seq<char>,
    key_b: Seq<u8>,
)
    ensures
        physical_key(prefix_a, key_a) == physical_key(prefix_b, key_b) <==> prefix_a == prefix_b
            && blake3_hash(key_a)@ == blake3_hash(key_b)@,
{
    let digest_a = blake3_hash(key_a)@;
    let digest_b = blake3_hash(key_b)@;
    let slot_a = physical_key(prefix_a, key_a);
    let slot_b = physical_key(prefix_b, key_b);
    assert(hex_lower(digest_a).len() == 64);
    assert(hex_lower(digest_b).len() == 64);
    if slot_a == slot_b {
        assert(slot_a.len() == prefix_a.len() + 65);
        assert(slot_b.len() == prefix_b.len() + 65);
        assert(prefix_a =~= slot_a.subrange(0, prefix_a.len() as int));
        assert(prefix_b =~= slot_b.subrange(0, prefix_b.len() as int));
        assert(hex_lower(digest_a) =~= slot_a.subrange(
            prefix_a.len() as int + 1,
            slot_a.len() as int,
        ));
        assert(hex_lower(digest_b) =~= slot_b.subrange(
            prefix_b.len() as int + 1,
            slot_b.len() as int,
        ));
        lemma_hex_injective(digest_a, digest_b);
    }
}

/// Two maps with one prefix keep a key in one record; two storable keys that
/// share a record under one prefix are one key, unless the digests of their
/// bytes collide.
pub proof fn lemma_map_slots<K: Storable, V: Storable>(
    first: StorageMap<K, V>,
    second: StorageMap<K, V>,
    key_a: K::V,
    key_b: K::V,
)
    requires
        K::encodable(key_a),
        K::encodable(key_b),
    ensures
        first@ == second@ ==> first.slot(key_a) == second.slot(key_a),
        first@ != second@ ==> first.slot(key_a) != second.slot(key_b),
        first.slot(key_a) == first.slot(key_b) && key_a != key_b ==> K::encoding(key_a)
            != K::encoding(key_b) && blake3_hash(K::encoding(key_a))@ == blake3_hash(
            K::encoding(key_b),
        )@,
{
    lemma_physical_keys(first@, K::encoding(key_a), second@, K::encoding(key_b));
    lemma_physical_keys(first@, K::encoding(key_a), first@, K::encoding(key_b));
    K::lemma_faithful(key_a);
    K::lemma_faithful(key_b);
}

/// The key of the record that holds the length of a vector.
pub open spec fn length_key(prefix: Seq<char>) -> Seq<char> {
    prefix + "::len"@
}

/// The key of the record that holds the item of a vector at an index.
pub open spec fn element_key(prefix: Seq<char>, index: u64) -> Seq<char> {
    prefix + "::item::"@ + decimal(index as nat)
}

/// The length of the vector under a prefix: zero where no length is stored,
/// `None` where the stored length does not decode.
pub open spec fn vector_len(host: RuntimeView, prefix: Seq<char>) -> Option<u64> {
    match reading::<u64>(record(host, length_key(prefix))) {
        None => None,
        Some(None) => Some(0),
        Some(Some(len)) => Some(len),
    }
}

/// The state after a vector of length `len` took one more item with these
/// bytes: the item is written at index `len`, then the length becomes
/// `len + 1`.
pub open spec fn pushed(host: RuntimeView, prefix: Seq<char>, len: u64, item: Seq<u8>) -> RuntimeView {
    put(
        put(host, element_key(prefix, len), item),
        length_key(prefix),
        u64::encoding((len + 1) as u64),
    )
}

/// The state after a vector of length `len` gave up its last item: the item
/// at index `len - 1` is removed, then the length becomes `len - 1`.
pub open spec fn popped(host: RuntimeView, prefix: Seq<char>, len: u64) -> RuntimeView {
    put(
        put(host, element_key(prefix, (len - 1) as u64), Seq::empty()),
        length_key(prefix),
        u64::encoding((len - 1) as u64),
    )
}

/// A vector under a prefix of the records: a length and one record for each
/// index below it. The length is read from the records at every call.
pub struct Vector<T> {
    prefix: String,
    _phantom: PhantomData<T>,
}

impl<T> View for Vector<T> {
    type V = Seq<char>;

    /// The prefix of the vector.
    closed spec fn view(&self) -> Seq<char> {
        self.prefix@
    }
}

impl<T> Clone for Vector<T> {
    /// A vector under the same prefix.
    fn clone(&self) -> (vector: Self)
        ensures
            vector@ == self@,
    {
        Self { prefix: self.prefix.clone(), _phantom: PhantomData }
    }
}

impl<T: Storable> Vector<T> {
    /// The vector under a prefix.
    pub fn new(prefix: &str) -> (vector: Self)
        ensures
            vector@ == prefix@,
    {
        Self { prefix: prefix.to_owned(), _phantom: PhantomData }
    }

    /// The number of items; zero where no length was ever stored.
    pub fn len(&self, rt: &MockRuntime) -> (r: ContractResult<u64>)
        ensures
            context_fault(rt@) is Some ==> refused(r, rt@),
            context_fault(rt@) is None ==> match vector_len(rt@, self@) {
                Some(len) => r matches Ok(found) && found == len,
                None => fails_with(r, ErrorView::DeserializationFailed),
            },
    {
        let len_key = self.len_key();
        match storage().get::<u64>(rt, len_key.as_str()) {
            Ok(Some(len)) => Ok(len),
            Ok(None) => Ok(0),
            Err(e) => Err(e),
        }
    }

    /// Whether the vector holds no item.
    pub fn is_empty(&self, rt: &MockRuntime) -> (r: ContractResult<bool>)
        ensures
            context_fault(rt@) is Some ==> refused(r, rt@),
            context_fault(rt@) is None ==> match vector_len(rt@, self@) {
                Some(len) => r matches Ok(empty) && empty == (len == 0),
                None => fails_with(r, ErrorView::DeserializationFailed),
            },
    {
        let len_key = self.len_key();
        match storage().get::<u64>(rt, len_key.as_str()) {
            Ok(Some(len)) => Ok(len == 0),
            Ok(None) => Ok(true),
            Err(e) => Err(e),
        }
    }

    /// The item at an index; `None` at or beyond the length.
    pub fn get(&self, rt: &MockRuntime, index: u64) -> (r: ContractResult<Option<T>>)
        ensures
            context_fault(rt@) is Some ==> refused(r, rt@),
            context_fault(rt@) is None ==> match vector_len(rt@, self@) {
                Some(len) => if index >= len {
                    r matches Ok(None)
                } else {
                    reads(r, record(rt@, element_key(self@, index)))
                },
                None => fails_with(r, ErrorView::DeserializationFailed),
            },
    {
        let len = self.len(rt)?;
        if index >= len {
            return Ok(None);
        }
        let item_key = self.item_key(index);
        storage().get(rt, item_key.as_str())
    }

    /// Replaces the item at an index below the length. An index at or
    /// beyond the length is `InvalidArgument`: the vector does not grow.
    pub fn set(&mut self, rt: &mut MockRuntime, index: u64, value: &T) -> (r: ContractResult<()>)
        ensures
            final(self)@ == old(self)@,
            context_fault(old(rt)@) is Some ==> refused(r, old(rt)@) && final(rt)@ == old(rt)@,
            context_fault(old(rt)@) is None ==> match vector_len(old(rt)@, old(self)@) {
                Some(len) => if index >= len {
                    final(rt)@ == old(rt)@ && fails_with(
                        r,
                        ErrorView::InvalidArgument("Index out of bounds"@),
                    )
                } else if T::encodable(value@) {
                    r is Ok && final(rt)@ == put(
                        old(rt)@,
                        element_key(old(self)@, index),
                        T::encoding(value@),
                    )
                } else {
                    final(rt)@ == old(rt)@ && fails_with(r, ErrorView::SerializationFailed)
                },
                None => final(rt)@ == old(rt)@ && fails_with(r, ErrorView::DeserializationFailed),
            },
    {
        let len = self.len(rt)?;
        if index >= len {
            return Err(invalid_argument("Index out of bounds"));
        }
        let item_key = self.item_key(index);
        storage().set(rt, item_key.as_str(), value)
    }

    /// Appends an item: writes it at the index that equals the length, then
    /// stores the length plus one. A vector of `u64::MAX` items is full, and
    /// appending to it is `Overflow`. An item whose encoding is empty is
    /// stored as nothing: it counts in the length and reads as no value.
    pub fn push(&mut self, rt: &mut MockRuntime, value: &T) -> (r: ContractResult<()>)
        ensures
            final(self)@ == old(self)@,
            context_fault(old(rt)@) is Some ==> refused(r, old(rt)@) && final(rt)@ == old(rt)@,
            context_fault(old(rt)@) is None ==> match vector_len(old(rt)@, old(self)@) {
                Some(len) => if len == u64::MAX {
                    final(rt)@ == old(rt)@ && fails_with(r, ErrorView::Overflow)
                } else if T::encodable(value@) {
                    r is Ok && final(rt)@ == pushed(
                        old(rt)@,
                        old(self)@,
                        len,
                        T::encoding(value@),
                    )
                } else {
                    final(rt)@ == old(rt)@ && fails_with(r, ErrorView::SerializationFailed)
                },
                None => final(rt)@ == old(rt)@ && fails_with(r, ErrorView::DeserializationFailed),
            },
    {
        let len = self.len(rt)?;
        if len == u64::MAX {
            return Err(ContractError::Overflow);
        }
        let item_key = self.item_key(len);
        storage().set(rt, item_key.as_str(), value)?;

        let len_key = self.len_key();
        storage().set(rt, len_key.as_str(), &(len + 1))
    }

    /// Removes the last item and returns it: reads and removes the item at
    /// the index below the length, then stores the length minus one. An empty
    /// vector gives `None` and is left as it is.
    pub fn pop(&mut self, rt: &mut MockRuntime) -> (r: ContractResult<Option<T>>)
        ensures
            final(self)@ == old(self)@,
            context_fault(old(rt)@) is Some ==> refused(r, old(rt)@) && final(rt)@ == old(rt)@,
            context_fault(old(rt)@) is None ==> match vector_len(old(rt)@, old(self)@) {
                Some(len) => if len == 0 {
                    final(rt)@ == old(rt)@ && r matches Ok(None)
                } else {
                    let item = record(old(rt)@, element_key(old(self)@, (len - 1) as u64));
                    if reading::<T>(item) is Some {
                        reads(r, item) && final(rt)@ == popped(old(rt)@, old(self)@, len)
                    } else {
                        final(rt)@ == old(rt)@ && fails_with(r, ErrorView::DeserializationFailed)
                    }
                },
                None => final(rt)@ == old(rt)@ && fails_with(r, ErrorView::DeserializationFailed),
            },
    {
        let len = self.len(rt)?;
        if len == 0 {
            return Ok(None);
        }
        let item_key = self.item_key(len - 1);
        let value = storage().get::<T>(rt, item_key.as_str())?;
        storage().remove(rt, item_key.as_str())?;

        let len_key = self.len_key();
        storage().set(rt, len_key.as_str(), &(len - 1))?;

        Ok(value)
    }

    /// The key of the record that holds the length.
    pub fn len_key(&self) -> (key: String)
        ensures
            key@ == length_key(self@),
    {
        let mut key = String::from_str(self.prefix.as_str());
        key.append("::len");
        key
    }

    /// The key of the record that holds the item at an index.
    pub fn item_key(&self, index: u64) -> (key: String)
        ensures
            key@ == element_key(self@, index),
    {
        let index_text = format_u64(index);
        let mut key = String::from_str(self.prefix.as_str());
        key.append("::item::");
        key.append(index_text.as_str());
        key
    }
}

/// The record of the length is none of the records of the items.
pub proof fn lemma_length_key_is_no_element(prefix: Seq<char>, index: u64)
    ensures
        length_key(prefix) != element_key(prefix, index),
{
    reveal_strlit("::len");
    reveal_strlit("::item::");
    let at = prefix.len() as int + 2;
    assert(length_key(prefix)[at] == 'l');
    assert(element_key(prefix, index)[at] == 'i');
}

/// Appending an item and then removing the last item gives the item back
/// and restores the length: after a vector of `len` items took `item`, its
/// length is `len + 1` and its last item reads as `item`; after it then gave
/// up its last item, its length is `len` again. This holds of every item
/// whose encoding is not empty; an item with an empty encoding is stored as
/// nothing and comes back as no value.
pub proof fn lemma_push_then_pop<T: Storable>(
    host: RuntimeView,
    prefix: Seq<char>,
    len: u64,
    item: T::V,
)
    requires
        vector_len(host, prefix) == Some(len),
        len < u64::MAX,
        T::encodable(item),
        T::encoding(item).len() > 0,
    ensures
        ({
            let after_push = pushed(host, prefix, len, T::encoding(item));
            let after_pop = popped(after_push, prefix, (len + 1) as u64);
            &&& vector_len(after_push, prefix) == Some((len + 1) as u64)
            &&& vector_item::<T>(after_push, prefix, len) == Some(Some(item))
            &&& vector_len(after_pop, prefix) == Some(len)
            &&& vector_item::<T>(after_pop, prefix, len) == Some(None::<T::V>)
        }),
{
    lemma_length_key_is_no_element(prefix, len);
    T::lemma_faithful(item);
    u64::lemma_faithful((len + 1) as u64);
    u64::lemma_faithful(len);
    lemma_encodings_not_empty((len + 1) as nat, Seq::empty());
    lemma_encodings_not_empty(len as nat, Seq::empty());
}

/// What the item of a vector at an index reads as.
pub open spec fn vector_item<T: Storable>(host: RuntimeView, prefix: Seq<char>, index: u64) -> Option<
    Option<T::V>,
> {
    reading::<T>(record(host, element_key(prefix, index)))
}

/// Two numbers with the same decimal text are the same number.
pub proof fn lemma_decimal_injective(a: nat, b: nat)
    requires
        decimal(a) == decimal(b),
    ensures
        a == b,
    decreases a,
{
    lemma_decimal_len(a);
    lemma_decimal_len(b);
    assert(decimal(a).last() == decimal_digit(a % 10));
    assert(decimal(b).last() == decimal_digit(b % 10));
    assert(a % 10 == b % 10);
    if a >= 10 {
        assert(decimal(a).drop_last() =~= decimal(a / 10));
        assert(decimal(b).drop_last() =~= decimal(b / 10));
        lemma_decimal_injective(a / 10, b / 10);
    }
}

/// A number below ten has one digit, and any other number has more.
proof fn lemma_decimal_len(n: nat)
    ensures
        decimal(n).len() >= 1,
        n < 10 <==> decimal(n).len() == 1,
    decreases n,
{
    if n >= 10 {
        lemma_decimal_len(n / 10);
    }
}

/// The items of a vector at two different indices are kept in two different
/// records.
pub proof fn lemma_element_keys_distinct(prefix: Seq<char>, i: u64, j: u64)
    requires
        i != j,
    ensures
        element_key(prefix, i) != element_key(prefix, j),
{
    let head = prefix + "::item::"@;
    if element_key(prefix, i) == element_key(prefix, j) {
        assert(decimal(i as nat) =~= element_key(prefix, i).subrange(
            head.len() as int,
            element_key(prefix, i).len() as int,
        ));
        assert(decimal(j as nat) =~= element_key(prefix, j).subrange(
            head.len() as int,
            element_key(prefix, j).len() as int,
        ));
        lemma_decimal_injective(i as nat, j as nat);
    }
}

/// A value that was written under a key is read back under that key, unless
/// its encoding is empty and it reads as no value; and what is kept under
/// any other key stays as it was.
pub proof fn lemma_set_then_get<T: Storable>(
    host: RuntimeView,
    key: Seq<char>,
    value: T::V,
    other: Seq<char>,
)
    requires
        T::encodable(value),
    ensures
        reading::<T>(record(put(host, key, T::encoding(value)), key)) == if T::encoding(
            value,
        ).len() > 0 {
            Some(Some(value))
        } else {
            Some(None::<T::V>)
        },
        record(put(host, key, Seq::empty()), key).len() == 0,
        other != key ==> record(put(host, key, T::encoding(value)), other) == record(host, other),
        other != key ==> record(put(host, key, Seq::empty()), other) == record(host, other),
{
    T::lemma_faithful(value);
}

/// Replacing the item at an index changes that item alone: the length and
/// the items at all other indices stay as they were.
pub proof fn lemma_set_changes_one_item<T: Storable>(
    host: RuntimeView,
    prefix: Seq<char>,
    index: u64,
    value: T::V,
    other: u64,
)
    requires
        T::encodable(value),
        T::encoding(value).len() > 0,
    ensures
        ({
            let after = put(host, element_key(prefix, index), T::encoding(value));
            &&& vector_len(after, prefix) == vector_len(host, prefix)
            &&& vector_item::<T>(after, prefix, index) == Some(Some(value))
            &&& other != index ==> vector_item::<T>(after, prefix, other) == vector_item::<T>(
                host,
                prefix,
                other,
            )
        }),
{
    T::lemma_faithful(value);
    lemma_length_key_is_no_element(prefix, index);
    if other != index {
        lemma_element_keys_distinct(prefix, other, index);
    }
}

/// Appending and removing at the end leave the items at all other indices
/// as they were.
pub proof fn lemma_push_and_pop_keep_items<T: Storable>(
    host: RuntimeView,
    prefix: Seq<char>,
    len: u64,
    item: Seq<u8>,
    other: u64,
)
    ensures
        len < u64::MAX && other != len ==> vector_item::<T>(
            pushed(host, prefix, len, item),
            prefix,
            other,
        ) == vector_item::<T>(host, prefix, other),
        len > 0 && other != len - 1 ==> vector_item::<T>(popped(host, prefix, len), prefix, other)
            == vector_item::<T>(host, prefix, other),
{
    lemma_length_key_is_no_element(prefix, other);
    if len < u64::MAX && other != len {
        lemma_element_keys_distinct(prefix, other, len);
    }
    if len > 0 && other != len - 1 {
        lemma_element_keys_distinct(prefix, other, (len - 1) as u64);
    }
}

} // verus!
