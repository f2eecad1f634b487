//! The in-memory host: a table of stored records and the facts of one
//! invocation, with the logs, events and return data that a contract produced.

use crate::error::{fails_with, invalid_argument, ContractError, ContractResult, ErrorView};
use crate::primitives::{
    blake3_digest, blake3_hash, ed25519_key_accepted, ed25519_signature_accepted, ed25519_verify,
};
use crate::text::str_eq;
use vstd::prelude::*;
use vstd::slice::slice_to_vec;
use vstd::string::*;

verus! {

/// An event that a contract emitted.
#[derive(Debug, Clone)]
pub struct EventRecord {
    pub topic: String,
    pub data: Vec<u8>,
}

impl View for EventRecord {
    type V = (Seq<char>, Seq<u8>);

    open spec fn view(&self) -> (Seq<char>, Seq<u8>) {
        (self.topic@, self.data@)
    }
}

/// One stored record: the payload kept under a key of an account.
struct StorageEntry {
    account: String,
    key: String,
    data: Vec<u8>,
}

impl StorageEntry {
    spec fn slot(self) -> (Seq<char>, Seq<char>) {
        (self.account@, self.key@)
    }
}

/// The in-memory host.
pub struct MockRuntime {
    storage: Vec<StorageEntry>,
    sender: String,
    contract_address: String,
    block_height: u64,
    block_timestamp: u64,
    value: u64,
    call_data: Vec<u8>,
    return_data: Vec<u8>,
    events: Vec<EventRecord>,
    logs: Vec<String>,
}

/// The mathematical state of a [`MockRuntime`].
pub struct RuntimeView {
    /// Payload stored under each (account, key); a missing pair stores nothing.
    pub storage: Map<(Seq<char>, Seq<char>), Seq<u8>>,
    pub sender: Seq<char>,
    pub contract_address: Seq<char>,
    pub block_height: u64,
    pub block_timestamp: u64,
    pub value: u64,
    pub call_data: Seq<u8>,
    pub return_data: Seq<u8>,
    /// Topic and payload of each emitted event, oldest first.
    pub events: Seq<(Seq<char>, Seq<u8>)>,
    /// Logged messages, oldest first.
    pub logs: Seq<Seq<char>>,
}

impl RuntimeView {
    /// The state of a host that nothing has touched.
    pub open spec fn pristine() -> RuntimeView {
        RuntimeView {
            storage: Map::empty(),
            sender: Seq::empty(),
            contract_address: Seq::empty(),
            block_height: 0,
            block_timestamp: 0,
            value: 0,
            call_data: Seq::empty(),
            return_data: Seq::empty(),
            events: Seq::empty(),
            logs: Seq::empty(),
        }
    }

    /// The payload read under a key of an account: empty where nothing is
    /// stored.
    pub open spec fn payload(self, account: Seq<char>, key: Seq<char>) -> Seq<u8> {
        if self.storage.contains_key((account, key)) {
            self.storage[(account, key)]
        } else {
            Seq::empty()
        }
    }

    /// The state after a write: an empty payload deletes the record.
    pub open spec fn write(self, account: Seq<char>, key: Seq<char>, value: Seq<u8>) -> RuntimeView {
        RuntimeView {
            storage: if value.len() == 0 {
                self.storage.remove((account, key))
            } else {
                self.storage.insert((account, key), value)
            },
            ..self
        }
    }

    /// Every stored payload holds at least one byte.
    pub open spec fn well_formed(self) -> bool {
        forall|slot: (Seq<char>, Seq<char>)| #[trigger]
            self.storage.contains_key(slot) ==> self.storage[slot].len() > 0
    }
}

/// The pristine state is well formed, and a write keeps a state well
/// formed: no write can store an empty payload.
pub proof fn lemma_write_keeps_well_formed(
    host: RuntimeView,
    account: Seq<char>,
    key: Seq<char>,
    value: Seq<u8>,
)
    requires
        host.well_formed(),
    ensures
        RuntimeView::pristine().well_formed(),
        host.write(account, key, value).well_formed(),
        host.write(account, key, value).payload(account, key) == value,
{
}

/// Topic and payload of each event of a list.
pub open spec fn event_views(events: Seq<EventRecord>) -> Seq<(Seq<char>, Seq<u8>)> {
    events.map_values(|e: EventRecord| e@)
}

/// The text of each message of a list.
pub open spec fn log_views(logs: Seq<String>) -> Seq<Seq<char>> {
    logs.map_values(|s: String| s@)
}

/// The byte strings that a list of references stands for.
pub open spec fn byte_views(items: Seq<&[u8]>) -> Seq<Seq<u8>> {
    items.map_values(|item: &[u8]| item@)
}

/// The byte strings that a list of public keys stands for.
pub open spec fn key_views(keys: Seq<&[u8; 32]>) -> Seq<Seq<u8>> {
    keys.map_values(|key: &[u8; 32]| key@)
}

/// The byte strings that a list of signatures stands for.
pub open spec fn signature_views(signatures: Seq<&[u8; 64]>) -> Seq<Seq<u8>> {
    signatures.map_values(|signature: &[u8; 64]| signature@)
}

/// What checking one signature yields: `None` where the public key is
/// malformed, otherwise whether the signature is valid.
pub open spec fn verdict(pubkey: Seq<u8>, message: Seq<u8>, signature: Seq<u8>) -> Option<bool> {
    if ed25519_key_accepted(pubkey) {
        Some(ed25519_signature_accepted(pubkey, message, signature))
    } else {
        None
    }
}

/// What checking the first `n` triples yields: `None` where one of their
/// public keys is malformed, otherwise the validity of each signature.
pub open spec fn verdicts(
    pubkeys: Seq<Seq<u8>>,
    messages: Seq<Seq<u8>>,
    signatures: Seq<Seq<u8>>,
    n: nat,
) -> Option<Seq<bool>> {
    if forall|i: int| 0 <= i < n ==> ed25519_key_accepted(#[trigger] pubkeys[i]) {
        Some(
            Seq::new(
                n,
                |i: int| ed25519_signature_accepted(pubkeys[i], messages[i], signatures[i]),
            ),
        )
    } else {
        None
    }
}

/// The digest of each input.
pub open spec fn digests(inputs: Seq<Seq<u8>>) -> Seq<[u8; 32]> {
    Seq::new(inputs.len(), |i: int| blake3_hash(inputs[i]))
}

spec fn has_slot(entries: Seq<StorageEntry>, slot: (Seq<char>, Seq<char>)) -> bool {
    exists|i: int| 0 <= i < entries.len() && (#[trigger] entries[i]).slot() == slot
}

spec fn slot_index(entries: Seq<StorageEntry>, slot: (Seq<char>, Seq<char>)) -> int {
    choose|i: int| 0 <= i < entries.len() && (#[trigger] entries[i]).slot() == slot
}

spec fn table(entries: Seq<StorageEntry>) -> Map<(Seq<char>, Seq<char>), Seq<u8>> {
    Map::new(
        |slot: (Seq<char>, Seq<char>)| has_slot(entries, slot),
        |slot: (Seq<char>, Seq<char>)| entries[slot_index(entries, slot)].data@,
    )
}

spec fn entries_ok(entries: Seq<StorageEntry>) -> bool {
    &&& forall|i: int, j: int|
        0 <= i < j < entries.len() ==> (#[trigger] entries[i]).slot() != (#[trigger] entries[j]).slot()
    &&& forall|i: int| 0 <= i < entries.len() ==> (#[trigger] entries[i]).data@.len() > 0
}

proof fn lemma_table_at(entries: Seq<StorageEntry>, i: int)
    requires
        entries_ok(entries),
        0 <= i < entries.len(),
    ensures
        table(entries).contains_key(entries[i].slot()),
        table(entries)[entries[i].slot()] == entries[i].data@,
{
    let slot = entries[i].slot();
    assert(has_slot(entries, slot));
    let j = slot_index(entries, slot);
    assert(j == i);
}

proof fn lemma_table_lookup(entries: Seq<StorageEntry>, slot: (Seq<char>, Seq<char>))
    requires
        entries_ok(entries),
        table(entries).contains_key(slot),
    ensures
        0 <= slot_index(entries, slot) < entries.len(),
        entries[slot_index(entries, slot)].slot() == slot,
        table(entries)[slot] == entries[slot_index(entries, slot)].data@,
{
}

impl View for MockRuntime {
    type V = RuntimeView;

    closed spec fn view(&self) -> RuntimeView {
        RuntimeView {
            storage: table(self.storage@),
            sender: self.sender@,
            contract_address: self.contract_address@,
            block_height: self.block_height,
            block_timestamp: self.block_timestamp,
            value: self.value,
            call_data: self.call_data@,
            return_data: self.return_data@,
            events: event_views(self.events@),
            logs: log_views(self.logs@),
        }
    }
}

impl Default for MockRuntime {
    /// A host that nothing has touched.
    fn default() -> (rt: MockRuntime)
        ensures
            rt@ == RuntimeView::pristine(),
    {
        MockRuntime::new()
    }
}

impl MockRuntime {
    #[verifier::type_invariant]
    spec fn inv(self) -> bool {
        entries_ok(self.storage@)
    }

    /// A host that nothing has touched.
    pub fn new() -> (rt: MockRuntime)
        ensures
            rt@ == RuntimeView::pristine(),
    {
        let rt = MockRuntime {
            storage: Vec::new(),
            sender: String::new(),
            contract_address: String::new(),
            block_height: 0,
            block_timestamp: 0,
            value: 0,
            call_data: Vec::new(),
            return_data: Vec::new(),
            events: Vec::new(),
            logs: Vec::new(),
        };
        proof {
            assert(rt@.storage =~= Map::empty());
            assert(rt@.events =~= Seq::empty());
            assert(rt@.logs =~= Seq::empty());
        }
        rt
    }

    /// Restores the pristine state.
    pub fn reset(&mut self)
        ensures
            final(self)@ == RuntimeView::pristine(),
    {
        *self = MockRuntime::new();
    }

    /// The pair under which the table keeps a record.
    pub fn storage_key(account: &str, key: &str) -> (slot: (String, String))
        ensures
            slot.0@ == account@,
            slot.1@ == key@,
    {
        (account.to_owned(), key.to_owned())
    }

    /// Position of the record of a slot, if the table holds one.
    fn find(&self, account: &str, key: &str) -> (r: Option<usize>)
        ensures
            match r {
                Some(i) => i < self.storage@.len() && self.storage@[i as int].slot() == (
                    account@,
                    key@,
                ),
                None => !has_slot(self.storage@, (account@, key@)),
            },
    {
        let mut i: usize = 0;
        while i < self.storage.len()
            invariant
                i <= self.storage@.len(),
                forall|k: int| 0 <= k < i ==> (#[trigger] self.storage@[k]).slot() != (account@, key@),
            decreases self.storage@.len() - i,
        {
            let entry = &self.storage[i];
            if str_eq(entry.account.as_str(), account) && str_eq(entry.key.as_str(), key) {
                return Some(i);
            }
            i += 1;
        }
        None
    }

    /// Reads the payload stored under a key of an account; a record that was
    /// never written reads as empty. Never fails.
    pub fn read_storage(&self, account: &str, key: &str) -> (r: ContractResult<Vec<u8>>)
        ensures
            r matches Ok(data) && data@ == self@.payload(account@, key@),
            self@.well_formed(),
    {
        proof {
            use_type_invariant(self);
            self.lemma_well_formed();
        }
        match self.find(account, key) {
            Some(i) => {
                proof {
                    lemma_table_at(self.storage@, i as int);
                }
                Ok(slice_to_vec(self.storage[i].data.as_slice()))
            },
            None => Ok(Vec::new()),
        }
    }

    proof fn lemma_well_formed(&self)
        requires
            entries_ok(self.storage@),
        ensures
            self@.well_formed(),
    {
        assert forall|slot: (Seq<char>, Seq<char>)| #[trigger]
            self@.storage.contains_key(slot) implies self@.storage[slot].len() > 0 by {
            lemma_table_lookup(self.storage@, slot);
        }
    }

    /// Stores a payload under a key of an account; an empty payload deletes
    /// the record. Never fails.
    pub fn write_storage(&mut self, account: &str, key: &str, value: &[u8]) -> (r: ContractResult<()>)
        ensures
            r is Ok,
            final(self)@ == old(self)@.write(account@, key@, value@),
            final(self)@.well_formed(),
    {
        proof {
            use_type_invariant(&*self);
        }
        let found = self.find(account, key);
        let ghost before = self.storage@;
        let ghost slot = (account@, key@);
        let mut entries: Vec<StorageEntry> = Vec::new();
        core::mem::swap(&mut self.storage, &mut entries);
        assert(entries@ == before);
        if value.len() == 0 {
            match found {
                Some(i) => {
                    entries.remove(i);
                    proof {
                        let after = entries@;
                        assert(entries_ok(after));
                        assert forall|s: (Seq<char>, Seq<char>)| #[trigger]
                            table(after).contains_key(s) == table(before).remove(slot).contains_key(
                                s,
                            ) by {
                            if has_slot(after, s) {
                                let j = slot_index(after, s);
                                let jj = if j < i { j } else { j + 1 };
                                assert(before[jj].slot() == s);
                            }
                            if has_slot(before, s) && s != slot {
                                let j = slot_index(before, s);
                                let jj = if j < i { j } else { j - 1 };
                                assert(after[jj].slot() == s);
                            }
                        }
                        assert forall|s: (Seq<char>, Seq<char>)| #[trigger]
                            table(after).contains_key(s) implies table(after)[s] == table(
                            before,
                        ).remove(slot)[s] by {
                            let j = slot_index(after, s);
                            let jj = if j < i { j } else { j + 1 };
                            lemma_table_at(after, j);
                            lemma_table_at(before, jj);
                        }
                        assert(table(after) =~= table(before).remove(slot));
                    }
                },
                None => {
                    proof {
                        assert(table(before) =~= table(before).remove(slot));
                    }
                },
            }
        } else {
            let entry = StorageEntry {
                account: account.to_owned(),
                key: key.to_owned(),
                data: slice_to_vec(value),
            };
            match found {
                Some(i) => {
                    entries.set(i, entry);
                    proof {
                        let after = entries@;
                        assert(entries_ok(after));
                        assert forall|s: (Seq<char>, Seq<char>)| #[trigger]
                            table(after).contains_key(s) == table(before).insert(
                                slot,
                                value@,
                            ).contains_key(s) by {
                            if has_slot(after, s) {
                                let j = slot_index(after, s);
                                assert(before[j].slot() == s);
                            }
                            if has_slot(before, s) {
                                let j = slot_index(before, s);
                                assert(after[j].slot() == s);
                            }
                            if s == slot {
                                assert(after[i as int].slot() == s);
                            }
                        }
                        assert forall|s: (Seq<char>, Seq<char>)| #[trigger]
                            table(after).contains_key(s) implies table(after)[s] == table(
                            before,
                        ).insert(slot, value@)[s] by {
                            let j = slot_index(after, s);
                            lemma_table_at(after, j);
                            lemma_table_at(before, j);
                        }
                        assert(table(after) =~= table(before).insert(slot, value@));
                    }
                },
                None => {
                    entries.push(entry);
                    proof {
                        let after = entries@;
                        let n = before.len() as int;
                        assert(forall|k: int| 0 <= k < n ==> after[k] == before[k]);
                        assert(entries_ok(after));
                        assert forall|s: (Seq<char>, Seq<char>)| #[trigger]
                            table(after).contains_key(s) == table(before).insert(
                                slot,
                                value@,
                            ).contains_key(s) by {
                            if has_slot(after, s) {
                                let j = slot_index(after, s);
                                if j < n {
                                    assert(before[j].slot() == s);
                                }
                            }
                            if has_slot(before, s) {
                                let j = slot_index(before, s);
                                assert(after[j].slot() == s);
                            }
                            if s == slot {
                                assert(after[n].slot() == s);
                            }
                        }
                        assert forall|s: (Seq<char>, Seq<char>)| #[trigger]
                            table(after).contains_key(s) implies table(after)[s] == table(
                            before,
                        ).insert(slot, value@)[s] by {
                            let j = slot_index(after, s);
                            lemma_table_at(after, j);
                            if j < n {
                                lemma_table_at(before, j);
                            }
                        }
                        assert(table(after) =~= table(before).insert(slot, value@));
                    }
                },
            }
        }
        assert(entries_ok(entries@));
        core::mem::swap(&mut self.storage, &mut entries);
        proof {
            self.lemma_well_formed();
        }
        Ok(())
    }

    /// Appends a message to the log.
    pub fn log(&mut self, message: &str)
        ensures
            final(self)@ == (RuntimeView { logs: old(self)@.logs.push(message@), ..old(self)@ }),
    {
        proof {
            use_type_invariant(&*self);
        }
        let mut logs: Vec<String> = Vec::new();
        core::mem::swap(&mut self.logs, &mut logs);
        logs.push(message.to_owned());
        core::mem::swap(&mut self.logs, &mut logs);
        proof {
            assert(final(self)@.logs =~= old(self)@.logs.push(message@));
        }
    }

    /// Appends an event to the record of emitted events.
    pub fn emit_event_internal(&mut self, topic: &str, data: &[u8])
        ensures
            final(self)@ == (RuntimeView {
                events: old(self)@.events.push((topic@, data@)),
                ..old(self)@
            }),
    {
        proof {
            use_type_invariant(&*self);
        }
        let mut events: Vec<EventRecord> = Vec::new();
        core::mem::swap(&mut self.events, &mut events);
        events.push(EventRecord { topic: topic.to_owned(), data: slice_to_vec(data) });
        core::mem::swap(&mut self.events, &mut events);
        proof {
            assert(final(self)@.events =~= old(self)@.events.push((topic@, data@)));
        }
    }
}

/// Reads the payload stored under a key of an account.
pub fn read_storage(rt: &MockRuntime, account: &str, key: &str) -> (r: ContractResult<Vec<u8>>)
    ensures
        r matches Ok(data) && data@ == rt@.payload(account@, key@),
        rt@.well_formed(),
{
    rt.read_storage(account, key)
}

/// Stores a payload under a key of an account; an empty payload deletes the
/// record.
pub fn write_storage(rt: &mut MockRuntime, account: &str, key: &str, value: &[u8]) -> (r:
    ContractResult<()>)
    ensures
        r is Ok,
        final(rt)@ == old(rt)@.write(account@, key@, value@),
        final(rt)@.well_formed(),
{
    rt.write_storage(account, key, value)
}

/// Appends a message to the log.
pub fn log_message(rt: &mut MockRuntime, message: &str)
    ensures
        final(rt)@ == (RuntimeView { logs: old(rt)@.logs.push(message@), ..old(rt)@ }),
{
    rt.log(message);
}

/// Appends an event to the record of emitted events.
pub fn emit_event_internal(rt: &mut MockRuntime, topic: &str, data: &[u8])
    ensures
        final(rt)@ == (RuntimeView {
            events: old(rt)@.events.push((topic@, data@)),
            ..old(rt)@
        }),
{
    rt.emit_event_internal(topic, data);
}

/// Transfers value to an account. The in-memory host moves nothing and
/// accepts every transfer.
pub fn transfer_tokens(to: &str, amount: u64) -> (r: ContractResult<()>)
    ensures
        r is Ok,
{
    Ok(())
}

/// Height of the current block.
pub fn block_height(rt: &MockRuntime) -> (height: u64)
    ensures
        height == rt@.block_height,
{
    rt.block_height
}

/// Timestamp of the current block.
pub fn block_timestamp(rt: &MockRuntime) -> (timestamp: u64)
    ensures
        timestamp == rt@.block_timestamp,
{
    rt.block_timestamp
}

/// Address that sent the transaction.
pub fn sender(rt: &MockRuntime) -> (address: String)
    ensures
        address@ == rt@.sender,
{
    rt.sender.clone()
}

/// Address of the running contract.
pub fn contract_address(rt: &MockRuntime) -> (address: String)
    ensures
        address@ == rt@.contract_address,
{
    rt.contract_address.clone()
}

/// Value attached to the transaction.
pub fn value(rt: &MockRuntime) -> (amount: u64)
    ensures
        amount == rt@.value,
{
    rt.value
}

/// The call data of this invocation.
pub fn read_call_data_internal(rt: &MockRuntime) -> (r: ContractResult<Vec<u8>>)
    ensures
        r matches Ok(data) && data@ == rt@.call_data,
{
    Ok(slice_to_vec(rt.call_data.as_slice()))
}

/// Replaces the return data of this invocation.
pub fn write_return_data_internal(rt: &mut MockRuntime, data: &[u8]) -> (r: ContractResult<()>)
    ensures
        r is Ok,
        final(rt)@ == (RuntimeView { return_data: data@, ..old(rt)@ }),
{
    proof {
        use_type_invariant(&*rt);
    }
    rt.return_data = slice_to_vec(data);
    Ok(())
}

/// The BLAKE3 digest of a byte string.
pub fn hash_blake3_bytes(data: &[u8]) -> (digest: [u8; 32])
    ensures
        digest == blake3_hash(data@),
{
    blake3_digest(data)
}

/// Checks an Ed25519 signature. A malformed public key is the one error; a
/// signature that does not verify is `Ok(false)`.
pub fn verify_signature_slice(pubkey: &[u8; 32], message: &[u8], signature: &[u8; 64]) -> (r:
    ContractResult<bool>)
    ensures
        r matches Ok(valid) ==> verdict(pubkey@, message@, signature@) == Some(valid),
        r is Err ==> verdict(pubkey@, message@, signature@) is None && fails_with(
            r,
            ErrorView::InvalidSignature,
        ),
{
    match ed25519_verify(pubkey, message, signature) {
        Some(valid) => Ok(valid),
        None => Err(ContractError::InvalidSignature),
    }
}

/// Writes the BLAKE3 digest of `data` into `output`.
pub fn hash_blake3_internal(data: &[u8], output: &mut [u8; 32])
    ensures
        *final(output) == blake3_hash(data@),
{
    *output = hash_blake3_bytes(data);
}

/// The status of a signature check: 1 for a valid signature, 0 for an invalid
/// one, -1 for a malformed public key.
pub open spec fn verdict_status(verdict: Option<bool>) -> i32 {
    match verdict {
        Some(true) => 1i32,
        Some(false) => 0i32,
        None => -1i32,
    }
}

/// The status that reports the result of a signature check: 1 for a valid
/// signature, 0 for an invalid one, -1 for any error.
pub fn signature_status(checked: ContractResult<bool>) -> (status: i32)
    ensures
        status == match checked {
            Ok(true) => 1i32,
            Ok(false) => 0i32,
            Err(_) => -1i32,
        },
{
    match checked {
        Ok(true) => 1,
        Ok(false) => 0,
        Err(_) => -1,
    }
}

/// Checks an Ed25519 signature and reports the outcome as a status.
pub fn verify_signature_internal(pubkey: &[u8; 32], message: &[u8], signature: &[u8; 64]) -> (status:
    i32)
    ensures
        status == verdict_status(verdict(pubkey@, message@, signature@)),
{
    signature_status(verify_signature_slice(pubkey, message, signature))
}

/// The digest of each input, in order. Never fails.
pub fn batch_hash_blake3(inputs: &[&[u8]]) -> (r: ContractResult<Vec<[u8; 32]>>)
    ensures
        r matches Ok(outputs) && outputs@ == digests(byte_views(inputs@)),
{
    let mut outputs: Vec<[u8; 32]> = Vec::with_capacity(inputs.len());
    let mut idx: usize = 0;
    while idx < inputs.len()
        invariant
            idx <= inputs@.len(),
            outputs@.len() == idx,
            forall|i: int| 0 <= i < idx ==> outputs@[i] == blake3_hash(inputs@[i]@),
        decreases inputs@.len() - idx,
    {
        outputs.push(hash_blake3_bytes(inputs[idx]));
        idx += 1;
    }
    proof {
        assert(outputs@ =~= digests(byte_views(inputs@)));
    }
    Ok(outputs)
}

/// Checks one signature for each triple of public key, message and signature.
/// Lists of different lengths are rejected; the first malformed public key
/// fails the whole batch.
pub fn batch_verify_signatures(
    pubkeys: &[&[u8; 32]],
    messages: &[&[u8]],
    signatures: &[&[u8; 64]],
) -> (r: ContractResult<Vec<bool>>)
    ensures
        pubkeys@.len() != messages@.len() || pubkeys@.len() != signatures@.len() ==> fails_with(
            r,
            ErrorView::InvalidArgument("Batch input length mismatch"@),
        ),
        pubkeys@.len() == messages@.len() && pubkeys@.len() == signatures@.len() ==> match verdicts(
            key_views(pubkeys@),
            byte_views(messages@),
            signature_views(signatures@),
            pubkeys@.len(),
        ) {
            Some(results) => r matches Ok(found) && found@ == results,
            None => fails_with(r, ErrorView::InvalidSignature),
        },
{
    if pubkeys.len() != messages.len() || pubkeys.len() != signatures.len() {
        return Err(invalid_argument("Batch input length mismatch"));
    }
    let ghost keys = key_views(pubkeys@);
    let ghost texts = byte_views(messages@);
    let ghost marks = signature_views(signatures@);
    let mut results: Vec<bool> = Vec::with_capacity(pubkeys.len());
    let mut idx: usize = 0;
    while idx < pubkeys.len()
        invariant
            idx <= pubkeys@.len(),
            pubkeys@.len() == messages@.len(),
            pubkeys@.len() == signatures@.len(),
            keys == key_views(pubkeys@),
            texts == byte_views(messages@),
            marks == signature_views(signatures@),
            results@.len() == idx,
            forall|i: int| 0 <= i < idx ==> ed25519_key_accepted(#[trigger] keys[i]),
            forall|i: int|
                0 <= i < idx ==> results@[i] == ed25519_signature_accepted(
                    keys[i],
                    texts[i],
                    marks[i],
                ),
        decreases pubkeys@.len() - idx,
    {
        match verify_signature_slice(pubkeys[idx], messages[idx], signatures[idx]) {
            Ok(valid) => {
                results.push(valid);
            },
            Err(e) => {
                proof {
                    assert(!ed25519_key_accepted(keys[idx as int]));
                }
                return Err(e);
            },
        }
        idx += 1;
    }
    proof {
        assert(results@ =~= verdicts(keys, texts, marks, pubkeys@.len())->0);
    }
    Ok(results)
}

/// Restores the pristine state.
pub fn reset(rt: &mut MockRuntime)
    ensures
        final(rt)@ == RuntimeView::pristine(),
{
    rt.reset();
}

/// Sets the address that sends the transaction.
pub fn set_sender(rt: &mut MockRuntime, sender: &str)
    ensures
        final(rt)@ == (RuntimeView { sender: sender@, ..old(rt)@ }),
{
    proof {
        use_type_invariant(&*rt);
    }
    rt.sender = sender.to_owned();
}

/// Sets the address of the running contract.
pub fn set_contract_address(rt: &mut MockRuntime, addr: &str)
    ensures
        final(rt)@ == (RuntimeView { contract_address: addr@, ..old(rt)@ }),
{
    proof {
        use_type_invariant(&*rt);
    }
    rt.contract_address = addr.to_owned();
}

/// Sets the height of the current block.
pub fn set_block_height(rt: &mut MockRuntime, height: u64)
    ensures
        final(rt)@ == (RuntimeView { block_height: height, ..old(rt)@ }),
{
    proof {
        use_type_invariant(&*rt);
    }
    rt.block_height = height;
}

/// Sets the timestamp of the current block.
pub fn set_block_timestamp(rt: &mut MockRuntime, timestamp: u64)
    ensures
        final(rt)@ == (RuntimeView { block_timestamp: timestamp, ..old(rt)@ }),
{
    proof {
        use_type_invariant(&*rt);
    }
    rt.block_timestamp = timestamp;
}

/// Sets the value attached to the transaction.
pub fn set_value(rt: &mut MockRuntime, amount: u64)
    ensures
        final(rt)@ == (RuntimeView { value: amount, ..old(rt)@ }),
{
    proof {
        use_type_invariant(&*rt);
    }
    rt.value = amount;
}

/// Sets the call data of this invocation.
pub fn set_call_data(rt: &mut MockRuntime, data: &[u8])
    ensures
        final(rt)@ == (RuntimeView { call_data: data@, ..old(rt)@ }),
{
    proof {
        use_type_invariant(&*rt);
    }
    rt.call_data = slice_to_vec(data);
}

/// Hands out the emitted events, oldest first, and forgets them.
pub fn take_events(rt: &mut MockRuntime) -> (drained: Vec<EventRecord>)
    ensures
        event_views(drained@) == old(rt)@.events,
        final(rt)@ == (RuntimeView { events: Seq::empty(), ..old(rt)@ }),
{
    proof {
        use_type_invariant(&*rt);
    }
    let mut drained: Vec<EventRecord> = Vec::new();
    core::mem::swap(&mut drained, &mut rt.events);
    proof {
        assert(final(rt)@.events =~= Seq::empty());
    }
    drained
}

/// Hands out the logged messages, oldest first, and forgets them.
pub fn take_logs(rt: &mut MockRuntime) -> (drained: Vec<String>)
    ensures
        log_views(drained@) == old(rt)@.logs,
        final(rt)@ == (RuntimeView { logs: Seq::empty(), ..old(rt)@ }),
{
    proof {
        use_type_invariant(&*rt);
    }
    let mut drained: Vec<String> = Vec::new();
    core::mem::swap(&mut drained, &mut rt.logs);
    proof {
        assert(final(rt)@.logs =~= Seq::empty());
    }
    drained
}

/// Hands out the return data and forgets it.
pub fn take_return_data(rt: &mut MockRuntime) -> (drained: Vec<u8>)
    ensures
        drained@ == old(rt)@.return_data,
        final(rt)@ == (RuntimeView { return_data: Seq::empty(), ..old(rt)@ }),
{
    proof {
        use_type_invariant(&*rt);
    }
    let mut drained: Vec<u8> = Vec::new();
    core::mem::swap(&mut drained, &mut rt.return_data);
    drained
}

/// The payload stored under a key of an account; empty where nothing is
/// stored.
pub fn inspect_storage(rt: &MockRuntime, account: &str, key: &str) -> (data: Vec<u8>)
    ensures
        data@ == rt@.payload(account@, key@),
{
    match rt.read_storage(account, key) {
        Ok(data) => data,
        Err(_) => Vec::new(),
    }
}

} // verus!
