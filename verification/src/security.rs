//! Security primitives: the reentrancy guard and access control, with
//! checked arithmetic, argument validation and constant-time comparison in
//! the modules below.

pub mod constant_time;
pub mod safe_math;
pub mod validation;

use crate::codec::{
    encode_text, lemma_encodings_not_empty, lemma_text_bytes_injective,
    lemma_text_bytes_prefix_free, text_bytes, RawBytes, Storable,
};
use crate::context::context_fault;
use crate::error::{fails_with, ContractError, ContractResult, ErrorView};
use crate::ffi::host::{MockRuntime, RuntimeView};
use crate::primitives::blake3_hash;
use crate::storage::{
    lemma_physical_keys, physical_key, put, reading, record, refused, storage, StorageMap,
};
use crate::text::str_eq;
use vstd::prelude::*;
use vstd::string::*;

verus! {

/// The key of the record that holds the owner.
pub const OWNER_KEY: &'static str = "__ac_owner";

/// The prefix of the records that hold the role grants.
pub const ROLE_BUCKET: &'static str = "__ac_roles";

/// The map of role grants: from the name of a grant to whether it stands.
fn roles_map() -> (map: StorageMap<RawBytes, bool>)
    ensures
        map@ == ROLE_BUCKET@,
{
    StorageMap::new(ROLE_BUCKET)
}

/// The name under which the grant of a role to an address is kept: the
/// encoding of the role followed by the encoding of the address. Two grants
/// have one name only where they are one grant.
pub open spec fn grant_name(role: Seq<char>, address: Seq<char>) -> Seq<u8> {
    text_bytes(role) + text_bytes(address)
}

/// The name under which the grant of a role to an address is kept.
fn role_storage_key(role: &str, address: &str) -> (name: RawBytes)
    ensures
        name@ == grant_name(role@, address@),
{
    let mut name = encode_text(role);
    let mut second = encode_text(address);
    name.append(&mut second);
    RawBytes(name)
}

/// Computes the key of the record that holds the grant of a role to an
/// address.
pub fn grant_record(role: &str, address: &str) -> (key: String)
    ensures
        key@ == grant_slot(role@, address@),
{
    match roles_map().storage_key(&role_storage_key(role, address)) {
        Ok(key) => key,
        Err(_) => String::new(),
    }
}

/// Two grants with one name are one grant: the same role for the same
/// address.
pub proof fn lemma_grant_names_injective(
    role_a: Seq<char>,
    address_a: Seq<char>,
    role_b: Seq<char>,
    address_b: Seq<char>,
)
    requires
        grant_name(role_a, address_a) == grant_name(role_b, address_b),
    ensures
        role_a == role_b,
        address_a == address_b,
{
    lemma_text_bytes_prefix_free(role_a, text_bytes(address_a), role_b, text_bytes(address_b));
    lemma_text_bytes_injective(address_a, address_b);
}

/// The guard against reentrancy: a flag that is set while a guarded section
/// is active. One guard serves one execution.
pub struct ReentrancyGuard {
    entered: bool,
}

/// The token of an entered section. Handing it back with
/// [`ReentrancyGuardGuard::release`] ends the section.
pub struct ReentrancyGuardGuard {}

impl View for ReentrancyGuard {
    type V = bool;

    /// Whether a guarded section is active.
    closed spec fn view(&self) -> bool {
        self.entered
    }
}

/// Whether a guard admits an entry: only while no section is active.
pub open spec fn admits(entered: bool) -> bool {
    !entered
}

/// The flag after an entry was admitted.
pub open spec fn after_enter(entered: bool) -> bool {
    true
}

/// The flag after a section has ended.
pub open spec fn after_exit(entered: bool) -> bool {
    false
}

impl ReentrancyGuard {
    /// A guard with no active section.
    pub fn new() -> (guard: Self)
        ensures
            !guard@,
    {
        ReentrancyGuard { entered: false }
    }

    /// Enters the guarded section. While a section is active the attempt is
    /// `ReentrancyDetected` and changes nothing.
    pub fn enter(&mut self) -> (r: ContractResult<ReentrancyGuardGuard>)
        ensures
            admits(old(self)@) ==> r is Ok && final(self)@ == after_enter(old(self)@),
            !admits(old(self)@) ==> final(self)@ == old(self)@ && fails_with(
                r,
                ErrorView::ReentrancyDetected,
            ),
    {
        if self.entered {
            return Err(ContractError::ReentrancyDetected);
        }
        self.entered = true;
        Ok(ReentrancyGuardGuard {  })
    }

    /// Ends the guarded section.
    pub fn exit(&mut self)
        ensures
            final(self)@ == after_exit(old(self)@),
    {
        self.entered = false;
    }

    /// Runs `f` inside a guarded section and ends the section whatever `f`
    /// returns. While a section is active `f` is not run.
    pub fn execute<F, R>(&mut self, f: F) -> (r: ContractResult<R>) where
        F: FnOnce() -> ContractResult<R>,

        requires
            admits(old(self)@) ==> f.requires(()),
        ensures
            admits(old(self)@) ==> f.ensures((), r) && !final(self)@,
            !admits(old(self)@) ==> final(self)@ == old(self)@ && fails_with(
                r,
                ErrorView::ReentrancyDetected,
            ),
    {
        let guard = match self.enter() {
            Ok(guard) => guard,
            Err(e) => {
                return Err(e);
            },
        };
        let result = f();
        guard.release(self);
        result
    }
}

impl ReentrancyGuardGuard {
    /// Ends the section that this token stands for.
    pub fn release(self, guard: &mut ReentrancyGuard)
        ensures
            final(guard)@ == after_exit(old(guard)@),
    {
        guard.exit();
    }
}

/// While a section is held a second entry is refused, and once the section
/// has ended an entry is admitted again, whatever the guard held before.
pub proof fn lemma_guard_excludes_reentry(entered: bool)
    ensures
        !admits(after_enter(entered)),
        admits(after_exit(after_enter(entered))),
{
}

/// The owner that the records name: `None` where the record does not decode,
/// `Some(None)` where no owner was set.
pub open spec fn owner_of(host: RuntimeView) -> Option<Option<Seq<char>>> {
    reading::<String>(record(host, OWNER_KEY@))
}

/// The key of the record that holds the grant of a role to an address.
pub open spec fn grant_slot(role: Seq<char>, address: Seq<char>) -> Seq<char> {
    physical_key(ROLE_BUCKET@, grant_name(role, address))
}

/// Whether the records grant a role to an address: `None` where the record
/// does not decode, `false` where there is no record.
pub open spec fn holds_role(host: RuntimeView, address: Seq<char>, role: Seq<char>) -> Option<bool> {
    match reading::<bool>(record(host, grant_slot(role, address))) {
        None => None,
        Some(None) => Some(false),
        Some(Some(granted)) => Some(granted),
    }
}

/// Whether an address is the owner: `None` where the owner's record does not
/// decode.
pub open spec fn owns(host: RuntimeView, address: Seq<char>) -> Option<bool> {
    match owner_of(host) {
        None => None,
        Some(None) => Some(false),
        Some(Some(owner)) => Some(owner == address),
    }
}

/// Whether an address is the owner or holds the role "admin": `None` where a
/// record that had to be read does not decode.
pub open spec fn governs(host: RuntimeView, address: Seq<char>) -> Option<bool> {
    match owns(host, address) {
        None => None,
        Some(true) => Some(true),
        Some(false) => holds_role(host, address, "admin"@),
    }
}

/// Whether a caller passes: the owner always does; another caller does where
/// a role is asked for and the caller holds it. `None` where a record that
/// had to be read does not decode.
pub open spec fn authorized(host: RuntimeView, caller: Seq<char>, role: Option<Seq<char>>) -> Option<
    bool,
> {
    match owns(host, caller) {
        None => None,
        Some(true) => Some(true),
        Some(false) => match role {
            Some(role) => holds_role(host, caller, role),
            None => Some(false),
        },
    }
}

/// The state after a role was granted to an address.
pub open spec fn granted(host: RuntimeView, address: Seq<char>, role: Seq<char>) -> RuntimeView {
    put(host, grant_slot(role, address), bool::encoding(true))
}

/// The state after a role was taken from an address.
pub open spec fn revoked(host: RuntimeView, address: Seq<char>, role: Seq<char>) -> RuntimeView {
    put(host, grant_slot(role, address), Seq::empty())
}

/// The state after an address was made the owner.
pub open spec fn owned_by(host: RuntimeView, owner: Seq<char>) -> RuntimeView {
    put(host, OWNER_KEY@, String::encoding(owner))
}

/// The state after the ownership went from its holder to a new owner: the
/// new owner is named and holds "admin", and the old owner, where it is
/// another address, has lost "admin".
pub open spec fn transferred(host: RuntimeView, current: Seq<char>, new: Seq<char>) -> RuntimeView {
    let handed = granted(owned_by(host, new), new, "admin"@);
    if current == new {
        handed
    } else {
        revoked(handed, current, "admin"@)
    }
}

/// The record of the owner is none of the records of the grants.
pub proof fn lemma_owner_key_is_no_grant(role: Seq<char>, address: Seq<char>)
    ensures
        grant_slot(role, address) != OWNER_KEY@,
{
    reveal_strlit("__ac_owner");
    reveal_strlit("__ac_roles");
    let slot = grant_slot(role, address);
    assert(slot[5] == 'r');
    assert(OWNER_KEY@[5] == 'o');
}

/// After access control was set up for an owner, the records name that
/// owner, the owner holds "admin", and the owner passes every check.
pub proof fn lemma_initialize_makes_owner_admin(host: RuntimeView, owner: Seq<char>)
    ensures
        ({
            let after = granted(owned_by(host, owner), owner, "admin"@);
            &&& owner_of(after) == Some(Some(owner))
            &&& holds_role(after, owner, "admin"@) == Some(true)
            &&& governs(after, owner) == Some(true)
            &&& forall|role: Option<Seq<char>>| authorized(after, owner, role) == Some(true)
        }),
{
    lemma_owner_key_is_no_grant("admin"@, owner);
    String::lemma_faithful(owner);
    lemma_encodings_not_empty(0, owner);
}

/// A transfer of ownership moves "admin" from the old owner to the new one.
/// Afterwards the records name the new owner. An old owner that is another
/// address is the owner no more, holds "admin" no more, and does not pass
/// where "admin" is asked for. The new owner holds "admin", also where the
/// owner hands the ownership to itself; for two different addresses this
/// last part needs the two grants to be kept in different records, which
/// they are unless the digests of their names collide.
pub proof fn lemma_transfer_moves_admin(host: RuntimeView, current: Seq<char>, new: Seq<char>)
    ensures
        ({
            let after = transferred(host, current, new);
            &&& owner_of(after) == Some(Some(new))
            &&& owns(after, new) == Some(true)
            &&& governs(after, new) == Some(true)
            &&& current != new ==> owns(after, current) == Some(false)
            &&& current != new ==> holds_role(after, current, "admin"@) == Some(false)
            &&& current != new ==> governs(after, current) == Some(false)
            &&& current != new ==> authorized(after, current, Some("admin"@)) == Some(false)
            &&& current == new || grant_slot("admin"@, new) != grant_slot("admin"@, current)
                ==> holds_role(after, new, "admin"@) == Some(true)
        }),
{
    lemma_owner_key_is_no_grant("admin"@, new);
    lemma_owner_key_is_no_grant("admin"@, current);
    String::lemma_faithful(new);
    lemma_encodings_not_empty(0, new);
}

/// A role that was granted is held, and a role that was then revoked is
/// held no more, whatever the records held before.
pub proof fn lemma_grant_then_revoke(host: RuntimeView, address: Seq<char>, role: Seq<char>)
    ensures
        holds_role(granted(host, address, role), address, role) == Some(true),
        holds_role(revoked(granted(host, address, role), address, role), address, role) == Some(
            false,
        ),
        holds_role(revoked(host, address, role), address, role) == Some(false),
{
}

/// Grants are kept by the pair of role and address: two different pairs are
/// kept in one record only where the digests of their two names, which
/// differ, collide.
pub proof fn lemma_grant_slots(
    role_a: Seq<char>,
    address_a: Seq<char>,
    role_b: Seq<char>,
    address_b: Seq<char>,
)
    requires
        grant_slot(role_a, address_a) == grant_slot(role_b, address_b),
        role_a != role_b || address_a != address_b,
    ensures
        grant_name(role_a, address_a) != grant_name(role_b, address_b),
        blake3_hash(grant_name(role_a, address_a))@ == blake3_hash(
            grant_name(role_b, address_b),
        )@,
{
    let name_a = grant_name(role_a, address_a);
    let name_b = grant_name(role_b, address_b);
    lemma_physical_keys(ROLE_BUCKET@, name_a, ROLE_BUCKET@, name_b);
    if name_a == name_b {
        lemma_grant_names_injective(role_a, address_a, role_b, address_b);
    }
}

/// Access control: one owner and a table of role grants, kept in the records
/// of the running contract.
pub struct AccessControl;

impl AccessControl {
    /// Makes `owner` the owner and grants it the role "admin".
    pub fn initialize(rt: &mut MockRuntime, owner: &str) -> (r: ContractResult<()>)
        ensures
            context_fault(old(rt)@) is Some ==> refused(r, old(rt)@) && final(rt)@ == old(rt)@,
            context_fault(old(rt)@) is None ==> {
                &&& r is Ok
                &&& final(rt)@ == granted(owned_by(old(rt)@, owner@), owner@, "admin"@)
                &&& owner_of(final(rt)@) == Some(Some(owner@))
                &&& holds_role(final(rt)@, owner@, "admin"@) == Some(true)
            },
    {
        let mut store = storage();
        store.set(rt, OWNER_KEY, &owner.to_owned())?;
        let done = AccessControl::grant_role_internal(rt, owner, "admin");
        proof {
            lemma_initialize_makes_owner_admin(old(rt)@, owner@);
        }
        done
    }

    /// The owner, where one is set, its record decodes and the context is
    /// valid.
    pub fn owner(rt: &MockRuntime) -> (r: Option<String>)
        ensures
            context_fault(rt@) is Some ==> r is None,
            context_fault(rt@) is None ==> match owner_of(rt@) {
                Some(Some(owner)) => r matches Some(found) && found@ == owner,
                _ => r is None,
            },
    {
        match AccessControl::read_owner(rt) {
            Ok(found) => found,
            Err(_) => None,
        }
    }

    /// Whether an address holds a role. Every failure is an answer of
    /// `false`: a record that does not decode and a faulty context count as
    /// no grant.
    pub fn has_role(rt: &MockRuntime, address: &str, role: &str) -> (held: bool)
        ensures
            held == (context_fault(rt@) is None && holds_role(rt@, address@, role@) == Some(true)),
    {
        match AccessControl::has_role_internal(rt, address, role) {
            Ok(held) => held,
            Err(_) => false,
        }
    }

    /// Grants a role to an address, on behalf of a granter who is the owner
    /// or holds "admin"; any other granter is `Unauthorized`.
    pub fn grant_role(rt: &mut MockRuntime, granter: &str, address: &str, role: &str) -> (r:
        ContractResult<()>)
        ensures
            context_fault(old(rt)@) is Some ==> refused(r, old(rt)@) && final(rt)@ == old(rt)@,
            context_fault(old(rt)@) is None ==> match governs(old(rt)@, granter@) {
                Some(true) => r is Ok && final(rt)@ == granted(old(rt)@, address@, role@)
                    && holds_role(final(rt)@, address@, role@) == Some(true),
                Some(false) => final(rt)@ == old(rt)@ && fails_with(r, ErrorView::Unauthorized),
                None => final(rt)@ == old(rt)@ && fails_with(r, ErrorView::DeserializationFailed),
            },
    {
        if !AccessControl::is_owner_or_admin(rt, granter)? {
            return Err(ContractError::Unauthorized);
        }
        AccessControl::grant_role_internal(rt, address, role)
    }

    /// Takes a role from an address, on behalf of a revoker who is the owner
    /// or holds "admin"; any other revoker is `Unauthorized`.
    pub fn revoke_role(rt: &mut MockRuntime, revoker: &str, address: &str, role: &str) -> (r:
        ContractResult<()>)
        ensures
            context_fault(old(rt)@) is Some ==> refused(r, old(rt)@) && final(rt)@ == old(rt)@,
            context_fault(old(rt)@) is None ==> match governs(old(rt)@, revoker@) {
                Some(true) => r is Ok && final(rt)@ == revoked(old(rt)@, address@, role@)
                    && holds_role(final(rt)@, address@, role@) == Some(false),
                Some(false) => final(rt)@ == old(rt)@ && fails_with(r, ErrorView::Unauthorized),
                None => final(rt)@ == old(rt)@ && fails_with(r, ErrorView::DeserializationFailed),
            },
    {
        if !AccessControl::is_owner_or_admin(rt, revoker)? {
            return Err(ContractError::Unauthorized);
        }
        AccessControl::revoke_role_internal(rt, address, role)
    }

    /// Passes the owner, and a caller that holds the role asked for; anyone
    /// else is `Unauthorized`.
    pub fn authorize(rt: &MockRuntime, caller: &str, required_role: Option<&str>) -> (r:
        ContractResult<()>)
        ensures
            context_fault(rt@) is Some ==> refused(r, rt@),
            context_fault(rt@) is None ==> match authorized(
                rt@,
                caller@,
                match required_role {
                    Some(role) => Some(role@),
                    None => None,
                },
            ) {
                Some(true) => r is Ok,
                Some(false) => fails_with(r, ErrorView::Unauthorized),
                None => fails_with(r, ErrorView::DeserializationFailed),
            },
    {
        if AccessControl::is_owner(rt, caller)? {
            return Ok(());
        }
        if let Some(role) = required_role {
            if AccessControl::has_role_internal(rt, caller, role)? {
                return Ok(());
            }
        }
        Err(ContractError::Unauthorized)
    }

    /// Hands the ownership from its holder to a new owner: sets the owner,
    /// grants "admin" to the new owner, then takes "admin" from the old one,
    /// in that order. An owner that hands the ownership to itself keeps
    /// "admin": nothing is taken from it. A caller that is not the owner is
    /// `Unauthorized`.
    pub fn transfer_ownership(rt: &mut MockRuntime, current_owner: &str, new_owner: &str) -> (r:
        ContractResult<()>)
        ensures
            context_fault(old(rt)@) is Some ==> refused(r, old(rt)@) && final(rt)@ == old(rt)@,
            context_fault(old(rt)@) is None ==> match owns(old(rt)@, current_owner@) {
                Some(true) => {
                    &&& r is Ok
                    &&& final(rt)@ == transferred(old(rt)@, current_owner@, new_owner@)
                    &&& owner_of(final(rt)@) == Some(Some(new_owner@))
                    &&& current_owner@ == new_owner@ ==> holds_role(
                        final(rt)@,
                        new_owner@,
                        "admin"@,
                    ) == Some(true)
                    &&& current_owner@ != new_owner@ ==> holds_role(
                        final(rt)@,
                        current_owner@,
                        "admin"@,
                    ) == Some(false)
                    &&& grant_slot("admin"@, new_owner@) != grant_slot("admin"@, current_owner@)
                        ==> holds_role(final(rt)@, new_owner@, "admin"@) == Some(true)
                },
                Some(false) => final(rt)@ == old(rt)@ && fails_with(r, ErrorView::Unauthorized),
                None => final(rt)@ == old(rt)@ && fails_with(r, ErrorView::DeserializationFailed),
            },
    {
        if !AccessControl::is_owner(rt, current_owner)? {
            return Err(ContractError::Unauthorized);
        }
        let mut store = storage();
        store.set(rt, OWNER_KEY, &new_owner.to_owned())?;
        AccessControl::grant_role_internal(rt, new_owner, "admin")?;
        let done = if str_eq(current_owner, new_owner) {
            Ok(())
        } else {
            AccessControl::revoke_role_internal(rt, current_owner, "admin")
        };
        proof {
            lemma_owner_key_is_no_grant("admin"@, new_owner@);
            lemma_owner_key_is_no_grant("admin"@, current_owner@);
            String::lemma_faithful(new_owner@);
            lemma_encodings_not_empty(0, new_owner@);
        }
        done
    }

    /// Reads the record of the owner.
    fn read_owner(rt: &MockRuntime) -> (r: ContractResult<Option<String>>)
        ensures
            context_fault(rt@) is Some ==> refused(r, rt@),
            context_fault(rt@) is None ==> match owner_of(rt@) {
                Some(Some(owner)) => r matches Ok(Some(found)) && found@ == owner,
                Some(None) => r matches Ok(None),
                None => fails_with(r, ErrorView::DeserializationFailed),
            },
    {
        storage().get::<String>(rt, OWNER_KEY)
    }

    /// Whether an address is the owner.
    fn is_owner(rt: &MockRuntime, address: &str) -> (r: ContractResult<bool>)
        ensures
            context_fault(rt@) is Some ==> refused(r, rt@),
            context_fault(rt@) is None ==> match owns(rt@, address@) {
                Some(answer) => r matches Ok(found) && found == answer,
                None => fails_with(r, ErrorView::DeserializationFailed),
            },
    {
        match AccessControl::read_owner(rt)? {
            Some(owner) => Ok(str_eq(owner.as_str(), address)),
            None => Ok(false),
        }
    }

    /// Whether an address is the owner or holds "admin".
    fn is_owner_or_admin(rt: &MockRuntime, address: &str) -> (r: ContractResult<bool>)
        ensures
            context_fault(rt@) is Some ==> refused(r, rt@),
            context_fault(rt@) is None ==> match governs(rt@, address@) {
                Some(answer) => r matches Ok(found) && found == answer,
                None => fails_with(r, ErrorView::DeserializationFailed),
            },
    {
        if AccessControl::is_owner(rt, address)? {
            return Ok(true);
        }
        AccessControl::has_role_internal(rt, address, "admin")
    }

    /// Writes the grant of a role to an address.
    fn grant_role_internal(rt: &mut MockRuntime, address: &str, role: &str) -> (r: ContractResult<
        (),
    >)
        ensures
            context_fault(old(rt)@) is Some ==> refused(r, old(rt)@) && final(rt)@ == old(rt)@,
            context_fault(old(rt)@) is None ==> r is Ok && final(rt)@ == granted(
                old(rt)@,
                address@,
                role@,
            ) && holds_role(final(rt)@, address@, role@) == Some(true),
    {
        let mut roles = roles_map();
        roles.set(rt, &role_storage_key(role, address), &true)
    }

    /// Removes the grant of a role to an address.
    fn revoke_role_internal(rt: &mut MockRuntime, address: &str, role: &str) -> (r: ContractResult<
        (),
    >)
        ensures
            context_fault(old(rt)@) is Some ==> refused(r, old(rt)@) && final(rt)@ == old(rt)@,
            context_fault(old(rt)@) is None ==> r is Ok && final(rt)@ == revoked(
                old(rt)@,
                address@,
                role@,
            ) && holds_role(final(rt)@, address@, role@) == Some(false),
    {
        let mut roles = roles_map();
        roles.remove(rt, &role_storage_key(role, address))
    }

    /// Reads the grant of a role to an address; no record is no grant.
    fn has_role_internal(rt: &MockRuntime, address: &str, role: &str) -> (r: ContractResult<bool>)
        ensures
            context_fault(rt@) is Some ==> refused(r, rt@),
            context_fault(rt@) is None ==> match holds_role(rt@, address@, role@) {
                Some(answer) => r matches Ok(found) && found == answer,
                None => fails_with(r, ErrorView::DeserializationFailed),
            },
    {
        match roles_map().get(rt, &role_storage_key(role, address))? {
            Some(granted) => Ok(granted),
            None => Ok(false),
        }
    }
}

/// Errors of the security primitives.
#[derive(Debug, Clone)]
pub enum SecurityError {
    ReentrancyDetected,
    Unauthorized,
    InvalidRole,
    Overflow,
    Underflow,
}

/// The contract error that stands for a security error.
pub open spec fn security_error_view(error: SecurityError) -> ErrorView {
    match error {
        SecurityError::ReentrancyDetected => ErrorView::Custom("Reentrancy detected"@),
        SecurityError::Unauthorized => ErrorView::Unauthorized,
        SecurityError::InvalidRole => ErrorView::InvalidArgument("Invalid role"@),
        SecurityError::Overflow => ErrorView::Overflow,
        SecurityError::Underflow => ErrorView::Underflow,
    }
}

impl vstd::std_specs::convert::FromSpecImpl<SecurityError> for ContractError {
    /// Two errors with the same message are one error to a caller, and need
    /// not be one value: what the conversion gives is stated over views, by
    /// [`security_error_view`].
    open spec fn obeys_from_spec() -> bool {
        false
    }

    open spec fn from_spec(error: SecurityError) -> ContractError {
        ContractError::Unauthorized
    }
}

impl From<SecurityError> for ContractError {
    fn from(error: SecurityError) -> (e: ContractError)
        ensures
            e@ == security_error_view(error),
    {
        match error {
            SecurityError::ReentrancyDetected => ContractError::Custom(
                "Reentrancy detected".to_owned(),
            ),
            SecurityError::Unauthorized => ContractError::Unauthorized,
            SecurityError::InvalidRole => ContractError::InvalidArgument("Invalid role".to_owned()),
            SecurityError::Overflow => ContractError::Overflow,
            SecurityError::Underflow => ContractError::Underflow,
        }
    }
}

} // verus!
