use silica_contract_sdk::error::ContractError;
use silica_contract_sdk::ffi::host::MockRuntime;
use silica_contract_sdk::ffi::mock;
use silica_contract_sdk::security::constant_time::{eq_array, eq_bytes, eq_str, secure_eq};
use silica_contract_sdk::security::safe_math;
use silica_contract_sdk::security::validation::{
    validate_address, validate_addresses, validate_non_empty, validate_positive_amount,
    validate_range, validate_token_id, validate_trimmed,
};
use silica_contract_sdk::security::{
    grant_record, AccessControl, ReentrancyGuard, SecurityError,
};

fn prepare(rt: &mut MockRuntime) {
    mock::set_sender(rt, "chert1sender000000000000000000");
    mock::set_contract_address(rt, "chert1contract0000000000000000");
    mock::set_block_height(rt, 42);
    mock::set_block_timestamp(rt, 1_700_000_000);
}

fn prepared() -> MockRuntime {
    let mut rt = MockRuntime::new();
    prepare(&mut rt);
    rt
}

#[test]
fn test_access_control() {
    let mut rt = MockRuntime::new();
    mock::reset(&mut rt);
    prepare(&mut rt);

    let owner = "owner_address";
    AccessControl::initialize(&mut rt, owner).expect("init owner");

    assert_eq!(AccessControl::owner(&rt), Some(owner.to_string()));
    assert!(AccessControl::authorize(&rt, owner, None).is_ok());

    let user = "user_address";
    assert!(!AccessControl::has_role(&rt, user, "admin"));
    assert!(AccessControl::authorize(&rt, user, Some("admin")).is_err());

    AccessControl::grant_role(&mut rt, owner, user, "admin").expect("grant admin");
    assert!(AccessControl::has_role(&rt, user, "admin"));
    AccessControl::authorize(&rt, user, Some("admin")).expect("user authorised");

    AccessControl::revoke_role(&mut rt, owner, user, "admin").expect("revoke admin");
    assert!(!AccessControl::has_role(&rt, user, "admin"));

    AccessControl::transfer_ownership(&mut rt, owner, "new_owner").expect("transfer ownership");
    assert_eq!(AccessControl::owner(&rt), Some("new_owner".to_string()));
    assert!(AccessControl::authorize(&rt, owner, Some("admin")).is_err());
    AccessControl::authorize(&rt, "new_owner", Some("admin")).expect("new owner admin");
}

#[test]
fn test_reentrancy_guard() {
    let mut guard = ReentrancyGuard::new();
    let held = guard.enter().expect("first entry");
    assert!(matches!(
        guard.enter(),
        Err(ContractError::ReentrancyDetected)
    ));
    held.release(&mut guard);

    let held = guard.enter().expect("re-entry after release");
    held.release(&mut guard);
}

#[test]
fn guard_runs_a_closure_and_ends_the_section() {
    let mut guard = ReentrancyGuard::new();
    let result = guard.execute(|| Ok::<u64, ContractError>(7));
    assert!(matches!(result, Ok(7)));
    let failed: Result<u64, ContractError> = guard.execute(|| Err(ContractError::Overflow));
    assert!(matches!(failed, Err(ContractError::Overflow)));
    assert!(guard.enter().is_ok());
    let refused: Result<u64, ContractError> = guard.execute(|| Ok(1));
    assert!(matches!(refused, Err(ContractError::ReentrancyDetected)));
    guard.exit();
    assert!(guard.enter().is_ok());
}

#[test]
fn initialize_makes_the_owner_admin() {
    let mut rt = prepared();
    AccessControl::initialize(&mut rt, "alice").expect("init");
    assert!(AccessControl::has_role(&rt, "alice", "admin"));
    assert_eq!(AccessControl::owner(&rt), Some("alice".to_string()));
    assert!(!AccessControl::has_role(&rt, "alice", "minter"));
    assert!(!AccessControl::has_role(&rt, "bob", "admin"));
}

#[test]
fn owner_is_absent_before_initialize() {
    let rt = prepared();
    assert_eq!(AccessControl::owner(&rt), None);
    assert!(matches!(
        AccessControl::authorize(&rt, "anyone", None),
        Err(ContractError::Unauthorized)
    ));
}

#[test]
fn grant_by_a_stranger_is_unauthorized() {
    let mut rt = prepared();
    AccessControl::initialize(&mut rt, "alice").expect("init");
    assert!(matches!(
        AccessControl::grant_role(&mut rt, "mallory", "mallory", "admin"),
        Err(ContractError::Unauthorized)
    ));
    assert!(!AccessControl::has_role(&rt, "mallory", "admin"));
    assert!(matches!(
        AccessControl::revoke_role(&mut rt, "mallory", "alice", "admin"),
        Err(ContractError::Unauthorized)
    ));
    assert!(AccessControl::has_role(&rt, "alice", "admin"));
}

#[test]
fn an_admin_may_grant_and_revoke() {
    let mut rt = prepared();
    AccessControl::initialize(&mut rt, "alice").expect("init");
    AccessControl::grant_role(&mut rt, "alice", "bob", "admin").expect("owner grants");
    AccessControl::grant_role(&mut rt, "bob", "carol", "minter").expect("admin grants");
    assert!(AccessControl::has_role(&rt, "carol", "minter"));
    assert!(AccessControl::authorize(&rt, "carol", Some("minter")).is_ok());
    assert!(matches!(
        AccessControl::authorize(&rt, "carol", Some("admin")),
        Err(ContractError::Unauthorized)
    ));
    assert!(matches!(
        AccessControl::authorize(&rt, "carol", None),
        Err(ContractError::Unauthorized)
    ));
    AccessControl::revoke_role(&mut rt, "bob", "carol", "minter").expect("admin revokes");
    assert!(!AccessControl::has_role(&rt, "carol", "minter"));
}

#[test]
fn transfer_moves_admin_to_the_new_owner() {
    let mut rt = prepared();
    AccessControl::initialize(&mut rt, "alice").expect("init");
    assert!(matches!(
        AccessControl::transfer_ownership(&mut rt, "bob", "bob"),
        Err(ContractError::Unauthorized)
    ));
    AccessControl::transfer_ownership(&mut rt, "alice", "bob").expect("transfer");
    assert_eq!(AccessControl::owner(&rt), Some("bob".to_string()));
    assert!(AccessControl::has_role(&rt, "bob", "admin"));
    assert!(!AccessControl::has_role(&rt, "alice", "admin"));
}

#[test]
fn transfer_to_oneself_keeps_admin() {
    let mut rt = prepared();
    AccessControl::initialize(&mut rt, "alice").expect("init");
    AccessControl::transfer_ownership(&mut rt, "alice", "alice").expect("transfer");
    assert_eq!(AccessControl::owner(&rt), Some("alice".to_string()));
    assert!(AccessControl::has_role(&rt, "alice", "admin"));
    assert!(AccessControl::authorize(&rt, "alice", None).is_ok());
    assert!(AccessControl::authorize(&rt, "alice", Some("admin")).is_ok());
    AccessControl::grant_role(&mut rt, "alice", "bob", "minter").expect("still governs");
}

#[test]
fn the_old_owner_governs_no_more() {
    let mut rt = prepared();
    AccessControl::initialize(&mut rt, "alice").expect("init");
    AccessControl::transfer_ownership(&mut rt, "alice", "bob").expect("transfer");
    assert!(matches!(
        AccessControl::authorize(&rt, "alice", Some("admin")),
        Err(ContractError::Unauthorized)
    ));
    assert!(matches!(
        AccessControl::grant_role(&mut rt, "alice", "alice", "admin"),
        Err(ContractError::Unauthorized)
    ));
    assert!(matches!(
        AccessControl::transfer_ownership(&mut rt, "alice", "alice"),
        Err(ContractError::Unauthorized)
    ));
    assert!(AccessControl::authorize(&rt, "bob", Some("admin")).is_ok());
}

#[test]
fn grants_are_kept_by_role_and_address() {
    let mut rt = prepared();
    AccessControl::initialize(&mut rt, "owner_address").expect("init");
    AccessControl::grant_role(&mut rt, "owner_address", "b:c", "a").expect("grant");
    assert!(AccessControl::has_role(&rt, "b:c", "a"));
    assert!(!AccessControl::has_role(&rt, "c", "a:b"));
    assert!(!AccessControl::has_role(&rt, "a", "b:c"));
    assert!(!AccessControl::has_role(&rt, "", "a:b:c"));
    assert!(!AccessControl::has_role(&rt, "a:b:c", ""));
    AccessControl::grant_role(&mut rt, "owner_address", "c", "a:b").expect("second grant");
    AccessControl::revoke_role(&mut rt, "owner_address", "b:c", "a").expect("revoke");
    assert!(!AccessControl::has_role(&rt, "b:c", "a"));
    assert!(AccessControl::has_role(&rt, "c", "a:b"));
    AccessControl::grant_role(&mut rt, "owner_address", "", "").expect("empty pair");
    assert!(AccessControl::has_role(&rt, "", ""));
}

#[test]
fn a_grant_is_kept_under_the_digest_of_both_encodings() {
    let mut rt = prepared();
    AccessControl::initialize(&mut rt, "alice").expect("init");
    let mut name = postcard::to_allocvec("admin").unwrap();
    name.extend(postcard::to_allocvec("alice").unwrap());
    assert_eq!(name[0], 5);
    assert_eq!(name[6], 5);
    let slot = format!("__ac_roles:{}", blake3::hash(&name).to_hex());
    assert_eq!(grant_record("admin", "alice"), slot);
    assert_ne!(grant_record("a", "b:c"), grant_record("a:b", "c"));
    assert_ne!(grant_record("ab", "c"), grant_record("a", "bc"));
    assert_ne!(grant_record("", "ab"), grant_record("ab", ""));
    assert_eq!(
        mock::inspect_storage(&rt, "chert1contract0000000000000000", &slot),
        vec![1]
    );
    assert_eq!(
        mock::inspect_storage(&rt, "chert1contract0000000000000000", "__ac_owner"),
        vec![5, b'a', b'l', b'i', b'c', b'e']
    );
}

#[test]
fn access_control_needs_a_valid_context() {
    let mut rt = MockRuntime::new();
    mock::reset(&mut rt);
    match AccessControl::initialize(&mut rt, "alice") {
        Err(ContractError::InvalidArgument(text)) => assert_eq!(text, "Address cannot be empty"),
        other => panic!("unexpected result: {:?}", other),
    }
    assert_eq!(
        mock::inspect_storage(&rt, "", "__ac_owner"),
        Vec::<u8>::new()
    );
    prepare(&mut rt);
    AccessControl::initialize(&mut rt, "alice").expect("init");
    assert!(AccessControl::has_role(&rt, "alice", "admin"));
    mock::set_block_timestamp(&mut rt, 0);
    assert!(!AccessControl::has_role(&rt, "alice", "admin"));
    assert_eq!(AccessControl::owner(&rt), None);
    match AccessControl::authorize(&rt, "alice", None) {
        Err(ContractError::InvalidArgument(text)) => {
            assert_eq!(text, "Block timestamp cannot be zero")
        }
        other => panic!("unexpected result: {:?}", other),
    }
    assert!(matches!(
        AccessControl::grant_role(&mut rt, "alice", "bob", "admin"),
        Err(ContractError::InvalidArgument(_))
    ));
    assert!(matches!(
        AccessControl::transfer_ownership(&mut rt, "alice", "bob"),
        Err(ContractError::InvalidArgument(_))
    ));
    mock::set_block_timestamp(&mut rt, 5);
    assert!(AccessControl::has_role(&rt, "alice", "admin"));
    assert!(!AccessControl::has_role(&rt, "bob", "admin"));
    assert_eq!(AccessControl::owner(&rt), Some("alice".to_string()));
}

#[test]
fn a_malformed_owner_record_is_reported() {
    let mut rt = prepared();
    rt.write_storage("chert1contract0000000000000000", "__ac_owner", &[0xff])
        .expect("write");
    assert_eq!(AccessControl::owner(&rt), None);
    assert!(matches!(
        AccessControl::authorize(&rt, "alice", None),
        Err(ContractError::DeserializationFailed)
    ));
    assert!(matches!(
        AccessControl::grant_role(&mut rt, "alice", "bob", "admin"),
        Err(ContractError::DeserializationFailed)
    ));
}

#[test]
fn checked_arithmetic_reports_overflow() {
    assert!(matches!(safe_math::add(u64::MAX, 1), Err(ContractError::Overflow)));
    assert!(matches!(safe_math::add(u64::MAX - 1, 1), Ok(u64::MAX)));
    assert!(matches!(safe_math::add(2, 3), Ok(5)));
    assert!(matches!(safe_math::sub(0, 1), Err(ContractError::Underflow)));
    assert!(matches!(safe_math::sub(7, 7), Ok(0)));
    assert!(matches!(safe_math::sub(10, 4), Ok(6)));
    assert!(matches!(safe_math::mul(1 << 32, 1 << 32), Err(ContractError::Overflow)));
    assert!(matches!(safe_math::mul(1 << 32, (1 << 32) - 1), Ok(18446744069414584320)));
    assert!(matches!(safe_math::mul(6, 7), Ok(42)));
}

#[test]
fn division_by_zero_is_an_invalid_argument() {
    match safe_math::div(5, 0) {
        Err(ContractError::InvalidArgument(text)) => assert_eq!(text, "Division by zero"),
        other => panic!("unexpected result: {:?}", other),
    }
    assert!(matches!(safe_math::div(0, 0), Err(ContractError::InvalidArgument(_))));
    assert!(matches!(safe_math::div(7, 2), Ok(3)));
    assert!(matches!(safe_math::div(0, 9), Ok(0)));
}

#[test]
fn power_reports_overflow() {
    assert!(matches!(safe_math::pow(2, 10), Ok(1024)));
    assert!(matches!(safe_math::pow(2, 63), Ok(9223372036854775808)));
    assert!(matches!(safe_math::pow(2, 64), Err(ContractError::Overflow)));
    assert!(matches!(safe_math::pow(0, 0), Ok(1)));
    assert!(matches!(safe_math::pow(7, 0), Ok(1)));
    assert!(matches!(safe_math::pow(0, 5), Ok(0)));
    assert!(matches!(safe_math::pow(10, 19), Ok(10000000000000000000)));
    assert!(matches!(safe_math::pow(10, 20), Err(ContractError::Overflow)));
}

#[test]
fn saturating_arithmetic_clamps() {
    assert_eq!(safe_math::saturating_add(u64::MAX, 1), u64::MAX);
    assert_eq!(safe_math::saturating_add(u64::MAX - 5, 5), u64::MAX);
    assert_eq!(safe_math::saturating_add(1, 2), 3);
    assert_eq!(safe_math::saturating_sub(0, 1), 0);
    assert_eq!(safe_math::saturating_sub(5, 7), 0);
    assert_eq!(safe_math::saturating_sub(9, 4), 5);
}

fn reason(result: Result<(), ContractError>) -> String {
    match result {
        Err(ContractError::InvalidArgument(text)) => text,
        other => panic!("unexpected result: {:?}", other),
    }
}

#[test]
fn address_length_decides() {
    assert_eq!(reason(validate_address("")), "Address cannot be empty");
    assert_eq!(reason(validate_address("a")), "Invalid address length");
    assert_eq!(reason(validate_address("123456789")), "Invalid address length");
    assert!(validate_address("1234567890").is_ok());
    let longest = "x".repeat(100);
    assert!(validate_address(&longest).is_ok());
    let too_long = "x".repeat(101);
    assert_eq!(reason(validate_address(&too_long)), "Invalid address length");
}

#[test]
fn address_length_counts_bytes() {
    let five_letters_ten_bytes = "ééééé";
    assert!(validate_address(five_letters_ten_bytes).is_ok());
    let nine_bytes = "éééé1";
    assert_eq!(reason(validate_address(nine_bytes)), "Invalid address length");
}

#[test]
fn the_first_bad_address_is_reported() {
    assert!(validate_addresses(&[]).is_ok());
    assert!(validate_addresses(&["1234567890", "abcdefghijk"]).is_ok());
    assert_eq!(
        reason(validate_addresses(&["1234567890", "short", ""])),
        "Invalid address length"
    );
    assert_eq!(
        reason(validate_addresses(&["", "short"])),
        "Address cannot be empty"
    );
}

#[test]
fn blank_values_are_rejected_by_name() {
    assert!(validate_non_empty("x", "name").is_ok());
    assert!(validate_non_empty("  x  ", "name").is_ok());
    assert_eq!(reason(validate_non_empty("", "name")), "name cannot be empty");
    assert_eq!(
        reason(validate_non_empty(" \t\n ", "title")),
        "title cannot be empty"
    );
}

#[test]
fn amounts_ids_and_ranges() {
    assert!(validate_positive_amount(1).is_ok());
    assert_eq!(reason(validate_positive_amount(0)), "Amount must be positive");
    assert!(validate_token_id(u64::MAX).is_ok());
    assert_eq!(reason(validate_token_id(0)), "Token ID cannot be zero");
    assert!(validate_range(5, 5, 5).is_ok());
    assert!(validate_range(5, 1, 9).is_ok());
    assert_eq!(reason(validate_range(0, 1, 9)), "Value out of range");
    assert_eq!(reason(validate_range(10, 1, 9)), "Value out of range");
    assert_eq!(reason(validate_range(5, 9, 1)), "Value out of range");
}

#[test]
fn constant_time_equality_is_equality() {
    assert!(eq_bytes(b"", b""));
    assert!(eq_bytes(b"abc", b"abc"));
    assert!(!eq_bytes(b"abc", b"abd"));
    assert!(!eq_bytes(b"abc", b"ab"));
    assert!(!eq_bytes(b"xbc", b"abc"));
    assert!(secure_eq(b"token", b"token"));
    assert!(!secure_eq(b"token", b"tokem"));
    assert!(eq_str("digest", "digest"));
    assert!(!eq_str("digest", "digesu"));
    assert!(!eq_str("digest", "digest "));
    assert!(eq_array(&[1u8, 2, 3], &[1u8, 2, 3]));
    assert!(!eq_array(&[1u8, 2, 3], &[1u8, 2, 4]));
    assert!(eq_array::<0>(&[], &[]));
}

#[test]
fn security_errors_become_contract_errors() {
    match ContractError::from(SecurityError::ReentrancyDetected) {
        ContractError::Custom(text) => assert_eq!(text, "Reentrancy detected"),
        other => panic!("unexpected error: {:?}", other),
    }
    match ContractError::from(SecurityError::InvalidRole) {
        ContractError::InvalidArgument(text) => assert_eq!(text, "Invalid role"),
        other => panic!("unexpected error: {:?}", other),
    }
    assert!(matches!(
        ContractError::from(SecurityError::Unauthorized),
        ContractError::Unauthorized
    ));
    assert!(matches!(
        ContractError::from(SecurityError::Overflow),
        ContractError::Overflow
    ));
    assert!(matches!(
        ContractError::from(SecurityError::Underflow),
        ContractError::Underflow
    ));
}

#[test]
fn errors_have_their_messages() {
    assert_eq!(ContractError::StorageReadFailed.message(), "Storage read failed");
    assert_eq!(ContractError::StorageWriteFailed.message(), "Storage write failed");
    assert_eq!(ContractError::SerializationFailed.message(), "Serialization failed");
    assert_eq!(ContractError::DeserializationFailed.message(), "Deserialization failed");
    assert_eq!(ContractError::Unauthorized.message(), "Unauthorized access");
    assert_eq!(
        ContractError::InsufficientBalance { required: 2000, available: 1000 }.message(),
        "Insufficient balance: required 2000, available 1000"
    );
    assert_eq!(
        ContractError::InsufficientBalance { required: u64::MAX, available: 0 }.message(),
        "Insufficient balance: required 18446744073709551615, available 0"
    );
    assert_eq!(
        ContractError::InvalidArgument("Division by zero".to_string()).message(),
        "Invalid argument: Division by zero"
    );
    assert_eq!(
        ContractError::ContractCallFailed("no such entry".to_string()).message(),
        "Contract call failed: no such entry"
    );
    assert_eq!(ContractError::TransferFailed.message(), "Transfer failed");
    assert_eq!(ContractError::CallDataUnavailable.message(), "Call data unavailable");
    assert_eq!(ContractError::ReturnDataWriteFailed.message(), "Unable to write return data");
    assert_eq!(ContractError::InvalidSignature.message(), "Invalid signature");
    assert_eq!(ContractError::Overflow.message(), "Arithmetic overflow");
    assert_eq!(ContractError::Underflow.message(), "Arithmetic underflow");
    assert_eq!(ContractError::ReentrancyDetected.message(), "Reentrancy attack detected");
    assert_eq!(ContractError::Custom("as it is".to_string()).message(), "as it is");
    assert_eq!(ContractError::Custom(String::new()).message(), "");
}

#[test]
fn what_is_left_after_trimming_decides() {
    assert!(validate_trimmed("x", "name").is_ok());
    assert!(validate_trimmed(" ", "name").is_ok());
    assert_eq!(reason(validate_trimmed("", "memo")), "memo cannot be empty");
    assert_eq!(reason(validate_trimmed("", "")), " cannot be empty");
}
