use silica_contract_sdk::codec::{RawBytes, Storable};
use silica_contract_sdk::error::ContractError;
use silica_contract_sdk::ffi::host::MockRuntime;
use silica_contract_sdk::ffi::mock;
use silica_contract_sdk::storage::{
    record_key, storage, stored_presence, stored_value, StorageMap, Vector,
};

fn runtime() -> MockRuntime {
    let mut rt = MockRuntime::new();
    mock::set_sender(&mut rt, "chert1sender000000000000000000");
    mock::set_contract_address(&mut rt, "chert1contract0000000000000000");
    mock::set_block_height(&mut rt, 42);
    mock::set_block_timestamp(&mut rt, 1_700_000_000);
    rt
}

#[test]
fn test_map_storage_key_generation() {
    let map: StorageMap<String, u64> = StorageMap::new("balances");
    let key = "alice".to_string();
    let storage_key = map.storage_key(&key).unwrap();

    assert!(storage_key.starts_with("balances:"));
    assert!(storage_key.len() > "balances:".len());
}

#[test]
fn map_key_is_prefix_colon_and_digest_in_hex() {
    let map: StorageMap<String, u64> = StorageMap::new("balances");
    let storage_key = map.storage_key(&"alice".to_string()).unwrap();
    let encoded = postcard::to_allocvec("alice").unwrap();
    assert_eq!(encoded, vec![5, b'a', b'l', b'i', b'c', b'e']);
    let digest = blake3::hash(&encoded);
    let expected = format!("balances:{}", digest.to_hex());
    assert_eq!(storage_key, expected);
    assert_eq!(storage_key.len(), "balances:".len() + 64);
    assert!(storage_key["balances:".len()..]
        .chars()
        .all(|c| c.is_ascii_digit() || ('a'..='f').contains(&c)));
}

#[test]
fn two_maps_with_one_prefix_share_their_keys() {
    let first: StorageMap<u64, u64> = StorageMap::new("scores");
    let second: StorageMap<u64, u64> = StorageMap::new("scores");
    let other: StorageMap<u64, u64> = StorageMap::new("score");
    assert_eq!(first.storage_key(&7).unwrap(), second.storage_key(&7).unwrap());
    assert_ne!(first.storage_key(&7).unwrap(), first.storage_key(&8).unwrap());
    assert_ne!(first.storage_key(&7).unwrap(), other.storage_key(&7).unwrap());

    let mut rt = runtime();
    let mut writer: StorageMap<u64, u64> = StorageMap::new("scores");
    writer.set(&mut rt, &7, &99).unwrap();
    assert_eq!(second.get(&rt, &7).unwrap(), Some(99));
    assert_eq!(other.get(&rt, &7).unwrap(), None);
}

#[test]
fn storage_set_get_remove_has() {
    let mut rt = runtime();
    let mut store = storage();
    assert_eq!(store.get::<u64>(&rt, "counter").unwrap(), None);
    assert!(!store.has(&rt, "counter"));

    store.set(&mut rt, "counter", &300u64).unwrap();
    assert_eq!(store.get::<u64>(&rt, "counter").unwrap(), Some(300));
    assert!(store.has(&rt, "counter"));
    assert_eq!(
        mock::inspect_storage(&rt, "chert1contract0000000000000000", "counter"),
        vec![0xac, 0x02]
    );
    assert_eq!(mock::inspect_storage(&rt, "someone_else", "counter"), Vec::<u8>::new());

    store.set(&mut rt, "counter", &1u64).unwrap();
    assert_eq!(store.get::<u64>(&rt, "counter").unwrap(), Some(1));

    store.remove(&mut rt, "counter").unwrap();
    assert_eq!(store.get::<u64>(&rt, "counter").unwrap(), None);
    assert!(!store.has(&rt, "counter"));
    store.remove(&mut rt, "counter").unwrap();
    assert!(!store.has(&rt, "counter"));
}

#[test]
fn storage_is_scoped_by_the_contract_address() {
    let mut rt = runtime();
    let mut store = storage();
    store.set(&mut rt, "name", &"first".to_string()).unwrap();
    mock::set_contract_address(&mut rt, "chert1another0000000000000000");
    assert_eq!(store.get::<String>(&rt, "name").unwrap(), None);
    store.set(&mut rt, "name", &"second".to_string()).unwrap();
    mock::set_contract_address(&mut rt, "chert1contract0000000000000000");
    assert_eq!(
        store.get::<String>(&rt, "name").unwrap(),
        Some("first".to_string())
    );
}

#[test]
fn malformed_bytes_fail_to_decode() {
    let mut rt = runtime();
    rt.write_storage("chert1contract0000000000000000", "flag", &[7])
        .unwrap();
    let store = storage();
    assert!(matches!(
        store.get::<bool>(&rt, "flag"),
        Err(ContractError::DeserializationFailed)
    ));
    assert!(store.has(&rt, "flag"));
    rt.write_storage("chert1contract0000000000000000", "text", &[3, b'a'])
        .unwrap();
    assert!(matches!(
        store.get::<String>(&rt, "text"),
        Err(ContractError::DeserializationFailed)
    ));
    rt.write_storage("chert1contract0000000000000000", "text", &[2, 0xff, 0xfe])
        .unwrap();
    assert!(matches!(
        store.get::<String>(&rt, "text"),
        Err(ContractError::DeserializationFailed)
    ));
    rt.write_storage("chert1contract0000000000000000", "n", &[0x80])
        .unwrap();
    assert!(matches!(
        store.get::<u64>(&rt, "n"),
        Err(ContractError::DeserializationFailed)
    ));
}

#[test]
fn map_set_get_remove_contains() {
    let mut rt = runtime();
    let mut map: StorageMap<String, bool> = StorageMap::new("flags");
    let key = "feature".to_string();
    assert_eq!(map.get(&rt, &key).unwrap(), None);
    assert!(!map.contains_key(&rt, &key).unwrap());
    map.set(&mut rt, &key, &false).unwrap();
    assert_eq!(map.get(&rt, &key).unwrap(), Some(false));
    assert!(map.contains_key(&rt, &key).unwrap());
    map.set(&mut rt, &key, &true).unwrap();
    assert_eq!(map.get(&rt, &key).unwrap(), Some(true));
    map.remove(&mut rt, &key).unwrap();
    assert_eq!(map.get(&rt, &key).unwrap(), None);
    assert!(!map.contains_key(&rt, &key).unwrap());
}

#[test]
fn vector_push_then_pop_restores_the_length() {
    let mut rt = runtime();
    let mut vector: Vector<u64> = Vector::new("queue");
    assert_eq!(vector.len(&rt).unwrap(), 0);
    assert!(vector.is_empty(&rt).unwrap());
    vector.push(&mut rt, &11).unwrap();
    vector.push(&mut rt, &22).unwrap();
    assert_eq!(vector.len(&rt).unwrap(), 2);
    assert!(!vector.is_empty(&rt).unwrap());

    vector.push(&mut rt, &33).unwrap();
    assert_eq!(vector.len(&rt).unwrap(), 3);
    assert_eq!(vector.pop(&mut rt).unwrap(), Some(33));
    assert_eq!(vector.len(&rt).unwrap(), 2);
    assert_eq!(vector.get(&rt, 0).unwrap(), Some(11));
    assert_eq!(vector.get(&rt, 1).unwrap(), Some(22));
    assert_eq!(vector.get(&rt, 2).unwrap(), None);
    assert_eq!(vector.pop(&mut rt).unwrap(), Some(22));
    assert_eq!(vector.pop(&mut rt).unwrap(), Some(11));
    assert_eq!(vector.len(&rt).unwrap(), 0);
}

#[test]
fn pop_on_an_empty_vector_changes_nothing() {
    let mut rt = runtime();
    let mut vector: Vector<String> = Vector::new("names");
    assert_eq!(vector.pop(&mut rt).unwrap(), None);
    assert_eq!(
        mock::inspect_storage(&rt, "chert1contract0000000000000000", "names::len"),
        Vec::<u8>::new()
    );
    vector.push(&mut rt, &"x".to_string()).unwrap();
    assert_eq!(vector.pop(&mut rt).unwrap(), Some("x".to_string()));
    assert_eq!(
        mock::inspect_storage(&rt, "chert1contract0000000000000000", "names::len"),
        vec![0]
    );
    assert_eq!(vector.pop(&mut rt).unwrap(), None);
    assert_eq!(
        mock::inspect_storage(&rt, "chert1contract0000000000000000", "names::len"),
        vec![0]
    );
}

#[test]
fn vector_set_is_checked_against_the_length() {
    let mut rt = runtime();
    let mut vector: Vector<u64> = Vector::new("v");
    match vector.set(&mut rt, 0, &1) {
        Err(ContractError::InvalidArgument(text)) => assert_eq!(text, "Index out of bounds"),
        other => panic!("unexpected result: {:?}", other),
    }
    vector.push(&mut rt, &1).unwrap();
    vector.push(&mut rt, &2).unwrap();
    vector.set(&mut rt, 1, &20).unwrap();
    assert_eq!(vector.get(&rt, 0).unwrap(), Some(1));
    assert_eq!(vector.get(&rt, 1).unwrap(), Some(20));
    assert!(matches!(
        vector.set(&mut rt, 2, &3),
        Err(ContractError::InvalidArgument(_))
    ));
    assert_eq!(vector.len(&rt).unwrap(), 2);
}

#[test]
fn vector_keys_are_made_of_prefix_and_index() {
    let vector: Vector<u64> = Vector::new("v");
    assert_eq!(vector.len_key(), "v::len");
    assert_eq!(vector.item_key(0), "v::item::0");
    assert_eq!(vector.item_key(12), "v::item::12");
    assert_eq!(vector.item_key(1000), "v::item::1000");
    assert_eq!(
        vector.item_key(u64::MAX),
        "v::item::18446744073709551615"
    );
    let mut rt = runtime();
    let mut writer: Vector<u64> = Vector::new("v");
    writer.push(&mut rt, &5).unwrap();
    assert_eq!(
        mock::inspect_storage(&rt, "chert1contract0000000000000000", "v::item::0"),
        vec![5]
    );
    assert_eq!(
        mock::inspect_storage(&rt, "chert1contract0000000000000000", "v::len"),
        vec![1]
    );
}

#[test]
fn a_full_vector_takes_no_more() {
    let mut rt = runtime();
    let mut store = storage();
    store.set(&mut rt, "v::len", &u64::MAX).unwrap();
    let mut vector: Vector<u64> = Vector::new("v");
    assert_eq!(vector.len(&rt).unwrap(), u64::MAX);
    assert!(matches!(
        vector.push(&mut rt, &1),
        Err(ContractError::Overflow)
    ));
    assert_eq!(vector.len(&rt).unwrap(), u64::MAX);
}

#[test]
fn a_malformed_length_is_reported() {
    let mut rt = runtime();
    rt.write_storage("chert1contract0000000000000000", "v::len", &[0x80])
        .unwrap();
    let mut vector: Vector<u64> = Vector::new("v");
    assert!(matches!(
        vector.len(&rt),
        Err(ContractError::DeserializationFailed)
    ));
    assert!(matches!(
        vector.is_empty(&rt),
        Err(ContractError::DeserializationFailed)
    ));
    assert!(matches!(
        vector.get(&rt, 0),
        Err(ContractError::DeserializationFailed)
    ));
    assert!(matches!(
        vector.push(&mut rt, &1),
        Err(ContractError::DeserializationFailed)
    ));
    assert!(matches!(
        vector.pop(&mut rt),
        Err(ContractError::DeserializationFailed)
    ));
    assert!(matches!(
        vector.set(&mut rt, 0, &1),
        Err(ContractError::DeserializationFailed)
    ));
}

#[test]
fn encodings_are_those_of_the_wire_format() {
    assert_eq!(0u64.encode().unwrap(), vec![0]);
    assert_eq!(127u64.encode().unwrap(), vec![0x7f]);
    assert_eq!(128u64.encode().unwrap(), vec![0x80, 0x01]);
    assert_eq!(300u64.encode().unwrap(), vec![0xac, 0x02]);
    assert_eq!(u64::MAX.encode().unwrap().len(), 10);
    assert_eq!(64u32.encode().unwrap(), vec![64]);
    assert_eq!(u32::MAX.encode().unwrap().len(), 5);
    assert_eq!(true.encode().unwrap(), vec![1]);
    assert_eq!(false.encode().unwrap(), vec![0]);
    assert_eq!("Hi!".to_string().encode().unwrap(), vec![3, b'H', b'i', b'!']);
    assert_eq!(String::new().encode().unwrap(), vec![0]);

    assert_eq!(u64::decode(&[0xac, 0x02]).unwrap(), 300);
    assert_eq!(u64::decode(&[0x05, 0xff]).unwrap(), 5);
    assert_eq!(u32::decode(&[0x80, 0x01]).unwrap(), 128);
    assert!(bool::decode(&[1]).unwrap());
    assert!(!bool::decode(&[0]).unwrap());
    assert_eq!(String::decode(&[2, b'o', b'k']).unwrap(), "ok");
    assert!(matches!(
        u64::decode(&[]),
        Err(ContractError::DeserializationFailed)
    ));
    assert!(matches!(
        u32::decode(&[0xff, 0xff, 0xff, 0xff, 0x7f]),
        Err(ContractError::DeserializationFailed)
    ));
    assert!(matches!(
        bool::decode(&[2]),
        Err(ContractError::DeserializationFailed)
    ));
}

#[test]
fn a_refused_read_stays_a_failure() {
    let refused: Result<Vec<u8>, ContractError> = Err(ContractError::StorageReadFailed);
    assert!(matches!(
        stored_value::<u64>(refused),
        Err(ContractError::StorageReadFailed)
    ));
    assert!(!stored_presence(Err(ContractError::StorageReadFailed)));
    assert!(matches!(
        stored_value::<u64>(Err(ContractError::Unauthorized)),
        Err(ContractError::Unauthorized)
    ));
    assert_eq!(stored_value::<u64>(Ok(vec![])).unwrap(), None);
    assert_eq!(stored_value::<u64>(Ok(vec![0xac, 0x02])).unwrap(), Some(300));
    assert!(matches!(
        stored_value::<bool>(Ok(vec![9])),
        Err(ContractError::DeserializationFailed)
    ));
    assert!(stored_presence(Ok(vec![0])));
    assert!(!stored_presence(Ok(vec![])));
}

#[test]
fn raw_bytes_are_stored_as_they_are() {
    let mut rt = runtime();
    let mut store = storage();
    store.set(&mut rt, "blob", &RawBytes(vec![9, 8, 7])).unwrap();
    assert_eq!(
        mock::inspect_storage(&rt, "chert1contract0000000000000000", "blob"),
        vec![9, 8, 7]
    );
    assert_eq!(
        store.get::<RawBytes>(&rt, "blob").unwrap(),
        Some(RawBytes(vec![9, 8, 7]))
    );
    assert_eq!(RawBytes(vec![]).encode().unwrap(), Vec::<u8>::new());
    assert_eq!(RawBytes::decode(&[4, 5]).unwrap(), RawBytes(vec![4, 5]));
}

#[test]
fn an_empty_encoding_is_stored_as_nothing() {
    let mut rt = runtime();
    let mut store = storage();
    store.set(&mut rt, "blob", &RawBytes(vec![1])).unwrap();
    store.set(&mut rt, "blob", &RawBytes(vec![])).unwrap();
    assert_eq!(store.get::<RawBytes>(&rt, "blob").unwrap(), None);
    assert!(!store.has(&rt, "blob"));

    let mut map: StorageMap<RawBytes, u64> = StorageMap::new("m");
    map.set(&mut rt, &RawBytes(vec![]), &1).unwrap();
    assert_eq!(map.get(&rt, &RawBytes(vec![])).unwrap(), Some(1));
    assert_eq!(map.get(&rt, &RawBytes(vec![0])).unwrap(), None);
    assert_eq!(
        map.storage_key(&RawBytes(vec![])).unwrap(),
        format!("m:{}", blake3::hash(b"").to_hex())
    );

    let mut vector: Vector<RawBytes> = Vector::new("raw");
    vector.push(&mut rt, &RawBytes(vec![])).unwrap();
    assert_eq!(vector.len(&rt).unwrap(), 1);
    assert_eq!(vector.get(&rt, 0).unwrap(), None);
    assert_eq!(vector.pop(&mut rt).unwrap(), None);
    assert_eq!(vector.len(&rt).unwrap(), 0);
}

#[test]
fn storage_needs_a_valid_context() {
    let mut rt = runtime();
    let mut store = storage();
    store.set(&mut rt, "k", &7u64).unwrap();
    assert!(store.has(&rt, "k"));
    mock::set_sender(&mut rt, "short");
    assert!(!store.has(&rt, "k"));
    match store.get::<u64>(&rt, "k") {
        Err(ContractError::InvalidArgument(text)) => assert_eq!(text, "Invalid address length"),
        other => panic!("unexpected result: {:?}", other),
    }
    match store.set(&mut rt, "k", &8u64) {
        Err(ContractError::InvalidArgument(text)) => assert_eq!(text, "Invalid address length"),
        other => panic!("unexpected result: {:?}", other),
    }
    match store.remove(&mut rt, "k") {
        Err(ContractError::InvalidArgument(text)) => assert_eq!(text, "Invalid address length"),
        other => panic!("unexpected result: {:?}", other),
    }
    assert_eq!(
        mock::inspect_storage(&rt, "chert1contract0000000000000000", "k"),
        vec![7]
    );

    let mut map: StorageMap<u64, u64> = StorageMap::new("m");
    assert!(matches!(
        map.set(&mut rt, &1, &2),
        Err(ContractError::InvalidArgument(_))
    ));
    assert!(matches!(map.get(&rt, &1), Err(ContractError::InvalidArgument(_))));
    assert!(matches!(
        map.remove(&mut rt, &1),
        Err(ContractError::InvalidArgument(_))
    ));
    assert!(!map.contains_key(&rt, &1).unwrap());

    let mut vector: Vector<u64> = Vector::new("v");
    assert!(matches!(vector.len(&rt), Err(ContractError::InvalidArgument(_))));
    assert!(matches!(
        vector.is_empty(&rt),
        Err(ContractError::InvalidArgument(_))
    ));
    assert!(matches!(vector.get(&rt, 0), Err(ContractError::InvalidArgument(_))));
    assert!(matches!(
        vector.set(&mut rt, 0, &1),
        Err(ContractError::InvalidArgument(_))
    ));
    assert!(matches!(
        vector.push(&mut rt, &1),
        Err(ContractError::InvalidArgument(_))
    ));
    assert!(matches!(
        vector.pop(&mut rt),
        Err(ContractError::InvalidArgument(_))
    ));
    assert_eq!(
        mock::inspect_storage(&rt, "chert1contract0000000000000000", "v::len"),
        Vec::<u8>::new()
    );

    mock::set_sender(&mut rt, "chert1sender000000000000000000");
    assert_eq!(store.get::<u64>(&rt, "k").unwrap(), Some(7));
    mock::set_block_timestamp(&mut rt, 0);
    match store.get::<u64>(&rt, "k") {
        Err(ContractError::InvalidArgument(text)) => {
            assert_eq!(text, "Block timestamp cannot be zero")
        }
        other => panic!("unexpected result: {:?}", other),
    }
}

#[test]
fn a_record_key_joins_prefix_and_digest() {
    let mut digest = [0u8; 32];
    digest[0] = 0x01;
    digest[1] = 0xab;
    digest[31] = 0xf0;
    let key = record_key("p", &digest);
    let mut expected = String::from("p:01ab");
    expected.push_str(&"00".repeat(29));
    expected.push_str("f0");
    assert_eq!(key, expected);
    assert_eq!(record_key("", &[0xff; 32]), format!(":{}", "ff".repeat(32)));
    assert_eq!(
        record_key("a:b", &[0x9a; 32]),
        format!("a:b:{}", "9a".repeat(32))
    );
}

#[test]
fn setting_an_item_leaves_the_others() {
    let mut rt = runtime();
    let mut vector: Vector<u64> = Vector::new("v");
    for value in 0..12u64 {
        vector.push(&mut rt, &(value * 10)).unwrap();
    }
    vector.set(&mut rt, 1, &1111).unwrap();
    vector.set(&mut rt, 11, &2222).unwrap();
    assert_eq!(vector.len(&rt).unwrap(), 12);
    for index in 0..12u64 {
        let expected = match index {
            1 => 1111,
            11 => 2222,
            other => other * 10,
        };
        assert_eq!(vector.get(&rt, index).unwrap(), Some(expected));
    }
    assert_eq!(vector.pop(&mut rt).unwrap(), Some(2222));
    assert_eq!(vector.get(&rt, 1).unwrap(), Some(1111));
    assert_eq!(vector.get(&rt, 10).unwrap(), Some(100));
    assert_eq!(vector.get(&rt, 11).unwrap(), None);
}

#[test]
fn two_vectors_under_two_prefixes_do_not_meet() {
    let mut rt = runtime();
    let mut first: Vector<bool> = Vector::new("a");
    let mut second: Vector<bool> = Vector::new("a::item");
    first.push(&mut rt, &true).unwrap();
    second.push(&mut rt, &false).unwrap();
    second.push(&mut rt, &false).unwrap();
    assert_eq!(first.len(&rt).unwrap(), 1);
    assert_eq!(second.len(&rt).unwrap(), 2);
    assert_eq!(first.get(&rt, 0).unwrap(), Some(true));
    assert_eq!(second.get(&rt, 0).unwrap(), Some(false));
    let copy = first.clone();
    assert_eq!(copy.get(&rt, 0).unwrap(), Some(true));
}

#[test]
fn what_is_encoded_decodes_to_itself() {
    let numbers = [
        0u64,
        1,
        127,
        128,
        255,
        16_383,
        16_384,
        u32::MAX as u64,
        u32::MAX as u64 + 1,
        (1 << 63) - 1,
        1 << 63,
        u64::MAX,
    ];
    for number in numbers {
        let bytes = number.encode().unwrap();
        assert!(!bytes.is_empty());
        assert_eq!(u64::decode(&bytes).unwrap(), number);
        let groups = (64 - number.leading_zeros() as usize).max(1).div_ceil(7);
        assert_eq!(bytes.len(), groups);
        for (place, byte) in bytes.iter().enumerate() {
            let group = ((number >> (7 * place)) & 0x7f) as u8;
            let more = if place + 1 < bytes.len() { 0x80 } else { 0 };
            assert_eq!(*byte, group | more);
        }
    }
    for number in [0u32, 127, 128, 1 << 28, u32::MAX] {
        let bytes = number.encode().unwrap();
        assert_eq!(u32::decode(&bytes).unwrap(), number);
        assert_eq!(bytes, (number as u64).encode().unwrap());
    }
    let long = "é".repeat(100);
    for text in ["", "a", "owner_address", "ünïcödé ✓", long.as_str()] {
        let bytes = text.to_string().encode().unwrap();
        assert_eq!(String::decode(&bytes).unwrap(), text);
        let length = (text.len() as u64).encode().unwrap();
        assert_eq!(&bytes[..length.len()], length.as_slice());
        assert_eq!(&bytes[length.len()..], text.as_bytes());
    }
    for flag in [true, false] {
        let bytes = flag.encode().unwrap();
        assert_eq!(bytes.len(), 1);
        assert_eq!(bool::decode(&bytes).unwrap(), flag);
    }
    assert!(bool::decode(&[1, 99]).unwrap());
    assert!(!bool::decode(&[0, 1]).unwrap());
}

#[test]
fn every_byte_has_its_two_hexadecimal_digits() {
    let digits = b"0123456789abcdef";
    for high in 0..16u8 {
        let mut digest = [0u8; 32];
        for low in 0..16u8 {
            digest[low as usize] = high * 16 + low;
        }
        let key = record_key("", &digest);
        let text = key.as_bytes();
        assert_eq!(text.len(), 65);
        assert_eq!(text[0], b':');
        for low in 0..16usize {
            assert_eq!(text[1 + 2 * low], digits[high as usize]);
            assert_eq!(text[2 + 2 * low], digits[low]);
        }
    }
}
