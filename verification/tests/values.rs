use indradb::errors::Error;
use indradb::index::SortedMap;
use indradb::keys::{compare_bytes, Key, Order};
use indradb::models::{EdgeKey, JsonValue, Timestamp, Type, Uuid, Weight};
use indradb::util::{child_uuid, child_uuid_from, generate_random_secret};

#[test]
fn type_must_not_be_empty() {
    assert_eq!(Type::new(String::new()), Err(Error::OutOfRange));
    let t = Type::new("person".to_string()).unwrap();
    assert_eq!(t.as_str(), "person");
    assert_eq!(t.clone().into_string(), "person");
    assert_eq!(Type::new(" ".to_string()).unwrap().as_str(), " ");
}

#[test]
fn weight_lies_between_minus_one_and_one() {
    for value in [0.0f32, -0.0, 0.5, -0.5, 1.0, -1.0, f32::MIN_POSITIVE, 0.99999994] {
        assert_eq!(Weight::new(value.to_bits()).unwrap().to_bits(), value.to_bits());
    }
    for value in [1.0000001f32, -1.0000001, 2.0, -7.5, f32::INFINITY, f32::NEG_INFINITY, f32::NAN, f32::MAX] {
        assert_eq!(Weight::new(value.to_bits()), Err(Error::OutOfRange));
    }
    assert_eq!(Weight::new(0x3f80_0000).unwrap().to_bits(), 1.0f32.to_bits());
    assert_eq!(Weight::new(0x3f80_0001), Err(Error::OutOfRange));
    assert_eq!(Weight::new(0xffff_ffff), Err(Error::OutOfRange));
}

#[test]
fn uuid_is_written_hyphenated_in_lower_case_and_read_back() {
    let id = Uuid(0x0123_4567_89ab_cdef_fedc_ba98_7654_3210);
    assert_eq!(id.to_hyphenated_string(), "01234567-89ab-cdef-fedc-ba9876543210");
    assert_eq!(Uuid::parse_str("01234567-89ab-cdef-fedc-ba9876543210"), Ok(id));
    assert_eq!(Uuid::parse_str("01234567-89AB-CDEF-FEDC-BA9876543210"), Ok(id));
    assert_eq!(Uuid::parse_str("0123456789abcdeffedcba9876543210"), Ok(id));
    assert_eq!(Uuid::parse_str("not an identifier"), Err(Error::Decode));
    assert_eq!(Uuid::parse_str(""), Err(Error::Decode));
    assert_eq!(Uuid::nil().to_hyphenated_string(), "00000000-0000-0000-0000-000000000000");
    assert_eq!(Uuid::default(), Uuid::nil());
    assert_eq!(Uuid::from_u128(9).as_u128(), 9);
}

#[test]
fn uuids_are_ordered_as_numbers() {
    assert_eq!(Uuid(1).compare(&Uuid(2)), Order::Less);
    assert_eq!(Uuid(2).compare(&Uuid(2)), Order::Equal);
    assert_eq!(Uuid(u128::MAX).compare(&Uuid(0)), Order::Greater);
    assert!(Uuid(1) < Uuid(1 << 100));
    assert_eq!(Uuid(5).duplicate(), Uuid(5));
}

#[test]
fn text_is_ordered_by_its_bytes() {
    assert_eq!(compare_bytes(b"", b""), Order::Equal);
    assert_eq!(compare_bytes(b"", b"a"), Order::Less);
    assert_eq!(compare_bytes(b"ab", b"a"), Order::Greater);
    assert_eq!(compare_bytes(b"ab", b"b"), Order::Less);
    assert_eq!(compare_bytes(b"abc", b"abc"), Order::Equal);
    assert_eq!(compare_bytes(&[0xff], &[0x00, 0xff]), Order::Greater);
    assert_eq!("Z".to_string().compare(&"a".to_string()), Order::Less);
    assert_eq!("\u{e9}".to_string().compare(&"z".to_string()), Order::Greater);
    assert_eq!("same".to_string().compare(&"same".to_string()), Order::Equal);
    assert_eq!("copy".to_string().duplicate(), "copy");
}

#[test]
fn pairs_and_edge_keys_are_ordered_field_by_field() {
    let pair = |id: u128, name: &str| (Uuid(id), name.to_string());
    assert_eq!(pair(1, "b").compare(&pair(2, "a")), Order::Less);
    assert_eq!(pair(1, "b").compare(&pair(1, "a")), Order::Greater);
    assert_eq!(pair(1, "a").compare(&pair(1, "a")), Order::Equal);
    let key = |from: u128, t: &str, to: u128| {
        EdgeKey::new(Uuid(from), Type::new(t.to_string()).unwrap(), Uuid(to))
    };
    assert_eq!(key(1, "z", 9).to_stored().compare(&key(2, "a", 0).to_stored()), Order::Less);
    assert_eq!(key(1, "b", 0).to_stored().compare(&key(1, "a", 9).to_stored()), Order::Greater);
    assert_eq!(key(1, "a", 3).to_stored().compare(&key(1, "a", 4).to_stored()), Order::Less);
    assert_eq!(key(1, "a", 3).to_stored().compare(&key(1, "a", 3).to_stored()), Order::Equal);
    assert!(key(1, "z", 9) < key(2, "a", 0));
    assert!(key(1, "b", 0) > key(1, "a", 9));
    assert_eq!(key(1, "a", 3).to_stored().to_key(), key(1, "a", 3));
    assert_eq!(key(7, "t", 8).clone(), key(7, "t", 8));
}

#[test]
fn timestamps_are_ordered_by_second_then_nanosecond() {
    let t = Timestamp::new(5, 10);
    assert!(t.is_not_after(&Timestamp::new(5, 10)));
    assert!(t.is_not_after(&Timestamp::new(5, 11)));
    assert!(t.is_not_after(&Timestamp::new(6, 0)));
    assert!(!t.is_not_after(&Timestamp::new(5, 9)));
    assert!(!t.is_not_after(&Timestamp::new(4, 999_999_999)));
    assert!(Timestamp::new(-1, 0).is_not_after(&Timestamp::new(0, 0)));
}

#[test]
fn child_shares_the_upper_half_with_its_parent() {
    let parent = Uuid(0x1111_2222_3333_4444_5555_6666_7777_8888);
    let fresh = Uuid(0xaaaa_bbbb_cccc_dddd_eeee_ffff_0000_1111);
    assert_eq!(
        child_uuid_from(parent, fresh),
        Uuid(0x1111_2222_3333_4444_eeee_ffff_0000_1111)
    );
    let first = child_uuid(parent);
    let second = child_uuid(parent);
    assert_eq!(first.0 >> 64, parent.0 >> 64);
    assert_eq!(second.0 >> 64, parent.0 >> 64);
    assert_eq!((first.0 >> 62) & 0x3, 2);
    assert_eq!((second.0 >> 62) & 0x3, 2);
    assert_eq!((child_uuid(Uuid::nil()).0 >> 62) & 0x3, 2);
    assert_ne!(first, second);
}

#[test]
fn secret_is_made_of_32_letters_and_digits() {
    let first = generate_random_secret();
    let second = generate_random_secret();
    assert_eq!(first.len(), 32);
    assert!(first.bytes().all(|b| b.is_ascii_alphanumeric()));
    assert!(second.bytes().all(|b| b.is_ascii_alphanumeric()));
    assert_ne!(first, second);
}

#[test]
fn json_value_is_copied_whole() {
    let value = JsonValue(serde_json::from_str("{\"a\": [1, 2.5, {\"b\": null}], \"c\": \"d\"}").unwrap());
    let copy = value.clone();
    assert_eq!(copy, value);
    assert_eq!(copy.0["a"][2]["b"], serde_json::Value::Null);
}

#[test]
fn sorted_map_keeps_one_value_for_each_key_in_ascending_order() {
    let mut map: SortedMap<Uuid, String> = SortedMap::new();
    assert_eq!(map.len(), 0);
    for (id, text) in [(5u128, "five"), (1, "one"), (9, "nine"), (5, "FIVE"), (3, "three")] {
        map.insert(Uuid(id), text.to_string());
    }
    assert_eq!(map.len(), 4);
    let keys: Vec<u128> = (0..map.len()).map(|i| map.key_at(i).0).collect();
    assert_eq!(keys, vec![1, 3, 5, 9]);
    assert_eq!(map.value_at(2), "FIVE");
    assert_eq!(map.get(&Uuid(5)), Some(&"FIVE".to_string()));
    assert_eq!(map.get(&Uuid(4)), None);
    assert!(map.contains_key(&Uuid(9)));
    assert!(!map.contains_key(&Uuid(0)));
    assert_eq!(map.lower_bound(&Uuid(0)), 0);
    assert_eq!(map.lower_bound(&Uuid(3)), 1);
    assert_eq!(map.lower_bound(&Uuid(4)), 2);
    assert_eq!(map.lower_bound(&Uuid(10)), 4);
    assert!(map.remove(&Uuid(3)));
    assert!(!map.remove(&Uuid(3)));
    assert_eq!(map.len(), 3);
    assert_eq!(map.get(&Uuid(3)), None);
    assert_eq!(map.key_at(1), &Uuid(5));
}
