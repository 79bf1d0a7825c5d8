use cccp::bytes::{same_bytes, slice_of, u32_from_be, u32_to_be, u64_from_be, u64_to_be};
use cccp::error::ErrorKind;
use cccp::hash::FileHasher;
use cccp::keys::keys_of;
use cccp::retry::Retries;
use cccp::text::{
    characters, contains, decimal_string, join, parse_u16, remove_breaks, replace_char, same_text,
    split_field, string_of,
};
use std::collections::HashMap;

#[test]
fn big_endian_numbers() {
    assert_eq!(u32_to_be(0x0102_0304), vec![1, 2, 3, 4]);
    assert_eq!(u64_to_be(0x0102_0304_0506_0708), vec![1, 2, 3, 4, 5, 6, 7, 8]);
    assert_eq!(u32_from_be(&vec![9, 0, 0, 1, 0], 1), 256);
    assert_eq!(u64_from_be(&u64_to_be(u64::MAX), 0), u64::MAX);
    assert_eq!(u32_from_be(&u32_to_be(77), 0), 77);
    assert_eq!(slice_of(&vec![1, 2, 3, 4], 1, 3), vec![2, 3]);
    assert!(same_bytes(&vec![1, 2], &vec![1, 2]));
    assert!(!same_bytes(&vec![1, 2], &vec![1, 3]));
    assert!(!same_bytes(&vec![1, 2], &vec![1]));
}

#[test]
fn texts() {
    assert_eq!(decimal_string(0), "0");
    assert_eq!(decimal_string(18446744073709551615), "18446744073709551615");
    assert_eq!(parse_u16("22"), Some(22));
    assert_eq!(parse_u16("+65535"), Some(65535));
    assert_eq!(parse_u16("0022"), Some(22));
    assert_eq!(parse_u16("65536"), None);
    assert_eq!(parse_u16(""), None);
    assert_eq!(parse_u16("+"), None);
    assert_eq!(parse_u16("2x"), None);
    assert!(contains("abcabd", "abd"));
    assert!(contains("abc", ""));
    assert!(!contains("ab", "abc"));
    assert_eq!(replace_char("a\\b\\c", '\\', '/'), "a/b/c");
    assert_eq!(remove_breaks("a\r\nb\n", false), "a\rb");
    assert_eq!(remove_breaks("a\r\nb\n", true), "ab");
    assert!(same_text("x", "x"));
    assert!(!same_text("x", "X"));
    let (first, rest) = split_field("a:b:c", ':');
    assert_eq!((first.as_str(), rest.as_deref()), ("a", Some("b:c")));
    let (first, rest) = split_field("abc", ':');
    assert_eq!((first.as_str(), rest), ("abc", None));
    assert_eq!(
        join(&vec!["a".to_string(), "b".to_string()], ", "),
        "a, b"
    );
    assert_eq!(join(&Vec::new(), ", "), "");
    assert_eq!(characters("aß"), vec!['a', 'ß']);
    assert_eq!(string_of(&vec!['x', 'y', 'z'], 1, 3), "yz");
}

#[test]
fn keys_of_a_map() {
    let mut map: HashMap<u32, &str> = HashMap::new();
    assert!(keys_of(&map).is_empty());
    map.insert(3, "c");
    map.insert(1, "a");
    let mut keys = keys_of(&map);
    keys.sort();
    assert_eq!(keys, vec![1, 3]);
}

#[test]
fn hashes() {
    let mut empty = FileHasher::new();
    assert!(!empty.read(&Vec::new()));
    let hex: String = empty.hash().iter().map(|b| format!("{:02x}", b)).collect();
    assert_eq!(
        hex,
        "af1349b9f5f9a1a6a0404dea36dcc9499bcb25c9adc112b7cc9a93cae41f3262"
    );
    let content: Vec<u8> = (0..5000u32).map(|i| i as u8).collect();
    let mut whole = FileHasher::new();
    assert!(whole.read(&content));
    let mut pieces = FileHasher::new();
    for chunk in content.chunks(2048) {
        assert!(pieces.read(&chunk.to_vec()));
    }
    assert_eq!(whole.hash(), pieces.hash());
    assert_eq!(whole.hash(), blake3::hash(&content).as_bytes().to_vec());
    assert_ne!(whole.hash(), empty.hash());
}

#[test]
fn retries_in_a_row() {
    let mut retries = Retries::new(3);
    for failed in [true, true, false, true, true] {
        assert!(retries.more());
        retries.record(failed);
    }
    assert!(retries.more());
    assert!(retries.finish().is_ok());
    retries.record(true);
    assert!(!retries.more());
    let error = retries.finish().unwrap_err();
    assert!(matches!(error.kind, ErrorKind::MaxRetries));
}

#[test]
fn no_retries_allowed() {
    let retries = Retries::new(0);
    assert!(!retries.more());
    assert!(retries.finish().is_err());
}
