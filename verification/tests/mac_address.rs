use std::collections::HashMap;

use mac_addr::mac_address::MacAddress;

#[test]
pub fn char_to_digit_test() {
    let char_hex_map: HashMap<char, u8> = [
        ('0', 0),
        ('1', 1),
        ('2', 2),
        ('3', 3),
        ('4', 4),
        ('5', 5),
        ('6', 6),
        ('7', 7),
        ('8', 8),
        ('9', 9),
        ('A', 10),
        ('B', 11),
        ('C', 12),
        ('D', 13),
        ('E', 14),
        ('F', 15),
        ('a', 10),
        ('b', 11),
        ('c', 12),
        ('d', 13),
        ('e', 14),
        ('f', 15),
    ]
    .iter()
    .cloned()
    .collect();

    for (key, value) in char_hex_map.iter() {
        assert_eq!(MacAddress::char_to_digit(key).unwrap(), *value);
    }
}

#[test]
pub fn from_string_slice_integration_test() {
    let input: &str = "55:EE:75:BF:9C:A1";
    let expected_result: [u8; 6] = [0x55, 0xEE, 0x75, 0xBF, 0x9C, 0xA1];

    let result: MacAddress = MacAddress::from_string_slice(&input).unwrap();

    assert_eq!(result.address_array, expected_result)
}

#[test]
fn char_to_digit_rejects_non_hex_characters() {
    for c in ['G', 'g', 'z', ':', ' ', '-', '/', '@', '`', '\u{0}', 'é'] {
        assert!(MacAddress::char_to_digit(&c).is_none());
    }
}

#[test]
fn octet_nibble_ordering() {
    // "AB" is 0xAB = 171 (high nibble first), not 0xBA = 186.
    assert_eq!(MacAddress::octet_chars_to_byte("AB"), 171);
    assert_ne!(MacAddress::octet_chars_to_byte("AB"), 186);
    assert_eq!(MacAddress::octet_chars_to_byte("10"), 0x10);
    assert_eq!(MacAddress::octet_chars_to_byte("01"), 0x01);
}

#[test]
fn grammar_rejection() {
    let malformed: [&str; 6] = [
        "",
        "GG:EE:75:BF:9C:A1",
        "55EE:75:BF:9C:A1",
        "55:EE:75:BF:9C",
        "55:EE:75:BF:9C:A1:00",
        "55-EE-75-BF-9C-A1",
    ];
    for input in malformed {
        assert!(MacAddress::from_string_slice(input).is_none());
    }
}

#[test]
fn grammar_rejects_surrounding_noise() {
    assert!(MacAddress::from_string_slice(" 55:EE:75:BF:9C:A1").is_none());
    assert!(MacAddress::from_string_slice("55:EE:75:BF:9C:A1 ").is_none());
    assert!(MacAddress::from_string_slice("0x55:EE:75:BF:9C:A1").is_none());
    assert!(MacAddress::from_string_slice("55:EE:75:BF:9C:A").is_none());
    assert!(MacAddress::from_string_slice("5:EE:75:BF:9C:A10").is_none());
}

#[test]
fn case_insensitivity() {
    let expected: [u8; 6] = [0xAA, 0xBB, 0xCC, 0xDD, 0xEE, 0xFF];
    let lower = MacAddress::from_string_slice("aa:bb:cc:dd:ee:ff").unwrap();
    let upper = MacAddress::from_string_slice("AA:BB:CC:DD:EE:FF").unwrap();
    let mixed = MacAddress::from_string_slice("aA:bB:cC:Dd:Ee:Ff").unwrap();
    assert_eq!(lower.address_array, expected);
    assert_eq!(upper.address_array, expected);
    assert_eq!(mixed.address_array, expected);
}

#[test]
fn parse_is_deterministic() {
    let input = "01:23:45:67:89:ab";
    let first = MacAddress::from_string_slice(input).unwrap();
    let second = MacAddress::from_string_slice(input).unwrap();
    assert_eq!(first.address_array, second.address_array);
    assert_eq!(first.address_array, [0x01, 0x23, 0x45, 0x67, 0x89, 0xAB]);
}

#[test]
fn from_array_identity() {
    let bytes: [u8; 6] = [1, 2, 3, 4, 5, 6];
    let mac = MacAddress::from_array(&bytes);
    assert_eq!(mac.address_array, [1, 2, 3, 4, 5, 6]);
}

#[test]
fn new_is_all_zero() {
    let mac = MacAddress::new();
    assert_eq!(mac.address_array, [0, 0, 0, 0, 0, 0]);
}

#[test]
fn extreme_octet_values() {
    let mac = MacAddress::from_string_slice("00:00:00:00:00:00").unwrap();
    assert_eq!(mac.address_array, [0, 0, 0, 0, 0, 0]);
    let mac = MacAddress::from_string_slice("ff:ff:ff:ff:ff:ff").unwrap();
    assert_eq!(mac.address_array, [0xFF, 0xFF, 0xFF, 0xFF, 0xFF, 0xFF]);
}
