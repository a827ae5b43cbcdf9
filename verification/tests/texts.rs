use rccopy::algorithm::{Algorithm, ConfigurationError};
use rccopy::hex::{hex_of_bytes, hex_of_u64};
use rccopy::text::{chars_of, decimal_string, parse_u64};
use rccopy::verify::{checksums_match, digests_equal, lower, Checksum};

#[test]
fn decimal_numerals() {
    assert_eq!(decimal_string(0), "0");
    assert_eq!(decimal_string(7), "7");
    assert_eq!(decimal_string(10), "10");
    assert_eq!(decimal_string(1234567890), "1234567890");
    assert_eq!(decimal_string(u64::MAX), "18446744073709551615");
}

#[test]
fn decimal_numerals_are_read_back() {
    assert_eq!(parse_u64("0"), Some(0));
    assert_eq!(parse_u64("007"), Some(7));
    assert_eq!(parse_u64("18446744073709551615"), Some(u64::MAX));
    assert_eq!(parse_u64("18446744073709551616"), None);
    assert_eq!(parse_u64("99999999999999999999999"), None);
    assert_eq!(parse_u64(""), None);
    assert_eq!(parse_u64("12a"), None);
    assert_eq!(parse_u64("-1"), None);
    assert_eq!(parse_u64("+1"), None);
    assert_eq!(parse_u64(" 1"), None);
    let mut n: u64 = 1;
    while n < u64::MAX / 7 {
        assert_eq!(parse_u64(&decimal_string(n)), Some(n));
        assert_eq!(decimal_string(n), n.to_string());
        n = n * 7 + 3;
    }
}

#[test]
fn characters_of_a_string() {
    assert_eq!(chars_of("héllo"), vec!['h', 'é', 'l', 'l', 'o']);
    assert_eq!(chars_of(""), Vec::<char>::new());
}

#[test]
fn hexadecimal_digits_are_lowercase() {
    assert_eq!(hex_of_bytes(&[0x01, 0x23, 0x45, 0x67, 0x89, 0xab, 0xcd, 0xef]), "0123456789abcdef");
    assert_eq!(hex_of_bytes(&[]), "");
    assert_eq!(hex_of_bytes(&[0x00, 0x0f, 0xa0, 0xff, 0x5e]), "000fa0ff5e");
    assert_eq!(hex_of_u64(0), "0000000000000000");
    assert_eq!(hex_of_u64(0xef46_db37_51d8_e999), "ef46db3751d8e999");
    assert_eq!(hex_of_u64(u64::MAX), "ffffffffffffffff");
    assert_eq!(hex_of_u64(1), "0000000000000001");
    assert_eq!(hex_of_u64(0x0123_4567_89ab_cdef), "0123456789abcdef");
}

#[test]
fn algorithm_names_tags_and_widths() {
    assert_eq!(Algorithm::Md5.name(), "md5");
    assert_eq!(Algorithm::Sha1.name(), "sha1");
    assert_eq!(Algorithm::Xxh64.name(), "xxhash64");
    assert_eq!(Algorithm::Md5.manifest_tag(), "md5");
    assert_eq!(Algorithm::Sha1.manifest_tag(), "sha1");
    assert_eq!(Algorithm::Xxh64.manifest_tag(), "xxhash64be");
    assert_eq!(Algorithm::Md5.hex_width(), 32);
    assert_eq!(Algorithm::Sha1.hex_width(), 40);
    assert_eq!(Algorithm::Xxh64.hex_width(), 16);
}

#[test]
fn algorithm_names_are_read_back() {
    for algorithm in [Algorithm::Md5, Algorithm::Sha1, Algorithm::Xxh64] {
        assert_eq!(Algorithm::parse(algorithm.name()), Ok(algorithm));
        assert_eq!(Algorithm::from_manifest_tag(algorithm.manifest_tag()), Some(algorithm));
    }
    assert_eq!(Algorithm::parse("xxhash64be"), Err(ConfigurationError::UnknownAlgorithm));
    assert_eq!(Algorithm::parse("MD5"), Err(ConfigurationError::UnknownAlgorithm));
    assert_eq!(Algorithm::parse(""), Err(ConfigurationError::UnknownAlgorithm));
    assert_eq!(Algorithm::from_manifest_tag("xxhash64"), None);
    assert_eq!(Algorithm::from_manifest_tag("hash"), None);
}

#[test]
fn unsupported_algorithm_is_a_configuration_error() {
    assert_eq!(Algorithm::parse("crc32"), Err(ConfigurationError::UnknownAlgorithm));
}

#[test]
fn digests_are_compared_without_regard_to_case() {
    assert_eq!(lower('A'), 'a');
    assert_eq!(lower('Z'), 'z');
    assert_eq!(lower('a'), 'a');
    assert_eq!(lower('0'), '0');
    assert_eq!(lower('@'), '@');
    assert_eq!(lower('['), '[');
    assert_eq!(lower('É'), 'É');
    assert!(digests_equal("", ""));
    assert!(digests_equal("5eb63bbb", "5eb63bbb"));
    assert!(digests_equal("5EB63BBB", "5eb63bbb"));
    assert!(digests_equal("5eB63bBb", "5Eb63BbB"));
    assert!(!digests_equal("5eb63bbb", "5eb63bbc"));
    assert!(!digests_equal("5eb63bbb", "5eb63bb"));
    assert!(!digests_equal("", "0"));
}

#[test]
fn checksums_match_only_under_the_same_algorithm() {
    let a = Checksum { algorithm: Algorithm::Md5, text: String::from("AB") };
    let b = Checksum { algorithm: Algorithm::Md5, text: String::from("ab") };
    let c = Checksum { algorithm: Algorithm::Sha1, text: String::from("ab") };
    let d = Checksum { algorithm: Algorithm::Md5, text: String::from("ac") };
    assert!(checksums_match(&a, &b));
    assert!(!checksums_match(&b, &c));
    assert!(!checksums_match(&b, &d));
}
