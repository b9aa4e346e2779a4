use slashing_protection::decimal::{format_u64, parse_plain_u64, parse_u64};
use slashing_protection::root_text::{format_root, parse_canonical_root, parse_root};
use slashing_protection::serde::Quoted;
use slashing_protection::serde_utils::quoted::{NotAnInteger, QuotedIntVisitor};
use slashing_protection::serde_utils::quoted_u64_vec::{QuotedIntVecVisitor, QuotedIntWrapper};
use slashing_protection::serde_utils::{
    decode_prefixed, encode_prefixed, fork_bytes_4, fork_from_hex_str, fork_to_hex_str, graffiti,
    graffiti_from_hex_str, graffiti_to_hex_str, quoted, quoted_u64_vec, u32_from_hex_str,
    u32_hex, u32_to_hex_str, u8_from_hex_str, u8_hex, u8_to_hex_str, DecodeError,
    FORK_BYTES_LEN, GRAFFITI_BYTES_LEN,
};
use slashing_protection::types::Hash256;

#[test]
fn decimal_text_of_numbers() {
    assert_eq!(format_u64(0), "0");
    assert_eq!(format_u64(7), "7");
    assert_eq!(format_u64(10), "10");
    assert_eq!(format_u64(15670), "15670");
    assert_eq!(format_u64(u64::MAX), "18446744073709551615");
}

#[test]
fn strict_numerals() {
    assert_eq!(parse_u64("0"), Some(0));
    assert_eq!(parse_u64("42"), Some(42));
    assert_eq!(parse_u64("18446744073709551615"), Some(u64::MAX));
    assert_eq!(parse_u64("18446744073709551616"), None);
    assert_eq!(parse_u64(""), None);
    assert_eq!(parse_u64("007"), None);
    assert_eq!(parse_u64("00"), None);
    assert_eq!(parse_u64("+5"), None);
    assert_eq!(parse_u64("-5"), None);
    assert_eq!(parse_u64("5 "), None);
    assert_eq!(parse_u64("1e3"), None);
}

#[test]
fn plain_numbers() {
    assert_eq!(parse_plain_u64("0"), Some(0));
    assert_eq!(parse_plain_u64("+5"), Some(5));
    assert_eq!(parse_plain_u64("007"), Some(7));
    assert_eq!(parse_plain_u64("18446744073709551615"), Some(u64::MAX));
    assert_eq!(parse_plain_u64("18446744073709551616"), None);
    assert_eq!(parse_plain_u64("+"), None);
    assert_eq!(parse_plain_u64(""), None);
    assert_eq!(parse_plain_u64("-1"), None);
    assert_eq!(parse_plain_u64("1x"), None);
}

#[test]
fn decimal_round_trip() {
    for v in [0u64, 1, 9, 10, 99, 100, 12345, u64::MAX - 1, u64::MAX] {
        assert_eq!(parse_u64(&format_u64(v)), Some(v));
        assert_eq!(parse_plain_u64(&format_u64(v)), Some(v));
    }
}

#[test]
fn quoted_integers() {
    assert_eq!(quoted::serialize(&5), "5");
    assert_eq!(quoted::serialize(&u64::MAX), "18446744073709551615");
    assert_eq!(quoted::deserialize("5"), Ok(5));
    assert_eq!(quoted::deserialize("\"5\""), Ok(5));
    assert_eq!(quoted::deserialize("\"\""), Err(NotAnInteger));
    assert_eq!(quoted::deserialize("\"5"), Err(NotAnInteger));
    assert_eq!(quoted::deserialize("five"), Err(NotAnInteger));
    assert_eq!(quoted::deserialize("\"05\""), Err(NotAnInteger));
    assert_eq!(QuotedIntVisitor.visit_str("\"18446744073709551615\""), Ok(u64::MAX));
    assert_eq!(QuotedIntVisitor.expecting(), "a quoted or unquoted integer");
    for v in [0u64, 3, 1 << 40] {
        assert_eq!(quoted::deserialize(&quoted::serialize(&v)), Ok(v));
    }
}

#[test]
fn quoted_integer_lists() {
    let texts = quoted_u64_vec::serialize(&vec![1, 20, 300]);
    assert_eq!(texts, vec!["1".to_string(), "20".to_string(), "300".to_string()]);
    assert_eq!(quoted_u64_vec::deserialize(&texts), Ok(vec![1, 20, 300]));
    assert_eq!(quoted_u64_vec::deserialize(&vec![]), Ok(vec![]));
    assert_eq!(
        quoted_u64_vec::deserialize(&vec!["\"7\"".to_string(), "8".to_string()]),
        Ok(vec![7, 8])
    );
    assert_eq!(
        quoted_u64_vec::deserialize(&vec!["7".to_string(), "x".to_string()]),
        Err(NotAnInteger)
    );
    let wrapped = vec![QuotedIntWrapper { value: 4 }, QuotedIntWrapper { value: 2 }];
    assert_eq!(QuotedIntVecVisitor.visit_seq(wrapped), vec![4, 2]);
    assert_eq!(QuotedIntVecVisitor.expecting(), "a list of quoted or unquoted integers");
}

#[test]
fn quoted_value() {
    let q = Quoted { value: 77u64 };
    assert_eq!(q.to_text(), "77");
    assert_eq!(Quoted::<u64>::from_text("\"77\""), Ok(q));
    assert_eq!(Quoted::<u64>::from_text("7 7"), Err(NotAnInteger));
}

#[test]
fn prefixed_hex_bytes() {
    assert_eq!(encode_prefixed(&[]), "0x");
    assert_eq!(encode_prefixed(&[0x00, 0x0f, 0xa5, 0xff]), "0x000fa5ff");
    assert_eq!(decode_prefixed("0x000fa5ff"), Ok(vec![0x00, 0x0f, 0xa5, 0xff]));
    assert_eq!(decode_prefixed("0x000FA5Ff"), Ok(vec![0x00, 0x0f, 0xa5, 0xff]));
    assert_eq!(decode_prefixed("0x"), Ok(vec![]));
    assert_eq!(decode_prefixed("0"), Err(DecodeError::StringTooShort));
    assert_eq!(decode_prefixed(""), Err(DecodeError::StringTooShort));
    assert_eq!(decode_prefixed("0xabc"), Err(DecodeError::InvalidHex));
    assert_eq!(decode_prefixed("0xzz"), Err(DecodeError::InvalidHex));
}

#[test]
fn byte_as_hex() {
    assert_eq!(u8_to_hex_str(&0), "0x00");
    assert_eq!(u8_to_hex_str(&0xab), "0xab");
    assert_eq!(u8_hex::serialize(&0xff), "0xff");
    assert_eq!(u8_from_hex_str("0xab"), Ok(0xab));
    assert_eq!(u8_from_hex_str("0xAB"), Ok(0xab));
    assert_eq!(u8_from_hex_str("0x7"), Ok(7));
    assert_eq!(u8_from_hex_str("0x+7"), Ok(7));
    assert_eq!(u8_from_hex_str("0x007"), Ok(7));
    assert_eq!(u8_hex::deserialize("0xff"), Ok(255));
    assert_eq!(u8_from_hex_str("0x100"), Err(DecodeError::InvalidNumber));
    assert_eq!(u8_from_hex_str("0x"), Err(DecodeError::InvalidNumber));
    assert_eq!(u8_from_hex_str("0xg1"), Err(DecodeError::InvalidNumber));
    assert_eq!(u8_from_hex_str("0"), Err(DecodeError::StringTooShort));
    for b in [0u8, 1, 0x7f, 0x80, 0xff] {
        assert_eq!(u8_from_hex_str(&u8_to_hex_str(&b)), Ok(b));
    }
}

#[test]
fn number_as_hex_low_byte_first() {
    assert_eq!(u32_to_hex_str(&0), "0x00000000");
    assert_eq!(u32_to_hex_str(&1), "0x01000000");
    assert_eq!(u32_to_hex_str(&0x12345678), "0x78563412");
    assert_eq!(u32_hex::serialize(&0xffffffff), "0xffffffff");
    assert_eq!(u32_from_hex_str("0x78563412"), Ok(0x12345678));
    assert_eq!(u32_from_hex_str("0x01000000"), Ok(1));
    assert_eq!(u32_hex::deserialize("0x01"), Ok(0x01000000));
    assert_eq!(u32_from_hex_str("0x100000000"), Err(DecodeError::InvalidNumber));
    assert_eq!(u32_from_hex_str("0x"), Err(DecodeError::InvalidNumber));
    assert_eq!(u32_from_hex_str(""), Err(DecodeError::StringTooShort));
    for n in [0u32, 1, 255, 256, 0xdeadbeef, u32::MAX] {
        assert_eq!(u32_from_hex_str(&u32_to_hex_str(&n)), Ok(n));
    }
}

#[test]
fn fork_version_as_hex() {
    assert_eq!(FORK_BYTES_LEN, 4);
    assert_eq!(fork_to_hex_str(&[1, 2, 3, 0xff]), "0x010203ff");
    assert_eq!(fork_bytes_4::serialize(&[0, 0, 0, 0]), "0x00000000");
    assert_eq!(fork_from_hex_str("0x010203ff"), Ok([1, 2, 3, 0xff]));
    assert_eq!(fork_bytes_4::deserialize("0x010203FF"), Ok([1, 2, 3, 0xff]));
    assert_eq!(fork_from_hex_str("0x010203"), Err(DecodeError::WrongLength));
    assert_eq!(fork_from_hex_str("0x0102030405"), Err(DecodeError::WrongLength));
    assert_eq!(fork_from_hex_str("0x0102030"), Err(DecodeError::InvalidHex));
    assert_eq!(fork_from_hex_str("x"), Err(DecodeError::StringTooShort));
}

#[test]
fn graffiti_as_hex() {
    assert_eq!(GRAFFITI_BYTES_LEN, 32);
    let mut bytes = [0u8; 32];
    bytes[0] = 0xca;
    bytes[31] = 0xfe;
    let text = graffiti_to_hex_str(&bytes);
    assert_eq!(text, format!("0xca{}fe", "00".repeat(30)));
    assert_eq!(graffiti::serialize(&bytes), text);
    assert_eq!(graffiti_from_hex_str(&text), Ok(bytes));
    assert_eq!(graffiti::deserialize(&text), Ok(bytes));
    assert_eq!(graffiti_from_hex_str("0xcafe"), Err(DecodeError::WrongLength));
    assert_eq!(
        graffiti_from_hex_str(&format!("0x{}", "00".repeat(33))),
        Err(DecodeError::WrongLength)
    );
}

#[test]
fn roots_as_text() {
    let root = Hash256::from_low_u64_be(0x0102);
    let text = format_root(&root);
    assert_eq!(text, format!("0x{}0102", "00".repeat(30)));
    assert_eq!(parse_root(&text), Some(root));
    assert_eq!(parse_canonical_root(&text), Some(root));
    let upper = format!("0x{}AB", "00".repeat(31));
    assert_eq!(parse_root(&upper), Some(Hash256::from_low_u64_be(0xab)));
    assert_eq!(parse_canonical_root(&upper), None);
    assert_eq!(parse_root(&format!("0x{}", "00".repeat(31))), None);
    assert_eq!(parse_root(&format!("0X{}", "00".repeat(32))), None);
    assert_eq!(parse_root(&"00".repeat(33)), None);
    assert_eq!(parse_canonical_root(""), None);
}

#[test]
fn low_u64_roots() {
    let root = Hash256::from_low_u64_be(0x0102030405060708);
    let bytes = root.as_bytes();
    assert_eq!(&bytes[..24], &[0u8; 24]);
    assert_eq!(&bytes[24..], &[1, 2, 3, 4, 5, 6, 7, 8]);
    assert_eq!(Hash256::from_low_u64_be(0), Hash256::zero());
    assert_ne!(Hash256::from_low_u64_be(1), Hash256::from_low_u64_be(256));
    assert_eq!(Hash256::from_bytes(bytes), root);
}
