use eth_gas_fees::hex::{hex_to_bigint, hex_to_decimal, HexError};

/// The forms in which one run of digits may arrive.
fn decorated(digits: &str) -> Vec<String> {
    vec![
        digits.to_string(),
        format!("0x{}", digits),
        format!("\"{}\"", digits),
        format!("\"0x{}\"", digits),
    ]
}

#[test]
fn decodes_zero() {
    assert_eq!(hex_to_decimal("0x0"), Ok(0));
}

#[test]
fn decodes_sixteen() {
    assert_eq!(hex_to_decimal("0x10"), Ok(16));
}

#[test]
fn decodes_without_prefix() {
    assert_eq!(hex_to_decimal("ff"), Ok(255));
}

#[test]
fn decodes_a_gas_price() {
    assert_eq!(hex_to_decimal("0x3b9aca00"), Ok(1_000_000_000));
}

#[test]
fn decodes_a_quoted_base_fee() {
    assert_eq!(hex_to_decimal("\"0x1dcd6500\""), Ok(500_000_000));
}

#[test]
fn decodes_upper_and_lower_case_digits() {
    assert_eq!(hex_to_decimal("0xAbCdEf"), Ok(0xabcdef));
    assert_eq!(hex_to_decimal("0xABCDEF"), Ok(0xabcdef));
    assert_eq!(hex_to_decimal("0x0123456789"), Ok(0x0123456789));
}

#[test]
fn decodes_the_largest_value() {
    assert_eq!(hex_to_decimal("0xffffffffffffffff"), Ok(u64::MAX));
    assert_eq!(hex_to_decimal("\"FFFFFFFFFFFFFFFF\""), Ok(u64::MAX));
}

#[test]
fn leading_zeros_do_not_overflow() {
    assert_eq!(hex_to_decimal("0x00000000000000000000000001"), Ok(1));
    assert_eq!(hex_to_decimal("0x0000000000ffffffffffffffff"), Ok(u64::MAX));
}

#[test]
fn decoration_does_not_change_the_value() {
    for digits in ["0", "7", "10", "ff", "FF", "3b9aca00", "1dcd6500", "ffffffffffffffff", "000a"] {
        let expected = u64::from_str_radix(digits, 16).unwrap();
        for text in decorated(digits) {
            assert_eq!(hex_to_decimal(&text), Ok(expected), "{}", text);
        }
    }
}

#[test]
fn decoration_does_not_change_the_error() {
    for digits in ["", "10000000000000000", "fffffffffffffffff"] {
        let bare = hex_to_decimal(digits);
        assert!(bare.is_err());
        for text in decorated(digits) {
            assert_eq!(hex_to_decimal(&text), bare, "{}", text);
        }
    }
}

#[test]
fn repeated_quotes_and_prefixes_are_removed() {
    assert_eq!(hex_to_decimal("\"\"\"0x10\""), Ok(16));
    assert_eq!(hex_to_decimal("0x0x10"), Ok(16));
    assert_eq!(hex_to_decimal("\"0x0x0xff\"\""), Ok(255));
}

#[test]
fn quotes_are_removed_before_the_prefix() {
    assert_eq!(hex_to_decimal("0x\"10\""), Err(HexError::InvalidDigit));
}

#[test]
fn rejects_malformed_digits() {
    assert_eq!(hex_to_decimal("0xzz"), Err(HexError::InvalidDigit));
    assert_eq!(hex_to_decimal("0x1g"), Err(HexError::InvalidDigit));
    assert_eq!(hex_to_decimal("12 34"), Err(HexError::InvalidDigit));
    assert_eq!(hex_to_decimal("0x10\n"), Err(HexError::InvalidDigit));
}

#[test]
fn rejects_characters_next_to_the_digit_ranges() {
    for text in ["/", ":", "@", "G", "`", "g"] {
        assert_eq!(hex_to_decimal(text), Err(HexError::InvalidDigit), "{}", text);
    }
}

#[test]
fn rejects_a_sign() {
    assert_eq!(hex_to_decimal("+ff"), Err(HexError::InvalidDigit));
    assert_eq!(hex_to_decimal("-1"), Err(HexError::InvalidDigit));
    assert_eq!(hex_to_decimal("0x+1"), Err(HexError::InvalidDigit));
}

#[test]
fn rejects_an_upper_case_prefix() {
    assert_eq!(hex_to_decimal("0X10"), Err(HexError::InvalidDigit));
}

#[test]
fn rejects_text_outside_ascii() {
    assert_eq!(hex_to_decimal("0x1\u{e9}"), Err(HexError::InvalidDigit));
    assert_eq!(hex_to_decimal("\u{ff11}\u{ff10}"), Err(HexError::InvalidDigit));
    assert_eq!(hex_to_decimal("\"\u{201c}0x10\""), Err(HexError::InvalidDigit));
}

#[test]
fn rejects_empty_digits() {
    assert_eq!(hex_to_decimal(""), Err(HexError::Empty));
    assert_eq!(hex_to_decimal("0x"), Err(HexError::Empty));
    assert_eq!(hex_to_decimal("\"\""), Err(HexError::Empty));
    assert_eq!(hex_to_decimal("\"0x\""), Err(HexError::Empty));
    assert_eq!(hex_to_decimal("\""), Err(HexError::Empty));
}

#[test]
fn rejects_a_value_beyond_64_bits() {
    assert_eq!(hex_to_decimal("0x10000000000000000"), Err(HexError::Overflow));
    assert_eq!(hex_to_decimal("0xfffffffffffffffff"), Err(HexError::Overflow));
    assert_eq!(
        hex_to_decimal("0xde0b6b3a7640000de0b6b3a7640000"),
        Err(HexError::Overflow)
    );
}

#[test]
fn a_malformed_digit_counts_before_the_size() {
    assert_eq!(hex_to_decimal("0xfffffffffffffffffz"), Err(HexError::InvalidDigit));
    assert_eq!(hex_to_decimal("0xzfffffffffffffffff"), Err(HexError::InvalidDigit));
}

#[test]
fn never_gives_a_truncated_value() {
    // The low 64 bits of this value are 1.
    assert_eq!(hex_to_decimal("0x10000000000000001"), Err(HexError::Overflow));
    // Nor is what stands before a malformed digit given.
    assert_eq!(hex_to_decimal("0x12zz"), Err(HexError::InvalidDigit));
}

/// The bytes of the quantity that the text decodes to.
fn big_bytes(text: &str) -> Result<Vec<u8>, HexError> {
    hex_to_bigint(text).map(|quantity| quantity.as_be_bytes().to_vec())
}

#[test]
fn big_decodes_small_values() {
    assert_eq!(big_bytes("0x0"), Ok(vec![]));
    assert_eq!(big_bytes("0x10"), Ok(vec![0x10]));
    assert_eq!(big_bytes("ff"), Ok(vec![0xff]));
    assert_eq!(big_bytes("0x3b9aca00"), Ok(vec![0x3b, 0x9a, 0xca, 0x00]));
    assert_eq!(big_bytes("\"0x1dcd6500\""), Ok(vec![0x1d, 0xcd, 0x65, 0x00]));
}

#[test]
fn big_decodes_an_odd_number_of_digits() {
    assert_eq!(big_bytes("0x1"), Ok(vec![0x01]));
    assert_eq!(big_bytes("0xabc"), Ok(vec![0x0a, 0xbc]));
    assert_eq!(big_bytes("0x12345"), Ok(vec![0x01, 0x23, 0x45]));
}

#[test]
fn big_drops_leading_zeros() {
    assert_eq!(big_bytes("0x0000"), Ok(vec![]));
    assert_eq!(big_bytes("0x00001"), Ok(vec![0x01]));
    assert_eq!(big_bytes("0x000100"), Ok(vec![0x01, 0x00]));
    assert_eq!(big_bytes("0x0a0"), Ok(vec![0xa0]));
    assert_eq!(big_bytes("0x00A0b"), Ok(vec![0x0a, 0x0b]));
}

#[test]
fn big_decodes_beyond_64_bits() {
    assert_eq!(
        big_bytes("0x10000000000000000"),
        Ok(vec![0x01, 0, 0, 0, 0, 0, 0, 0, 0])
    );
    // One ether's worth of wei, squared: 10^36.
    let text = "0xc097ce7bc90715b34b9f1000000000";
    let expected = 1_000_000_000_000_000_000u128 * 1_000_000_000_000_000_000u128;
    assert_eq!(big_bytes(text), Ok(expected.to_be_bytes()[1..].to_vec()));
    let wide = format!("0x{}", "f".repeat(64));
    assert_eq!(big_bytes(&wide), Ok(vec![0xff; 32]));
}

#[test]
fn big_agrees_with_the_64_bit_decoder() {
    for text in [
        "0x0",
        "0x10",
        "ff",
        "\"0x1dcd6500\"",
        "0xffffffffffffffff",
        "0x00000000000000000000000001",
        "0x0x7",
    ] {
        let small = hex_to_decimal(text).unwrap();
        let big = hex_to_bigint(text).unwrap();
        assert_eq!(big.to_u64(), Some(small), "{}", text);
        let bytes = small.to_be_bytes();
        let skipped = bytes.iter().take_while(|b| **b == 0).count();
        assert_eq!(big.as_be_bytes(), &bytes[skipped..], "{}", text);
    }
    for text in ["0x10000000000000000", "0xfffffffffffffffff", "0x10000000000000001"] {
        assert_eq!(hex_to_decimal(text), Err(HexError::Overflow));
        assert_eq!(hex_to_bigint(text).unwrap().to_u64(), None, "{}", text);
    }
}

#[test]
fn big_rejects_what_the_64_bit_decoder_rejects() {
    for text in ["", "0x", "\"\"", "0xzz", "+ff", "0X10", "0x1\u{e9}", "0x12 ", "0xfffffffffffffffffz"] {
        let small = hex_to_decimal(text);
        assert!(small.is_err());
        assert_eq!(hex_to_bigint(text).map(|q| q.as_be_bytes().to_vec()), small.map(|_| vec![]));
    }
}
