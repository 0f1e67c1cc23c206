use helix_increment::increment;

#[test]
fn test_increment_basic_decimal_numbers() {
    let tests = [
        ("100", 1, "101"),
        ("100", -1, "99"),
        ("99", 1, "100"),
        ("100", 1000, "1100"),
        ("100", -1000, "-900"),
        ("-1", 1, "0"),
        ("-1", 2, "1"),
        ("1", -1, "0"),
        ("1", -2, "-1"),
    ];

    for (text, amount, expected) in tests {
        assert_eq!(increment(text, amount).unwrap(), expected);
    }
}

#[test]
fn test_increment_basic_hexadecimal_numbers() {
    let tests = [
        ("0x0100", 1, "0x0101"),
        ("0x0100", -1, "0x00ff"),
        ("0x0001", -1, "0x0000"),
        ("0x0000", -1, "0x0000"),
        ("16'h0100", 1, "16'h0101"),
        ("16'h0100", -1, "16'h00ff"),
        ("16'h0001", -1, "16'h0000"),
        ("16'h0000", -1, "16'h0000"),
        ("'h0100", 1, "'h0101"),
        ("'h0100", -1, "'h00ff"),
        ("'h0001", -1, "'h0000"),
        ("'h0000", -1, "'h0000"),
        ("0xffffffffffffffff", 1, "0x10000000000000000"),
        ("0xffffffffffffffff", 2, "0x10000000000000001"),
        ("0xffffffffffffffff", -1, "0xfffffffffffffffe"),
        ("0xABCDEF1234567890", 1, "0xABCDEF1234567891"),
        ("0xabcdef1234567890", 1, "0xabcdef1234567891"),
        ("64'hffffffffffffffff", 1, "64'h10000000000000000"),
        ("64'hffffffffffffffff", 2, "64'h10000000000000001"),
        ("64'hffffffffffffffff", -1, "64'hfffffffffffffffe"),
        ("64'hABCDEF1234567890", 1, "64'hABCDEF1234567891"),
        ("64'habcdef1234567890", 1, "64'habcdef1234567891"),
    ];

    for (text, amount, expected) in tests {
        assert_eq!(increment(text, amount).unwrap(), expected);
    }
}

#[test]
fn test_increment_basic_octal_numbers() {
    let tests = [
        ("0o0107", 1, "0o0110"),
        ("0o0110", -1, "0o0107"),
        ("0o0001", -1, "0o0000"),
        ("0o7777", 1, "0o10000"),
        ("0o1000", -1, "0o0777"),
        ("0o0107", 10, "0o0121"),
        ("0o0000", -1, "0o0000"),
        ("0o1777777777777777777777", 1, "0o2000000000000000000000"),
        ("0o1777777777777777777777", 2, "0o2000000000000000000001"),
        ("0o1777777777777777777777", -1, "0o1777777777777777777776"),
    ];

    for (text, amount, expected) in tests {
        assert_eq!(increment(text, amount).unwrap(), expected);
    }
}

#[test]
fn test_increment_basic_binary_numbers() {
    let tests = [
        ("0b00000100", 1, "0b00000101"),
        ("0b00000100", -1, "0b00000011"),
        ("0b00000100", 2, "0b00000110"),
        ("0b00000100", -2, "0b00000010"),
        ("0b00000001", -1, "0b00000000"),
        ("0b00111111", 10, "0b01001001"),
        ("0b11111111", 1, "0b100000000"),
        ("0b10000000", -1, "0b01111111"),
        ("0b0000", -1, "0b0000"),
        (
            "0b1111111111111111111111111111111111111111111111111111111111111111",
            1,
            "0b10000000000000000000000000000000000000000000000000000000000000000",
        ),
        (
            "0b1111111111111111111111111111111111111111111111111111111111111111",
            2,
            "0b10000000000000000000000000000000000000000000000000000000000000001",
        ),
        (
            "0b1111111111111111111111111111111111111111111111111111111111111111",
            -1,
            "0b1111111111111111111111111111111111111111111111111111111111111110",
        ),
        ("128'b00000100", 1, "128'b00000101"),
        ("128'b00000100", -1, "128'b00000011"),
        ("128'b00000100", 2, "128'b00000110"),
        ("128'b00000100", -2, "128'b00000010"),
        ("128'b00000001", -1, "128'b00000000"),
        ("128'b00111111", 10, "128'b01001001"),
        ("128'b11111111", 1, "128'b100000000"),
        ("128'b10000000", -1, "128'b01111111"),
        ("128'b0000", -1, "128'b0000"),
        (
            "128'b1111111111111111111111111111111111111111111111111111111111111111",
            1,
            "128'b10000000000000000000000000000000000000000000000000000000000000000",
        ),
        (
            "128'b1111111111111111111111111111111111111111111111111111111111111111",
            2,
            "128'b10000000000000000000000000000000000000000000000000000000000000001",
        ),
        (
            "128'b1111111111111111111111111111111111111111111111111111111111111111",
            -1,
            "128'b1111111111111111111111111111111111111111111111111111111111111110",
        ),
    ];

    for (text, amount, expected) in tests {
        assert_eq!(increment(text, amount).unwrap(), expected);
    }
}

#[test]
fn test_increment_with_separators() {
    let tests = [
        ("999_999", 1, "1_000_000"),
        ("1_000_000", -1, "999_999"),
        ("-999_999", -1, "-1_000_000"),
        ("0x0000_0000_0001", 0x1_ffff_0000, "0x0001_ffff_0001"),
        ("0x0000_0000", -1, "0x0000_0000"),
        ("0x0000_0000_0000", -1, "0x0000_0000_0000"),
        ("64'h0000_0000_0001", 0x1_ffff_0000, "64'h0001_ffff_0001"),
        ("64'h0000_0000", -1, "64'h0000_0000"),
        ("64'h0000_0000_0000", -1, "64'h0000_0000_0000"),
        ("0b01111111_11111111", 1, "0b10000000_00000000"),
        ("0b11111111_11111111", 1, "0b1_00000000_00000000"),
    ];

    for (text, amount, expected) in tests {
        assert_eq!(increment(text, amount).unwrap(), expected);
    }
}

#[test]
fn test_leading_and_trailing_separators_arent_a_match() {
    assert_eq!(increment("9_", 1), None);
    assert_eq!(increment("_9", 1), None);
    assert_eq!(increment("_9_", 1), None);
}

#[test]
fn empty_text_is_no_literal() {
    assert_eq!(increment("", 1), None);
}

#[test]
fn digits_outside_the_base_are_no_literal() {
    assert_eq!(increment("12a", 1), None);
    assert_eq!(increment("0x12g", 1), None);
    assert_eq!(increment("0o8", 1), None);
    assert_eq!(increment("0b102", 1), None);
    assert_eq!(increment("0x", 1), None);
    assert_eq!(increment("-", 1), None);
    assert_eq!(increment("0x-1", 1), None);
}

#[test]
fn sign_flip_adjusts_padded_width() {
    assert_eq!(increment("-1", 1).unwrap(), "0");
    assert_eq!(increment("-1", 2).unwrap(), "1");
    assert_eq!(increment("-05", 10).unwrap(), "05");
    assert_eq!(increment("007", -10).unwrap(), "-003");
    assert_eq!(increment("-01", 1).unwrap(), "00");
}

#[test]
fn non_decimal_bases_stop_at_zero() {
    assert_eq!(increment("0b0000", -1).unwrap(), "0b0000");
    assert_eq!(increment("0x0000_0000", -1).unwrap(), "0x0000_0000");
    assert_eq!(increment("0o17", i64::MIN).unwrap(), "0o00");
}

#[test]
fn carry_extends_separator_groups() {
    assert_eq!(increment("999_999", 1).unwrap(), "1_000_000");
    assert_eq!(increment("0b11111111_11111111", 1).unwrap(), "0b1_00000000_00000000");
    assert_eq!(increment("9_99", 1).unwrap(), "10_00");
}

#[test]
fn hex_case_follows_the_majority() {
    assert_eq!(increment("0xABCDEF1234567890", 1).unwrap(), "0xABCDEF1234567891");
    assert_eq!(increment("0xabcdef1234567890", 1).unwrap(), "0xabcdef1234567891");
    assert_eq!(increment("0xAb", 1).unwrap(), "0xac");
    assert_eq!(increment("0xAB9", 1).unwrap(), "0xABA");
    assert_eq!(increment("0x09", 1).unwrap(), "0x0a");
}

#[test]
fn width_prefixed_literals_keep_their_prefix() {
    assert_eq!(increment("16'h0100", 1).unwrap(), "16'h0101");
    assert_eq!(increment("128'b00000001", -1).unwrap(), "128'b00000000");
    assert_eq!(increment("16'd9", 1).unwrap(), "16'd10");
    assert_eq!(increment("'d0099", 1).unwrap(), "'d0100");
    assert_eq!(increment("8'o7", 1), None);
}

#[test]
fn large_magnitudes_grow_without_sign() {
    assert_eq!(increment("0xffffffffffffffff", 1).unwrap(), "0x10000000000000000");
}

#[test]
fn arithmetic_saturates_at_the_128_bit_bounds() {
    assert_eq!(
        increment("170141183460469231731687303715884105727", 1).unwrap(),
        "170141183460469231731687303715884105727"
    );
    assert_eq!(
        increment("-170141183460469231731687303715884105728", -1).unwrap(),
        "-170141183460469231731687303715884105728"
    );
    assert_eq!(increment("170141183460469231731687303715884105728", 1), None);
    assert_eq!(
        increment("0xffffffffffffffffffffffffffffffff", 1).unwrap(),
        "0xffffffffffffffffffffffffffffffff"
    );
    assert_eq!(increment("0x1ffffffffffffffffffffffffffffffff", 1), None);
}

#[test]
fn plus_sign_is_read_and_dropped() {
    assert_eq!(increment("+5", 1).unwrap(), "6");
    assert_eq!(increment("0x+f", 1), None);
}

#[test]
fn signs_after_a_non_decimal_prefix_are_no_literal() {
    assert_eq!(increment("16'h+5", 1), None);
    assert_eq!(increment("0b+1", 1), None);
    assert_eq!(increment("0o+7", 1), None);
    assert_eq!(increment("0x-1", 1), None);
}

#[test]
fn adjacent_separators_do_not_extend() {
    assert_eq!(increment("9__9", 1).unwrap(), "10__0");
}

#[test]
fn same_input_same_output() {
    let first = increment("0x00ff_ffff", 3);
    let second = increment("0x00ff_ffff", 3);
    assert_eq!(first, second);
    assert_eq!(first.unwrap(), "0x0100_0002");
}
