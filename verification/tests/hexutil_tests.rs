use dhchat::hexutil::{byte_to_ascii, hex_to_bytes, parse_offset};

#[test]
fn printable_bytes_render_as_themselves() {
    assert_eq!(byte_to_ascii(b'A'), 'A');
    assert_eq!(byte_to_ascii(b' '), ' ');
    assert_eq!(byte_to_ascii(0x20), ' ');
    assert_eq!(byte_to_ascii(0x7E), '~');
}

#[test]
fn unprintable_bytes_render_as_dot() {
    assert_eq!(byte_to_ascii(0x00), '.');
    assert_eq!(byte_to_ascii(0x1F), '.');
    assert_eq!(byte_to_ascii(0x7F), '.');
    assert_eq!(byte_to_ascii(0xFF), '.');
}

#[test]
fn hex_decodes_both_cases() {
    assert_eq!(hex_to_bytes("deadBEEF"), Some(vec![0xDE, 0xAD, 0xBE, 0xEF]));
    assert_eq!(hex_to_bytes("00ff10"), Some(vec![0x00, 0xFF, 0x10]));
}

#[test]
fn hex_trims_surrounding_whitespace() {
    assert_eq!(hex_to_bytes("  0a0B\n"), Some(vec![0x0A, 0x0B]));
    assert_eq!(hex_to_bytes(" \t "), Some(vec![]));
}

#[test]
fn hex_trims_unicode_whitespace() {
    assert_eq!(hex_to_bytes("\u{00A0}48 "), Some(vec![0x48]));
    assert_eq!(hex_to_bytes("\u{3000}0a0B\u{2028}"), Some(vec![0x0A, 0x0B]));
    assert_eq!(hex_to_bytes("\u{2000}\u{200A}\u{0085}"), Some(vec![]));
    // Unicode whitespace in the middle is not trimmed, so it is rejected.
    assert_eq!(hex_to_bytes("4\u{00A0}8"), None);
}

#[test]
fn hex_empty_decodes_to_no_bytes() {
    assert_eq!(hex_to_bytes(""), Some(vec![]));
}

#[test]
fn hex_odd_length_is_rejected() {
    assert_eq!(hex_to_bytes("abc"), None);
    assert_eq!(hex_to_bytes("f"), None);
}

#[test]
fn hex_non_digit_is_rejected() {
    assert_eq!(hex_to_bytes("zz"), None);
    assert_eq!(hex_to_bytes("a b"), None);
    assert_eq!(hex_to_bytes("0x"), None);
}

#[test]
fn offset_decimal() {
    assert_eq!(parse_offset("0"), Ok(0));
    assert_eq!(parse_offset("123"), Ok(123));
    assert_eq!(parse_offset("18446744073709551615"), Ok(u64::MAX));
}

#[test]
fn offset_hex_prefixed() {
    assert_eq!(parse_offset("0x10"), Ok(16));
    assert_eq!(parse_offset("0X1f"), Ok(31));
    assert_eq!(parse_offset("0xFFFFFFFFFFFFFFFF"), Ok(u64::MAX));
}

#[test]
fn offset_invalid_hex_reports_input() {
    assert_eq!(
        parse_offset("0xZZ"),
        Err("Invalid hex offset: 0xZZ".to_string())
    );
    assert_eq!(parse_offset("0x"), Err("Invalid hex offset: 0x".to_string()));
    assert_eq!(
        parse_offset("0x10000000000000000"),
        Err("Invalid hex offset: 0x10000000000000000".to_string())
    );
}

#[test]
fn offset_invalid_decimal_reports_input() {
    assert_eq!(
        parse_offset("abc"),
        Err("Invalid decimal offset: abc".to_string())
    );
    assert_eq!(parse_offset(""), Err("Invalid decimal offset: ".to_string()));
    assert_eq!(
        parse_offset("18446744073709551616"),
        Err("Invalid decimal offset: 18446744073709551616".to_string())
    );
    assert_eq!(
        parse_offset("12 3"),
        Err("Invalid decimal offset: 12 3".to_string())
    );
}
