use destiny_pkg::text::{decimal, digit, hex_fixed, parse_unsigned};

#[test]
fn digits_have_values_below_the_radix() {
    assert_eq!(digit(b'0', 10), Some(0));
    assert_eq!(digit(b'9', 10), Some(9));
    assert_eq!(digit(b'a', 10), None);
    assert_eq!(digit(b'a', 16), Some(10));
    assert_eq!(digit(b'F', 16), Some(15));
    assert_eq!(digit(b'g', 16), None);
    assert_eq!(digit(b'z', 36), Some(35));
    assert_eq!(digit(b'/', 10), None);
    assert_eq!(digit(b':', 10), None);
    assert_eq!(digit(b'@', 16), None);
    assert_eq!(digit(b'`', 16), None);
}

#[test]
fn numbers_are_read_as_the_standard_library_reads_them() {
    let texts: [&str; 14] = [
        "0", "7", "255", "256", "+12", "+", "", "-1", "00012", "12a", "ff", "FF", " 1", "18446744073709551616",
    ];
    for text in texts {
        assert_eq!(parse_unsigned(text.as_bytes(), 10, 255), text.parse::<u8>().ok().map(|v| v as u64));
        assert_eq!(
            parse_unsigned(text.as_bytes(), 16, 0xffff),
            u16::from_str_radix(text, 16).ok().map(|v| v as u64)
        );
        assert_eq!(parse_unsigned(text.as_bytes(), 16, u64::MAX), u64::from_str_radix(text, 16).ok());
        assert_eq!(parse_unsigned(text.as_bytes(), 10, u64::MAX), text.parse::<u64>().ok());
    }
}

#[test]
fn greatest_numbers_are_read() {
    assert_eq!(parse_unsigned(b"18446744073709551615", 10, u64::MAX), Some(u64::MAX));
    assert_eq!(parse_unsigned(b"ffffffffffffffff", 16, u64::MAX), Some(u64::MAX));
    assert_eq!(parse_unsigned(b"10000000000000000", 16, u64::MAX), None);
    assert_eq!(parse_unsigned(b"65535", 10, 65535), Some(65535));
    assert_eq!(parse_unsigned(b"65536", 10, 65535), None);
}

#[test]
fn numbers_are_written_in_hexadecimal() {
    assert_eq!(hex_fixed(0x808b2011, 8), "808B2011");
    assert_eq!(hex_fixed(0, 4), "0000");
    assert_eq!(hex_fixed(0xabc, 2), "BC");
    assert_eq!(hex_fixed(0xabc, 0), "");
    assert_eq!(hex_fixed(u64::MAX, 16), "FFFFFFFFFFFFFFFF");
}

#[test]
fn numbers_are_written_in_decimal() {
    assert_eq!(decimal(0), "0");
    assert_eq!(decimal(7), "7");
    assert_eq!(decimal(10), "10");
    assert_eq!(decimal(65535), "65535");
    assert_eq!(decimal(u64::MAX), "18446744073709551615");
}
