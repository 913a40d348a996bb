use gauntlet::numbers::{
    decimal, decimal2, decimal4, decimal_int, decimal_signed, hex32_text, hex_byte_text, magnitude,
    parse_hex_from, parse_u64, parse_usize,
};

#[test]
fn decimals_are_written_as_usual() {
    for n in [0u64, 1, 9, 10, 11, 99, 100, 12345, u32::MAX as u64, u64::MAX - 1, u64::MAX] {
        assert_eq!(decimal(n), format!("{n}"));
        assert_eq!(decimal2(n), format!("{n:02}"));
        assert_eq!(decimal4(n), format!("{n:04}"));
    }
}

#[test]
fn signed_numbers_are_written_as_usual() {
    for i in [0i64, 1, -1, 10, -10, 12345, -98765, i64::MAX, i64::MIN] {
        assert_eq!(decimal_int(i), format!("{i}"));
        assert_eq!(decimal_signed(i), format!("{i:+}"));
        assert_eq!(magnitude(i), i.unsigned_abs());
    }
}

#[test]
fn hexadecimal_is_padded() {
    for n in [0u32, 1, 0xABCDEF, 0x8000_4005, 0x0000_00FF, u32::MAX] {
        assert_eq!(hex32_text(n), format!("0x{n:08X}"));
    }
    for b in 0..=255u8 {
        assert_eq!(hex_byte_text(b), format!("{b:02x}"));
    }
}

#[test]
fn reading_numbers_agrees_with_the_standard_library() {
    let inputs = [
        "0", "1", "007", "+5", "-5", "-0", "", "+", "-", " 1", "1 ", "12a", "0x10", "1_000",
        "18446744073709551615", "18446744073709551616", "99999999999999999999999", "+18446744073709551615",
        "++1", "٣",
    ];
    for s in inputs {
        assert_eq!(parse_u64(s), s.parse::<u64>().ok(), "{s:?}");
        assert_eq!(parse_usize(s), s.parse::<usize>().ok(), "{s:?}");
    }
}

#[test]
fn what_was_written_reads_back() {
    for n in [0u64, 5, 10, 4096, 987654321, u64::MAX] {
        assert_eq!(parse_u64(&decimal(n)), Some(n));
    }
    for n in [0u32, 1, 0x8000_4003, u32::MAX] {
        let v: Vec<char> = hex32_text(n).chars().collect();
        assert_eq!(parse_hex_from(&v, 2, v.len()), Some(n));
    }
}

#[test]
fn reading_hexadecimal_agrees_with_the_standard_library() {
    for s in ["", "0", "ff", "FF", "fF", "100000000", "FFFFFFFF", "+1", "-1", "g", "12 ", "000000000001"] {
        let v: Vec<char> = s.chars().collect();
        assert_eq!(parse_hex_from(&v, 0, v.len()), u32::from_str_radix(s, 16).ok(), "{s:?}");
    }
}
