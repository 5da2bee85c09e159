use mouseutility::text::{decimal_chars, hex_chars, is_whitespace, lossy_trim, sub_chars, trim_chars, trim_trailing_nuls};

fn chars(s: &str) -> Vec<char> {
    s.chars().collect()
}

#[test]
fn hex_numerals_are_fixed_width() {
    assert_eq!(hex_chars(0xc54d, 4), chars("c54d"));
    assert_eq!(hex_chars(0x0a, 4), chars("000a"));
    assert_eq!(hex_chars(0x12345, 4), chars("2345"));
    assert_eq!(hex_chars(7, 0), chars(""));
    for v in [0u64, 1, 0xff, 0xbeef, 0xffff] {
        assert_eq!(hex_chars(v, 4), chars(&format!("{v:04x}")));
    }
}

#[test]
fn decimal_numerals() {
    for v in [0u64, 7, 10, 99, 100, 25600, u64::MAX] {
        assert_eq!(decimal_chars(v), chars(&v.to_string()));
    }
}

#[test]
fn whitespace_matches_std() {
    for u in 0u32..0x3100 {
        if let Some(c) = char::from_u32(u) {
            assert_eq!(is_whitespace(c), c.is_whitespace(), "U+{u:04X}");
        }
    }
}

#[test]
fn trimming() {
    assert_eq!(trim_chars(&chars("  G502 \t\n")), chars("G502"));
    assert_eq!(trim_chars(&chars(" \u{3000} ")), chars(""));
    assert_eq!(trim_chars(&chars("a b")), chars("a b"));
    assert_eq!(trim_trailing_nuls(&chars("MX\0\0")), chars("MX"));
    assert_eq!(trim_trailing_nuls(&chars("\0a\0")), chars("\0a"));
    assert_eq!(sub_chars(&chars("abcdef"), 1, 4), chars("bcd"));
}

#[test]
fn lossy_trim_decodes_and_trims() {
    assert_eq!(lossy_trim(b"  Logitech G PRO \n"), "Logitech G PRO");
    assert_eq!(lossy_trim(&[0x47, 0xff, 0x20]), "G\u{FFFD}");
    assert_eq!(lossy_trim("Ünifying".as_bytes()), "Ünifying");
    assert_eq!(lossy_trim(b""), "");
}
