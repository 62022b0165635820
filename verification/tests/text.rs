use traff_off_func::ipv4::parse_ipv4;
use traff_off_func::text::{decimal_string, parse_u16, parse_u32, str_chars, str_eq, trim, IntErrorKind};

fn ip(s: &str) -> Option<u32> {
    parse_ipv4(&str_chars(s))
}

#[test]
fn decimal_text() {
    assert_eq!(decimal_string(0), "0");
    assert_eq!(decimal_string(7), "7");
    assert_eq!(decimal_string(10), "10");
    assert_eq!(decimal_string(5201), "5201");
    assert_eq!(decimal_string(u32::MAX), "4294967295");
}

#[test]
fn unsigned_parsing_follows_std() {
    for s in ["0", "65535", "+12", "007", "65536", "", "+", "-", "-1", "1a", "99999x", "6553x", " 1", "١"] {
        let expected = s.parse::<u16>().map_err(|e| format!("{:?}", e.kind()));
        let got = parse_u16(s).map_err(|e| format!("{:?}", e));
        assert_eq!(got, expected, "input {s:?}");
    }
    assert_eq!(parse_u32("4294967295"), Ok(u32::MAX));
    assert_eq!(parse_u32("4294967296"), Err(IntErrorKind::PosOverflow));
    assert_eq!(parse_u16(""), Err(IntErrorKind::Empty));
}

#[test]
fn ipv4_parsing() {
    assert_eq!(ip("0.0.0.0"), Some(0));
    assert_eq!(ip("255.255.255.255"), Some(u32::MAX));
    assert_eq!(ip("172.17.0.2"), Some(0xac11_0002));
    assert_eq!(ip("10.20.30.40"), Some(0x0a14_1e28));
    for bad in [
        "1.2.3", "1.2.3.4.5", "01.2.3.4", "1.2.3.256", "1.2.3.4 ", "a.b.c.d", "1..3.4", "1.2.3.4/16", "",
        "1234.1.1.1", "+1.2.3.4", "0.00.0.0", ".1.2.3", "1.2.3.", "1.2.3.4.",
    ] {
        assert_eq!(ip(bad), None, "input {bad:?}");
    }
}

#[test]
fn trimming() {
    assert_eq!(trim("  42\n"), vec!['4', '2']);
    assert_eq!(trim("\u{3000}x\u{a0}"), vec!['x']);
    assert_eq!(trim(" \t "), Vec::<char>::new());
    assert_eq!(trim("a b"), vec!['a', ' ', 'b']);
}

#[test]
fn string_equality() {
    assert!(str_eq("skb", "skb"));
    assert!(!str_eq("skb", "sk"));
    assert!(!str_eq("skb", "skc"));
    assert!(str_eq("", ""));
}

#[test]
fn white_space_matches_std() {
    for u in 0u32..0x11000 {
        if let Some(c) = char::from_u32(u) {
            let s = format!("{c}a{c}");
            let expected: Vec<char> = s.trim().chars().collect();
            assert_eq!(trim(&s), expected, "U+{u:04X}");
        }
    }
}
