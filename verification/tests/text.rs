use telemetry_collectors::number::{
    decimal_i64, decimal_u64, hex, hex_padded, parse_i32, parse_unsigned, IntError,
};
use telemetry_collectors::split::{lines, split_any, split_char};
use telemetry_collectors::table::{place, Place, TextMap};
use telemetry_collectors::text::{
    contains, find, has_char, same, space, split_once, starts_with, strip_prefix,
    to_ascii_lowercase, to_ascii_uppercase, trim, trim_matches, trim_start_char,
    trim_start_matches,
};

const SAMPLES: [&str; 14] = [
    "",
    " ",
    "a",
    "\u{3000}x y\u{85}\n",
    "0x0x1f",
    "aaa",
    "a.b:c",
    "ab\r\ncd\n\r\n",
    "\n",
    "x\r",
    "\"\"q\"",
    "\u{e4}\u{c4}Zz",
    "iso.1.2",
    "\u{1f600} = y",
];

#[test]
fn texts_are_handled_as_the_standard_library_does() {
    for s in SAMPLES {
        assert_eq!(trim(s), s.trim());
        assert_eq!(to_ascii_lowercase(s), s.to_ascii_lowercase());
        assert_eq!(to_ascii_uppercase(s), s.to_ascii_uppercase());
        assert_eq!(trim_matches(s, '"'), s.trim_matches('"'));
        assert_eq!(trim_start_char(s, 'a'), s.trim_start_matches('a'));
        assert_eq!(lines(s), s.lines().collect::<Vec<_>>());
        assert_eq!(split_char(s, '.'), s.split('.').collect::<Vec<_>>());
        assert_eq!(split_any(s, &vec![':', '.']), s.split(&[':', '.'][..]).collect::<Vec<_>>());
        assert_eq!(has_char(s, 'a'), s.contains('a'));
        for p in ["a", "0x", " = ", "iso.", "aa", "\n"] {
            assert_eq!(contains(s, p), s.contains(p));
            assert_eq!(starts_with(s, p), s.starts_with(p));
            assert_eq!(strip_prefix(s, p).as_deref(), s.strip_prefix(p));
            assert_eq!(trim_start_matches(s, p), s.trim_start_matches(p));
            let halves = s.split_once(p).map(|(a, b)| (a.to_string(), b.to_string()));
            assert_eq!(split_once(s, p), halves);
            let at = s.find(p).map(|byte| s[..byte].chars().count());
            assert_eq!(find(s, p), at);
        }
        for t in SAMPLES {
            assert_eq!(same(s, t), s == t);
            let want = if s < t {
                Place::Before
            } else if s == t {
                Place::Same
            } else {
                Place::After
            };
            assert_eq!(place(s, t), want);
        }
    }
}

#[test]
fn every_character_is_space_or_not() {
    let mut c: u32 = 0;
    while c <= 0x10ffff {
        if let Some(ch) = char::from_u32(c) {
            assert_eq!(space(ch), ch.is_whitespace(), "{:x}", c);
        }
        c += 1;
    }
}

#[test]
fn numbers_are_read_as_the_standard_library_does() {
    for s in [
        "", "+", "-", "0", "+7", "-7", "ff", "FF", "+ff", "100", "10000", "65535", "65536", "g",
        "1 ", "99999999999", "-0", "--1", "\u{e9}",
    ] {
        let as_u8 = u8::from_str_radix(s, 16).ok().map(|n| n as u32);
        assert_eq!(parse_unsigned(s, 16, 0xff).ok(), as_u8, "{}", s);
        let as_u16 = s.parse::<u16>().ok().map(|n| n as u32);
        assert_eq!(parse_unsigned(s, 10, 0xffff).ok(), as_u16, "{}", s);
        assert_eq!(parse_i32(s), s.parse::<i32>().ok(), "{}", s);
    }
    for s in ["2147483647", "2147483648", "-2147483648", "-2147483649"] {
        assert_eq!(parse_i32(s), s.parse::<i32>().ok(), "{}", s);
    }
    assert_eq!(parse_unsigned("", 10, 9), Err(IntError::Empty));
    assert_eq!(parse_unsigned("x", 10, 9), Err(IntError::InvalidDigit));
    assert_eq!(parse_unsigned("10", 10, 9), Err(IntError::PosOverflow));
}

#[test]
fn numbers_are_written_as_the_standard_library_does() {
    for n in [0u64, 1, 9, 10, 15, 16, 255, 256, 0xabcd, u32::MAX as u64, u64::MAX] {
        assert_eq!(decimal_u64(n), n.to_string());
        assert_eq!(hex(n), format!("{:x}", n));
        assert_eq!(hex_padded(n, 4), format!("{:04x}", n));
    }
    for n in [0i64, -1, 42, i64::MIN, i64::MAX] {
        assert_eq!(decimal_i64(n), n.to_string());
    }
}

#[test]
fn maps_hold_what_was_put_into_them() {
    let mut m: TextMap<u32> = TextMap::new();
    let mut want = std::collections::BTreeMap::new();
    for (i, k) in ["b", "a", "ab", "", "a", "c/x", "c/y", "c", "d"].iter().enumerate() {
        assert_eq!(m.insert(k.to_string(), i as u32), want.insert(k.to_string(), i as u32));
    }
    assert_eq!(m.remove("ab"), want.remove("ab"));
    assert_eq!(m.remove("zz"), None);
    m.remove_prefixed("c/");
    want.retain(|k, _| !k.starts_with("c/"));
    assert_eq!(m.len(), want.len());
    for (i, (k, v)) in want.iter().enumerate() {
        assert_eq!(m.key_at(i), k);
        assert_eq!(m.value_at(i), v);
        assert_eq!(m.get(k), Some(v));
        assert!(m.contains_key(k));
    }
    m.clear();
    assert_eq!(m.len(), 0);
    assert_eq!(m.get("a"), None);
}

#[test]
fn maps_of_texts_are_compared_and_copied() {
    let mut a: TextMap<String> = TextMap::new();
    let mut b: TextMap<String> = TextMap::new();
    a.insert("x".to_string(), "1".to_string());
    a.insert("y".to_string(), "2".to_string());
    b.insert("y".to_string(), "2".to_string());
    assert!(!a.same_as(&b));
    b.insert("x".to_string(), "1".to_string());
    assert!(a.same_as(&b));
    let c = a.clone();
    a.insert("x".to_string(), "3".to_string());
    assert!(c.same_as(&b));
    assert!(!c.same_as(&a));
}
