use gaxibo::decimal::{low_i32, read_i64, read_u64, write_i64, write_u64};
use gaxibo::search::{replace_every, replace_once};
use gaxibo::split::{join_strings, split_at, split_at_either};
use gaxibo::text::{after_prefix, has_suffix, is_white_space, same, trim, trim_end};

#[test]
fn white_space_is_that_of_unicode() {
    for u in 0u32..=0x10ffff {
        if let Some(c) = char::from_u32(u) {
            assert_eq!(is_white_space(c), c.is_whitespace(), "U+{u:04x}");
        }
    }
}

#[test]
fn trimming() {
    for s in ["", " ", "a", " a ", "\u{3000}a b\u{a0}\n", "\u{200b}x", "a\u{85}"] {
        assert_eq!(trim(s), s.trim());
        assert_eq!(trim_end(s), s.trim_end());
    }
}

#[test]
fn splitting_and_joining() {
    for s in ["", "\n", "a", "a\nb", "\na\n\nb\n", "é\n€"] {
        let parts = split_at(s, '\n');
        assert_eq!(parts, s.split('\n').map(str::to_string).collect::<Vec<_>>());
        assert_eq!(join_strings(&parts, "\n"), s);
        assert_eq!(join_strings(&parts, ", "), parts.join(", "));
    }
    assert_eq!(split_at_either("bytes=1-2", '=', '-'), vec!["bytes", "1", "2"]);
    assert_eq!(join_strings(&vec![], "x"), "");
}

#[test]
fn replacing() {
    assert_eq!(replace_every("aaaa", "aa", "b"), "aaaa".replace("aa", "b"));
    assert_eq!(replace_every("aaa", "aa", "b"), "aaa".replace("aa", "b"));
    assert_eq!(replace_every("xéyé", "é", "€€"), "x€€y€€");
    assert_eq!(replace_every("ab", "abc", "z"), "ab");
    assert_eq!(replace_once(&b"abab".to_vec(), b"ab", b"x"), b"xab".to_vec());
    assert_eq!(replace_once(&b"abab".to_vec(), b"c", b"x"), b"abab".to_vec());
}

#[test]
fn prefixes_and_suffixes() {
    assert_eq!(after_prefix("/arexibo/x", "/arexibo/"), Some("x".into()));
    assert_eq!(after_prefix("/arexibo", "/arexibo/"), None);
    assert_eq!(after_prefix("é€", "é"), Some("€".into()));
    assert!(has_suffix("/1.xlf.html", ".xlf.html"));
    assert!(!has_suffix("xlf.html", ".xlf.html"));
    assert!(has_suffix("", ""));
    assert!(same("é", "é"));
    assert!(!same("a", "ab"));
}

#[test]
fn numbers_read() {
    for s in ["", "0", "-0", "+0", "00012", "-", "+", "+-1", "--1", "1a", "a1", " 1", "1_0", "٣",
              "9223372036854775807", "9223372036854775808", "-9223372036854775808",
              "-9223372036854775809", "18446744073709551615", "18446744073709551616",
              "99999999999999999999999", "-99999999999999999999999"] {
        assert_eq!(read_i64(s), s.parse::<i64>().ok(), "{s:?}");
        assert_eq!(read_u64(s), s.parse::<u64>().ok(), "{s:?}");
    }
}

#[test]
fn numbers_written() {
    for n in [0i64, 7, 10, 99, 100, -1, -10, i64::MAX, i64::MIN] {
        assert_eq!(write_i64(n), n.to_string());
        assert_eq!(read_i64(&write_i64(n)), Some(n));
    }
    for n in [0u64, 9, 10, u64::MAX] {
        assert_eq!(write_u64(n), n.to_string());
        assert_eq!(read_u64(&write_u64(n)), Some(n));
    }
}

#[test]
fn low_bits() {
    for n in [0i64, 1, -1, 2147483647, 2147483648, 4294967296, -2147483649, i64::MAX, i64::MIN] {
        assert_eq!(low_i32(n), n as i32);
    }
    assert_eq!(low_i32(4294967297), 1);
}
