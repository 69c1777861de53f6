use rust_py_monitor::clock::{now_secs, secs_or_zero};
use rust_py_monitor::text::{ends_with, is_blank_str, is_whitespace_char, starts_with, to_decimal};

#[test]
fn decimal_rendering() {
    assert_eq!(to_decimal(0), "0");
    assert_eq!(to_decimal(7), "7");
    assert_eq!(to_decimal(10), "10");
    assert_eq!(to_decimal(1234567890), "1234567890");
    assert_eq!(to_decimal(u64::MAX), u64::MAX.to_string());
}

#[test]
fn prefix_and_suffix() {
    assert!(starts_with("rpy-1.shard", "rpy-"));
    assert!(starts_with("abc", ""));
    assert!(!starts_with("rp", "rpy-"));
    assert!(ends_with("rpy-1.shard", ".shard"));
    assert!(!ends_with("rpy-1.shar", ".shard"));
    assert!(starts_with("héllo", "hé"));
    assert!(ends_with("naïve", "ïve"));
}

#[test]
fn blank_strings() {
    assert!(is_blank_str(""));
    assert!(is_blank_str(" \t\r\n"));
    assert!(is_blank_str("\u{A0}"));
    assert!(!is_blank_str(" a "));
}

#[test]
fn clock_reading() {
    assert_eq!(secs_or_zero(Some(42)), 42);
    assert_eq!(secs_or_zero(None), 0);
    assert!(now_secs() > 1_704_067_200);
}

#[test]
fn whitespace_matches_std() {
    for u in 0u32..0x11000 {
        if let Some(c) = char::from_u32(u) {
            assert_eq!(is_whitespace_char(c), c.is_whitespace(), "U+{:04X}", u);
        }
    }
    for c in ['\u{E0020}', '\u{10FFFF}', '\u{FEFF}', '\u{180E}'] {
        assert_eq!(is_whitespace_char(c), c.is_whitespace());
    }
}
