use shaderbar::strings::{
    chars_of, format_u64, is_white, replace, split_words, starts_with, str_eq, trim,
};

#[test]
fn format_u64_writes_decimal_digits() {
    assert_eq!(format_u64(0), "0");
    assert_eq!(format_u64(7), "7");
    assert_eq!(format_u64(10), "10");
    assert_eq!(format_u64(1234567890), "1234567890");
    assert_eq!(format_u64(u64::MAX), "18446744073709551615");
}

#[test]
fn format_u64_agrees_with_the_standard_library() {
    for value in [0u64, 1, 9, 10, 11, 99, 100, 101, 65535, 4294967296, u64::MAX - 1] {
        assert_eq!(format_u64(value), value.to_string());
    }
}

#[test]
fn chars_of_lists_the_characters() {
    assert_eq!(chars_of(""), Vec::<char>::new());
    assert_eq!(chars_of("a\u{e9}\u{4e2d}!"), vec!['a', '\u{e9}', '\u{4e2d}', '!']);
}

#[test]
fn is_white_agrees_with_the_standard_library() {
    for code in 0..0x3100u32 {
        if let Some(c) = char::from_u32(code) {
            assert_eq!(is_white(c), c.is_whitespace());
        }
    }
    assert!(!is_white('\u{feff}'));
    assert!(!is_white('\u{10ffff}'));
}

#[test]
fn split_words_splits_at_runs_of_whitespace() {
    assert_eq!(split_words("wlan0  wifi \t connected  Home"), vec!["wlan0", "wifi", "connected", "Home"]);
    assert_eq!(split_words("  a  "), vec!["a"]);
    assert_eq!(split_words(""), Vec::<String>::new());
    assert_eq!(split_words(" \n\t "), Vec::<String>::new());
    assert_eq!(split_words("a\u{a0}b\u{3000}c"), vec!["a", "b", "c"]);
    assert_eq!(split_words("caf\u{e9} \u{4e2d}\u{6587}"), vec!["caf\u{e9}", "\u{4e2d}\u{6587}"]);
}

#[test]
fn split_words_agrees_with_the_standard_library() {
    for line in [
        "DEVICE  TYPE      STATE      CONNECTION",
        "enp3s0  ethernet  connected  Wired connection 1",
        "lo      loopback  unmanaged  --",
        "",
        "\u{2003}x\u{2003}",
    ] {
        let expected: Vec<String> = line.split_whitespace().map(|word| word.to_string()).collect();
        assert_eq!(split_words(line), expected);
    }
}

#[test]
fn trim_drops_whitespace_at_both_ends() {
    assert_eq!(trim("  /sys/class/power_supply/BAT0/capacity\n"), "/sys/class/power_supply/BAT0/capacity");
    assert_eq!(trim("a b"), "a b");
    assert_eq!(trim(" a b "), "a b");
    assert_eq!(trim(""), "");
    assert_eq!(trim(" \t\n"), "");
    assert_eq!(trim("\u{a0}x\u{2009}"), "x");
    assert_eq!(trim("\u{e9} "), "\u{e9}");
}

#[test]
fn replace_replaces_every_occurrence() {
    assert_eq!(replace("/hwmon0/temp1_label", "_label", ""), "/hwmon0/temp1");
    assert_eq!(replace("/hwmon0/temp1_input", "temp", "fan"), "/hwmon0/fan1_input");
    assert_eq!(replace("/temp/temp1", "temp", "fan"), "/fan/fan1");
    assert_eq!(replace("/BAT0/capacity", "/capacity", "/status"), "/BAT0/status");
    assert_eq!(replace("abc", "x", "y"), "abc");
    assert_eq!(replace("", "x", "y"), "");
    assert_eq!(replace("xxx", "x", ""), "");
    assert_eq!(replace("abc", "abc", "long replacement"), "long replacement");
    assert_eq!(replace("ab", "abc", "y"), "ab");
}

#[test]
fn replace_takes_occurrences_from_the_left_without_overlap() {
    assert_eq!(replace("aaa", "aa", "b"), "ba");
    assert_eq!(replace("aaaa", "aa", "b"), "bb");
    assert_eq!(replace("ababa", "aba", "x"), "xba");
    assert_eq!(replace("aXbXc", "X", "XX"), "aXXbXXc");
}

#[test]
fn replace_with_an_empty_pattern_changes_nothing() {
    assert_eq!(replace("abc", "", "-"), "abc");
    assert_eq!(replace("", "", "-"), "");
}

#[test]
fn replace_works_on_characters() {
    assert_eq!(replace("caf\u{e9}/\u{e9}t\u{e9}", "\u{e9}", "e"), "cafe/ete");
    assert_eq!(replace("\u{4e2d}\u{6587}", "\u{6587}", "x"), "\u{4e2d}x");
}

#[test]
fn str_eq_compares_the_characters() {
    assert!(str_eq("", ""));
    assert!(str_eq("connected", "connected"));
    assert!(!str_eq("connected", "Connected"));
    assert!(!str_eq("connected", "connecte"));
    assert!(!str_eq("\u{e9}", "e"));
}

#[test]
fn starts_with_compares_the_first_characters() {
    assert!(starts_with(":1.42/menu/0", ":1.42/"));
    assert!(starts_with(":1.42/", ":1.42/"));
    assert!(starts_with("anything", ""));
    assert!(!starts_with(":1.4", ":1.42/"));
    assert!(!starts_with(":1.43/menu/0", ":1.42/"));
    assert!(!starts_with("", "a"));
    assert!(starts_with("\u{e9}t\u{e9}", "\u{e9}t"));
    assert!(!starts_with("\u{e9}t\u{e9}", "e"));
}
