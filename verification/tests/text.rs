use minecraft_monitor::text::{
    escape_line, find_char, find_sub, has_prefix, has_suffix, parse_u16, parse_u32, str_eq,
    u32_to_string,
};

#[test]
fn string_equality_is_exact() {
    assert!(str_eq("", ""));
    assert!(str_eq("abc", "abc"));
    assert!(!str_eq("abc", "abd"));
    assert!(!str_eq("abc", "ab"));
    assert!(!str_eq("ab", "abc"));
}

#[test]
fn finds_first_character() {
    assert_eq!(find_char("a b c", ' '), Some(1));
    assert_eq!(find_char("abc", ' '), None);
    assert_eq!(find_char("", 'x'), None);
    assert_eq!(find_char("..", '.'), Some(0));
}

#[test]
fn finds_first_substring() {
    assert_eq!(find_sub("GET / HTTP/1.1", "HTTP"), Some(6));
    assert_eq!(find_sub("abcabc", "bc"), Some(1));
    assert_eq!(find_sub("abc", "xy"), None);
    assert_eq!(find_sub("abc", ""), Some(0));
    assert_eq!(find_sub("ab", "abc"), None);
}

#[test]
fn prefixes_and_suffixes() {
    assert!(has_prefix("There are 3", "There are "));
    assert!(!has_prefix("There", "There are "));
    assert!(has_suffix("paper.jar", ".jar"));
    assert!(!has_suffix("jar", ".jar"));
}

#[test]
fn parses_decimals_exactly() {
    assert_eq!(parse_u32("0"), Some(0));
    assert_eq!(parse_u32("20"), Some(20));
    assert_eq!(parse_u32("4294967295"), Some(4294967295));
    assert_eq!(parse_u32("4294967296"), None);
    assert_eq!(parse_u32(""), None);
    assert_eq!(parse_u32("1 2"), None);
    assert_eq!(parse_u32("+1"), None);
    assert_eq!(parse_u16("65535"), Some(65535));
    assert_eq!(parse_u16("65536"), None);
}

#[test]
fn renders_decimals_exactly() {
    assert_eq!(u32_to_string(0), "0");
    assert_eq!(u32_to_string(7), "7");
    assert_eq!(u32_to_string(20), "20");
    assert_eq!(u32_to_string(1000), "1000");
    assert_eq!(u32_to_string(4294967295), "4294967295");
}

#[test]
fn round_trips_decimals() {
    for n in [0u32, 1, 9, 10, 99, 100, 12345, 4294967295] {
        assert_eq!(parse_u32(&u32_to_string(n)), Some(n));
    }
}

#[test]
fn escaping_quotes_and_newlines() {
    assert_eq!(escape_line("plain"), "plain");
    assert_eq!(escape_line("say \"hi\""), "say \\\"hi\\\"");
    assert_eq!(escape_line("line\n"), "line");
    assert_eq!(escape_line("a\nb\n"), "ab");
    assert_eq!(escape_line(""), "");
    assert_eq!(escape_line("\"\n\""), "\\\"\\\"");
}
