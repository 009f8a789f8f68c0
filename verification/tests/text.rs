use ov_cli::json::JsonValue;
use ov_cli::text::contains_char;
use ov_cli::text::replace_char_in;
use ov_cli::text::split_on_char;
use ov_cli::text::starts_with_str;
use ov_cli::text::str_equal;
use ov_cli::text::trim;
use ov_cli::text::trim_end_matches_char;
use ov_cli::text::trim_start_matches_dot_slash;
use ov_cli::text::u64_to_decimal;
use ov_cli::cli::server_version;

#[test]
fn trim_matches_std() {
    for s in ["", "  a b  ", "\u{a0}x\u{2003}", "\t\n", "no-space"] {
        assert_eq!(trim(s), s.trim());
    }
}

#[test]
fn split_matches_std() {
    for s in ["", ",", "a,b", ",a,,b,"] {
        let ours = split_on_char(s, ',');
        let std: Vec<String> = s.split(',').map(|p| p.to_string()).collect();
        assert_eq!(ours, std);
    }
}

#[test]
fn small_string_helpers() {
    assert_eq!(trim_end_matches_char("a///", '/'), "a");
    assert_eq!(trim_start_matches_dot_slash("././x/./"), "x/./");
    assert_eq!(replace_char_in("a\\b\\c", '\\', '/'), "a/b/c");
    assert!(starts_with_str("--key-x", "--key-"));
    assert!(!starts_with_str("--ke", "--key-"));
    assert!(contains_char("a/b", '/'));
    assert!(!contains_char("ab", '/'));
    assert!(str_equal("abc", "abc"));
    assert!(!str_equal("abc", "abd"));
    assert_eq!(u64_to_decimal(0), "0");
    assert_eq!(u64_to_decimal(18446744073709551615), "18446744073709551615");
}

#[test]
fn server_version_is_read_from_health() {
    let health = JsonValue::Object(vec![("version".to_string(), JsonValue::String("1.2.3".to_string()))]);
    assert_eq!(server_version(&health), Some("1.2.3".to_string()));
    assert_eq!(server_version(&JsonValue::Null), None);
}
