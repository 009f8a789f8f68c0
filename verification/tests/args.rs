use ov_cli::args::find_command_index;
use ov_cli::args::is_privacy_subcommand;
use ov_cli::args::preprocess_privacy_args;
use ov_cli::args::preprocess_privacy_get_shortcut;
use ov_cli::args::preprocess_privacy_upsert_key_flags;

fn strings(args: &[&str]) -> Vec<String> {
    args.iter().map(|s| s.to_string()).collect()
}

#[test]
fn preprocess_key_dynamic_flag_to_static_form() {
    let args = strings(&["ov", "privacy", "upsert", "skill", "demo", "--key-api_key", "secret-v1"]);

    let converted = preprocess_privacy_args(args);

    assert_eq!(
        converted,
        vec!["ov", "privacy", "upsert", "skill", "demo", "--key", "api_key=secret-v1"]
    );
}

#[test]
fn privacy_shortcut_inserts_get() {
    let converted = preprocess_privacy_args(strings(&["ov", "privacy", "skill", "demo"]));
    assert_eq!(converted, vec!["ov", "privacy", "get", "skill", "demo"]);
}

#[test]
fn privacy_shortcut_skips_global_options_before_command() {
    let converted = preprocess_privacy_get_shortcut(strings(&[
        "ov", "--output", "json", "--sudo", "-x", "privacy", "skill", "demo",
    ]));
    assert_eq!(
        converted,
        vec!["ov", "--output", "json", "--sudo", "-x", "privacy", "get", "skill", "demo"]
    );
}

#[test]
fn privacy_shortcut_keeps_subcommands_and_flags() {
    for args in [
        strings(&["ov", "privacy", "list", "skill"]),
        strings(&["ov", "privacy", "--help"]),
        strings(&["ov", "privacy"]),
        strings(&["ov", "tree", "viking://"]),
        strings(&["ov"]),
    ] {
        assert_eq!(preprocess_privacy_get_shortcut(args.clone()), args);
    }
}

#[test]
fn upsert_key_flags_handle_equals_separator_and_trailing_flag() {
    let converted = preprocess_privacy_upsert_key_flags(strings(&[
        "ov", "privacy", "upsert", "skill", "demo", "--key-a=1=2", "--", "--key-", "--key-last",
    ]));
    assert_eq!(
        converted,
        vec!["ov", "privacy", "upsert", "skill", "demo", "--key", "a=1=2", "--key-", "--key-last"]
    );
}

#[test]
fn upsert_key_flags_only_after_upsert() {
    let args = strings(&["ov", "privacy", "get", "skill", "--key-a", "b", "--"]);
    assert_eq!(preprocess_privacy_upsert_key_flags(args.clone()), args);
    let args = strings(&["ov", "ls", "--key-a", "b"]);
    assert_eq!(preprocess_privacy_args(args.clone()), args);
}

#[test]
fn command_index_skips_options_and_their_values() {
    assert_eq!(find_command_index(&strings(&["ov", "--account", "acme", "-v", "ls"])), Some(4));
    assert_eq!(find_command_index(&strings(&["ov", "--user"])), None);
    assert_eq!(find_command_index(&strings(&["ov", "--compact", "true", "--weird", "tree"])), Some(4));
    assert_eq!(find_command_index(&strings(&["ov"])), None);
}

#[test]
fn privacy_subcommands_are_recognised() {
    for t in ["categories", "list", "get", "upsert", "versions", "version", "activate"] {
        assert!(is_privacy_subcommand(t));
    }
    assert!(!is_privacy_subcommand("skill"));
}

#[test]
fn privacy_shortcut_applied_twice_is_applied_once() {
    let once = preprocess_privacy_get_shortcut(strings(&["ov", "--user", "u", "privacy", "skill", "demo"]));
    assert_eq!(once, vec!["ov", "--user", "u", "privacy", "get", "skill", "demo"]);
    let twice = preprocess_privacy_get_shortcut(once.clone());
    assert_eq!(twice, once);
}

#[test]
fn key_flags_written_out_twice_are_written_out_once() {
    let args = strings(&[
        "ov", "privacy", "upsert", "skill", "demo", "--", "--key-a", "1", "--key-b=2", "--key-",
    ]);
    let once = preprocess_privacy_upsert_key_flags(args);
    assert_eq!(
        once,
        vec!["ov", "privacy", "upsert", "skill", "demo", "--key", "a=1", "--key", "b=2", "--key-"]
    );
    let twice = preprocess_privacy_upsert_key_flags(once.clone());
    assert_eq!(twice, once);
}
