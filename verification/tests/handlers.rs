use ov_cli::handlers::append_time_filter_params;

#[test]
fn append_time_filter_params_only_emits_after_and_before() {
    let mut params = Vec::new();
    let after = Some("7d".to_string());
    let before = Some("2026-03-12".to_string());

    append_time_filter_params(&mut params, after.as_deref(), before.as_deref());

    assert_eq!(params, vec!["--after 7d", "--before 2026-03-12"]);
}

#[test]
fn append_time_filter_params_keeps_existing_and_skips_missing() {
    let mut params = vec!["--keep".to_string()];
    append_time_filter_params(&mut params, None, Some("24h"));
    assert_eq!(params, vec!["--keep", "--before 24h"]);
    append_time_filter_params(&mut params, None, None);
    assert_eq!(params, vec!["--keep", "--before 24h"]);
}
