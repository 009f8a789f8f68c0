use ov_cli::base_client::BaseClient;
use ov_cli::base_client::TimeoutSecs;
use ov_cli::error::Error;
use ov_cli::json::JsonValue;
use ov_cli::uploader::compression_progress;
use ov_cli::uploader::ignore_dirs_filter;
use ov_cli::uploader::not_a_directory;
use ov_cli::uploader::parse_ignore_dirs;
use ov_cli::uploader::temp_file_id;
use ov_cli::uploader::upload_file_name;
use ov_cli::uploader::zip_entry_name;
use ov_cli::uploader::FileUploader;
use ov_cli::uploader::ProgressDisplay;
use ov_cli::uploader::WalkEntry;

fn dir(name: &str, rel: &str) -> WalkEntry {
    WalkEntry { is_root: false, is_dir: true, file_name: name.to_string(), relative_path: Some(rel.to_string()) }
}

#[test]
fn ignore_dirs_are_split_trimmed_and_filtered() {
    assert_eq!(parse_ignore_dirs(Some(" node_modules, dist ,,\t.git ")), vec!["node_modules", "dist", ".git"]);
    assert_eq!(parse_ignore_dirs(Some("")), Vec::<String>::new());
    assert_eq!(parse_ignore_dirs(None), Vec::<String>::new());
    assert_eq!(parse_ignore_dirs(Some("a\u{3000},b")), vec!["a", "b"]);
}

#[test]
fn walk_skips_named_directories() {
    let ignore = parse_ignore_dirs(Some("node_modules,./src/gen/"));
    assert!(!ignore_dirs_filter(&dir("node_modules", "web/node_modules"), &ignore));
    assert!(!ignore_dirs_filter(&dir("gen", "src\\gen"), &ignore));
    assert!(ignore_dirs_filter(&dir("gen", "other/gen"), &ignore));
    assert!(ignore_dirs_filter(&dir("src", "src"), &ignore));
    let file = WalkEntry { is_root: false, is_dir: false, file_name: "node_modules".to_string(), relative_path: Some("node_modules".to_string()) };
    assert!(ignore_dirs_filter(&file, &ignore));
    let root = WalkEntry { is_root: true, is_dir: true, file_name: "node_modules".to_string(), relative_path: Some(String::new()) };
    assert!(ignore_dirs_filter(&root, &ignore));
    assert!(ignore_dirs_filter(&dir("node_modules", "node_modules"), &Vec::new()));
    let unrelated = WalkEntry { is_root: false, is_dir: true, file_name: "gen".to_string(), relative_path: None };
    assert!(ignore_dirs_filter(&unrelated, &ignore));
}

#[test]
fn zip_entries_need_utf8_names() {
    assert_eq!(zip_entry_name(Some("a/b.txt"), "a/b.txt").ok(), Some("a/b.txt".to_string()));
    match zip_entry_name(None, "a/\u{FFFD}.txt") {
        Err(Error::InvalidPath(m)) => assert_eq!(m, "Non-UTF-8 path: a/\u{FFFD}.txt"),
        _ => panic!("expected an invalid path"),
    }
    match not_a_directory("/tmp/x") {
        Error::Network(m) => assert_eq!(m, "Path /tmp/x is not a directory"),
        _ => panic!("expected a network error"),
    }
}

#[test]
fn compression_progress_uses_a_bar_when_sizes_are_known() {
    match compression_progress(2048, 12) {
        ProgressDisplay::Bar { length, message } => {
            assert_eq!(length, 2048);
            assert_eq!(message, "Compressing 12 files");
        }
        _ => panic!("expected a bar"),
    }
    match compression_progress(0, 0) {
        ProgressDisplay::Spinner { message } => assert_eq!(message, "Compressing files..."),
        _ => panic!("expected a spinner"),
    }
}

#[test]
fn upload_request_shape() {
    let client = BaseClient::new(
        "http://h/",
        Some("k".to_string()),
        None,
        None,
        None,
        TimeoutSecs { bits: 60.0f64.to_bits() },
        None,
    );
    let uploader = FileUploader::new(&client);
    assert_eq!(uploader.upload_mode, None);
    let uploader = uploader.with_upload_mode(Some("proxy".to_string()));
    assert_eq!(uploader.upload_mode.as_deref(), Some("proxy"));
    assert_eq!(uploader.temp_upload_url(), "http://h/api/v1/resources/temp_upload");
    let headers = uploader.upload_headers();
    assert!(headers.get("content-type").is_none());
    assert_eq!(headers.get("x-api-key").unwrap(), "k");
    assert_eq!(headers.len(), 1);
    assert_eq!(upload_file_name(Some("pack.zip")), "pack.zip");
    assert_eq!(upload_file_name(None), "temp_upload.zip");
}

#[test]
fn temp_file_id_is_read_from_the_answer() {
    let answer = JsonValue::Object(vec![("temp_file_id".to_string(), JsonValue::String("tmp-1".to_string()))]);
    assert_eq!(temp_file_id(&answer).ok(), Some("tmp-1".to_string()));
    let answer = JsonValue::Object(vec![("temp_file_id".to_string(), JsonValue::Number("7".to_string()))]);
    match temp_file_id(&answer) {
        Err(Error::Parse(m)) => assert_eq!(m, "Missing temp_file_id in response"),
        _ => panic!("expected a parse error"),
    }
}
