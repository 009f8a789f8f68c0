//! Packing a local directory and uploading it: which directories the walk
//! skips, what each archive entry is called, and how the upload request is
//! addressed and answered.

use vstd::prelude::*;

use reqwest::header::HeaderMap;

use crate::base_client::expected_headers;
use crate::base_client::extra_headers_fit;
use crate::base_client::BaseClient;
use crate::error::Error;
use crate::error::ErrorView;
use crate::http_types::ascii_lowercase;
use crate::http_types::header_entries;
use crate::http_types::is_valid_header_name;
use crate::http_types::remove_header;
use crate::json::json_get_str;
use crate::json::JsonValue;
use crate::text::contains_char;
use crate::text::decimal_digits;
use crate::text::replace_char;
use crate::text::replace_char_in;
use crate::text::split_char;
use crate::text::split_on_char;
use crate::text::str_equal;
use crate::text::trim;
use crate::text::trim_end_char;
use crate::text::trim_end_matches_char;
use crate::text::trim_start_dot_slash;
use crate::text::trim_start_matches_dot_slash;
use crate::text::trim_ws;
use crate::text::trim_start_ws;
use crate::text::trim_end_ws;
use crate::text::is_unicode_whitespace;
use crate::text::u64_to_decimal;

verus! {

/// The trimmed, non-empty pieces among `pieces`, in order.
pub open spec fn trimmed_nonempty(pieces: Seq<Seq<char>>) -> Seq<Seq<char>>
    decreases pieces.len(),
{
    if pieces.len() == 0 {
        Seq::empty()
    } else {
        let init = trimmed_nonempty(pieces.drop_last());
        let t = trim_ws(pieces.last());
        if t.len() > 0 {
            init.push(t)
        } else {
            init
        }
    }
}

/// The directory names of an `--ignore-dirs` list: split at commas, trimmed,
/// empty names dropped.
pub open spec fn ignore_dir_names(ignore_dirs: Option<&str>) -> Seq<Seq<char>> {
    match ignore_dirs {
        Some(s) => trimmed_nonempty(split_char(s@, ',')),
        None => Seq::empty(),
    }
}

/// Splits a comma-separated `--ignore-dirs` list into directory names.
pub fn parse_ignore_dirs(ignore_dirs: Option<&str>) -> (r: Vec<String>)
    ensures
        r.deep_view() == ignore_dir_names(ignore_dirs),
{
    match ignore_dirs {
        None => Vec::new(),
        Some(s) => {
            let pieces = split_on_char(s, ',');
            let mut out: Vec<String> = Vec::new();
            let mut i: usize = 0;
            while i < pieces.len()
                invariant
                    i <= pieces@.len(),
                    pieces.deep_view() == split_char(s@, ','),
                    out.deep_view() == trimmed_nonempty(pieces.deep_view().take(i as int)),
                decreases pieces.len() - i,
            {
                let t = trim(pieces[i].as_str());
                proof {
                    assert(pieces.deep_view().take(i + 1).drop_last() =~= pieces.deep_view().take(
                        i as int,
                    ));
                    assert(pieces.deep_view().take(i + 1).last() == pieces[i as int]@);
                }
                if t.unicode_len() > 0 {
                    out.push(t);
                }
                proof {
                    assert(out.deep_view() =~= trimmed_nonempty(
                        pieces.deep_view().take(i + 1),
                    ));
                }
                i = i + 1;
            }
            assert(pieces.deep_view().take(pieces@.len() as int) =~= pieces.deep_view());
            out
        },
    }
}

proof fn lemma_trim_start_first(s: Seq<char>)
    ensures
        trim_start_ws(s).len() > 0 ==> !is_unicode_whitespace(trim_start_ws(s)[0]),
        trim_start_ws(s).len() <= s.len(),
    decreases s.len(),
{
    if s.len() > 0 && is_unicode_whitespace(s[0]) {
        lemma_trim_start_first(s.drop_first());
    }
}

proof fn lemma_trim_end_ends(s: Seq<char>)
    ensures
        trim_end_ws(s).len() > 0 ==> !is_unicode_whitespace(trim_end_ws(s).last()),
        trim_end_ws(s).len() > 0 ==> trim_end_ws(s)[0] == s[0],
        trim_end_ws(s).len() <= s.len(),
    decreases s.len(),
{
    if s.len() > 0 && is_unicode_whitespace(s.last()) {
        lemma_trim_end_ends(s.drop_last());
    }
}

proof fn lemma_trim_ends(s: Seq<char>)
    ensures
        trim_ws(s).len() > 0 ==> !is_unicode_whitespace(trim_ws(s)[0]) && !is_unicode_whitespace(
            trim_ws(s).last(),
        ),
{
    lemma_trim_start_first(s);
    lemma_trim_end_ends(trim_start_ws(s));
}

/// Every directory name of an `--ignore-dirs` list is non-empty and neither
/// starts nor ends with whitespace.
pub proof fn law_ignore_dir_names_are_trimmed(pieces: Seq<Seq<char>>)
    ensures
        forall|i: int|
            0 <= i < trimmed_nonempty(pieces).len() ==> (#[trigger] trimmed_nonempty(pieces)[i]).len()
                > 0 && !is_unicode_whitespace(trimmed_nonempty(pieces)[i][0])
                && !is_unicode_whitespace(trimmed_nonempty(pieces)[i].last()),
    decreases pieces.len(),
{
    if pieces.len() > 0 {
        law_ignore_dir_names_are_trimmed(pieces.drop_last());
        lemma_trim_ends(pieces.last());
        let init = trimmed_nonempty(pieces.drop_last());
        assert forall|i: int| 0 <= i < trimmed_nonempty(pieces).len() implies (
        #[trigger] trimmed_nonempty(pieces)[i]).len() > 0 && !is_unicode_whitespace(
            trimmed_nonempty(pieces)[i][0],
        ) && !is_unicode_whitespace(trimmed_nonempty(pieces)[i].last()) by {
            if i < init.len() {
                assert(trimmed_nonempty(pieces)[i] == init[i]);
            }
        }
    }
}

/// What the directory walk knows of one entry: whether it is the root of the
/// walk, whether it is a directory, its file name, and its path below the root
/// (an unreadable name is empty; the relative path is missing when the entry
/// is not below the root).
#[derive(Clone, Debug)]
pub struct WalkEntry {
    pub is_root: bool,
    pub is_dir: bool,
    pub file_name: String,
    pub relative_path: Option<String>,
}

/// An ignore pattern names the entry: a pattern with a `/` is a path below the
/// root (leading `./` and trailing `/` do not count; `\` in the entry's path
/// reads as `/`), any other pattern is a directory name.
pub open spec fn pattern_names_entry(pattern: Seq<char>, entry: WalkEntry) -> bool {
    if pattern.contains('/') {
        match entry.relative_path {
            Some(rel) => replace_char(rel@, '\\', '/') == trim_end_char(
                trim_start_dot_slash(pattern),
                '/',
            ),
            None => false,
        }
    } else {
        pattern == entry.file_name@
    }
}

/// The walk enters an entry unless it is a directory (other than the root)
/// that an ignore pattern names.
pub open spec fn entry_is_walked(entry: WalkEntry, ignore: Seq<Seq<char>>) -> bool {
    ||| entry.is_root
    ||| !(entry.is_dir && ignore.len() > 0)
    ||| !(exists|i: int| 0 <= i < ignore.len() && pattern_names_entry(#[trigger] ignore[i], entry))
}

/// A directory (other than the root) is skipped when an ignore pattern names
/// it: a pattern with a `/` names the directory whose `/`-separated path below
/// the root is the pattern without its leading `./` and trailing `/`s (a path
/// written with `\` separators is read the same way), and a pattern without
/// `/` names every directory of that name. A directory no pattern names, and
/// the root, are walked.
pub proof fn law_ignored_directories_are_skipped(
    entry: WalkEntry,
    ignore: Seq<Seq<char>>,
    k: int,
)
    requires
        0 <= k < ignore.len(),
    ensures
        (entry.is_dir && !entry.is_root && ignore[k].contains('/') && (entry.relative_path matches Some(
            rel,
        ) && !rel@.contains('\\') && rel@ == trim_end_char(trim_start_dot_slash(ignore[k]), '/')))
            ==> !entry_is_walked(entry, ignore),
        ({
            let path = trim_end_char(trim_start_dot_slash(ignore[k]), '/');
            (entry.is_dir && !entry.is_root && ignore[k].contains('/') && !path.contains('\\')
                && (entry.relative_path matches Some(rel) && rel@.len() == path.len() && (forall|
                j: int,
            |
                0 <= j < path.len() ==> if path[j] == '/' {
                    rel@[j] == '/' || rel@[j] == '\\'
                } else {
                    rel@[j] == path[j]
                }))) ==> !entry_is_walked(entry, ignore)
        }),
        (entry.is_dir && !entry.is_root && !ignore[k].contains('/') && ignore[k]
            == entry.file_name@) ==> !entry_is_walked(entry, ignore),
        entry.is_root ==> entry_is_walked(entry, ignore),
        !entry.is_dir ==> entry_is_walked(entry, ignore),
{
    let p = ignore[k];
    let path = trim_end_char(trim_start_dot_slash(p), '/');
    if entry.is_dir && !entry.is_root && p.contains('/') {
        if let Some(rel) = entry.relative_path {
            if !rel@.contains('\\') && rel@ == path {
                assert(replace_char(rel@, '\\', '/') =~= path);
                assert(pattern_names_entry(ignore[k], entry));
            }
            if !path.contains('\\') && rel@.len() == path.len() && (forall|j: int|
                0 <= j < path.len() ==> if path[j] == '/' {
                    rel@[j] == '/' || rel@[j] == '\\'
                } else {
                    rel@[j] == path[j]
                }) {
                assert forall|j: int| 0 <= j < path.len() implies replace_char(
                    rel@,
                    '\\',
                    '/',
                )[j] == path[j] by {
                    if path[j] != '/' {
                        assert(path[j] != '\\');
                    }
                }
                assert(replace_char(rel@, '\\', '/') =~= path);
                assert(pattern_names_entry(ignore[k], entry));
            }
        }
    }
    if entry.is_dir && !entry.is_root && !p.contains('/') && p == entry.file_name@ {
        assert(pattern_names_entry(ignore[k], entry));
    }
}

fn pattern_matches(pattern: &str, entry: &WalkEntry) -> (b: bool)
    ensures
        b == pattern_names_entry(pattern@, *entry),
{
    if contains_char(pattern, '/') {
        let stripped = trim_start_matches_dot_slash(pattern);
        let normalized = trim_end_matches_char(stripped.as_str(), '/');
        match &entry.relative_path {
            Some(rel) => {
                let rel_str = replace_char_in(rel.as_str(), '\\', '/');
                str_equal(rel_str.as_str(), normalized.as_str())
            },
            None => false,
        }
    } else {
        str_equal(pattern, entry.file_name.as_str())
    }
}

/// Whether the directory walk enters `entry`, given the directories to ignore.
pub fn ignore_dirs_filter(entry: &WalkEntry, ignore_list: &Vec<String>) -> (keep: bool)
    ensures
        keep == entry_is_walked(*entry, ignore_list.deep_view()),
{
    if entry.is_root {
        return true;
    }
    if entry.is_dir && ignore_list.len() > 0 {
        let mut i: usize = 0;
        while i < ignore_list.len()
            invariant
                i <= ignore_list@.len(),
                entry.is_dir,
                !entry.is_root,
                forall|j: int|
                    0 <= j < i ==> !pattern_names_entry(
                        #[trigger] ignore_list.deep_view()[j],
                        *entry,
                    ),
            decreases ignore_list.len() - i,
        {
            if pattern_matches(ignore_list[i].as_str(), entry) {
                assert(pattern_names_entry(ignore_list.deep_view()[i as int], *entry));
                return false;
            }
            i = i + 1;
        }
    }
    true
}

/// The name of an archive entry: its path below the directory, which must be
/// valid UTF-8 (`lossy` is how the path shows otherwise).
pub fn zip_entry_name(relative: Option<&str>, lossy: &str) -> (r: Result<String, Error>)
    ensures
        r matches Ok(n) ==> relative matches Some(s) && n@ == s@,
        r matches Err(e) ==> relative is None && e@ == ErrorView::InvalidPath(
            "Non-UTF-8 path: "@ + lossy@,
        ),
        r is Ok <==> relative is Some,
{
    match relative {
        Some(s) => Ok(s.to_owned()),
        None => {
            let mut text = String::new();
            text.append("Non-UTF-8 path: ");
            text.append(lossy);
            Err(Error::InvalidPath(text))
        },
    }
}

/// The error for a path that is no directory.
pub fn not_a_directory(path: &str) -> (e: Error)
    ensures
        e@ == ErrorView::Network("Path "@ + path@ + " is not a directory"@),
{
    let mut text = String::new();
    text.append("Path ");
    text.append(path);
    text.append(" is not a directory");
    Error::Network(text)
}

/// How compression progress is shown: a bar over the total size when there
/// are bytes to count, a spinner otherwise.
#[derive(Clone, Debug, PartialEq, Eq)]
pub enum ProgressDisplay {
    Bar { length: u64, message: String },
    Spinner { message: String },
}

/// The progress display for compressing `total_files` files of `total_size` bytes.
pub fn compression_progress(total_size: u64, total_files: u64) -> (p: ProgressDisplay)
    ensures
        total_size > 0 ==> (p matches ProgressDisplay::Bar { length, message } && length
            == total_size && message@ == "Compressing "@ + decimal_digits(total_files as nat)
            + " files"@),
        total_size == 0 ==> (p matches ProgressDisplay::Spinner { message } && message@
            == "Compressing files..."@),
{
    if total_size > 0 {
        let mut message = String::new();
        message.append("Compressing ");
        let count = u64_to_decimal(total_files);
        message.append(count.as_str());
        message.append(" files");
        ProgressDisplay::Bar { length: total_size, message }
    } else {
        let mut message = String::new();
        message.append("Compressing files...");
        ProgressDisplay::Spinner { message }
    }
}

/// Handles file compression and upload for one client.
pub struct FileUploader<'a> {
    pub client: &'a BaseClient,
    pub upload_mode: Option<String>,
}

/// The name under which a file is uploaded: its own name when it has a
/// readable one, `temp_upload.zip` otherwise.
pub fn upload_file_name(file_name: Option<&str>) -> (r: &str)
    ensures
        file_name matches Some(n) ==> r@ == n@,
        file_name is None ==> r@ == "temp_upload.zip"@,
{
    match file_name {
        Some(n) => n,
        None => "temp_upload.zip",
    }
}

/// The identifier the upload answer carries in its `temp_file_id` member.
pub fn temp_file_id(result: &JsonValue) -> (r: Result<String, Error>)
    ensures
        r matches Ok(id) ==> json_get_str(*result, "temp_file_id"@) == Some(id@),
        r matches Err(e) ==> json_get_str(*result, "temp_file_id"@) is None && e@
            == ErrorView::Parse("Missing temp_file_id in response"@),
        r is Ok <==> json_get_str(*result, "temp_file_id"@) is Some,
{
    match result.get_str("temp_file_id") {
        Some(id) => Ok(id.to_owned()),
        None => {
            let mut text = String::new();
            text.append("Missing temp_file_id in response");
            Err(Error::Parse(text))
        },
    }
}

proof fn lemma_content_type_name()
    ensures
        is_valid_header_name("content-type"@),
        ascii_lowercase("content-type"@) == "content-type"@,
{
    reveal_strlit("content-type");
    assert(ascii_lowercase("content-type"@) =~= "content-type"@);
}

/// An upload never carries the JSON content type of the other requests.
pub proof fn law_upload_headers_have_no_content_type(c: BaseClient)
    ensures
        !expected_headers(c).remove("content-type"@).contains_key("content-type"@),
{
}

impl<'a> FileUploader<'a> {
    pub fn new(client: &'a BaseClient) -> (u: FileUploader<'a>)
        ensures
            u.client == client,
            u.upload_mode is None,
    {
        FileUploader { client, upload_mode: None }
    }

    pub fn with_upload_mode(self, upload_mode: Option<String>) -> (u: FileUploader<'a>)
        ensures
            u.client == self.client,
            u.upload_mode == upload_mode,
    {
        FileUploader { client: self.client, upload_mode }
    }

    /// Where temporary uploads go.
    pub fn temp_upload_url(&self) -> (r: String)
        ensures
            r@ == self.client.base_url@ + "/api/v1/resources/temp_upload"@,
    {
        self.client.request_url("/api/v1/resources/temp_upload")
    }

    /// The headers of an upload: the client's headers without the JSON content
    /// type, which the multipart body sets for itself.
    pub fn upload_headers(&self) -> (headers: HeaderMap)
        requires
            extra_headers_fit(*self.client),
        ensures
            header_entries(headers) == expected_headers(*self.client).remove("content-type"@),
    {
        let mut headers = self.client.build_headers();
        remove_header(&mut headers, "content-type");
        proof {
            lemma_content_type_name();
        }
        headers
    }
}

} // verus!
