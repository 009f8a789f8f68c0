//! The client's side of every request: where it goes, which headers it
//! carries, and what the server's answer means.

use vstd::prelude::*;

use reqwest::header::HeaderMap;

use crate::error::Error;
use crate::error::ErrorView;
use crate::http_types::ascii_lowercase;
use crate::http_types::canonical_reason;
use crate::http_types::header_entries;
use crate::http_types::http_reason_phrase;
use crate::http_types::insert_header;
use crate::http_types::is_valid_header_name;
use crate::http_types::is_valid_header_value;
use crate::http_types::new_header_map;
use crate::http_types::remove_header;
use crate::json::json_get;
use crate::json_parse::json_document;
use crate::json_parse::json_parse_error;
use crate::json_parse::json_text;
use crate::json_parse::lossy_text;
use crate::json_parse::parse_json_body;
use crate::json_parse::render_json_body;
use crate::json_parse::utf8_lossy;
use crate::json::json_get_str;
use crate::json::JsonValue;
use crate::text::decimal_digits;
use crate::text::trim_end_char;
use crate::text::trim_end_matches_char;
use crate::text::u64_to_decimal;

verus! {

/// The text of an optional string.
pub open spec fn opt_string_view(o: Option<String>) -> Option<Seq<char>> {
    match o {
        Some(s) => Some(s@),
        None => None,
    }
}

/// The text of an optional string slice.
pub open spec fn opt_str_view(o: Option<&str>) -> Option<Seq<char>> {
    match o {
        Some(s) => Some(s@),
        None => None,
    }
}

/// An optional string, borrowed.
pub fn opt_as_str(o: &Option<String>) -> (r: Option<&str>)
    ensures
        opt_str_view(r) == opt_string_view(*o),
{
    match o {
        Some(s) => Some(s.as_str()),
        None => None,
    }
}

/// A copy of an optional string.
pub fn clone_opt_string(o: &Option<String>) -> (r: Option<String>)
    ensures
        r == *o,
{
    match o {
        Some(s) => Some(s.clone()),
        None => None,
    }
}

/// A copy of a list of header pairs.
pub fn clone_header_pairs(pairs: &Vec<(String, String)>) -> (r: Vec<(String, String)>)
    ensures
        r@ == pairs@,
{
    let mut out: Vec<(String, String)> = Vec::new();
    let mut i: usize = 0;
    while i < pairs.len()
        invariant
            i <= pairs@.len(),
            out@ =~= pairs@.take(i as int),
        decreases pairs.len() - i,
    {
        let k = pairs[i].0.clone();
        let v = pairs[i].1.clone();
        out.push((k, v));
        proof {
            assert(pairs@.take(i + 1) =~= pairs@.take(i as int).push(pairs@[i as int]));
        }
        i = i + 1;
    }
    assert(pairs@.take(pairs@.len() as int) =~= pairs@);
    out
}

/// A copy of optional header pairs.
pub fn clone_opt_header_pairs(o: &Option<Vec<(String, String)>>) -> (r: Option<
    Vec<(String, String)>,
>)
    ensures
        r is Some <==> o is Some,
        r matches Some(v) ==> v@ == o->0@,
{
    match o {
        Some(v) => Some(clone_header_pairs(v)),
        None => None,
    }
}

/// A request timeout in seconds: the bit pattern of an `f64`
/// (`f64::to_bits`), carried through unread.
#[derive(Clone, Copy, PartialEq, Eq, Structural, Debug)]
pub struct TimeoutSecs {
    pub bits: u64,
}

/// The settings of a connection to an OpenViking server: where it is, who is
/// speaking, and how long a request may take. Extra headers are a list of
/// name/value pairs, sent in order. Taken from a configuration map their names
/// are distinct (`extra_names_distinct`), and then their order does not change
/// the request (`law_extra_headers_override`); where two names coincide
/// ignoring case, the later one is sent.
#[derive(Clone, Debug)]
pub struct BaseClient {
    pub base_url: String,
    pub api_key: Option<String>,
    pub account: Option<String>,
    pub user: Option<String>,
    pub agent_id: Option<String>,
    pub timeout: TimeoutSecs,
    pub extra_headers: Option<Vec<(String, String)>>,
}

/// `map` with the header `name: value` set, when both are acceptable to `reqwest`.
pub open spec fn with_header(m: Map<Seq<char>, Seq<char>>, name: Seq<char>, value: Seq<char>) -> Map<
    Seq<char>,
    Seq<char>,
> {
    if is_valid_header_name(name) && is_valid_header_value(value) {
        m.insert(ascii_lowercase(name), value)
    } else {
        m
    }
}

/// `map` with the header `name` set to `value` when there is a value.
pub open spec fn with_optional_header(
    m: Map<Seq<char>, Seq<char>>,
    name: Seq<char>,
    value: Option<String>,
) -> Map<Seq<char>, Seq<char>> {
    match value {
        Some(v) => with_header(m, name, v@),
        None => m,
    }
}

/// `map` with each of the `extra` headers set in turn, later ones winning.
pub open spec fn with_extra_headers(
    m: Map<Seq<char>, Seq<char>>,
    extra: Seq<(String, String)>,
) -> Map<Seq<char>, Seq<char>>
    decreases extra.len(),
{
    if extra.len() == 0 {
        m
    } else {
        with_header(with_extra_headers(m, extra.drop_last()), extra.last().0@, extra.last().1@)
    }
}

/// The identity headers of a client, set over the JSON content type.
pub open spec fn identity_headers(c: BaseClient) -> Map<Seq<char>, Seq<char>> {
    let m0 = with_header(Map::empty(), "content-type"@, "application/json"@);
    let m1 = with_optional_header(m0, "X-API-Key"@, c.api_key);
    let m2 = with_optional_header(m1, "X-OpenViking-Agent"@, c.agent_id);
    let m3 = with_optional_header(m2, "X-OpenViking-Account"@, c.account);
    with_optional_header(m3, "X-OpenViking-User"@, c.user)
}

/// Every header of a request made by the client `c`.
pub open spec fn expected_headers(c: BaseClient) -> Map<Seq<char>, Seq<char>> {
    match c.extra_headers {
        Some(extra) => with_extra_headers(identity_headers(c), extra@),
        None => identity_headers(c),
    }
}

/// A client's extra headers are few enough for one header map: with the five
/// headers of its own, the map stays below the size at which `HeaderMap` may
/// panic.
pub open spec fn extra_headers_fit(c: BaseClient) -> bool {
    c.extra_headers matches Some(extra) ==> extra@.len() < 6550
}

proof fn lemma_with_header_size(m: Map<Seq<char>, Seq<char>>, name: Seq<char>, value: Seq<char>)
    requires
        m.dom().finite(),
    ensures
        with_header(m, name, value).dom().finite(),
        with_header(m, name, value).dom().len() <= m.dom().len() + 1,
{
}

fn set_optional_header(map: &mut HeaderMap, name: &str, value: &Option<String>)
    requires
        header_entries(*old(map)).dom().finite(),
        header_entries(*old(map)).dom().len() < 6554,
    ensures
        header_entries(*final(map)) == with_optional_header(
            header_entries(*old(map)),
            name@,
            *value,
        ),
        header_entries(*final(map)).dom().finite(),
        header_entries(*final(map)).dom().len() <= header_entries(*old(map)).dom().len() + 1,
{
    proof {
        if let Some(v) = value {
            lemma_with_header_size(header_entries(*old(map)), name@, v@);
        }
    }
    if let Some(v) = value {
        insert_header(map, name, v.as_str());
    }
}

/// The header a request carries under `key` (a lower-case name), if any.
pub open spec fn header_at(m: Map<Seq<char>, Seq<char>>, key: Seq<char>) -> Option<Seq<char>> {
    if m.contains_key(key) {
        Some(m[key])
    } else {
        None
    }
}

/// The value an optional identity puts on the wire: the value itself when it
/// is a valid header value, nothing otherwise.
pub open spec fn sent_identity(value: Option<String>) -> Option<Seq<char>> {
    match value {
        Some(v) => if is_valid_header_value(v@) {
            Some(v@)
        } else {
            None
        },
        None => None,
    }
}

/// Some configured extra header of `c` sets the (lower-case) header `key`.
pub open spec fn extra_header_sets(c: BaseClient, key: Seq<char>) -> bool {
    c.extra_headers matches Some(extra) && exists|j: int|
        0 <= j < extra@.len() && is_valid_header_name(#[trigger] extra@[j].0@)
            && is_valid_header_value(extra@[j].1@) && ascii_lowercase(extra@[j].0@) == key
}

proof fn lemma_extra_headers_keep(
    m: Map<Seq<char>, Seq<char>>,
    extra: Seq<(String, String)>,
    key: Seq<char>,
)
    requires
        !exists|j: int|
            0 <= j < extra.len() && is_valid_header_name(#[trigger] extra[j].0@)
                && is_valid_header_value(extra[j].1@) && ascii_lowercase(extra[j].0@) == key,
    ensures
        header_at(with_extra_headers(m, extra), key) == header_at(m, key),
    decreases extra.len(),
{
    if extra.len() > 0 {
        let init = extra.drop_last();
        assert forall|j: int|
            0 <= j < init.len() && is_valid_header_name(#[trigger] init[j].0@)
                && is_valid_header_value(init[j].1@) implies ascii_lowercase(init[j].0@) != key by {
            assert(init[j] == extra[j]);
        }
        lemma_extra_headers_keep(m, init, key);
        assert(extra.last() == extra[extra.len() - 1]);
    }
}

proof fn lemma_identity_header_names()
    ensures
        is_valid_header_name("content-type"@),
        ascii_lowercase("content-type"@) == "content-type"@,
        is_valid_header_value("application/json"@),
        is_valid_header_name("X-API-Key"@),
        ascii_lowercase("X-API-Key"@) == "x-api-key"@,
        is_valid_header_name("X-OpenViking-Agent"@),
        ascii_lowercase("X-OpenViking-Agent"@) == "x-openviking-agent"@,
        is_valid_header_name("X-OpenViking-Account"@),
        ascii_lowercase("X-OpenViking-Account"@) == "x-openviking-account"@,
        is_valid_header_name("X-OpenViking-User"@),
        ascii_lowercase("X-OpenViking-User"@) == "x-openviking-user"@,
        "content-type"@ != "x-api-key"@,
        "content-type"@ != "x-openviking-agent"@,
        "content-type"@ != "x-openviking-account"@,
        "content-type"@ != "x-openviking-user"@,
        "x-api-key"@ != "x-openviking-agent"@,
        "x-api-key"@ != "x-openviking-account"@,
        "x-api-key"@ != "x-openviking-user"@,
        "x-openviking-agent"@ != "x-openviking-account"@,
        "x-openviking-agent"@ != "x-openviking-user"@,
        "x-openviking-account"@ != "x-openviking-user"@,
{
    reveal_strlit("content-type");
    reveal_strlit("application/json");
    reveal_strlit("X-API-Key");
    reveal_strlit("x-api-key");
    reveal_strlit("X-OpenViking-Agent");
    reveal_strlit("x-openviking-agent");
    reveal_strlit("X-OpenViking-Account");
    reveal_strlit("x-openviking-account");
    reveal_strlit("X-OpenViking-User");
    reveal_strlit("x-openviking-user");
    assert(ascii_lowercase("content-type"@) =~= "content-type"@);
    assert(ascii_lowercase("X-API-Key"@) =~= "x-api-key"@);
    assert(ascii_lowercase("X-OpenViking-Agent"@) =~= "x-openviking-agent"@);
    assert(ascii_lowercase("X-OpenViking-Account"@) =~= "x-openviking-account"@);
    assert(ascii_lowercase("X-OpenViking-User"@) =~= "x-openviking-user"@);
    assert("content-type"@[0] != "x-api-key"@[0]);
    assert("content-type"@[0] != "x-openviking-agent"@[0]);
    assert("content-type"@[0] != "x-openviking-account"@[0]);
    assert("content-type"@[0] != "x-openviking-user"@[0]);
    assert("x-api-key"@[2] != "x-openviking-agent"@[2]);
    assert("x-api-key"@[2] != "x-openviking-account"@[2]);
    assert("x-api-key"@[2] != "x-openviking-user"@[2]);
    assert("x-openviking-agent"@[14] != "x-openviking-account"@[14]);
    assert("x-openviking-agent"@[13] != "x-openviking-user"@[13]);
    assert("x-openviking-account"@[13] != "x-openviking-user"@[13]);
}

/// Every request says it carries JSON and carries the client's identity: the
/// API key as `X-API-Key`, the agent as `X-OpenViking-Agent`, the account as
/// `X-OpenViking-Account` and the user as `X-OpenViking-User`, each exactly
/// when it is set and is a valid header value, unless a configured extra
/// header of the same name takes its place.
pub proof fn law_identity_headers(c: BaseClient)
    ensures
        !extra_header_sets(c, "content-type"@) ==> header_at(
            expected_headers(c),
            "content-type"@,
        ) == Some("application/json"@),
        !extra_header_sets(c, "x-api-key"@) ==> header_at(expected_headers(c), "x-api-key"@)
            == sent_identity(c.api_key),
        !extra_header_sets(c, "x-openviking-agent"@) ==> header_at(
            expected_headers(c),
            "x-openviking-agent"@,
        ) == sent_identity(c.agent_id),
        !extra_header_sets(c, "x-openviking-account"@) ==> header_at(
            expected_headers(c),
            "x-openviking-account"@,
        ) == sent_identity(c.account),
        !extra_header_sets(c, "x-openviking-user"@) ==> header_at(
            expected_headers(c),
            "x-openviking-user"@,
        ) == sent_identity(c.user),
{
    lemma_identity_header_names();
    let m = identity_headers(c);
    assert(header_at(m, "content-type"@) == Some("application/json"@));
    assert(header_at(m, "x-api-key"@) == sent_identity(c.api_key));
    assert(header_at(m, "x-openviking-agent"@) == sent_identity(c.agent_id));
    assert(header_at(m, "x-openviking-account"@) == sent_identity(c.account));
    assert(header_at(m, "x-openviking-user"@) == sent_identity(c.user));
    if let Some(extra) = c.extra_headers {
        if !extra_header_sets(c, "content-type"@) {
            lemma_extra_headers_keep(m, extra@, "content-type"@);
        }
        if !extra_header_sets(c, "x-api-key"@) {
            lemma_extra_headers_keep(m, extra@, "x-api-key"@);
        }
        if !extra_header_sets(c, "x-openviking-agent"@) {
            lemma_extra_headers_keep(m, extra@, "x-openviking-agent"@);
        }
        if !extra_header_sets(c, "x-openviking-account"@) {
            lemma_extra_headers_keep(m, extra@, "x-openviking-account"@);
        }
        if !extra_header_sets(c, "x-openviking-user"@) {
            lemma_extra_headers_keep(m, extra@, "x-openviking-user"@);
        }
    }
}

/// No two extra headers share a name, ignoring ASCII case, as the keys of a
/// header map never do. Only where two names coincide does the order of the
/// extra headers matter (the later one is sent).
pub open spec fn extra_names_distinct(extra: Seq<(String, String)>) -> bool {
    forall|i: int, j: int|
        0 <= i < j < extra.len() ==> ascii_lowercase(#[trigger] extra[i].0@) != ascii_lowercase(
            #[trigger] extra[j].0@,
        )
}

proof fn lemma_extra_header_applied(
    m: Map<Seq<char>, Seq<char>>,
    extra: Seq<(String, String)>,
    j: int,
)
    requires
        extra_names_distinct(extra),
        0 <= j < extra.len(),
        is_valid_header_name(extra[j].0@),
        is_valid_header_value(extra[j].1@),
    ensures
        header_at(with_extra_headers(m, extra), ascii_lowercase(extra[j].0@)) == Some(extra[j].1@),
    decreases extra.len(),
{
    let init = extra.drop_last();
    if j < extra.len() - 1 {
        assert forall|a: int, b: int| 0 <= a < b < init.len() implies ascii_lowercase(
            #[trigger] init[a].0@,
        ) != ascii_lowercase(#[trigger] init[b].0@) by {
            assert(init[a] == extra[a] && init[b] == extra[b]);
        }
        assert(init[j] == extra[j]);
        lemma_extra_header_applied(m, init, j);
        assert(extra.last() == extra[extra.len() - 1]);
        assert(ascii_lowercase(extra[j].0@) != ascii_lowercase(extra[extra.len() - 1].0@));
    } else {
        assert(extra.last() == extra[j]);
    }
}

/// When the extra header names are distinct (ignoring case), every valid extra
/// header is sent with its value, wherever it stands among them and in place
/// of a header of the client's own by that name; every header that no extra
/// header sets is sent as without extra headers.
pub proof fn law_extra_headers_override(c: BaseClient, key: Seq<char>)
    requires
        c.extra_headers matches Some(e) && extra_names_distinct(e@),
    ensures
        forall|j: int|
            0 <= j < c.extra_headers->0@.len() && is_valid_header_name(
                #[trigger] c.extra_headers->0@[j].0@,
            ) && is_valid_header_value(c.extra_headers->0@[j].1@) ==> header_at(
                expected_headers(c),
                ascii_lowercase(c.extra_headers->0@[j].0@),
            ) == Some(c.extra_headers->0@[j].1@),
        !extra_header_sets(c, key) ==> header_at(expected_headers(c), key) == header_at(
            identity_headers(c),
            key,
        ),
{
    let e = c.extra_headers->0@;
    assert forall|j: int|
        0 <= j < e.len() && is_valid_header_name(#[trigger] e[j].0@) && is_valid_header_value(
            e[j].1@,
        ) implies header_at(expected_headers(c), ascii_lowercase(e[j].0@)) == Some(e[j].1@) by {
        lemma_extra_header_applied(identity_headers(c), e, j);
    }
    if !extra_header_sets(c, key) {
        lemma_extra_headers_keep(identity_headers(c), e, key);
    }
}

/// The text of a status line after the code: `"404 Not Found"`, as `StatusCode` displays.
pub open spec fn status_display(code: u16) -> Seq<char> {
    decimal_digits(code as nat) + " "@ + match http_reason_phrase(code) {
        Some(p) => p,
        None => "<unknown status code>"@,
    }
}

/// The status line text for `code` with the reason phrase `phrase`: the code,
/// a space, and the phrase or `<unknown status code>` when there is none.
pub fn status_text(code: u16, phrase: Option<&str>) -> (r: String)
    ensures
        r@ == decimal_digits(code as nat) + " "@ + match phrase {
            Some(p) => p@,
            None => "<unknown status code>"@,
        },
{
    let mut out = u64_to_decimal(code as u64);
    out.append(" ");
    match phrase {
        Some(p) => out.append(p),
        None => out.append("<unknown status code>"),
    }
    out
}

/// `StatusCode`'s `Display`: the code, a space and its reason phrase.
pub fn format_status(code: u16) -> (r: String)
    ensures
        r@ == status_display(code),
{
    status_text(code, canonical_reason(code))
}

/// The message of an error envelope, in order of preference: `error.message`,
/// `detail`, and finally the HTTP status.
pub open spec fn envelope_message(json: JsonValue, status: u16) -> Seq<char> {
    let from_error = match json_get(json, "error"@) {
        Some(e) => json_get_str(e, "message"@),
        None => None,
    };
    match from_error {
        Some(m) => m,
        None => match json_get_str(json, "detail"@) {
            Some(d) => d,
            None => "HTTP error "@ + status_display(status),
        },
    }
}

/// The code of an error envelope, `error.code`.
pub open spec fn envelope_code(json: JsonValue) -> Option<Seq<char>> {
    match json_get(json, "error"@) {
        Some(e) => json_get_str(e, "code"@),
        None => None,
    }
}

/// The text of an error envelope: `"[code] message"`, or the message alone
/// when the envelope has no code.
pub open spec fn envelope_error_text(json: JsonValue, status: u16) -> Seq<char> {
    match envelope_code(json) {
        Some(c) => "["@ + c + "] "@ + envelope_message(json, status),
        None => envelope_message(json, status),
    }
}

/// The error text of a failed response's JSON envelope.
pub fn api_error_from_envelope(json: &JsonValue, status: u16) -> (r: String)
    ensures
        r@ == envelope_error_text(*json, status),
{
    let error = json.get("error");
    let code = match error {
        Some(e) => e.get_str("code"),
        None => None,
    };
    let from_error = match error {
        Some(e) => e.get_str("message"),
        None => None,
    };
    let message: String = match from_error {
        Some(m) => m.to_owned(),
        None => match json.get_str("detail") {
            Some(d) => d.to_owned(),
            None => {
                let mut text = String::new();
                text.append("HTTP error ");
                let shown = format_status(status);
                text.append(shown.as_str());
                text
            },
        },
    };
    match code {
        Some(c) => {
            let mut text = String::new();
            text.append("[");
            text.append(c);
            text.append("] ");
            text.append(message.as_str());
            text
        },
        None => message,
    }
}

/// A body that did not parse as JSON: the parser's complaint and the body as text.
#[derive(Clone, Debug)]
pub struct JsonParseFailure {
    pub error: String,
    pub raw_body: String,
}

/// The status codes whose answer carries no body to read.
pub open spec fn has_no_body(status: u16) -> bool {
    status == 204 || status == 202
}

/// The 2xx status codes.
pub open spec fn is_success_status(status: u16) -> bool {
    200 <= status < 300
}

/// The text of an error reported inside a successful envelope.
pub open spec fn reported_error_text(e: JsonValue) -> Seq<char> {
    let code = match json_get_str(e, "code"@) {
        Some(c) => c,
        None => "UNKNOWN"@,
    };
    let message = match json_get_str(e, "message"@) {
        Some(m) => m,
        None => "Unknown error"@,
    };
    "["@ + code + "] "@ + message
}

/// What a response comes to: the JSON to deserialize the answer from, or the
/// error to report.
pub open spec fn response_outcome(
    status: u16,
    body: Option<Result<JsonValue, (Seq<char>, Seq<char>)>>,
) -> Result<JsonValue, ErrorView> {
    if has_no_body(status) {
        Ok(JsonValue::Null)
    } else {
        match body {
            None => Ok(JsonValue::Null),
            Some(Err((error, raw_body))) => Err(
                ErrorView::Network(
                    "Failed to parse JSON response: "@ + error + "\n\nRaw response body:\n"@
                        + raw_body,
                ),
            ),
            Some(Ok(json)) => {
                if !is_success_status(status) {
                    Err(ErrorView::Api(envelope_error_text(json, status)))
                } else {
                    match json_get(json, "error"@) {
                        Some(e) => {
                            if !(e is Null) {
                                Err(ErrorView::Api(reported_error_text(e)))
                            } else {
                                Ok(
                                    match json_get(json, "result"@) {
                                        Some(r) => r,
                                        None => json,
                                    },
                                )
                            }
                        },
                        None => Ok(
                            match json_get(json, "result"@) {
                                Some(r) => r,
                                None => json,
                            },
                        ),
                    }
                }
            },
        }
    }
}

/// A parsed body with a parse failure seen as its two texts.
pub open spec fn parsed_view(
    body: Option<Result<JsonValue, JsonParseFailure>>,
) -> Option<Result<JsonValue, (Seq<char>, Seq<char>)>> {
    match body {
        None => None,
        Some(Ok(json)) => Some(Ok(json)),
        Some(Err(f)) => Some(Err((f.error@, f.raw_body@))),
    }
}

/// What reading the raw `body` as JSON gives: the document, or the parser's
/// message together with the body as text.
pub open spec fn body_parse(body: Seq<u8>) -> Result<JsonValue, (Seq<char>, Seq<char>)> {
    match json_document(body) {
        Some(json) => Ok(json),
        None => Err((json_parse_error(body), utf8_lossy(body))),
    }
}

/// A result with its error seen as text.
pub open spec fn result_view(r: Result<JsonValue, Error>) -> Result<JsonValue, ErrorView> {
    match r {
        Ok(v) => Ok(v),
        Err(e) => Err(e@),
    }
}

/// A request the server refuses (a status outside 2xx) is answered with the API
/// error its JSON envelope describes.
pub proof fn law_refused_request_is_api_error(status: u16, json: JsonValue)
    requires
        !is_success_status(status),
    ensures
        response_outcome(status, Some(Ok(json))) == Err::<JsonValue, ErrorView>(
            ErrorView::Api(envelope_error_text(json, status)),
        ),
{
}

/// A 2xx answer whose envelope carries a non-null `error` is still an API error.
pub proof fn law_reported_error_is_api_error(status: u16, json: JsonValue, e: JsonValue)
    requires
        is_success_status(status),
        !has_no_body(status),
        json_get(json, "error"@) == Some(e),
        !(e is Null),
    ensures
        response_outcome(status, Some(Ok(json))) == Err::<JsonValue, ErrorView>(
            ErrorView::Api(reported_error_text(e)),
        ),
{
}

/// A 2xx answer whose envelope reports no error yields its `result` member, or
/// the whole body when there is no such member.
pub proof fn law_success_unwraps_result(status: u16, json: JsonValue)
    requires
        is_success_status(status),
        !has_no_body(status),
        json_get(json, "error"@) matches Some(e) ==> e is Null,
    ensures
        response_outcome(status, Some(Ok(json))) == Ok::<JsonValue, ErrorView>(
            match json_get(json, "result"@) {
                Some(r) => r,
                None => json,
            },
        ),
{
}

/// A server address never keeps a trailing slash, so that a request path
/// (which starts with one) is joined to it without doubling it.
pub proof fn law_base_url_has_no_trailing_slash(url: Seq<char>)
    ensures
        trim_end_char(url, '/').len() == 0 || trim_end_char(url, '/').last() != '/',
        trim_end_char(url, '/').len() <= url.len(),
        trim_end_char(url, '/') == url.take(trim_end_char(url, '/').len() as int),
    decreases url.len(),
{
    if url.len() > 0 && url.last() == '/' {
        law_base_url_has_no_trailing_slash(url.drop_last());
        assert(url.drop_last().take(trim_end_char(url, '/').len() as int) =~= url.take(
            trim_end_char(url, '/').len() as int,
        ));
    } else {
        assert(url.take(url.len() as int) =~= url);
    }
}

/// Whether the body of an answer with this status is read at all.
pub fn response_has_body(status: u16) -> (b: bool)
    ensures
        b == !has_no_body(status),
{
    !(status == 204 || status == 202)
}

/// Interprets a server answer. `body` is the parsed body, or `None` when the
/// status says there is none to read; the answer to deserialize is the
/// envelope's `result` member when it has one.
pub fn handle_response(status: u16, body: Option<Result<JsonValue, JsonParseFailure>>) -> (r:
    Result<JsonValue, Error>)
    requires
        has_no_body(status) || body is Some,
    ensures
        result_view(r) == response_outcome(status, parsed_view(body)),
{
    if status == 204 || status == 202 {
        return Ok(JsonValue::Null);
    }
    match body {
        None => Ok(JsonValue::Null),
        Some(Err(failure)) => {
            let mut text = String::new();
            text.append("Failed to parse JSON response: ");
            text.append(failure.error.as_str());
            text.append("\n\nRaw response body:\n");
            text.append(failure.raw_body.as_str());
            Err(Error::Network(text))
        },
        Some(Ok(json)) => {
            if !(200 <= status && status < 300) {
                return Err(Error::Api(api_error_from_envelope(&json, status)));
            }
            let reported = match json.get("error") {
                Some(e) => {
                    if !e.is_null() {
                        let code = match e.get_str("code") {
                            Some(c) => c,
                            None => "UNKNOWN",
                        };
                        let message = match e.get_str("message") {
                            Some(m) => m,
                            None => "Unknown error",
                        };
                        let mut text = String::new();
                        text.append("[");
                        text.append(code);
                        text.append("] ");
                        text.append(message);
                        Some(text)
                    } else {
                        None
                    }
                },
                None => None,
            };
            match reported {
                Some(text) => Err(Error::Api(text)),
                None => Ok(json.into_member_or_self("result")),
            }
        },
    }
}

/// Interprets a server answer from its raw body: the body is read as JSON
/// only when the status says there is one, and must then be given.
pub fn handle_body(status: u16, body: Option<&[u8]>) -> (r: Result<JsonValue, Error>)
    requires
        has_no_body(status) || body is Some,
    ensures
        result_view(r) == response_outcome(
            status,
            match body {
                Some(b) => Some(body_parse(b@)),
                None => None,
            },
        ),
{
    if !response_has_body(status) {
        return handle_response(status, None);
    }
    match body {
        None => handle_response(status, None),
        Some(bytes) => match parse_json_body(bytes) {
            Ok(json) => handle_response(status, Some(Ok(json))),
            Err(error) => {
                let raw_body = lossy_text(bytes);
                handle_response(status, Some(Err(JsonParseFailure { error, raw_body })))
            },
        },
    }
}

/// The message for an answer whose JSON `body` does not deserialize into the
/// expected type; nothing when the body is no JSON document.
pub fn deserialize_failure_for_body(error: &str, body: &[u8]) -> (r: Option<Error>)
    ensures
        r is Some <==> json_document(body@) is Some,
        r matches Some(e) ==> e@ == ErrorView::Parse(
            "Failed to deserialize response: "@ + error@ + "\n\nJSON that failed to parse:\n"@
                + json_text(body@),
        ),
{
    match render_json_body(body) {
        Some(text) => Some(deserialize_failure(error, text.as_str())),
        None => None,
    }
}

/// The message for an answer that does not deserialize into the expected type.
pub fn deserialize_failure(error: &str, json_text: &str) -> (e: Error)
    ensures
        e@ == ErrorView::Parse(
            "Failed to deserialize response: "@ + error@ + "\n\nJSON that failed to parse:\n"@
                + json_text@,
        ),
{
    let mut text = String::new();
    text.append("Failed to deserialize response: ");
    text.append(error);
    text.append("\n\nJSON that failed to parse:\n");
    text.append(json_text);
    Error::Parse(text)
}

/// The message for a bodiless answer that the expected type cannot be read from.
pub fn empty_response_failure(error: &str) -> (e: Error)
    ensures
        e@ == ErrorView::Parse("Failed to parse empty response: "@ + error@),
{
    let mut text = String::new();
    text.append("Failed to parse empty response: ");
    text.append(error);
    Error::Parse(text)
}

impl BaseClient {
    /// A client with no identity, as used to probe a server's health.
    pub fn new_simple(base_url: &str, timeout_secs: TimeoutSecs) -> (c: BaseClient)
        ensures
            c.base_url@ == trim_end_char(base_url@, '/'),
            c.api_key is None,
            c.account is None,
            c.user is None,
            c.agent_id is None,
            c.timeout == timeout_secs,
            c.extra_headers is None,
    {
        BaseClient {
            base_url: trim_end_matches_char(base_url, '/'),
            api_key: None,
            account: None,
            user: None,
            agent_id: None,
            timeout: timeout_secs,
            extra_headers: None,
        }
    }

    /// A client speaking for the given identity; trailing slashes of the
    /// server address are dropped.
    pub fn new(
        base_url: &str,
        api_key: Option<String>,
        agent_id: Option<String>,
        account: Option<String>,
        user: Option<String>,
        timeout_secs: TimeoutSecs,
        extra_headers: Option<Vec<(String, String)>>,
    ) -> (c: BaseClient)
        ensures
            c.base_url@ == trim_end_char(base_url@, '/'),
            c.api_key == api_key,
            c.account == account,
            c.user == user,
            c.agent_id == agent_id,
            c.timeout == timeout_secs,
            c.extra_headers == extra_headers,
    {
        BaseClient {
            base_url: trim_end_matches_char(base_url, '/'),
            api_key,
            account,
            user,
            agent_id,
            timeout: timeout_secs,
            extra_headers,
        }
    }

    pub fn base_url(&self) -> (r: &str)
        ensures
            r@ == self.base_url@,
    {
        self.base_url.as_str()
    }

    pub fn user_id(&self) -> (r: Option<&str>)
        ensures
            opt_str_view(r) == opt_string_view(self.user),
    {
        opt_as_str(&self.user)
    }

    pub fn agent_id(&self) -> (r: Option<&str>)
        ensures
            opt_str_view(r) == opt_string_view(self.agent_id),
    {
        opt_as_str(&self.agent_id)
    }

    pub fn api_key(&self) -> (r: Option<&str>)
        ensures
            opt_str_view(r) == opt_string_view(self.api_key),
    {
        opt_as_str(&self.api_key)
    }

    /// The address of `path` on the server.
    pub fn request_url(&self, path: &str) -> (r: String)
        ensures
            r@ == self.base_url@ + path@,
    {
        let mut url = self.base_url.clone();
        url.append(path);
        url
    }

    /// The headers of every request: JSON content, the identity headers that are
    /// set and acceptable, then the configured extra headers in order. A value
    /// that is no valid header is left out; a later header replaces an earlier
    /// one of the same (case-insensitive) name.
    pub fn build_headers(&self) -> (headers: HeaderMap)
        requires
            extra_headers_fit(*self),
        ensures
            header_entries(headers) == expected_headers(*self),
    {
        let mut headers = new_header_map();
        insert_header(&mut headers, "content-type", "application/json");
        proof {
            lemma_with_header_size(Map::empty(), "content-type"@, "application/json"@);
        }
        set_optional_header(&mut headers, "X-API-Key", &self.api_key);
        set_optional_header(&mut headers, "X-OpenViking-Agent", &self.agent_id);
        set_optional_header(&mut headers, "X-OpenViking-Account", &self.account);
        set_optional_header(&mut headers, "X-OpenViking-User", &self.user);
        assert(header_entries(headers) == identity_headers(*self));
        if let Some(extra) = &self.extra_headers {
            let ghost start = header_entries(headers);
            let mut i: usize = 0;
            assert(extra@.take(0) =~= Seq::<(String, String)>::empty());
            while i < extra.len()
                invariant
                    i <= extra@.len(),
                    extra@.len() < 6550,
                    header_entries(headers) == with_extra_headers(start, extra@.take(i as int)),
                    header_entries(headers).dom().finite(),
                    header_entries(headers).dom().len() <= 5 + i,
                decreases extra.len() - i,
            {
                let pair = &extra[i];
                proof {
                    lemma_with_header_size(header_entries(headers), pair.0@, pair.1@);
                    assert(extra@.take(i + 1).drop_last() =~= extra@.take(i as int));
                }
                insert_header(&mut headers, pair.0.as_str(), pair.1.as_str());
                i = i + 1;
            }
            assert(extra@.take(extra@.len() as int) =~= extra@);
        }
        headers
    }
}

} // verus!
