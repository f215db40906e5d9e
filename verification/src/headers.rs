//! HTTP headers: those of a request, and what those of a response say.

use reqwest::header::{HeaderMap, HeaderValue, InvalidHeaderValue, ToStrError};
use vstd::prelude::*;
use vstd::utf8::*;

use crate::credentials::{CodexCredentials, CredentialsView};
use crate::error::{ClientError, ClientErrorView};
use crate::json::view_of;
use crate::text::{
    ascii_lower, concat3, contains, occurs_in, parse_unsigned, to_ascii_lower, trimmed, unsigned_of,
};
use crate::time::{Duration, NANOS_PER_SEC};

verus! {

// ---------------------------------------------------------------------------
// Header maps
// ---------------------------------------------------------------------------

#[verifier::external_type_specification]
#[verifier::external_body]
#[verifier::reject_recursive_types(T)]
pub struct ExHeaderMap<T>(HeaderMap<T>);

#[verifier::external_type_specification]
#[verifier::external_body]
pub struct ExHeaderValue(HeaderValue);

#[verifier::external_type_specification]
#[verifier::external_body]
pub struct ExInvalidHeaderValue(InvalidHeaderValue);

#[verifier::external_type_specification]
#[verifier::external_body]
pub struct ExToStrError(ToStrError);

/// The bytes that a header value holds.
pub uninterp spec fn value_bytes(value: HeaderValue) -> Seq<u8>;

/// What a header map holds: for each name, in lower case, the bytes of its values in
/// the order in which they were added.
pub uninterp spec fn header_values(headers: HeaderMap) -> Map<Seq<char>, Seq<Seq<u8>>>;

/// Whether a byte may stand in a header value.
pub open spec fn is_value_byte(b: u8) -> bool {
    (b >= 32 && b != 127) || b == 9
}

/// Whether a byte is visible ASCII, a space or a tab.
pub open spec fn is_visible_byte(b: u8) -> bool {
    32 <= b < 127 || b == 9
}

/// Whether a text can be a header value.
pub open spec fn is_value_text(text: Seq<char>) -> bool {
    forall|i: int|
        0 <= i < encode_utf8(text).len() ==> is_value_byte(#[trigger] encode_utf8(text)[i])
}

/// Whether bytes can be read as a header text.
pub open spec fn is_visible(bytes: Seq<u8>) -> bool {
    forall|i: int| 0 <= i < bytes.len() ==> is_visible_byte(#[trigger] bytes[i])
}

/// The text of visible bytes.
pub open spec fn visible_text(bytes: Seq<u8>) -> Seq<char> {
    bytes.map_values(|b: u8| b as char)
}

/// Whether a name is made of letters and hyphens alone, and is no longer than any header
/// name of this library.
pub open spec fn is_plain_name(name: Seq<char>) -> bool {
    0 < name.len() <= 64 && forall|i: int|
        0 <= i < name.len() ==> {
            let c = #[trigger] name[i];
            ('a' <= c && c <= 'z') || ('A' <= c && c <= 'Z') || c == '-'
        }
}

/// `HeaderValue::from_str` takes every text whose bytes are printable or a tab, and
/// holds those bytes. Bytes beyond ASCII count as printable.
pub assume_specification[ HeaderValue::from_str ](src: &str) -> (r: Result<
    HeaderValue,
    InvalidHeaderValue,
>)
    ensures
        r is Ok <==> is_value_text(src@),
        r is Ok ==> value_bytes(r->Ok_0) == encode_utf8(src@),
;

/// `HeaderValue::from_static` holds the bytes of a text of visible ASCII. It panics on
/// any other text.
pub assume_specification[ HeaderValue::from_static ](src: &'static str) -> (r: HeaderValue)
    requires
        is_visible(encode_utf8(src@)),
    ensures
        value_bytes(r) == encode_utf8(src@),
;

/// `HeaderValue::to_str` gives the text of a value whose bytes are all visible ASCII, a
/// space or a tab, and an error for any other value.
pub assume_specification[ HeaderValue::to_str ](value: &HeaderValue) -> (r: Result<
    &str,
    ToStrError,
>)
    ensures
        r is Ok <==> is_visible(value_bytes(*value)),
        r is Ok ==> r->Ok_0@ == visible_text(value_bytes(*value)),
;

/// `HeaderMap::new`: a map without headers.
#[verifier::external_body]
fn no_headers() -> (r: HeaderMap)
    ensures
        header_values(r).dom() == Set::<Seq<char>>::empty(),
{
    HeaderMap::new()
}

/// `HeaderMap::insert`: makes `value` the only value of the header `name`, whose case
/// does not matter. What the name had before is dropped. A map grows by doubling and
/// panics beyond 32768 slots, which one with few names does not reach.
#[verifier::external_body]
fn insert_header(headers: &mut HeaderMap, name: &'static str, value: HeaderValue)
    requires
        is_plain_name(name@),
        header_values(*old(headers)).dom().finite(),
        header_values(*old(headers)).dom().len() < 1000,
    ensures
        header_values(*final(headers)) == header_values(*old(headers)).insert(
            ascii_lower(name@),
            seq![value_bytes(value)],
        ),
{
    headers.insert(name, value);
}

/// `HeaderMap::get`: the first value of the header `name`, whose case does not matter.
#[verifier::external_body]
fn get_header<'a>(headers: &'a HeaderMap, name: &str) -> (r: Option<&'a HeaderValue>)
    requires
        is_plain_name(name@),
    ensures
        match r {
            Some(value) => header_values(*headers).dom().contains(ascii_lower(name@))
                && header_values(*headers)[ascii_lower(name@)].len() > 0 && value_bytes(*value)
                == header_values(*headers)[ascii_lower(name@)][0],
            None => !header_values(*headers).dom().contains(ascii_lower(name@)),
        },
{
    headers.get(name)
}

/// The `Display` of `InvalidHeaderValue`, which is the same for every value.
#[verifier::external_body]
fn invalid_value_message(e: &InvalidHeaderValue) -> (r: String)
    ensures
        r@ == "failed to parse header value"@,
{
    e.to_string()
}

// ---------------------------------------------------------------------------
// The headers of a request
// ---------------------------------------------------------------------------

/// A header that holds one text.
pub open spec fn single(text: Seq<char>) -> Seq<Seq<u8>> {
    seq![encode_utf8(text)]
}

/// The value of the `Authorization` header for an access token.
pub open spec fn bearer(access_token: Seq<char>) -> Seq<char> {
    "Bearer "@ + access_token
}

/// What a request accepts.
pub open spec fn accepted(stream: bool) -> Seq<char> {
    if stream {
        "text/event-stream"@
    } else {
        "application/json"@
    }
}

/// The headers that every request has.
pub open spec fn common_headers(access_token: Seq<char>, stream: bool) -> Map<
    Seq<char>,
    Seq<Seq<u8>>,
> {
    map![
        "authorization"@ => single(bearer(access_token)),
        "content-type"@ => single("application/json"@),
        "accept"@ => single(accepted(stream)),
        "user-agent"@ => single("codex_cli_rs/0.0.0 (chatgpt-oauth)"@),
        "originator"@ => single("codex_cli_rs"@),
    ]
}

/// The headers of a request. The account is named where there is one that a header can
/// hold.
pub open spec fn request_headers(creds: CredentialsView, stream: bool) -> Map<
    Seq<char>,
    Seq<Seq<u8>>,
> {
    let common = common_headers(creds.access_token, stream);
    match creds.account_id {
        Some(id) => if is_value_text(id) {
            common.insert("chatgpt-account-id"@, single(id))
        } else {
            common
        },
        None => common,
    }
}

/// The names of the headers of a request, in lower case.
proof fn lemma_names()
    ensures
        is_plain_name("Authorization"@),
        is_plain_name("Content-Type"@),
        is_plain_name("Accept"@),
        is_plain_name("User-Agent"@),
        is_plain_name("originator"@),
        is_plain_name("ChatGPT-Account-ID"@),
        ascii_lower("Authorization"@) == "authorization"@,
        ascii_lower("Content-Type"@) == "content-type"@,
        ascii_lower("Accept"@) == "accept"@,
        ascii_lower("User-Agent"@) == "user-agent"@,
        ascii_lower("originator"@) == "originator"@,
        ascii_lower("ChatGPT-Account-ID"@) == "chatgpt-account-id"@,
{
    reveal_strlit("Authorization");
    reveal_strlit("Content-Type");
    reveal_strlit("Accept");
    reveal_strlit("User-Agent");
    reveal_strlit("originator");
    reveal_strlit("ChatGPT-Account-ID");
    reveal_strlit("authorization");
    reveal_strlit("content-type");
    reveal_strlit("accept");
    reveal_strlit("user-agent");
    reveal_strlit("chatgpt-account-id");
    assert(ascii_lower("Authorization"@) =~= "authorization"@);
    assert(ascii_lower("Content-Type"@) =~= "content-type"@);
    assert(ascii_lower("Accept"@) =~= "accept"@);
    assert(ascii_lower("User-Agent"@) =~= "user-agent"@);
    assert(ascii_lower("originator"@) =~= "originator"@);
    assert(ascii_lower("ChatGPT-Account-ID"@) =~= "chatgpt-account-id"@);
}

/// The fixed values of headers are visible ASCII.
proof fn lemma_fixed_values()
    ensures
        is_visible(encode_utf8("application/json"@)),
        is_visible(encode_utf8("text/event-stream"@)),
        is_visible(encode_utf8("codex_cli_rs/0.0.0 (chatgpt-oauth)"@)),
        is_visible(encode_utf8("codex_cli_rs"@)),
{
    reveal_strlit("application/json");
    reveal_strlit("text/event-stream");
    reveal_strlit("codex_cli_rs/0.0.0 (chatgpt-oauth)");
    reveal_strlit("codex_cli_rs");
    is_ascii_chars_encode_utf8("application/json"@);
    is_ascii_chars_encode_utf8("text/event-stream"@);
    is_ascii_chars_encode_utf8("codex_cli_rs/0.0.0 (chatgpt-oauth)"@);
    is_ascii_chars_encode_utf8("codex_cli_rs"@);
}

/// The headers of a request with `creds`. Fails where the token cannot stand in a
/// header.
pub fn build_headers(creds: &CodexCredentials, stream: bool) -> (r: Result<HeaderMap, ClientError>)
    ensures
        match r {
            Ok(headers) => is_value_text(bearer(creds@.access_token)) && header_values(headers)
                == request_headers(creds@, stream),
            Err(e) => !is_value_text(bearer(creds@.access_token)) && e@ == ClientErrorView::Other(
                "failed to parse header value"@,
            ),
        },
{
    proof {
        lemma_names();
        lemma_fixed_values();
    }
    let token = "Bearer ".to_owned().concat(creds.access_token.as_str());
    let authorization = match HeaderValue::from_str(token.as_str()) {
        Ok(value) => value,
        Err(e) => {
            return Err(ClientError::Other(invalid_value_message(&e)));
        },
    };
    let mut headers = no_headers();
    insert_header(&mut headers, "Authorization", authorization);
    insert_header(&mut headers, "Content-Type", HeaderValue::from_static("application/json"));
    let accept = if stream {
        HeaderValue::from_static("text/event-stream")
    } else {
        HeaderValue::from_static("application/json")
    };
    insert_header(&mut headers, "Accept", accept);
    insert_header(
        &mut headers,
        "User-Agent",
        HeaderValue::from_static("codex_cli_rs/0.0.0 (chatgpt-oauth)"),
    );
    insert_header(&mut headers, "originator", HeaderValue::from_static("codex_cli_rs"));
    assert(header_values(headers) =~= common_headers(creds@.access_token, stream));
    if let Some(account_id) = &creds.account_id {
        if let Ok(value) = HeaderValue::from_str(account_id.as_str()) {
            insert_header(&mut headers, "ChatGPT-Account-ID", value);
        }
    }
    Ok(headers)
}

// ---------------------------------------------------------------------------
// The headers of a response
// ---------------------------------------------------------------------------

/// The longest wait, in seconds, that a server can ask for. A longer one is cut down to
/// it, so that no server can hold a caller up for long.
pub const MAX_RETRY_AFTER_SECS: u64 = 60;

/// The text of the first value of the header `name`, if it is visible ASCII.
pub open spec fn header_text(values: Map<Seq<char>, Seq<Seq<u8>>>, name: Seq<char>) -> Option<
    Seq<char>,
> {
    if values.dom().contains(name) && is_visible(values[name][0]) {
        Some(visible_text(values[name][0]))
    } else {
        None
    }
}

/// The seconds that a `Retry-After` asks for, cut down to the longest wait. Only a
/// number counts.
pub open spec fn retry_secs(text: Seq<char>) -> Option<u64> {
    match unsigned_of(trimmed(text)) {
        Some(secs) => Some(
            if secs <= MAX_RETRY_AFTER_SECS {
                secs
            } else {
                MAX_RETRY_AFTER_SECS
            },
        ),
        None => None,
    }
}

/// The wait, in nanoseconds, that the headers of a response ask for.
pub open spec fn retry_after_in(values: Map<Seq<char>, Seq<Seq<u8>>>) -> Option<nat> {
    match header_text(values, "retry-after"@) {
        Some(text) => match retry_secs(text) {
            Some(secs) => Some(secs as nat * NANOS_PER_SEC as nat),
            None => None,
        },
        None => None,
    }
}

/// The failure that a response without success stands for.
pub open spec fn http_failure(
    status: u16,
    values: Map<Seq<char>, Seq<Seq<u8>>>,
    body: Seq<char>,
) -> ClientErrorView {
    if status == 429 {
        ClientErrorView::RateLimited { retry_after: retry_after_in(values) }
    } else if 500 <= status < 600 {
        ClientErrorView::Server { status, body }
    } else {
        ClientErrorView::Http { status, body }
    }
}

/// The type of a response that is meant to be a stream of events, in lower case, where
/// it says that it is something else. A response without a type may well be a stream.
pub open spec fn other_content_type(values: Map<Seq<char>, Seq<Seq<u8>>>) -> Option<Seq<char>> {
    match header_text(values, "content-type"@) {
        Some(text) => if occurs_in(ascii_lower(text), "text/event-stream"@) {
            None
        } else {
            Some(ascii_lower(text))
        },
        None => None,
    }
}

proof fn lemma_response_names()
    ensures
        is_plain_name("retry-after"@),
        is_plain_name("content-type"@),
        ascii_lower("retry-after"@) == "retry-after"@,
        ascii_lower("content-type"@) == "content-type"@,
{
    reveal_strlit("retry-after");
    reveal_strlit("content-type");
    assert(ascii_lower("retry-after"@) =~= "retry-after"@);
    assert(ascii_lower("content-type"@) =~= "content-type"@);
}

fn header_str<'a>(headers: &'a HeaderMap, name: &str) -> (r: Option<&'a str>)
    requires
        is_plain_name(name@),
        ascii_lower(name@) == name@,
    ensures
        view_of(r) == header_text(header_values(*headers), name@),
{
    match get_header(headers, name) {
        Some(value) => match value.to_str() {
            Ok(text) => Some(text),
            Err(_) => None,
        },
        None => None,
    }
}

/// The wait that the headers of a response ask for in seconds, a minute at most.
pub fn parse_retry_after(headers: &HeaderMap) -> (r: Option<Duration>)
    ensures
        view_of(r) == retry_after_in(header_values(*headers)),
{
    proof {
        lemma_response_names();
    }
    match header_str(headers, "retry-after") {
        Some(text) => match parse_unsigned(text.trim()) {
            Some(secs) => Some(
                Duration::from_secs(secs).min(Duration::from_secs(MAX_RETRY_AFTER_SECS)),
            ),
            None => None,
        },
        None => None,
    }
}

/// The failure that a response without success stands for: of a rate limit for 429, of
/// the server for 5xx, and of HTTP for any other status.
pub fn http_error(status: u16, headers: &HeaderMap, body: String) -> (r: ClientError)
    ensures
        r@ == http_failure(status, header_values(*headers), body@),
{
    if status == 429 {
        ClientError::RateLimited { retry_after: parse_retry_after(headers) }
    } else if 500 <= status && status < 600 {
        ClientError::Server { status, body }
    } else {
        ClientError::Http { status, body }
    }
}

/// The type of a response that is meant to be a stream of events, in lower case, where
/// it says that it is something else.
pub fn unexpected_content_type(headers: &HeaderMap) -> (r: Option<String>)
    ensures
        view_of(r) == other_content_type(header_values(*headers)),
{
    proof {
        lemma_response_names();
    }
    match header_str(headers, "content-type") {
        Some(text) => {
            let lower = to_ascii_lower(text);
            if contains(lower.as_str(), "text/event-stream") {
                None
            } else {
                Some(lower)
            }
        },
        None => None,
    }
}

/// The failure for a response that is no stream of events.
pub fn content_type_error(content_type: &str, body: &str) -> (r: ClientError)
    ensures
        r@ == ClientErrorView::Protocol(
            "expected text/event-stream from /responses but got content-type `"@ + content_type@
                + "`: "@ + body@,
        ),
{
    let prefix = concat3(
        "expected text/event-stream from /responses but got content-type `",
        content_type,
        "`: ",
    );
    ClientError::Protocol(prefix.concat(body))
}

// ---------------------------------------------------------------------------
// Laws
// ---------------------------------------------------------------------------

/// Whatever a server asks for, the wait is a minute at most.
pub proof fn lemma_retry_after_is_capped(values: Map<Seq<char>, Seq<Seq<u8>>>)
    ensures
        retry_after_in(values) is Some ==> retry_after_in(values)->Some_0 <= 60 * NANOS_PER_SEC,
{
}

/// The failure of a response tells its status.
pub proof fn lemma_failure_tells_the_status(
    status: u16,
    values: Map<Seq<char>, Seq<Seq<u8>>>,
    body: Seq<char>,
)
    ensures
        http_failure(status, values, body).http_status() == Some(status),
{
}

/// A request without side effects may be sent again exactly after a rate limit or a
/// failure of the server; one with side effects only after a rate limit.
pub proof fn lemma_retry_by_status(
    status: u16,
    values: Map<Seq<char>, Seq<Seq<u8>>>,
    body: Seq<char>,
)
    ensures
        http_failure(status, values, body).retryable() <==> (status == 429 || 500 <= status
            < 600),
        http_failure(status, values, body).retryable_non_idempotent() <==> status == 429,
{
}

} // verus!
