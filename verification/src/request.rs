//! The request for the account's usage, and what its answer means.
use crate::text;
use crate::text::{followed_by, from_utf8_lossy, trim};
use vstd::prelude::*;
use vstd::string::*;

verus! {

/// Version this endpoint is known to accept. It is not the same value the chat endpoints send,
/// and passing an unrecognized version here can fail the request outright.
pub const GITHUB_API_VERSION: &'static str = "2025-04-01";

/// The number of characters of a response body that an error message quotes.
pub const MAX_ERROR_LEN: usize = 500;

/// An HTTP request without a body.
pub struct UsageRequest {
    pub method: String,
    pub uri: String,
    /// Names and values, in the order in which they are sent.
    pub headers: Vec<(String, String)>,
}

/// What the headers hold.
pub open spec fn header_texts(headers: Seq<(String, String)>) -> Seq<(Seq<char>, Seq<char>)> {
    headers.map_values(|header: (String, String)| (header.0@, header.1@))
}

/// How the editor names itself: by its version, or by `unknown` where it has none.
pub open spec fn editor_identity(version: Option<&str>) -> Seq<char> {
    "Zed/"@ + match version {
        Some(version) => version@,
        None => "unknown"@,
    }
}

/// The headers of the usage request, for an editor of that identity.
pub open spec fn usage_headers(oauth_token: Seq<char>, editor: Seq<char>) -> Seq<
    (Seq<char>, Seq<char>),
> {
    seq![
        ("Authorization"@, "token "@ + oauth_token),
        ("Accept"@, "application/json"@),
        ("Editor-Version"@, editor),
        ("Editor-Plugin-Version"@, editor),
        ("User-Agent"@, editor),
        ("X-GitHub-Api-Version"@, GITHUB_API_VERSION@),
    ]
}

/// The request for the usage of the account that `oauth_token` belongs to.
///
/// This is a GitHub REST endpoint rather than a chat endpoint: it wants the `token` authorization
/// scheme and editor identification, and none of the chat-completion headers.
pub fn usage_request(url: &str, oauth_token: &str, version: Option<&str>) -> (request:
    UsageRequest)
    ensures
        request.method@ == "GET"@,
        request.uri@ == url@,
        header_texts(request.headers@) == usage_headers(oauth_token@, editor_identity(version)),
{
    let editor = followed_by(
        "Zed/",
        match version {
            Some(version) => version,
            None => "unknown",
        },
    );
    let mut headers: Vec<(String, String)> = Vec::new();
    headers.push(("Authorization".to_owned(), followed_by("token ", oauth_token)));
    headers.push(("Accept".to_owned(), "application/json".to_owned()));
    headers.push(("Editor-Version".to_owned(), editor.clone()));
    headers.push(("Editor-Plugin-Version".to_owned(), editor.clone()));
    headers.push(("User-Agent".to_owned(), editor));
    headers.push(("X-GitHub-Api-Version".to_owned(), GITHUB_API_VERSION.to_owned()));
    assert(header_texts(headers@) =~= usage_headers(oauth_token@, editor_identity(version)));
    UsageRequest { method: "GET".to_owned(), uri: url.to_owned(), headers }
}

/// The text by which the `http` crate shows a status code.
pub uninterp spec fn status_text(code: u16) -> Seq<char>;

/// Calls `http::StatusCode::from_u16`, which takes the codes from 100 to 999, and shows the status
/// by its `Display`: the code, a space, and the canonical reason of that code, or a fixed text of
/// the `http` crate for a code that has none. The reasons are a table of that crate; they and the
/// fixed text are only named here.
#[verifier::external_body]
fn show_status(code: u16) -> (text: String)
    requires
        100 <= code <= 999,
    ensures
        text@ == status_text(code),
        text::decimal(code as nat).push(' ').is_prefix_of(text@),
{
    http::StatusCode::from_u16(code).unwrap().to_string()
}

/// `text` if it has at most `MAX_ERROR_LEN` characters, and otherwise that many of them and an
/// ellipsis.
pub open spec fn shortened(text: Seq<char>) -> Seq<char> {
    if text.len() > MAX_ERROR_LEN {
        text.take(MAX_ERROR_LEN as int) + "…"@
    } else {
        text
    }
}

/// What an error message quotes of a response body with that text.
pub fn shorten_for_error(body: &str) -> (quoted: String)
    ensures
        quoted@ == shortened(text::trimmed(body@)),
{
    let body = trim(body);
    if body.unicode_len() > MAX_ERROR_LEN {
        followed_by(body.substring_char(0, MAX_ERROR_LEN), "…")
    } else {
        body.to_owned()
    }
}

/// What an error message quotes of a response body.
pub fn truncate_for_error(body: &[u8]) -> (quoted: String)
    ensures
        quoted@ == shortened(text::trimmed(text::lossy_utf8(body@))),
        vstd::utf8::valid_utf8(body@) ==> quoted@ == shortened(
            text::trimmed(vstd::utf8::decode_utf8(body@)),
        ),
{
    let body = from_utf8_lossy(body);
    shorten_for_error(body.as_str())
}

/// The message for an unsuccessful answer.
pub open spec fn failure_message(
    url: Seq<char>,
    status: Seq<char>,
    quoted_body: Seq<char>,
) -> Seq<char> {
    "GET "@ + url + " failed: "@ + status + ": "@ + quoted_body
}

/// Writes the message for an unsuccessful answer.
pub fn describe_failure(url: &str, status: &str, quoted_body: &str) -> (message: String)
    ensures
        message@ == failure_message(url@, status@, quoted_body@),
{
    let mut message = followed_by("GET ", url);
    message.append(" failed: ");
    message.append(status);
    message.append(": ");
    message.append(quoted_body);
    message
}

/// Whether a status code is one of success.
pub open spec fn is_success(status: u16) -> bool {
    200 <= status < 300
}

/// Accepts a successful answer and says what went wrong of another one.
///
/// The message quotes the body: this endpoint is undocumented enough that the status alone is
/// rarely actionable, and GitHub explains authorization and entitlement problems there.
pub fn check_response(url: &str, status: u16, body: &[u8]) -> (checked: Result<(), String>)
    requires
        100 <= status <= 999,
    ensures
        checked is Ok <==> is_success(status),
        checked matches Err(message) ==> message@ == failure_message(
            url@,
            status_text(status),
            shortened(text::trimmed(text::lossy_utf8(body@))),
        ),
        checked matches Err(message) ==> vstd::utf8::valid_utf8(body@) ==> message@
            == failure_message(
            url@,
            status_text(status),
            shortened(text::trimmed(vstd::utf8::decode_utf8(body@))),
        ),
        checked matches Err(message) ==> ("GET "@ + url@ + " failed: "@ + text::decimal(
            status as nat,
        )).is_prefix_of(message@),
{
    if 200 <= status && status < 300 {
        return Ok(());
    }
    let shown = show_status(status);
    let quoted_body = truncate_for_error(body);
    let message = describe_failure(url, shown.as_str(), quoted_body.as_str());
    proof {
        let code = text::decimal(status as nat);
        let start = "GET "@ + url@ + " failed: "@ + code;
        let numbered = code.push(' ');
        assert forall|i: int| 0 <= i < code.len() implies code[i] == shown@[i] by {
            assert(numbered[i] == shown@.subrange(0, numbered.len() as int)[i]);
        }
        assert(start =~= message@.subrange(0, start.len() as int));
    }
    Err(message)
}

/// An error message quotes at most `MAX_ERROR_LEN` characters of a body and an ellipsis. It starts
/// as the body does, white space aside, and a body of no more than that length is quoted whole.
pub proof fn law_quote_is_short(body: Seq<char>, n: nat)
    requires
        n <= MAX_ERROR_LEN,
        n <= text::trimmed(body).len(),
    ensures
        shortened(text::trimmed(body)).len() <= MAX_ERROR_LEN + 1,
        shortened(text::trimmed(body)).take(n as int) == text::trimmed(body).take(n as int),
        body.len() <= MAX_ERROR_LEN ==> shortened(text::trimmed(body)) == text::trimmed(body),
{
    reveal_strlit("…");
    text::lemma_trimmed(body);
    let trimmed = text::trimmed(body);
    assert(shortened(trimmed).take(n as int) =~= trimmed.take(n as int));
}

/// The token goes into the authorization header and nowhere else: two requests to the same
/// endpoint that differ in the token differ in that header alone.
pub proof fn law_token_only_authorizes(one: Seq<char>, other: Seq<char>, editor: Seq<char>, i: int)
    requires
        0 < i < usage_headers(one, editor).len(),
    ensures
        usage_headers(one, editor)[i] == usage_headers(other, editor)[i],
        usage_headers(one, editor)[0] == ("Authorization"@, "token "@ + one),
        usage_headers(one, editor).len() == usage_headers(other, editor).len(),
{
}

} // verus!
