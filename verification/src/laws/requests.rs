//! Laws of the usage request and of the message for an unsuccessful answer.
use crate::laws::texts;
use crate::request;
use crate::text;
use vstd::prelude::*;

verus! {

/// Whether exactly one header has that name, and it has that value.
pub open spec fn carries_once(
    headers: Seq<(Seq<char>, Seq<char>)>,
    name: Seq<char>,
    value: Seq<char>,
) -> bool {
    exists|i: int|
        {
            &&& 0 <= i < headers.len()
            &&& #[trigger] headers[i] == (name, value)
            &&& forall|j: int| 0 <= j < headers.len() && #[trigger] headers[j].0 == name ==> j == i
        }
}

/// The name of an editor of that version.
pub open spec fn named_editor(version: Option<&str>) -> Seq<char> {
    seq!['Z', 'e', 'd', '/'] + match version {
        Some(version) => version@,
        None => "unknown"@,
    }
}

proof fn lemma_header_names()
    ensures
        "Authorization"@.len() == 13,
        "Accept"@.len() == 6,
        "Editor-Version"@.len() == 14,
        "Editor-Plugin-Version"@.len() == 21,
        "User-Agent"@.len() == 10,
        "X-GitHub-Api-Version"@.len() == 20,
        "Zed/"@ == seq!['Z', 'e', 'd', '/'],
{
    reveal_strlit("Authorization");
    reveal_strlit("Accept");
    reveal_strlit("Editor-Version");
    reveal_strlit("Editor-Plugin-Version");
    reveal_strlit("User-Agent");
    reveal_strlit("X-GitHub-Api-Version");
    reveal_strlit("Zed/");
    assert("Zed/"@ =~= seq!['Z', 'e', 'd', '/']);
}

/// For every token and editor, the request carries these six headers, each once, and no others:
/// the token as authorization, the accepted type, the editor by its version in three headers, and
/// the one version of the interface that the endpoint is known to accept.
pub proof fn law_request_carries(oauth_token: Seq<char>, version: Option<&str>)
    ensures
        ({
            let headers = request::usage_headers(oauth_token, request::editor_identity(version));
            &&& headers.len() == 6
            &&& carries_once(headers, "Authorization"@, "token "@ + oauth_token)
            &&& carries_once(headers, "Accept"@, "application/json"@)
            &&& carries_once(headers, "Editor-Version"@, named_editor(version))
            &&& carries_once(headers, "Editor-Plugin-Version"@, named_editor(version))
            &&& carries_once(headers, "User-Agent"@, named_editor(version))
            &&& carries_once(headers, "X-GitHub-Api-Version"@, "2025-04-01"@)
        }),
{
    lemma_header_names();
    let editor = named_editor(version);
    let headers = request::usage_headers(oauth_token, request::editor_identity(version));
    assert(request::editor_identity(version) =~= editor);
    assert(headers[0] == ("Authorization"@, "token "@ + oauth_token));
    assert(headers[1] == ("Accept"@, "application/json"@));
    assert(headers[2] == ("Editor-Version"@, editor));
    assert(headers[3] == ("Editor-Plugin-Version"@, editor));
    assert(headers[4] == ("User-Agent"@, editor));
    assert(headers[5] == ("X-GitHub-Api-Version"@, "2025-04-01"@));
}

/// Requests of different editors differ at most in the three headers that name the editor, and
/// requests for different accounts at most in the authorization.
pub proof fn law_requests_differ_only_in_their_own_headers(
    token: Seq<char>,
    other_token: Seq<char>,
    editor: Seq<char>,
    other_editor: Seq<char>,
    i: int,
)
    requires
        0 <= i < request::usage_headers(token, editor).len(),
    ensures
        ({
            let headers = request::usage_headers(token, editor);
            let of_editor = request::usage_headers(token, other_editor);
            let of_account = request::usage_headers(other_token, editor);
            &&& headers.len() == of_editor.len()
            &&& headers.len() == of_account.len()
            &&& headers[i].0 == of_editor[i].0
            &&& headers[i].0 == of_account[i].0
            &&& headers[i] != of_editor[i] ==> headers[i].0 == "Editor-Version"@ || headers[i].0
                == "Editor-Plugin-Version"@ || headers[i].0 == "User-Agent"@
            &&& headers[i] != of_account[i] ==> headers[i].0 == "Authorization"@
        }),
{
}

/// What a list of headers holds, header by header.
pub proof fn law_header_texts(headers: Seq<(String, String)>, i: int)
    requires
        0 <= i < headers.len(),
    ensures
        request::header_texts(headers).len() == headers.len(),
        request::header_texts(headers)[i] == (headers[i].0@, headers[i].1@),
{
}

/// What is quoted of a body is its text without the white space around it: whole if that has at
/// most 500 characters, and else the first 500 of them and an ellipsis.
pub proof fn law_quote(body: Seq<char>)
    ensures
        exists|kept: Seq<char>| #[trigger]
            texts::is_trimmed(body, kept) && request::shortened(text::trimmed(body)) == if kept.len()
                <= 500 {
                kept
            } else {
                kept.take(500).push('…')
            },
{
    let kept = text::trimmed(body);
    texts::law_trimmed(body);
    reveal_strlit("…");
    assert(kept.take(500) + "…"@ =~= kept.take(500).push('…'));
}

/// The message for an unsuccessful answer names the request, the status and the quote, in this
/// order, each whole.
pub proof fn law_failure_message_parts(url: Seq<char>, status: Seq<char>, quote: Seq<char>)
    ensures
        ({
            let message = request::failure_message(url, status, quote);
            let url_end: int = 4 + url.len() as int;
            let status_at: int = url_end + 9;
            let status_end: int = status_at + status.len();
            let quote_at: int = status_end + 2;
            &&& message.len() == quote_at + quote.len()
            &&& message.take(4) == "GET "@
            &&& message.subrange(4, url_end) == url
            &&& message.subrange(url_end, status_at) == " failed: "@
            &&& message.subrange(status_at, status_end) == status
            &&& message.subrange(status_end, quote_at) == ": "@
            &&& message.skip(quote_at) == quote
        }),
{
    reveal_strlit("GET ");
    reveal_strlit(" failed: ");
    reveal_strlit(": ");
    let message = request::failure_message(url, status, quote);
    let url_end: int = 4 + url.len() as int;
    let status_at: int = url_end + 9;
    let status_end: int = status_at + status.len();
    let quote_at: int = status_end + 2;
    assert(message.take(4) =~= "GET "@);
    assert(message.subrange(4, url_end) =~= url);
    assert(message.subrange(url_end, status_at) =~= " failed: "@);
    assert(message.subrange(status_at, status_end) =~= status);
    assert(message.subrange(status_end, quote_at) =~= ": "@);
    assert(message.skip(quote_at) =~= quote);
}

/// The successful statuses are those from 200 to 299.
pub proof fn law_success_is_in_the_two_hundreds(status: u16)
    ensures
        request::is_success(status) <==> status / 100 == 2,
{
}

} // verus!
