use copilot_usage::request::{
    check_response, describe_failure, shorten_for_error, truncate_for_error, usage_request,
};
use copilot_usage::text::{followed_by, decimal_text, join_lines, split_first, trim};

const URL: &str = "https://api.github.com/copilot_internal/user";

#[test]
fn request_identifies_account_and_editor() {
    let request = usage_request(URL, "ghu_abc", Some("1.2.3"));
    assert_eq!(request.method, "GET");
    assert_eq!(request.uri, URL);
    let expected = [
        ("Authorization", "token ghu_abc"),
        ("Accept", "application/json"),
        ("Editor-Version", "Zed/1.2.3"),
        ("Editor-Plugin-Version", "Zed/1.2.3"),
        ("User-Agent", "Zed/1.2.3"),
        ("X-GitHub-Api-Version", "2025-04-01"),
    ];
    assert_eq!(request.headers.len(), expected.len());
    for (header, (name, value)) in request.headers.iter().zip(expected) {
        assert_eq!((header.0.as_str(), header.1.as_str()), (name, value));
    }
}

#[test]
fn request_of_an_unversioned_editor() {
    let request = usage_request(URL, "ghu_abc", None);
    assert_eq!(request.headers[2].1, "Zed/unknown");
    assert_eq!(request.headers[3].1, "Zed/unknown");
    assert_eq!(request.headers[4].1, "Zed/unknown");
}

#[test]
fn token_only_authorizes() {
    let one = usage_request(URL, "ghu_one", Some("1.0"));
    let other = usage_request(URL, "ghu_other", Some("1.0"));
    assert_ne!(one.headers[0], other.headers[0]);
    assert_eq!(one.headers[1..], other.headers[1..]);
}

#[test]
fn successful_statuses_are_accepted() {
    for status in 100..=999 {
        let checked = check_response(URL, status, b"{}");
        assert_eq!(checked.is_ok(), (200..300).contains(&status));
    }
}

#[test]
fn failures_show_status_and_body() {
    assert_eq!(
        check_response("https://host/x", 404, b" {\"message\": \"Not Found\"}\n"),
        Err("GET https://host/x failed: 404 Not Found: {\"message\": \"Not Found\"}".to_string())
    );
    assert_eq!(
        check_response("u", 599, b""),
        Err("GET u failed: 599 <unknown status code>: ".to_string())
    );
    assert_eq!(describe_failure("u", "401 Unauthorized", "no"), "GET u failed: 401 Unauthorized: no");
}

#[test]
fn failures_show_each_status_as_the_http_crate_does() {
    for status in (100..=999).filter(|status| !(200..300).contains(status)) {
        let shown = http::StatusCode::from_u16(status).unwrap().to_string();
        assert_eq!(
            check_response("u", status, b"body"),
            Err(format!("GET u failed: {shown}: body"))
        );
    }
}

#[test]
fn long_bodies_are_cut() {
    assert_eq!(truncate_for_error(&[b'a'; 500]), "a".repeat(500));
    assert_eq!(truncate_for_error(&[b'a'; 501]), format!("{}…", "a".repeat(500)));
    let body = "é".repeat(700);
    assert_eq!(truncate_for_error(body.as_bytes()), format!("{}…", "é".repeat(500)));
    // The white space around the body does not count.
    let body = format!("  \n{}\t ", "a".repeat(500));
    assert_eq!(truncate_for_error(body.as_bytes()), "a".repeat(500));
    // What is cut off is not trimmed again.
    let body = format!("{} {}", "a".repeat(499), "b".repeat(10));
    assert_eq!(shorten_for_error(&body), format!("{} …", "a".repeat(499)));
}

#[test]
fn short_bodies_are_quoted_whole() {
    assert_eq!(truncate_for_error(b""), "");
    assert_eq!(truncate_for_error(b" \r\n\t"), "");
    assert_eq!(truncate_for_error(b"  two words \n"), "two words");
    assert_eq!(truncate_for_error("\u{a0}\u{3000}x\u{2028}".as_bytes()), "x");
}

#[test]
fn invalid_utf8_is_replaced() {
    assert_eq!(truncate_for_error(b"a\xffb"), "a\u{fffd}b");
    assert_eq!(truncate_for_error(b"\xe2\x82"), "\u{fffd}");
    assert_eq!(truncate_for_error("…".as_bytes()), "…");
}

#[test]
fn white_space_is_the_unicode_property() {
    let listed = |c: char| {
        matches!(
            c as u32,
            0x09..=0x0d
                | 0x20
                | 0x85
                | 0xa0
                | 0x1680
                | 0x2000..=0x200a
                | 0x2028
                | 0x2029
                | 0x202f
                | 0x205f
                | 0x3000
        )
    };
    for c in (0..=0x10ffff).filter_map(char::from_u32) {
        assert_eq!(trim(c.to_string().as_str()).is_empty(), listed(c), "{:x}", c as u32);
    }
}

#[test]
fn trimming_agrees_with_std() {
    for text in ["", " ", "a", " a", "a ", " a b ", "\n\n\u{2003}a\u{2003}b\u{85}", "\u{200b}a"] {
        assert_eq!(trim(text), text.trim());
    }
}

#[test]
fn numerals_are_decimal() {
    for n in [0, 1, 9, 10, 99, 100, 12345, 1000000, u32::MAX] {
        assert_eq!(decimal_text(n), n.to_string());
    }
}

#[test]
fn texts_are_put_together_and_split() {
    assert_eq!(followed_by("a", "b"), "ab");
    let lines = |lines: &[&str]| lines.iter().map(|line| line.to_string()).collect::<Vec<_>>();
    assert_eq!(join_lines(&lines(&[])), "");
    assert_eq!(join_lines(&lines(&["a"])), "a");
    assert_eq!(join_lines(&lines(&["a", "", "b"])), "a\n\nb");
    assert_eq!(split_first("a:b:c", ':'), "a");
    assert_eq!(split_first("abc", ':'), "abc");
}
