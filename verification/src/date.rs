//! The date of a reset report, which is a bare `YYYY-MM-DD` or a full RFC 3339 timestamp.
use crate::text;
use crate::text::{chars, split_first};
use vstd::prelude::*;
use vstd::string::*;

verus! {

/// Whether a character is a decimal digit.
pub open spec fn is_digit(c: char) -> bool {
    '0' <= c <= '9'
}

/// Whether `text` has two digits at `i`.
pub open spec fn two_digits(text: Seq<char>, i: int) -> bool {
    is_digit(text[i]) && is_digit(text[i + 1])
}

/// Whether `text` starts with a date of the form `YYYY-MM-DD`.
pub open spec fn starts_with_date(text: Seq<char>) -> bool {
    &&& text.len() >= 10
    &&& two_digits(text, 0)
    &&& two_digits(text, 2)
    &&& text[4] == '-'
    &&& two_digits(text, 5)
    &&& text[7] == '-'
    &&& two_digits(text, 8)
}

/// Whether a character may stand between the date and the time of a timestamp: `T` or, as
/// section 5.6 of RFC 3339 also allows, `t` or a space.
pub open spec fn separates_time(c: char) -> bool {
    c == 'T' || c == 't' || c == ' '
}

/// Whether `text` starts with a date and a time of the form `hh:mm:ss`, as every RFC 3339
/// timestamp does.
pub open spec fn starts_with_date_and_time(text: Seq<char>) -> bool {
    &&& text.len() >= 19
    &&& starts_with_date(text)
    &&& separates_time(text[10])
    &&& two_digits(text, 11)
    &&& text[13] == ':'
    &&& two_digits(text, 14)
    &&& text[16] == ':'
    &&& two_digits(text, 17)
}

/// The date of a report: of a timestamp its first ten characters, and of anything else what stands
/// before the first `T`.
pub open spec fn date_part(report: Seq<char>) -> Seq<char> {
    if starts_with_date_and_time(report) {
        report.take(10)
    } else {
        text::before(report, 'T')
    }
}

fn digit_pair(text: &Vec<char>, i: usize) -> (r: bool)
    requires
        i + 1 < text.len(),
    ensures
        r == two_digits(text@, i as int),
{
    '0' <= text[i] && text[i] <= '9' && '0' <= text[i + 1] && text[i + 1] <= '9'
}

/// Whether a report starts with a date and a time.
fn has_time(report: &str) -> (r: bool)
    ensures
        r == starts_with_date_and_time(report@),
{
    let text = chars(report);
    text.len() >= 19 && digit_pair(&text, 0) && digit_pair(&text, 2) && text[4] == '-'
        && digit_pair(&text, 5) && text[7] == '-' && digit_pair(&text, 8) && (text[10] == 'T'
        || text[10] == 't' || text[10] == ' ') && digit_pair(&text, 11) && text[13] == ':'
        && digit_pair(&text, 14) && text[16] == ':' && digit_pair(&text, 17)
}

/// The date of a report.
pub fn date_of(report: &str) -> (date: &str)
    ensures
        date@ == date_part(report@),
{
    if has_time(report) {
        let date = report.substring_char(0, 10);
        assert(date@ =~= report@.take(10));
        date
    } else {
        split_first(report, 'T')
    }
}

/// There is no `T` in a date.
proof fn lemma_no_mark_in_date(text: Seq<char>, i: int)
    requires
        starts_with_date(text),
        0 <= i < 10,
    ensures
        text[i] != 'T',
{
    assert(i == 4 || i == 7 || is_digit(text[i])) by {
        assert(i == 0 || i == 1 || i == 2 || i == 3 || i == 4 || i == 5 || i == 6 || i == 7 || i
            == 8 || i == 9);
    }
}

/// The date of a report starts the report and has no `T` in it. It is all of the report, or the
/// report goes on with what separates a time.
pub proof fn lemma_date_part(report: Seq<char>)
    ensures
        !date_part(report).contains('T'),
        date_part(report).is_prefix_of(report),
        date_part(report) == report || separates_time(report[date_part(report).len() as int]),
{
    text::lemma_before(report, 'T');
    if starts_with_date_and_time(report) {
        let date = report.take(10);
        assert forall|i: int| 0 <= i < 10 implies date[i] != 'T' by {
            lemma_no_mark_in_date(report, i);
        }
        assert(date =~= report.subrange(0, 10));
    }
}

/// The date of a bare date is itself, and of a timestamp the date that it starts with, whichever
/// way its time is separated.
pub proof fn lemma_date_of_documented_forms(report: Seq<char>)
    requires
        starts_with_date(report),
        report.len() == 10 || starts_with_date_and_time(report),
    ensures
        date_part(report) == report.take(10),
        date_part(report).len() == 10,
        starts_with_date(date_part(report)),
{
    if report.len() == 10 {
        let date = date_part(report);
        text::lemma_before(report, 'T');
        assert(report.subrange(0, 10) =~= report);
        if date != report {
            lemma_no_mark_in_date(report, date.len() as int);
        }
        assert(report.take(10) =~= report);
    }
}

} // verus!
