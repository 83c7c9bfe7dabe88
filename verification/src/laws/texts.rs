//! Laws of numerals, trimming, cutting, joining and reset dates.
use crate::copilot_usage::UsageModel;
use crate::date;
use crate::text;
use vstd::prelude::*;

verus! {

/// The number that a string of decimal digits stands for.
pub open spec fn value(numeral: Seq<char>) -> int
    decreases numeral.len(),
{
    if numeral.len() == 0 {
        0
    } else {
        10 * value(numeral.drop_last()) + (numeral.last() as int - '0' as int)
    }
}

/// Whether `numeral` is how `n` is written: decimal digits that read as `n`, without leading zeros.
pub open spec fn writes(numeral: Seq<char>, n: int) -> bool {
    &&& numeral.len() > 0
    &&& forall|i: int| 0 <= i < numeral.len() ==> '0' <= #[trigger] numeral[i] <= '9'
    &&& numeral.len() > 1 ==> numeral[0] != '0'
    &&& value(numeral) == n
}

/// A numeral reads back as the number that it was made of.
pub proof fn law_numeral_reads_back(n: nat)
    ensures
        writes(text::decimal(n), n as int),
        n > 0 ==> text::decimal(n)[0] != '0',
    decreases n,
{
    let numeral = text::decimal(n);
    if n < 10 {
        assert(numeral.drop_last() =~= Seq::<char>::empty());
        assert(value(numeral.drop_last()) == 0);
    } else {
        let front = text::decimal(n / 10);
        law_numeral_reads_back(n / 10);
        assert(numeral.drop_last() =~= front);
        assert(numeral[0] == front[0]);
        assert forall|i: int| 0 <= i < numeral.len() implies '0' <= #[trigger] numeral[i]
            <= '9' by {
            if i < front.len() {
                assert(numeral[i] == front[i]);
            }
        }
    }
}

/// There is one way to write a number.
pub proof fn law_numeral_is_unique(a: Seq<char>, b: Seq<char>, n: int)
    requires
        writes(a, n),
        writes(b, n),
    ensures
        a == b,
    decreases a.len(),
{
    lemma_value_bounds(a);
    lemma_value_bounds(b);
    let (x, y) = (a.drop_last(), b.drop_last());
    assert(a =~= x.push(a.last()));
    assert(b =~= y.push(b.last()));
    if a.len() == 1 || b.len() == 1 {
        if a.len() > 1 {
            lemma_value_bounds(x);
            assert(x[0] == a[0]);
            assert(y =~= Seq::<char>::empty());
        } else if b.len() > 1 {
            lemma_value_bounds(y);
            assert(y[0] == b[0]);
            assert(x =~= Seq::<char>::empty());
        } else {
            assert(x =~= y);
        }
    } else {
        assert forall|i: int| 0 <= i < x.len() implies '0' <= #[trigger] x[i] <= '9' by {
            assert(x[i] == a[i]);
        }
        assert forall|i: int| 0 <= i < y.len() implies '0' <= #[trigger] y[i] <= '9' by {
            assert(y[i] == b[i]);
        }
        assert(x[0] == a[0] && y[0] == b[0]);
        law_numeral_is_unique(x, y, n / 10);
    }
}

/// A string of digits reads as a number that is positive unless it starts with a zero.
proof fn lemma_value_bounds(numeral: Seq<char>)
    requires
        forall|i: int| 0 <= i < numeral.len() ==> '0' <= #[trigger] numeral[i] <= '9',
    ensures
        value(numeral) >= 0,
        numeral.len() > 0 && numeral[0] != '0' ==> value(numeral) > 0,
        numeral.len() > 0 ==> 0 <= numeral.last() as int - '0' as int <= 9,
        numeral.len() > 0 ==> value(numeral.drop_last()) == value(numeral) / 10,
    decreases numeral.len(),
{
    if numeral.len() > 0 {
        let front = numeral.drop_last();
        assert forall|i: int| 0 <= i < front.len() implies '0' <= #[trigger] front[i] <= '9' by {
            assert(front[i] == numeral[i]);
        }
        lemma_value_bounds(front);
        if numeral.len() > 1 {
            assert(front[0] == numeral[0]);
        }
    }
}

/// Of the characters up to U+00FF, white space is the tabulator and the four controls after it, the
/// space, the next-line control and the no-break space; above, it is the spaces and separators of
/// the blocks for Ogham, punctuation and CJK, and nothing from U+3001 on.
pub proof fn law_white_space(c: char)
    ensures
        c as u32 <= 0xff ==> (text::white_space(c) <==> (c == '\t' || c == '\n' || c == '\x0b' || c
            == '\x0c' || c == '\r' || c == ' ' || c == '\u{85}' || c == '\u{a0}')),
        0x100 <= c as u32 <= 0x1fff ==> (text::white_space(c) <==> c == '\u{1680}'),
        0x2000 <= c as u32 <= 0x20ff ==> (text::white_space(c) <==> (c <= '\u{200a}' || c
            == '\u{2028}' || c == '\u{2029}' || c == '\u{202f}' || c == '\u{205f}')),
        0x2100 <= c as u32 ==> (text::white_space(c) <==> c == '\u{3000}'),
{
}

/// Whether `kept` is `text` without the white space around it: what is left out is white space,
/// and what is kept neither starts nor ends with it.
pub open spec fn is_trimmed(text: Seq<char>, kept: Seq<char>) -> bool {
    exists|start: int, end: int|
        {
            &&& 0 <= start <= end <= text.len()
            &&& kept == #[trigger] text.subrange(start, end)
            &&& forall|i: int|
                0 <= i < start || end <= i < text.len() ==> text::white_space(#[trigger] text[i])
            &&& start < end ==> !text::white_space(text[start]) && !text::white_space(text[end - 1])
        }
}

/// Trimming leaves out the white space around a text and nothing else.
pub proof fn law_trimmed(text: Seq<char>)
    ensures
        is_trimmed(text, text::trimmed(text)),
{
    text::lemma_trimmed(text);
    let kept = text::trimmed(text);
    let (start, end) = choose|start: int, end: int|
        {
            &&& 0 <= start <= end <= text.len()
            &&& kept == #[trigger] text.subrange(start, end)
            &&& forall|i: int|
                0 <= i < start || end <= i < text.len() ==> text::white_space(text[i])
        };
    if start < end {
        assert(kept[0] == text[start]);
        assert(kept.last() == text[end - 1]);
    }
}

/// Cutting at a mark gives the part before the first mark, or the whole text if there is none.
pub proof fn law_cut_at_first_mark(text: Seq<char>, mark: char, n: int)
    requires
        0 <= n <= text.len(),
        forall|i: int| 0 <= i < n ==> #[trigger] text[i] != mark,
        n < text.len() ==> text[n] == mark,
    ensures
        text::before(text, mark) == text.take(n),
{
    text::lemma_before(text, mark);
    let found = text::before(text, mark);
    let m = found.len() as int;
    assert forall|i: int| 0 <= i < m implies found[i] == text[i] by {
        assert(text.subrange(0, m)[i] == text[i]);
    }
    if m > n {
        assert(found.contains(found[n]));
    }
    assert(found =~= text.take(n));
}

/// Each line that is joined on follows after a line break.
pub proof fn law_lines_are_joined_by_breaks(lines: Seq<Seq<char>>, n: nat)
    requires
        n < lines.len(),
    ensures
        text::joined(lines, 0) == Seq::<char>::empty(),
        text::joined(lines, n + 1) == if n == 0 {
            lines[0]
        } else {
            text::joined(lines, n) + seq!['\n'] + lines[n as int]
        },
{
    reveal_strlit("\n");
    assert("\n"@ =~= seq!['\n']);
}

/// What a list of strings holds, string by string.
pub proof fn law_contents_by_line(lines: Seq<String>, i: int)
    requires
        0 <= i < lines.len(),
    ensures
        text::contents(lines).len() == lines.len(),
        text::contents(lines)[i] == lines[i]@,
{
}

/// Whether `report` starts as a timestamp does: `dddd-dd-dd`, then `T`, `t` or a space, then
/// `dd:dd:dd`, where `d` is a digit.
pub open spec fn timestamp_form(report: Seq<char>) -> bool {
    &&& report.len() >= 19
    &&& report[4] == '-' && report[7] == '-' && report[13] == ':' && report[16] == ':'
    &&& report[10] == 'T' || report[10] == 't' || report[10] == ' '
    &&& forall|i: int|
        0 <= i < 19 && i != 4 && i != 7 && i != 10 && i != 13 && i != 16 ==> '0'
            <= #[trigger] report[i] <= '9'
}

/// The reset date of a timestamp is its first ten characters, whatever follows them.
pub proof fn law_reset_date_of_timestamp(usage: UsageModel)
    requires
        usage.resets_on matches Some(report) && timestamp_form(report),
    ensures
        usage.reset_date() == Some(usage.resets_on->0.take(10)),
{
    let report = usage.resets_on->0;
    assert(date::two_digits(report, 0) && date::two_digits(report, 2));
    assert(date::two_digits(report, 5) && date::two_digits(report, 8));
    assert(date::two_digits(report, 11) && date::two_digits(report, 14));
    assert(date::two_digits(report, 17));
}

/// The reset date of any other report is what stands before its first `T`, or all of it if there
/// is none.
pub proof fn law_reset_date_of_other_reports(usage: UsageModel, n: int)
    requires
        usage.resets_on matches Some(report) && !timestamp_form(report) && 0 <= n <= report.len()
            && (n < report.len() ==> report[n] == 'T') && forall|i: int|
            0 <= i < n ==> #[trigger] report[i] != 'T',
    ensures
        usage.reset_date() == Some(usage.resets_on->0.take(n)),
{
    let report = usage.resets_on->0;
    law_cut_at_first_mark(report, 'T', n);
    if date::starts_with_date_and_time(report) {
        assert forall|i: int|
            0 <= i < 19 && i != 4 && i != 7 && i != 10 && i != 13 && i != 16 implies '0'
            <= #[trigger] report[i] <= '9' by {
            assert(date::two_digits(report, 0) && date::two_digits(report, 2));
            assert(date::two_digits(report, 5) && date::two_digits(report, 8));
            assert(date::two_digits(report, 11) && date::two_digits(report, 14));
            assert(date::two_digits(report, 17));
            assert(i == 0 || i == 1 || i == 2 || i == 3 || i == 5 || i == 6 || i == 8 || i == 9 || i
                == 11 || i == 12 || i == 14 || i == 15 || i == 17 || i == 18);
        }
    }
}

/// There is a reset date exactly if one is reported, and it depends on that report alone.
pub proof fn law_reset_date_is_of_the_report(one: UsageModel, other: UsageModel)
    ensures
        one.reset_date() is None <==> one.resets_on is None,
        one.resets_on == other.resets_on ==> one.reset_date() == other.reset_date(),
{
}

} // verus!
