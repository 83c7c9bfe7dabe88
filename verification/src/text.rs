//! Text as sequences of characters: decimal numerals, trimming, cutting and joining.
use vstd::prelude::*;
use vstd::string::*;

verus! {

/// The numeral of a single digit.
pub open spec fn digit(d: nat) -> char {
    ('0' as nat + d) as char
}

/// The decimal numeral of `n`, without leading zeros.
pub open spec fn decimal(n: nat) -> Seq<char>
    decreases n,
{
    if n < 10 {
        seq![digit(n)]
    } else {
        decimal(n / 10).push(digit(n % 10))
    }
}

/// The characters with the Unicode property White_Space.
pub open spec fn white_space(c: char) -> bool {
    let code = c as u32;
    ||| 0x09 <= code <= 0x0d
    ||| code == 0x20
    ||| code == 0x85
    ||| code == 0xa0
    ||| code == 0x1680
    ||| 0x2000 <= code <= 0x200a
    ||| 0x2028 <= code <= 0x2029
    ||| code == 0x202f
    ||| code == 0x205f
    ||| code == 0x3000
}

/// `char::is_whitespace` of std tells whether a character has the Unicode property White_Space,
/// which is the set of characters that `white_space` lists.
pub assume_specification[ char::is_whitespace ](c: char) -> (white: bool)
    ensures
        white == white_space(c),
;

/// `text` without the white space at its start.
pub open spec fn trim_start(text: Seq<char>) -> Seq<char>
    decreases text.len(),
{
    if text.len() > 0 && white_space(text[0]) {
        trim_start(text.skip(1))
    } else {
        text
    }
}

/// `text` without the white space at its end.
pub open spec fn trim_end(text: Seq<char>) -> Seq<char>
    decreases text.len(),
{
    if text.len() > 0 && white_space(text.last()) {
        trim_end(text.drop_last())
    } else {
        text
    }
}

/// `text` without the white space at its two ends.
pub open spec fn trimmed(text: Seq<char>) -> Seq<char> {
    trim_end(trim_start(text))
}

/// Trimming takes out a middle part that neither starts nor ends with white space, and leaves
/// only white space out.
pub proof fn lemma_trimmed(text: Seq<char>)
    ensures
        trimmed(text).len() > 0 ==> !white_space(trimmed(text)[0]) && !white_space(
            trimmed(text).last(),
        ),
        exists|start: int, end: int|
            {
                &&& 0 <= start <= end <= text.len()
                &&& trimmed(text) == #[trigger] text.subrange(start, end)
                &&& forall|i: int| 0 <= i < start || end <= i < text.len() ==> white_space(text[i])
            },
{
    lemma_trim_start(text);
    let kept = trim_start(text);
    lemma_trim_end(kept);
    let start = text.len() - kept.len();
    let end = start + trimmed(text).len();
    assert(trimmed(text) =~= text.subrange(start, end));
    assert forall|i: int| 0 <= i < start || end <= i < text.len() implies white_space(text[i]) by {
        if i >= end {
            assert(kept[i - start] == text[i]);
        }
    }
}

proof fn lemma_trim_start(text: Seq<char>)
    ensures
        trim_start(text).len() <= text.len(),
        trim_start(text) == text.skip(text.len() - trim_start(text).len()),
        trim_start(text).len() > 0 ==> !white_space(trim_start(text)[0]),
        forall|i: int| 0 <= i < text.len() - trim_start(text).len() ==> white_space(text[i]),
    decreases text.len(),
{
    if text.len() > 0 && white_space(text[0]) {
        let rest = text.skip(1);
        lemma_trim_start(rest);
        assert forall|i: int| 0 <= i < text.len() - trim_start(text).len() implies white_space(
            text[i],
        ) by {
            if i > 0 {
                assert(rest[i - 1] == text[i]);
            }
        }
    }
    assert(trim_start(text) =~= text.skip(text.len() - trim_start(text).len()));
}

proof fn lemma_trim_end(text: Seq<char>)
    ensures
        trim_end(text).len() <= text.len(),
        trim_end(text) == text.take(trim_end(text).len() as int),
        trim_end(text).len() > 0 ==> !white_space(trim_end(text).last()),
        forall|i: int| trim_end(text).len() <= i < text.len() ==> white_space(text[i]),
    decreases text.len(),
{
    if text.len() > 0 && white_space(text.last()) {
        let rest = text.drop_last();
        lemma_trim_end(rest);
        assert forall|i: int| trim_end(text).len() <= i < text.len() implies white_space(
            text[i],
        ) by {
            if i < rest.len() {
                assert(rest[i] == text[i]);
            }
        }
    }
    assert(trim_end(text) =~= text.take(trim_end(text).len() as int));
}

/// What stands before the first `mark`, or the whole text where there is none.
pub open spec fn before(text: Seq<char>, mark: char) -> Seq<char>
    decreases text.len(),
{
    if text.len() == 0 || text[0] == mark {
        Seq::empty()
    } else {
        seq![text[0]] + before(text.skip(1), mark)
    }
}

/// The first `count` lines, with a line break between each two.
pub open spec fn joined(lines: Seq<Seq<char>>, count: nat) -> Seq<char>
    decreases count,
{
    if count == 0 {
        Seq::empty()
    } else if count == 1 {
        lines[0]
    } else {
        joined(lines, (count - 1) as nat) + "\n"@ + lines[count - 1]
    }
}

/// What stands before a mark is free of it, starts the text, and ends at the mark or with the text.
pub proof fn lemma_before(text: Seq<char>, mark: char)
    ensures
        !before(text, mark).contains(mark),
        before(text, mark).is_prefix_of(text),
        before(text, mark) == text || text[before(text, mark).len() as int] == mark,
    decreases text.len(),
{
    if text.len() > 0 && text[0] != mark {
        let rest = text.skip(1);
        lemma_before(rest, mark);
        let found = before(text, mark);
        let later = before(rest, mark);
        assert forall|i: int| 0 <= i < found.len() implies found[i] != mark && found[i]
            == text[i] by {
            if i > 0 {
                assert(later.contains(later[i - 1]));
                assert(later[i - 1] == rest.subrange(0, later.len() as int)[i - 1]);
            }
        }
        assert(found =~= text.subrange(0, found.len() as int));
        if later == rest {
            assert(found =~= text);
        }
    }
}

/// What each string holds.
pub open spec fn contents(lines: Seq<String>) -> Seq<Seq<char>> {
    lines.map_values(|line: String| line@)
}

/// The numeral of a digit.
fn digit_text(d: u32) -> (text: &'static str)
    requires
        d < 10,
    ensures
        text@ == seq![digit(d as nat)],
{
    proof {
        reveal_strlit("0");
        reveal_strlit("1");
        reveal_strlit("2");
        reveal_strlit("3");
        reveal_strlit("4");
        reveal_strlit("5");
        reveal_strlit("6");
        reveal_strlit("7");
        reveal_strlit("8");
        reveal_strlit("9");
    }
    match d {
        0 => "0",
        1 => "1",
        2 => "2",
        3 => "3",
        4 => "4",
        5 => "5",
        6 => "6",
        7 => "7",
        8 => "8",
        _ => "9",
    }
}

/// The decimal numeral of `n`.
pub fn decimal_text(n: u32) -> (text: String)
    ensures
        text@ == decimal(n as nat),
    decreases n,
{
    if n < 10 {
        digit_text(n).to_owned()
    } else {
        let mut text = decimal_text(n / 10);
        text.append(digit_text(n % 10));
        assert(text@ =~= decimal(n as nat / 10).push(digit(n as nat % 10)));
        text
    }
}

/// The characters of `text`.
pub fn chars(text: &str) -> (chars: Vec<char>)
    ensures
        chars@ == text@,
{
    let mut chars: Vec<char> = Vec::new();
    for c in iter: text.chars()
        invariant
            iter.seq() == text@,
            chars@ == text@.take(iter.index() as int),
    {
        assert(text@.take(iter.index() as int).push(c) =~= text@.take(iter.index() + 1));
        chars.push(c);
    }
    assert(text@.take(text@.len() as int) =~= text@);
    chars
}

/// Removes the white space at the two ends of `text`.
pub fn trim(text: &str) -> (r: &str)
    ensures
        r@ == trimmed(text@),
{
    let chars = chars(text);
    let mut start: usize = 0;
    assert(text@.skip(0) =~= text@);
    while start < chars.len() && chars[start].is_whitespace()
        invariant
            chars@ == text@,
            start <= chars.len(),
            trim_start(text@) == trim_start(text@.skip(start as int)),
        decreases chars.len() - start,
    {
        assert(text@.skip(start as int).skip(1) =~= text@.skip(start + 1));
        start = start + 1;
    }
    let ghost kept = text@.skip(start as int);
    assert(trim_start(text@) == kept);
    let mut end: usize = chars.len();
    assert(text@.subrange(start as int, end as int) =~= kept);
    while start < end && chars[end - 1].is_whitespace()
        invariant
            chars@ == text@,
            start <= end <= chars.len(),
            trim_end(kept) == trim_end(text@.subrange(start as int, end as int)),
        decreases end,
    {
        assert(text@.subrange(start as int, end as int).drop_last() =~= text@.subrange(
            start as int,
            end - 1,
        ));
        end = end - 1;
    }
    text.substring_char(start, end)
}

/// The part of `text` before the first `mark`, or all of it.
pub fn split_first(text: &str, mark: char) -> (r: &str)
    ensures
        r@ == before(text@, mark),
{
    let chars = chars(text);
    let mut end: usize = 0;
    assert(text@.skip(0) =~= text@);
    assert(text@.take(0) =~= Seq::<char>::empty());
    while end < chars.len() && chars[end] != mark
        invariant
            chars@ == text@,
            end <= chars.len(),
            before(text@, mark) =~= text@.take(end as int) + before(
                text@.skip(end as int),
                mark,
            ),
        decreases chars.len() - end,
    {
        assert(text@.skip(end as int).skip(1) =~= text@.skip(end + 1));
        assert(text@.take(end + 1) =~= text@.take(end as int) + seq![text@[end as int]]);
        end = end + 1;
    }
    assert(before(text@, mark) =~= text@.take(end as int));
    text.substring_char(0, end)
}

/// The lines with a line break between each two.
pub fn join_lines(lines: &Vec<String>) -> (text: String)
    ensures
        text@ == joined(contents(lines@), lines@.len()),
{
    let mut text = String::new();
    let mut done: usize = 0;
    while done < lines.len()
        invariant
            done <= lines.len(),
            text@ == joined(contents(lines@), done as nat),
        decreases lines.len() - done,
    {
        if done > 0 {
            text.append("\n");
        }
        text.append(lines[done].as_str());
        assert(text@ =~= joined(contents(lines@), (done + 1) as nat));
        done = done + 1;
    }
    text
}

/// A string of two parts, one after the other.
pub fn followed_by(first: &str, second: &str) -> (text: String)
    ensures
        text@ == first@ + second@,
{
    let mut text = first.to_owned();
    text.append(second);
    text
}

/// The text that `String::from_utf8_lossy` of std makes of some bytes.
pub uninterp spec fn lossy_utf8(bytes: Seq<u8>) -> Seq<char>;

/// Calls `String::from_utf8_lossy` of std. Bytes that are valid UTF-8 are decoded; of other bytes
/// the text is only named: std puts the replacement character where a sequence is invalid.
#[verifier::external_body]
pub(crate) fn from_utf8_lossy(bytes: &[u8]) -> (text: String)
    ensures
        text@ == lossy_utf8(bytes@),
        vstd::utf8::valid_utf8(bytes@) ==> text@ == vstd::utf8::decode_utf8(bytes@),
{
    String::from_utf8_lossy(bytes).into_owned()
}

} // verus!
