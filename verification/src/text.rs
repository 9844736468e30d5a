//! Text: decimal numbers, trimming, and UTF-8.

use vstd::prelude::*;
use vstd::string::{StrSliceExecFns, StringExecFns};
use vstd::utf8::{decode_utf8, valid_utf8};

verus! {

/// The decimal digit of `d`, which is less than ten.
pub open spec fn digit(d: nat) -> char {
    seq!['0', '1', '2', '3', '4', '5', '6', '7', '8', '9'][d as int]
}

/// `n` in decimal, without leading zeros.
pub open spec fn decimal(n: nat) -> Seq<char>
    decreases n,
{
    if n < 10 {
        seq![digit(n)]
    } else {
        decimal(n / 10).push(digit(n % 10))
    }
}

/// `n` in decimal, with a minus sign if it is negative.
pub open spec fn signed_decimal(n: int) -> Seq<char> {
    if n < 0 {
        seq!['-'] + decimal((-n) as nat)
    } else {
        decimal(n as nat)
    }
}

/// `s` without the characters at its end that are `c`.
pub open spec fn without_trailing(s: Seq<char>, c: char) -> Seq<char>
    decreases s.len(),
{
    if s.len() > 0 && s.last() == c {
        without_trailing(s.drop_last(), c)
    } else {
        s
    }
}

/// Whether `c` has the Unicode property `White_Space`.
pub open spec fn white_space(c: char) -> bool {
    ||| '\u{9}' <= c <= '\u{d}'
    ||| c == '\u{20}'
    ||| c == '\u{85}'
    ||| c == '\u{a0}'
    ||| c == '\u{1680}'
    ||| '\u{2000}' <= c <= '\u{200a}'
    ||| c == '\u{2028}'
    ||| c == '\u{2029}'
    ||| c == '\u{202f}'
    ||| c == '\u{205f}'
    ||| c == '\u{3000}'
}

/// `s` without the white space at its start.
pub open spec fn trimmed_start(s: Seq<char>) -> Seq<char>
    decreases s.len(),
{
    if s.len() > 0 && white_space(s.first()) {
        trimmed_start(s.drop_first())
    } else {
        s
    }
}

/// `s` without the white space at its end.
pub open spec fn trimmed_end(s: Seq<char>) -> Seq<char>
    decreases s.len(),
{
    if s.len() > 0 && white_space(s.last()) {
        trimmed_end(s.drop_last())
    } else {
        s
    }
}

/// `s` without the white space at its two ends.
pub open spec fn trimmed(s: Seq<char>) -> Seq<char> {
    trimmed_end(trimmed_start(s))
}

/// The texts in a list.
pub open spec fn texts(list: Seq<String>) -> Seq<Seq<char>> {
    list.map_values(|text: String| text@)
}

fn digit_text(d: u32) -> (text: &'static str)
    requires
        d < 10,
    ensures
        text@ == seq![digit(d as nat)],
{
    proof {
        reveal_strlit("0");
        reveal_strlit("1");
        reveal_strlit("2");
        reveal_strlit("3");
        reveal_strlit("4");
        reveal_strlit("5");
        reveal_strlit("6");
        reveal_strlit("7");
        reveal_strlit("8");
        reveal_strlit("9");
    }
    let text = match d {
        0 => "0",
        1 => "1",
        2 => "2",
        3 => "3",
        4 => "4",
        5 => "5",
        6 => "6",
        7 => "7",
        8 => "8",
        _ => "9",
    };
    assert(text@ =~= seq![digit(d as nat)]);
    text
}

/// Appends `n` in decimal.
pub fn push_u32(text: &mut String, n: u32)
    ensures
        final(text)@ == old(text)@ + decimal(n as nat),
    decreases n,
{
    if n >= 10 {
        push_u32(text, n / 10);
    }
    text.append(digit_text(n % 10));
    assert(text@ =~= old(text)@ + decimal(n as nat));
}

/// Appends `n` in decimal, with a minus sign if it is negative.
pub fn push_i32(text: &mut String, n: i32)
    ensures
        final(text)@ == old(text)@ + signed_decimal(n as int),
{
    proof {
        reveal_strlit("-");
    }
    if n < 0 {
        text.append("-");
        push_u32(text, (-(n as i64)) as u32);
    } else {
        push_u32(text, n as u32);
    }
    assert(text@ =~= old(text)@ + signed_decimal(n as int));
}

/// `text` without the characters at its end that are `c`.
pub fn trim_end_matches(text: &str, c: char) -> (result: &str)
    ensures
        result@ == without_trailing(text@, c),
{
    let mut end: usize = text.unicode_len();
    assert(text@.take(end as int) =~= text@);
    while end > 0 && text.get_char(end - 1) == c
        invariant
            end <= text@.len(),
            without_trailing(text@, c) == without_trailing(text@.take(end as int), c),
        ensures
            without_trailing(text@, c) == text@.take(end as int),
            end <= text@.len(),
        decreases end,
    {
        assert(text@.take(end as int).drop_last() =~= text@.take(end - 1));
        end = end - 1;
    }
    assert(text@.subrange(0, end as int) =~= text@.take(end as int));
    text.substring_char(0, end)
}

/// Whether `c` is white space.
pub fn is_white_space(c: char) -> (result: bool)
    ensures
        result == white_space(c),
{
    '\u{9}' <= c && c <= '\u{d}' || c == '\u{20}' || c == '\u{85}' || c == '\u{a0}' || c
        == '\u{1680}' || '\u{2000}' <= c && c <= '\u{200a}' || c == '\u{2028}' || c == '\u{2029}'
        || c == '\u{202f}' || c == '\u{205f}' || c == '\u{3000}'
}

/// `text` without the white space at its two ends.
pub fn trim(text: &str) -> (result: &str)
    ensures
        result@ == trimmed(text@),
{
    let len: usize = text.unicode_len();
    let mut start: usize = 0;
    let mut end: usize = 0;
    let mut at: usize = 0;
    for c in it: text.chars()
        invariant
            at == it.index(),
            it.seq() == text@,
            start <= end <= at,
            at <= len,
            len == text@.len(),
            start == end ==> end == at,
            forall|i: int| 0 <= i < start ==> white_space(#[trigger] text@[i]),
            forall|i: int| end <= i < at ==> white_space(#[trigger] text@[i]),
            start < end ==> !white_space(text@[start as int]) && !white_space(text@[end - 1]),
    {
        at = at + 1;
        if !is_white_space(c) {
            end = at;
        } else if start == end {
            start = at;
            end = at;
        }
    }
    proof {
        lemma_trimmed(text@, start as int, end as int);
    }
    text.substring_char(start, end)
}

/// Two cuts around which there is only white space, with none of it next to them on the
/// inside, are where the trimmed text starts and ends.
proof fn lemma_trimmed(s: Seq<char>, start: int, end: int)
    requires
        0 <= start <= end <= s.len(),
        forall|i: int| 0 <= i < start ==> white_space(#[trigger] s[i]),
        forall|i: int| end <= i < s.len() ==> white_space(#[trigger] s[i]),
        start == end ==> end == s.len(),
        start < end ==> !white_space(s[start]) && !white_space(s[end - 1]),
    ensures
        trimmed(s) == s.subrange(start, end),
{
    lemma_trimmed_start(s, start);
    lemma_trimmed_end(s.skip(start), end - start);
    assert(s.skip(start).take(end - start) =~= s.subrange(start, end));
}

proof fn lemma_trimmed_start(s: Seq<char>, start: int)
    requires
        0 <= start <= s.len(),
        forall|i: int| 0 <= i < start ==> white_space(#[trigger] s[i]),
        start < s.len() ==> !white_space(s[start]),
    ensures
        trimmed_start(s) == s.skip(start),
    decreases start,
{
    if start == 0 {
        assert(s.skip(0) =~= s);
    } else {
        assert(white_space(s[0]));
        let rest = s.drop_first();
        assert forall|i: int| 0 <= i < start - 1 implies white_space(#[trigger] rest[i]) by {
            assert(white_space(s[i + 1]));
        }
        lemma_trimmed_start(rest, start - 1);
        assert(rest.skip(start - 1) =~= s.skip(start));
    }
}

proof fn lemma_trimmed_end(s: Seq<char>, end: int)
    requires
        0 <= end <= s.len(),
        forall|i: int| end <= i < s.len() ==> white_space(#[trigger] s[i]),
        0 < end ==> !white_space(s[end - 1]),
    ensures
        trimmed_end(s) == s.take(end),
    decreases s.len() - end,
{
    if end == s.len() {
        assert(s.take(end) =~= s);
    } else {
        assert(white_space(s[s.len() - 1]));
        lemma_trimmed_end(s.drop_last(), end);
        assert(s.drop_last().take(end) =~= s.take(end));
    }
}

/// Trimmed text neither starts nor ends with white space.
pub proof fn lemma_trimmed_has_bare_ends(s: Seq<char>)
    ensures
        trimmed(s).len() > 0 ==> !white_space(trimmed(s).first()) && !white_space(
            trimmed(s).last(),
        ),
{
    lemma_start_is_bare(s);
    lemma_end_is_bare(trimmed_start(s));
}

proof fn lemma_start_is_bare(s: Seq<char>)
    ensures
        trimmed_start(s).len() > 0 ==> !white_space(trimmed_start(s).first()),
    decreases s.len(),
{
    if s.len() > 0 && white_space(s.first()) {
        lemma_start_is_bare(s.drop_first());
    }
}

proof fn lemma_end_is_bare(s: Seq<char>)
    ensures
        trimmed_end(s).len() > 0 ==> !white_space(trimmed_end(s).last()) && trimmed_end(s).first()
            == s.first(),
    decreases s.len(),
{
    if s.len() > 0 && white_space(s.last()) {
        lemma_end_is_bare(s.drop_last());
    }
}

/// The text that `bytes` hold, if they are UTF-8.
///
/// Calls `String::from_utf8`, and trusts it to accept exactly the byte sequences that are
/// valid UTF-8 and to return the characters that they encode.
#[verifier::external_body]
pub(crate) fn from_utf8(bytes: Vec<u8>) -> (result: Option<String>)
    ensures
        result is Some <==> valid_utf8(bytes@),
        result matches Some(text) ==> text@ == decode_utf8(bytes@),
{
    String::from_utf8(bytes).ok()
}

/// The number that decimal digits stand for.
pub open spec fn digits_value(digits: Seq<char>) -> int
    decreases digits.len(),
{
    if digits.len() == 0 {
        0
    } else {
        10 * digits_value(digits.drop_last()) + (digits.last() as int - '0' as int)
    }
}

/// A number in decimal consists of digits, has no leading zero unless it is one, and stands for
/// the number.
pub proof fn law_decimal_stands_for_the_number(n: nat)
    ensures
        digits_value(decimal(n)) == n,
        decimal(n).len() >= 1,
        decimal(n).len() > 1 ==> decimal(n)[0] != '0',
        forall|i: int| 0 <= i < decimal(n).len() ==> '0' <= #[trigger] decimal(n)[i] <= '9',
    decreases n,
{
    let d = n % 10;
    assert(d == 0 || d == 1 || d == 2 || d == 3 || d == 4 || d == 5 || d == 6 || d == 7 || d == 8
        || d == 9);
    assert(digit(d) as int == '0' as int + d);
    let text = decimal(n);
    if n < 10 {
        assert(text.drop_last() =~= Seq::empty());
        assert(digits_value(text.drop_last()) == 0);
    } else {
        law_decimal_stands_for_the_number(n / 10);
        assert(text.drop_last() =~= decimal(n / 10));
        assert(text[0] == decimal(n / 10)[0]);
        if decimal(n / 10).len() == 1 {
            assert(decimal(n / 10).drop_last() =~= Seq::empty());
            assert(digits_value(decimal(n / 10).drop_last()) == 0);
        }
    }
}

/// A signed number in decimal is a minus sign, if it is negative, and then its size in decimal.
pub proof fn law_signed_decimal_stands_for_the_number(n: int)
    ensures
        n >= 0 ==> digits_value(signed_decimal(n)) == n && signed_decimal(n)[0] != '-',
        n < 0 ==> {
            &&& signed_decimal(n)[0] == '-'
            &&& digits_value(signed_decimal(n).skip(1)) == -n
            &&& signed_decimal(n)[1] != '0'
            &&& signed_decimal(n)[1] != '-'
        },
{
    let size = if n < 0 {
        (-n) as nat
    } else {
        n as nat
    };
    law_decimal_stands_for_the_number(size);
    let first = decimal(size)[0];
    assert('0' <= first <= '9');
    if n < 0 {
        assert(signed_decimal(n).skip(1) =~= decimal(size));
        assert(signed_decimal(n)[1] == first);
        if decimal(size).len() == 1 {
            assert(decimal(size).drop_last() =~= Seq::empty());
            assert(digits_value(decimal(size).drop_last()) == 0);
        }
    }
}

/// Dropping a character from the end of a text drops nothing but it, and all of it.
pub proof fn law_only_the_trailing_character_is_dropped(s: Seq<char>, c: char)
    ensures
        without_trailing(s, c).len() <= s.len(),
        without_trailing(s, c) == s.take(without_trailing(s, c).len() as int),
        forall|i: int| without_trailing(s, c).len() <= i < s.len() ==> #[trigger] s[i] == c,
        without_trailing(s, c).len() > 0 ==> without_trailing(s, c).last() != c,
    decreases s.len(),
{
    let kept = without_trailing(s, c).len() as int;
    if s.len() > 0 && s.last() == c {
        let rest = s.drop_last();
        law_only_the_trailing_character_is_dropped(rest, c);
        assert(rest.take(kept) =~= s.take(kept));
        assert forall|i: int| kept <= i < s.len() implies #[trigger] s[i] == c by {
            if i < rest.len() {
                assert(rest[i] == s[i]);
            }
        }
    } else {
        assert(s.take(kept) =~= s);
    }
}

/// Trimming cuts away nothing but white space, and leaves none of it at either end.
pub proof fn law_trimming_cuts_white_space_only(s: Seq<char>)
    ensures
        trimmed(s).len() > 0 ==> !white_space(trimmed(s).first()) && !white_space(
            trimmed(s).last(),
        ),
        exists|start: int, end: int|
            {
                &&& 0 <= start <= end <= s.len()
                &&& trimmed(s) == #[trigger] s.subrange(start, end)
                &&& forall|i: int|
                    0 <= i < s.len() && !(start <= i < end) ==> white_space(#[trigger] s[i])
            },
{
    lemma_trimmed_has_bare_ends(s);
    let start = lemma_cut_at_start(s);
    let rest = s.skip(start);
    lemma_cut_at_end(rest);
    let kept = trimmed_end(rest).len() as int;
    assert(rest.take(kept) =~= s.subrange(start, start + kept));
    assert forall|i: int| 0 <= i < s.len() && !(start <= i < start + kept) implies white_space(
        #[trigger] s[i],
    ) by {
        if i >= start {
            assert(rest[i - start] == s[i]);
        }
    }
}

proof fn lemma_cut_at_start(s: Seq<char>) -> (start: int)
    ensures
        0 <= start <= s.len(),
        trimmed_start(s) == s.skip(start),
        forall|i: int| 0 <= i < start ==> white_space(#[trigger] s[i]),
    decreases s.len(),
{
    if s.len() > 0 && white_space(s.first()) {
        let rest = s.drop_first();
        let start = lemma_cut_at_start(rest);
        assert(rest.skip(start) =~= s.skip(start + 1));
        assert forall|i: int| 0 <= i < start + 1 implies white_space(#[trigger] s[i]) by {
            if i > 0 {
                assert(rest[i - 1] == s[i]);
            }
        }
        start + 1
    } else {
        assert(s.skip(0) =~= s);
        0
    }
}

proof fn lemma_cut_at_end(s: Seq<char>)
    ensures
        trimmed_end(s).len() <= s.len(),
        trimmed_end(s) == s.take(trimmed_end(s).len() as int),
        forall|i: int| trimmed_end(s).len() <= i < s.len() ==> white_space(#[trigger] s[i]),
    decreases s.len(),
{
    let kept = trimmed_end(s).len() as int;
    if s.len() > 0 && white_space(s.last()) {
        let rest = s.drop_last();
        lemma_cut_at_end(rest);
        assert(rest.take(kept) =~= s.take(kept));
        assert forall|i: int| kept <= i < s.len() implies white_space(#[trigger] s[i]) by {
            if i < rest.len() {
                assert(rest[i] == s[i]);
            }
        }
    } else {
        assert(s.take(kept) =~= s);
    }
}

/// White space below U+0080 is the six characters that ASCII has, and above it is the spaces,
/// separators and the next-line character of Unicode.
pub proof fn law_white_space_by_code_point(c: char)
    ensures
        (c as int) < 0x80 ==> (white_space(c) <==> c == ' ' || c == '\n' || c == '\t' || c == '\r'
            || c as int == 0xb || c as int == 0xc),
        c as int >= 0x80 ==> (white_space(c) <==> set![
            0x85int, 0xa0, 0x1680, 0x2000, 0x2001, 0x2002, 0x2003, 0x2004, 0x2005, 0x2006, 0x2007,
            0x2008, 0x2009, 0x200a, 0x2028, 0x2029, 0x202f, 0x205f, 0x3000,
        ].contains(c as int)),
{
}

/// The texts of a list are those of its entries, one for one and in their order.
pub proof fn law_texts_are_those_of_the_entries(list: Seq<String>)
    ensures
        texts(list).len() == list.len(),
        forall|i: int| 0 <= i < list.len() ==> #[trigger] texts(list)[i] == list[i]@,
{
}

} // verus!
