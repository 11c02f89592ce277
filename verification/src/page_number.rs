//! Peeling the page number off the end of a page's text.
//!
//! A page number is the last token of the page, set off from the text before
//! it by white space and made of ASCII digits only. A page that is a single
//! token has no text to set a number off from, so it is left as it is.
use crate::text::{is_whitespace, lemma_trim_end, to_chars, trim_end, trim_end_len, white_space};
use vstd::prelude::*;

verus! {

/// Whether `c` is one of `0` to `9`.
pub open spec fn ascii_digit(c: char) -> bool {
    '0' <= c <= '9'
}

/// The digit that `c` stands for.
pub open spec fn digit_value(c: char) -> nat {
    (c as u32 - '0' as u32) as nat
}

/// A token that is not empty and holds ASCII digits only.
pub open spec fn is_digit_run(token: Seq<char>) -> bool {
    &&& token.len() > 0
    &&& forall|i: int| 0 <= i < token.len() ==> ascii_digit(#[trigger] token[i])
}

/// The number that a run of digits writes in base ten.
pub open spec fn decimal_value(digits: Seq<char>) -> nat
    decreases digits.len(),
{
    if digits.len() == 0 {
        0
    } else {
        10 * decimal_value(digits.drop_last()) + digit_value(digits.last())
    }
}

/// `n`, or the largest `u32` where `n` is beyond it.
pub open spec fn clamp_to_u32(n: nat) -> u32 {
    if n <= u32::MAX {
        n as u32
    } else {
        u32::MAX
    }
}

/// The place of the last white-space character of `s`.
pub open spec fn last_whitespace(s: Seq<char>) -> Option<int>
    decreases s.len(),
{
    if s.len() == 0 {
        None
    } else if white_space(s.last()) {
        Some(s.len() - 1)
    } else {
        last_whitespace(s.drop_last())
    }
}

/// The last token of the page: what follows the last white space of the
/// text, once trimmed at its end, or all of that text where it holds none.
pub open spec fn last_token(page: Seq<char>) -> Seq<char> {
    let text = trim_end(page);
    match last_whitespace(text) {
        Some(i) => text.skip(i + 1),
        None => text,
    }
}

/// The text that white space sets the last token off from. `None` where the
/// page is a single token, or blank.
pub open spec fn text_before_last_token(page: Seq<char>) -> Option<Seq<char>> {
    let text = trim_end(page);
    match last_whitespace(text) {
        Some(i) => Some(text.take(i)),
        None => None,
    }
}

/// Whether the page ends in a page number: a last token that is a run of
/// digits, set off from text before it.
pub open spec fn has_page_number(page: Seq<char>) -> bool {
    text_before_last_token(page) is Some && is_digit_run(last_token(page))
}

/// The text of the page without its page number and without white space at
/// its end.
pub open spec fn peeled_text(page: Seq<char>) -> Seq<char> {
    if has_page_number(page) {
        trim_end(text_before_last_token(page).unwrap())
    } else {
        trim_end(page)
    }
}

/// The page number at the end of the page, where there is one. A number
/// beyond `u32::MAX` is given as `u32::MAX`.
pub open spec fn peeled_number(page: Seq<char>) -> Option<u32> {
    if has_page_number(page) {
        Some(clamp_to_u32(decimal_value(last_token(page))))
    } else {
        None
    }
}

/// A page whose last token is not a run of digits is only trimmed at its
/// end, and no number comes with it. Taking the page number off what was so
/// returned changes nothing more.
pub proof fn lemma_peel_without_digits(page: Seq<char>)
    requires
        !is_digit_run(last_token(page)),
    ensures
        peeled_text(page) == trim_end(page),
        peeled_number(page) is None,
        peeled_text(peeled_text(page)) == peeled_text(page),
        peeled_number(peeled_text(page)) is None,
{
    lemma_trim_end(page);
}

/// `last_whitespace` finds a white-space character, and none comes after it.
pub proof fn lemma_last_whitespace(s: Seq<char>)
    ensures
        match last_whitespace(s) {
            Some(i) => {
                &&& 0 <= i < s.len()
                &&& white_space(s[i])
                &&& forall|j: int| i < j < s.len() ==> !white_space(#[trigger] s[j])
            },
            None => forall|j: int| 0 <= j < s.len() ==> !white_space(#[trigger] s[j]),
        },
    decreases s.len(),
{
    if s.len() > 0 && !white_space(s.last()) {
        lemma_last_whitespace(s.drop_last());
        match last_whitespace(s) {
            Some(i) => {
                assert forall|j: int| i < j < s.len() implies !white_space(#[trigger] s[j]) by {
                    if j < s.len() - 1 {
                        assert(s[j] == s.drop_last()[j]);
                    }
                }
            },
            None => {
                assert forall|j: int| 0 <= j < s.len() implies !white_space(#[trigger] s[j]) by {
                    if j < s.len() - 1 {
                        assert(s[j] == s.drop_last()[j]);
                    }
                }
            },
        }
    }
}

/// Whether `c` is an ASCII digit.
pub fn is_ascii_digit(c: char) -> (r: bool)
    ensures
        r == ascii_digit(c),
{
    '0' <= c && c <= '9'
}

/// The place of the last white-space character of `s`.
pub fn find_last_whitespace(s: &[char]) -> (r: Option<usize>)
    ensures
        match r {
            Some(i) => last_whitespace(s@) == Some(i as int),
            None => last_whitespace(s@) is None,
        },
{
    let mut n: usize = s.len();
    assert(s@.take(n as int) == s@);
    while n > 0
        invariant
            n <= s.len(),
            last_whitespace(s@) == last_whitespace(s@.take(n as int)),
        decreases n,
    {
        if is_whitespace(s[n - 1]) {
            return Some(n - 1);
        }
        assert(s@.take(n as int).drop_last() == s@.take(n - 1));
        n -= 1;
    }
    None
}

/// The number that `token` writes in base ten, held to the range of `u32`;
/// `None` where `token` is not a run of digits.
pub fn parse_page_number(token: &[char]) -> (r: Option<u32>)
    ensures
        r == if is_digit_run(token@) {
            Some(clamp_to_u32(decimal_value(token@)))
        } else {
            None
        },
{
    if token.len() == 0 {
        return None;
    }
    let mut acc: u32 = 0;
    let mut i: usize = 0;
    while i < token.len()
        invariant
            i <= token.len(),
            forall|j: int| 0 <= j < i ==> ascii_digit(#[trigger] token@[j]),
            acc == clamp_to_u32(decimal_value(token@.take(i as int))),
        decreases token.len() - i,
    {
        let c = token[i];
        if !is_ascii_digit(c) {
            return None;
        }
        let next: u64 = acc as u64 * 10 + (c as u32 - '0' as u32) as u64;
        assert(token@.take(i + 1).drop_last() == token@.take(i as int));
        acc = if next > u32::MAX as u64 {
            u32::MAX
        } else {
            next as u32
        };
        i += 1;
    }
    assert(token@.take(i as int) == token@);
    Some(acc)
}

/// Takes the page number off the end of a page's text.
///
/// The text is first trimmed at its end. Where white space then sets a last
/// token off from what comes before, and that token is made of ASCII digits
/// only, the token is the page number: the text before it is returned,
/// trimmed at its end, with the number. Any other text is returned trimmed at
/// its end, with `None`; so is a page that is a single token, digits or not.
pub fn peel_trailing_page_num(s: &str) -> (r: (&str, Option<u32>))
    ensures
        r.0@ == peeled_text(s@),
        r.1 == peeled_number(s@),
        r.1 is Some <==> has_page_number(s@),
        r.1 is None ==> r.0@ == trim_end(s@),
        !is_digit_run(last_token(s@)) ==> r.0@ == trim_end(s@) && r.1 is None,
        r.0@.is_prefix_of(s@),
        trim_end(r.0@) == r.0@,
{
    let chars = to_chars(s);
    let end = trim_end_len(chars.as_slice());
    let text = &chars.as_slice()[0..end];
    proof {
        lemma_last_whitespace(text@);
        lemma_trim_end(s@);
    }
    match find_last_whitespace(text) {
        Some(i) => match parse_page_number(&text[i + 1..end]) {
            Some(number) => {
                let head_end = trim_end_len(&text[0..i]);
                proof {
                    lemma_trim_end(text@.take(i as int));
                    assert(s@.subrange(0, head_end as int) == text@.take(i as int).take(
                        head_end as int,
                    ));
                }
                (s.substring_char(0, head_end), Some(number))
            },
            None => (s.substring_char(0, end), None),
        },
        None => (s.substring_char(0, end), None),
    }
}

} // verus!
