//! The grammar of names: after optional blank space and comments, a decimal
//! number or an identifier of letters and digits that starts with a letter.

use crate::ir::module::name::{Name, NameView};
use crate::text::push_char;
use vstd::prelude::*;

verus! {

/// Why a text is not a name.
#[derive(Clone, Copy, Debug, PartialEq, Eq, Structural)]
pub enum ParseError {
    /// Neither a digit nor a letter where the name should start.
    Expected,
    /// A number that does not fit.
    Overflow,
}

/// Space, tab, line feed or carriage return.
pub open spec fn is_blank(b: u8) -> bool {
    b == 32 || b == 9 || b == 10 || b == 13
}

pub open spec fn is_digit(b: u8) -> bool {
    48 <= b <= 57
}

pub open spec fn is_letter(b: u8) -> bool {
    65 <= b <= 90 || 97 <= b <= 122
}

/// The first index at or after `i` that is neither blank nor in a comment,
/// where `in_comment` tells whether `i` lies in a comment. A comment starts
/// at `;` and ends with the next line feed.
pub open spec fn skip(s: Seq<u8>, i: int, in_comment: bool) -> int
    decreases s.len() - i,
{
    if i < 0 || i >= s.len() {
        i
    } else if in_comment {
        skip(s, i + 1, s[i] != 10)
    } else if is_blank(s[i]) {
        skip(s, i + 1, false)
    } else if s[i] == 59 {
        skip(s, i + 1, true)
    } else {
        i
    }
}

/// The first index at or after `i` that is neither blank nor in a comment.
pub open spec fn skip_blank(s: Seq<u8>, i: int) -> int {
    skip(s, i, false)
}

/// The first index at or after `i` at which `s` has no digit.
pub open spec fn digits_end(s: Seq<u8>, i: int) -> int
    decreases s.len() - i,
{
    if i < 0 || i >= s.len() || !is_digit(s[i]) {
        i
    } else {
        digits_end(s, i + 1)
    }
}

/// The first index at or after `i` at which `s` has neither letter nor
/// digit.
pub open spec fn word_end(s: Seq<u8>, i: int) -> int
    decreases s.len() - i,
{
    if i < 0 || i >= s.len() || !(is_digit(s[i]) || is_letter(s[i])) {
        i
    } else {
        word_end(s, i + 1)
    }
}

/// The number that the digits `s[i..j]` spell.
pub open spec fn number(s: Seq<u8>, i: int, j: int) -> nat
    decreases j - i,
{
    if j <= i {
        0
    } else {
        number(s, i, j - 1) * 10 + (s[j - 1] - 48) as nat
    }
}

/// The characters of the bytes `s[i..j]`.
pub open spec fn word(s: Seq<u8>, i: int, j: int) -> Seq<char> {
    Seq::new((j - i) as nat, |k: int| s[i + k] as char)
}

/// The name at the start of `s` and the number of bytes it takes with the
/// blank space before it; or why there is none.
pub open spec fn parse_spec(s: Seq<u8>) -> Result<(nat, NameView), ParseError> {
    let start = skip_blank(s, 0);
    if start < s.len() && is_digit(s[start]) {
        let end = digits_end(s, start);
        if number(s, start, end) <= usize::MAX {
            Ok((end as nat, NameView::Number(number(s, start, end) as usize)))
        } else {
            Err(ParseError::Overflow)
        }
    } else if start < s.len() && is_letter(s[start]) {
        let end = word_end(s, start);
        Ok((end as nat, NameView::Name(word(s, start, end))))
    } else {
        Err(ParseError::Expected)
    }
}

proof fn lemma_number_monotone(s: Seq<u8>, i: int, j: int, k: int)
    requires
        i <= j <= k,
        forall|m: int| j <= m < k ==> is_digit(#[trigger] s[m]),
    ensures
        number(s, i, j) <= number(s, i, k),
    decreases k - j,
{
    if j < k {
        lemma_number_monotone(s, i, j, k - 1);
        assert(is_digit(s[k - 1]));
    }
}

fn digit_at(source: &[u8], i: usize) -> (yes: bool)
    requires
        i < source@.len(),
    ensures
        yes == is_digit(source@[i as int]),
{
    48 <= source[i] && source[i] <= 57
}

fn letter_at(source: &[u8], i: usize) -> (yes: bool)
    requires
        i < source@.len(),
    ensures
        yes == is_letter(source@[i as int]),
{
    (65 <= source[i] && source[i] <= 90) || (97 <= source[i] && source[i] <= 122)
}

/// Skips blank space and comments from the start of `source`.
pub fn spaces(source: &[u8]) -> (start: usize)
    ensures
        start == skip_blank(source@, 0),
        start <= source@.len(),
{
    let mut i: usize = 0;
    let mut in_comment = false;
    while i < source.len()
        invariant
            0 <= i <= source@.len(),
            skip(source@, 0, false) == skip(source@, i as int, in_comment),
        ensures
            0 <= i <= source@.len(),
            i == skip(source@, 0, false),
        decreases source@.len() - i,
    {
        let b = source[i];
        if in_comment {
            in_comment = b != 10;
            i = i + 1;
        } else if b == 32 || b == 9 || b == 10 || b == 13 {
            i = i + 1;
        } else if b == 59 {
            in_comment = true;
            i = i + 1;
        } else {
            break ;
        }
    }
    i
}

/// Parses a name at the start of `source`: blank space and comments are
/// skipped; then digits are a number, and letters and digits that start
/// with a letter are an identifier. Returns the name and the number of
/// bytes that were read.
pub fn parse(source: &[u8]) -> (result: Result<(usize, Name), ParseError>)
    ensures
        match parse_spec(source@) {
            Ok((read, name)) => result is Ok && result->Ok_0.0 == read && result->Ok_0.1@ == name,
            Err(error) => result == Err::<(usize, Name), ParseError>(error),
        },
{
    let start = spaces(source);
    if start >= source.len() {
        return Err(ParseError::Expected);
    }
    if digit_at(source, start) {
        let mut value: usize = 0;
        let mut i = start;
        while i < source.len() && digit_at(source, i)
            invariant
                start <= i <= source@.len(),
                start == skip_blank(source@, 0),
                start < source@.len(),
                is_digit(source@[start as int]),
                forall|m: int| start <= m < i ==> is_digit(#[trigger] source@[m]),
                digits_end(source@, start as int) == digits_end(source@, i as int),
                value == number(source@, start as int, i as int),
            decreases source@.len() - i,
        {
            let digit = (source[i] - 48) as usize;
            let ghost end = digits_end(source@, start as int);
            proof {
                lemma_digits_end_bounds(source@, i + 1);
                lemma_digits_all(source@, i + 1);
            }
            if value > (usize::MAX - digit) / 10 {
                proof {
                    assert(number(source@, start as int, i + 1) == value * 10 + digit);
                    assert(value * 10 + digit > usize::MAX) by (nonlinear_arith)
                        requires
                            value > (usize::MAX - digit) / 10,
                            0 <= digit < 10,
                    ;
                    lemma_number_monotone(source@, start as int, i + 1, end);
                }
                return Err(ParseError::Overflow);
            }
            assert(value * 10 + digit <= usize::MAX) by (nonlinear_arith)
                requires
                    value <= (usize::MAX - digit) / 10,
                    0 <= digit,
            ;
            value = value * 10 + digit;
            i = i + 1;
        }
        Ok((i, Name::Number(value)))
    } else if letter_at(source, start) {
        let mut text = String::new();
        let mut i = start;
        while i < source.len() && (digit_at(source, i) || letter_at(source, i))
            invariant
                start <= i <= source@.len(),
                word_end(source@, start as int) == word_end(source@, i as int),
                text@ == word(source@, start as int, i as int),
            decreases source@.len() - i,
        {
            let ghost before = text@;
            push_char(&mut text, source[i] as char);
            i = i + 1;
            assert(text@ =~= word(source@, start as int, i as int));
        }
        Ok((i, Name::Name(text)))
    } else {
        Err(ParseError::Expected)
    }
}

proof fn lemma_digits_end_bounds(s: Seq<u8>, i: int)
    requires
        0 <= i <= s.len(),
    ensures
        i <= digits_end(s, i) <= s.len(),
    decreases s.len() - i,
{
    if i < s.len() && is_digit(s[i]) {
        lemma_digits_end_bounds(s, i + 1);
    }
}

proof fn lemma_digits_all(s: Seq<u8>, i: int)
    requires
        0 <= i <= s.len(),
    ensures
        forall|m: int| i <= m < digits_end(s, i) ==> is_digit(#[trigger] s[m]),
    decreases s.len() - i,
{
    if i < s.len() && is_digit(s[i]) {
        lemma_digits_all(s, i + 1);
    }
}

} // verus!
