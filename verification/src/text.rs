//! Text: the forms of a string that the standard library computes, the decimal numbers that
//! it reads, and splitting at a separator.

use std::num::ParseIntError;
use vstd::prelude::*;
use vstd::string::StrSliceExecFns;

verus! {

/// The error with which the standard library refuses to read a number.
#[verifier::external_type_specification]
#[verifier::external_body]
pub struct ExParseIntError(ParseIntError);

/// The lower-case form of `text`, as `str::to_lowercase` gives it.
pub uninterp spec fn lowercase_text(text: Seq<char>) -> Seq<char>;

/// `text` without its leading and trailing white space, as `str::trim` gives it.
pub uninterp spec fn trimmed_text(text: Seq<char>) -> Seq<char>;

/// The error that `str::parse::<u64>` gives for a `text` that it does not read.
pub uninterp spec fn u64_parse_error(text: Seq<char>) -> ParseIntError;

/// A decimal digit.
pub open spec fn is_digit(c: char) -> bool {
    '0' <= c && c <= '9'
}

/// The number that the decimal digits of `digits` write.
pub open spec fn digits_value(digits: Seq<char>) -> nat
    decreases digits.len(),
{
    if digits.len() == 0 {
        0
    } else {
        digits_value(digits.drop_last()) * 10 + (digits.last() as nat - '0' as nat) as nat
    }
}

/// `text` without one leading plus sign.
pub open spec fn unsigned_part(text: Seq<char>) -> Seq<char> {
    if text.len() > 0 && text[0] == '+' {
        text.skip(1)
    } else {
        text
    }
}

/// `text` writes a `u64`: an optional plus sign, then one decimal digit or more, whose
/// number is within the type.
pub open spec fn is_u64_text(text: Seq<char>) -> bool {
    let digits = unsigned_part(text);
    &&& digits.len() > 0
    &&& forall|i: int| 0 <= i < digits.len() ==> is_digit(#[trigger] digits[i])
    &&& digits_value(digits) <= u64::MAX
}

/// The number that `text` writes.
pub open spec fn u64_value(text: Seq<char>) -> nat {
    digits_value(unsigned_part(text))
}

/// Calls `str::to_lowercase`. The contract names the result: it is the lower-case form of
/// the argument, a function of the argument alone.
#[verifier::external_body]
pub(crate) fn to_lowercase(text: &str) -> (lowered: String)
    ensures
        lowered@ == lowercase_text(text@),
{
    text.to_lowercase()
}

/// Calls `str::trim`. The contract names the result: it is the argument without leading
/// and trailing white space, a function of the argument alone.
#[verifier::external_body]
pub(crate) fn trim(text: &str) -> (trimmed: &str)
    ensures
        trimmed@ == trimmed_text(text@),
{
    text.trim()
}

/// Calls `str::parse::<u64>`. The contract claims what the standard library documents: a
/// text is read if and only if it is an optional plus sign followed by decimal digits only,
/// at least one, that write a number within `u64`; the result is then that number. The
/// error for any other text is named, not described.
#[verifier::external_body]
pub(crate) fn parse_u64(text: &str) -> (parsed: Result<u64, ParseIntError>)
    ensures
        parsed is Ok <==> is_u64_text(text@),
        parsed is Ok ==> parsed->Ok_0 == u64_value(text@),
        parsed is Err ==> parsed->Err_0 == u64_parse_error(text@),
{
    text.parse::<u64>()
}

/// `sep` stands at `at` in `text` and nowhere else.
pub open spec fn only_at(text: Seq<char>, sep: char, at: int) -> bool {
    &&& 0 <= at < text.len()
    &&& forall|j: int| 0 <= j < text.len() ==> (#[trigger] text[j] == sep <==> j == at)
}

/// The two parts of a `text` in which `sep` occurs exactly once; `None` for any other text.
pub open spec fn split_once(text: Seq<char>, sep: char) -> Option<(Seq<char>, Seq<char>)> {
    if exists|at: int| only_at(text, sep, at) {
        let at = choose|at: int| only_at(text, sep, at);
        Some((text.take(at), text.skip(at + 1)))
    } else {
        None
    }
}

/// The first place at or after `from` where `wanted` stands in `text`.
pub fn find_from(text: &str, wanted: char, from: usize) -> (found: Option<usize>)
    requires
        from <= text@.len(),
    ensures
        match found {
            Some(at) => {
                &&& from <= at < text@.len()
                &&& text@[at as int] == wanted
                &&& forall|j: int| from <= j < at ==> text@[j] != wanted
            },
            None => forall|j: int| from <= j < text@.len() ==> text@[j] != wanted,
        },
{
    let len = text.unicode_len();
    let mut at: usize = from;
    while at < len
        invariant
            from <= at <= len,
            len == text@.len(),
            forall|j: int| from <= j < at ==> text@[j] != wanted,
        decreases len - at,
    {
        if text.get_char(at) == wanted {
            return Some(at);
        }
        at = at + 1;
    }
    None
}

/// Splits `text` at `sep` where `sep` occurs exactly once.
pub fn split_at_only<'a>(text: &'a str, sep: char) -> (parts: Option<(&'a str, &'a str)>)
    ensures
        match parts {
            Some((left, right)) => split_once(text@, sep) == Some((left@, right@)),
            None => split_once(text@, sep) is None,
        },
{
    let len = text.unicode_len();
    match find_from(text, sep, 0) {
        None => {
            assert forall|at: int| !only_at(text@, sep, at) by {
                if 0 <= at < text@.len() {
                    assert(text@[at] != sep);
                }
            }
            None
        },
        Some(first) => {
            match find_from(text, sep, first + 1) {
                Some(second) => {
                    assert forall|at: int| !only_at(text@, sep, at) by {
                        if only_at(text@, sep, at) {
                            assert(text@[first as int] == sep);
                            assert(text@[second as int] == sep);
                        }
                    }
                    None
                },
                None => {
                    proof {
                        assert(only_at(text@, sep, first as int));
                        let at = choose|at: int| only_at(text@, sep, at);
                        assert(text@[first as int] == sep);
                        assert(at == first);
                    }
                    Some((text.substring_char(0, first), text.substring_char(first + 1, len)))
                },
            }
        },
    }
}

} // verus!
