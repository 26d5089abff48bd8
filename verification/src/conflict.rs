//! Reading the stored value out of the text of a failed compare-and-swap.

use vstd::prelude::*;

verus! {

/// Whether a character is one of the ten ASCII digits.
pub open spec fn is_digit(c: char) -> bool {
    48 <= c as u32 <= 57
}

/// The value of a digit; 0 for any other character.
pub open spec fn digit_value(c: char) -> nat {
    if is_digit(c) {
        (c as u32 - 48) as nat
    } else {
        0
    }
}

/// The number that a run of characters writes in base ten.
pub open spec fn number_of(digits: Seq<char>) -> nat
    decreases digits.len(),
{
    if digits.len() == 0 {
        0
    } else {
        number_of(digits.drop_last()) * 10 + digit_value(digits.last())
    }
}

/// Whether every character of a text is a digit.
pub open spec fn all_digits(text: Seq<char>) -> bool {
    forall|i: int| 0 <= i < text.len() ==> is_digit(#[trigger] text[i])
}

/// The number that a text writes: the text is a run of one or more ASCII
/// digits whose value fits in 64 bits.
pub open spec fn decimal_value(text: Seq<char>) -> Option<u64> {
    if text.len() > 0 && all_digits(text) && number_of(text) <= u64::MAX {
        Some(number_of(text) as u64)
    } else {
        None
    }
}

/// A run of characters writes at least what any of its beginnings writes.
pub proof fn lemma_number_grows(digits: Seq<char>, k: int)
    requires
        0 <= k <= digits.len(),
    ensures
        number_of(digits.take(k)) <= number_of(digits),
    decreases digits.len() - k,
{
    if k == digits.len() {
        assert(digits.take(k) =~= digits);
    } else {
        lemma_number_grows(digits, k + 1);
        assert(digits.take(k + 1).drop_last() =~= digits.take(k));
    }
}

/// Reads a number written as ASCII digits.
pub fn parse_decimal(text: &str) -> (r: Option<u64>)
    ensures
        r == decimal_value(text@),
{
    let n = text.unicode_len();
    if n == 0 {
        return None;
    }
    let mut value: u64 = 0;
    let mut i: usize = 0;
    while i < n
        invariant
            i <= n,
            n == text@.len(),
            all_digits(text@.take(i as int)),
            value == number_of(text@.take(i as int)),
        decreases n - i,
    {
        let code = text.get_char(i) as u32;
        if code < 48 || code > 57 {
            assert(!is_digit(text@[i as int]));
            return None;
        }
        let digit = (code - 48) as u64;
        proof {
            assert(text@.take(i + 1).drop_last() =~= text@.take(i as int));
            assert(text@.take(i + 1).last() == text@[i as int]);
        }
        if value > (u64::MAX - digit) / 10 {
            proof {
                lemma_number_grows(text@, i + 1);
            }
            return None;
        }
        value = value * 10 + digit;
        i += 1;
    }
    assert(text@.take(n as int) =~= text@);
    Some(value)
}

/// What the first capture group holds in the leftmost match of a pattern in
/// a text; nothing where the pattern is no regular expression, where it has
/// no match, or where the group took no part in the match.
pub uninterp spec fn first_capture(pattern: Seq<char>, text: Seq<char>) -> Option<Seq<char>>;

/// Compiles the pattern with `regex::Regex::new`, searches the text with
/// `Regex::captures`, and takes group 1 with `Captures::get` and
/// `Match::as_str`. The contract names the outcome; nothing where any of the
/// three gives an error or `None`.
#[verifier::external_body]
fn capture_first(pattern: &str, text: &str) -> (r: Option<String>)
    ensures
        match r {
            Some(found) => first_capture(pattern@, text@) == Some(found@),
            None => first_capture(pattern@, text@) is None,
        },
{
    regex::Regex::new(pattern).ok()?.captures(text)?.get(1).map(|m| m.as_str().to_owned())
}

/// The pattern of the service's report of a failed precondition: the stored
/// value is the first run of digits.
pub open spec fn conflict_pattern() -> Seq<char> {
    "current value (\\d+) is not \\d+"@
}

/// The value that a captured run of digits reveals.
pub open spec fn revealed(captured: Option<Seq<char>>) -> Option<u64> {
    match captured {
        Some(digits) => decimal_value(digits),
        None => None,
    }
}

/// Reads what was captured as a number.
pub fn revealed_value(captured: Option<String>) -> (r: Option<u64>)
    ensures
        r == revealed(
            match captured {
                Some(digits) => Some(digits@),
                None => None,
            },
        ),
{
    match captured {
        Some(digits) => parse_decimal(digits.as_str()),
        None => None,
    }
}

/// The stored value that the text of a failed precondition reveals, where the
/// text has the service's form and the value fits in 64 bits.
pub fn current_value(text: &str) -> (r: Option<u64>)
    ensures
        r == revealed(first_capture(conflict_pattern(), text@)),
{
    revealed_value(capture_first("current value (\\d+) is not \\d+", text))
}

} // verus!
