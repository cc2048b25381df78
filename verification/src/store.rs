//! Score store: the format of the stored best score and where it is kept.
//!
//! The best score is kept as one number in decimal digits. Reading and
//! writing the file is the caller's part; this module says what a file's
//! content means and what is to be written.

use vstd::prelude::*;
use crate::text::{char_at, chars_of, lemma_trim_idempotent, lemma_trim_keeps_trimmed, trim,
    trimmed_bounds};

verus! {

/// Whether `c` is one of the digits `0` to `9`.
pub open spec fn is_digit(c: char) -> bool {
    '0' <= c <= '9'
}

/// The value of the digit `c`.
pub open spec fn digit_value(c: char) -> nat
    recommends
        is_digit(c),
{
    (c as u32 - '0' as u32) as nat
}

/// The digit that stands for `d`.
pub open spec fn digit_char(d: nat) -> char
    recommends
        d < 10,
{
    (d + '0' as u32) as char
}

/// Whether `s` is made of digits only.
pub open spec fn all_digits(s: Seq<char>) -> bool {
    forall|i: int| 0 <= i < s.len() ==> is_digit(#[trigger] s[i])
}

/// The number that a row of digits stands for, read as decimal.
pub open spec fn decimal_value(digits: Seq<char>) -> nat
    decreases digits.len(),
{
    if digits.len() == 0 {
        0
    } else {
        decimal_value(digits.drop_last()) * 10 + digit_value(digits.last())
    }
}

/// The decimal digits of `n`, without leading zeros.
pub open spec fn decimal_digits(n: nat) -> Seq<char>
    decreases n,
{
    if n < 10 {
        seq![digit_char(n)]
    } else {
        decimal_digits(n / 10).push(digit_char(n % 10))
    }
}

/// The digits of a file's content: what trimming leaves, without one plus
/// sign in front.
pub open spec fn score_digits(content: Seq<char>) -> Seq<char> {
    let t = trim(content);
    if t.len() > 0 && t[0] == '+' {
        t.drop_first()
    } else {
        t
    }
}

/// Whether a file's content holds a score: after trimming, an optional plus
/// sign and then one digit or more, standing for a number that fits.
pub open spec fn is_score(content: Seq<char>) -> bool {
    let digits = score_digits(content);
    &&& digits.len() > 0
    &&& all_digits(digits)
    &&& decimal_value(digits) <= u32::MAX
}

/// The score that a file's content stands for; zero where it holds none.
pub open spec fn parsed_score(content: Seq<char>) -> nat {
    if is_score(content) {
        decimal_value(score_digits(content))
    } else {
        0
    }
}

/// The score read from a file that may be missing or unreadable: zero then,
/// and else what its content stands for.
pub open spec fn loaded_score(content: Option<Seq<char>>) -> nat {
    match content {
        Some(c) => parsed_score(c),
        None => 0,
    }
}

/// A longer row of digits stands for no smaller a number than the row it
/// begins with.
pub proof fn lemma_decimal_value_prefix(digits: Seq<char>, k: int)
    requires
        0 <= k <= digits.len(),
    ensures
        decimal_value(digits.take(k)) <= decimal_value(digits),
    decreases digits.len() - k,
{
    if k == digits.len() {
        assert(digits.take(k) =~= digits);
    } else {
        lemma_decimal_value_prefix(digits.drop_last(), k);
        assert(digits.drop_last().take(k) =~= digits.take(k));
    }
}

/// The digits of a number are digits, begin with no zero unless the number
/// is zero, and stand for the number.
pub proof fn lemma_decimal_digits(n: nat)
    ensures
        decimal_digits(n).len() > 0,
        all_digits(decimal_digits(n)),
        decimal_value(decimal_digits(n)) == n,
        n > 0 ==> decimal_digits(n)[0] != '0',
    decreases n,
{
    if n < 10 {
        let s = seq![digit_char(n)];
        assert(s.drop_last() =~= Seq::<char>::empty());
        assert(decimal_value(s.drop_last()) == 0);
        assert(s.last() == digit_char(n));
    } else {
        lemma_decimal_digits(n / 10);
        let head = decimal_digits(n / 10);
        let s = head.push(digit_char(n % 10));
        assert(s.drop_last() =~= head);
        assert(s.last() == digit_char(n % 10));
        assert forall|i: int| 0 <= i < s.len() implies is_digit(#[trigger] s[i]) by {
            if i < head.len() {
                assert(s[i] == head[i]);
            }
        }
        assert(s[0] == head[0]);
    }
}

/// What is written for a score reads back as that score.
pub proof fn lemma_score_round_trip(value: u32)
    ensures
        is_score(decimal_digits(value as nat)),
        parsed_score(decimal_digits(value as nat)) == value,
        loaded_score(Some(decimal_digits(value as nat))) == value,
{
    let s = decimal_digits(value as nat);
    lemma_decimal_digits(value as nat);
    assert(is_digit(s.first()));
    assert(is_digit(s.last()));
    lemma_trim_keeps_trimmed(s);
}

/// Whitespace around a file's content does not change the score it stands
/// for.
pub proof fn lemma_score_ignores_outer_whitespace(content: Seq<char>)
    ensures
        parsed_score(trim(content)) == parsed_score(content),
        is_score(trim(content)) == is_score(content),
{
    lemma_trim_idempotent(content);
}

/// Reads the score that a file's content stands for. Content that holds no
/// score reads as zero.
pub fn parse_score(content: &str) -> (score: u32)
    ensures
        score == parsed_score(content@),
        is_score(content@) ==> score == decimal_value(score_digits(content@)),
        !is_score(content@) ==> score == 0,
{
    let chars = chars_of(content);
    let (lo, hi) = trimmed_bounds(&chars);
    let ghost t = trim(content@);
    let first: usize = if lo < hi && chars[lo] == '+' {
        lo + 1
    } else {
        lo
    };
    let ghost digits = score_digits(content@);
    assert(digits =~= chars@.subrange(first as int, hi as int)) by {
        assert(t == chars@.subrange(lo as int, hi as int));
        if lo < hi {
            assert(t[0] == chars@[lo as int]);
        }
    }
    if first == hi {
        return 0;
    }
    let mut value: u64 = 0;
    let mut k: usize = first;
    while k < hi
        invariant
            first <= k <= hi <= chars.len(),
            digits == chars@.subrange(first as int, hi as int),
            digits == score_digits(content@),
            all_digits(digits.take(k - first)),
            value == decimal_value(digits.take(k - first)),
            value <= u32::MAX,
        decreases hi - k,
    {
        let c: u32 = char_at(&chars, k) as u32;
        assert(digits[k - first] == chars@[k as int]);
        if c < 0x30 || c > 0x39 {
            assert(!is_digit(digits[k - first]));
            return 0;
        }
        let next: u64 = value * 10 + (c - 0x30) as u64;
        proof {
            let longer = digits.take(k - first + 1);
            assert(longer.drop_last() =~= digits.take(k - first));
            assert(longer.last() == digits[k - first]);
            assert(next == decimal_value(longer));
            assert forall|i: int| 0 <= i < longer.len() implies is_digit(#[trigger] longer[i]) by {
                if i < k - first {
                    assert(longer[i] == digits.take(k - first)[i]);
                } else {
                    assert(longer[i] == digits[k - first]);
                }
            }
        }
        if next > u32::MAX as u64 {
            proof {
                lemma_decimal_value_prefix(digits, k - first + 1);
            }
            return 0;
        }
        value = next;
        k += 1;
    }
    assert(digits.take(hi - first) =~= digits);
    value as u32
}

/// Reads the score from what was found in the score file: `None` for a
/// file that is missing or cannot be read. This never fails; where there is
/// no score to read the score is zero.
pub fn load_score(content: Option<&str>) -> (score: u32)
    ensures
        score == loaded_score(
            match content {
                Some(c) => Some(c@),
                None => None,
            },
        ),
        content is None ==> score == 0,
        content matches Some(c) ==> score == parsed_score(c@),
{
    match content {
        Some(c) => parse_score(c),
        None => 0,
    }
}

/// The digit that stands for `d`.
fn digit_of(d: u32) -> (c: char)
    requires
        d < 10,
    ensures
        c == digit_char(d as nat),
{
    ((0x30 + d) as u8) as char
}

/// Appends the decimal digits of `n` to `out`.
fn push_decimal(out: &mut String, n: u32)
    ensures
        final(out)@ == old(out)@ + decimal_digits(n as nat),
    decreases n,
{
    if n >= 10 {
        push_decimal(out, n / 10);
    }
    out.push(digit_of(n % 10));
    assert(out@ =~= old(out)@ + decimal_digits(n as nat));
}

/// Writes a score as it is to be stored: its decimal digits and nothing
/// else.
pub fn format_score(value: u32) -> (content: String)
    ensures
        content@ == decimal_digits(value as nat),
        parsed_score(content@) == value,
{
    let mut content = String::new();
    push_decimal(&mut content, value);
    proof {
        assert(content@ =~= decimal_digits(value as nat));
        lemma_score_round_trip(value);
    }
    content
}

/// The name of the score file inside the directory that holds it.
pub const SCORE_FILE_NAME: &'static str = ".typo_highest_wpm";

/// The directory that is used where the user's home directory is not known:
/// the current one.
pub const FALLBACK_DIRECTORY: &'static str = ".";

/// The directory that holds the score file: the user's home directory where
/// it is known, the current directory where it is not.
pub fn score_directory(home: Option<String>) -> (dir: String)
    ensures
        home matches Some(h) ==> dir@ == h@,
        home is None ==> dir@ == FALLBACK_DIRECTORY@,
{
    match home {
        Some(h) => h,
        None => FALLBACK_DIRECTORY.to_owned(),
    }
}

} // verus!
