//! Input matcher: how a typed text compares with the word it is meant to be,
//! character by character and as a whole.

use vstd::prelude::*;
use crate::text::{char_at, chars_of, trim, trimmed_bounds};

verus! {

/// How one character of the target word stands against the typed text.
#[derive(Clone, Copy, Debug, PartialEq, Eq, Structural)]
pub enum CharStatus {
    /// The character typed at this position is the target's.
    Matched,
    /// A different character was typed at this position.
    Mismatched,
    /// Nothing has been typed at this position yet.
    Pending,
}

/// One character of the target word with its status.
#[derive(Clone, Copy, Debug, PartialEq, Eq, Structural)]
pub struct CharTag {
    pub ch: char,
    pub status: CharStatus,
}

/// The status of position `k` of `target` against `input`.
pub open spec fn status_at(target: Seq<char>, input: Seq<char>, k: int) -> CharStatus {
    if k < input.len() {
        if input[k] == target[k] {
            CharStatus::Matched
        } else {
            CharStatus::Mismatched
        }
    } else {
        CharStatus::Pending
    }
}

/// The tag of position `k` of `target` against `input`.
pub open spec fn tag_at(target: Seq<char>, input: Seq<char>, k: int) -> CharTag {
    CharTag { ch: target[k], status: status_at(target, input, k) }
}

/// Whether `tags` are the tags of `target` against `input`: one for each
/// character of `target`, in order.
pub open spec fn is_diff(tags: Seq<CharTag>, target: Seq<char>, input: Seq<char>) -> bool {
    &&& tags.len() == target.len()
    &&& forall|k: int| 0 <= k < target.len() ==> #[trigger] tags[k] == tag_at(target, input, k)
}

/// A target and an input have one sequence of tags only.
pub proof fn lemma_diff_unique(
    a: Seq<CharTag>,
    b: Seq<CharTag>,
    target: Seq<char>,
    input: Seq<char>,
)
    requires
        is_diff(a, target, input),
        is_diff(b, target, input),
    ensures
        a == b,
{
    assert(a =~= b);
}

/// Whether `input` counts as `target`: after trimming, the two are the same
/// text, character for character.
pub open spec fn matches_word(target: Seq<char>, input: Seq<char>) -> bool {
    trim(input) == target
}

/// A correct entry typed without whitespace around it is matched at every
/// position.
pub proof fn lemma_correct_entry_matches_everywhere(
    tags: Seq<CharTag>,
    target: Seq<char>,
    input: Seq<char>,
)
    requires
        is_diff(tags, target, input),
        matches_word(target, input),
        trim(input) == input,
    ensures
        forall|k: int| 0 <= k < tags.len() ==> (#[trigger] tags[k]).status == CharStatus::Matched,
{
}

/// Tags every character of `target` by comparing it with the character of
/// `input` at the same position. Characters of `input` beyond the length of
/// `target` play no part.
pub fn diff(target: &str, input: &str) -> (tags: Vec<CharTag>)
    ensures
        is_diff(tags@, target@, input@),
        tags@.len() == target@.len(),
        forall|k: int|
            0 <= k < target@.len() && k < input@.len() ==> (tags@[k].status == CharStatus::Matched
                <==> target@[k] == input@[k]),
        forall|k: int|
            0 <= k < target@.len() && k >= input@.len() ==> tags@[k].status == CharStatus::Pending,
{
    let t = chars_of(target);
    let typed = chars_of(input);
    let mut out: Vec<CharTag> = Vec::new();
    let mut k: usize = 0;
    while k < t.len()
        invariant
            k <= t.len(),
            t@ == target@,
            typed@ == input@,
            out@.len() == k,
            forall|j: int| 0 <= j < k ==> #[trigger] out@[j] == tag_at(target@, input@, j),
        decreases t.len() - k,
    {
        let status = if k < typed.len() {
            if typed[k] == t[k] {
                CharStatus::Matched
            } else {
                CharStatus::Mismatched
            }
        } else {
            CharStatus::Pending
        };
        out.push(CharTag { ch: char_at(&t, k), status });
        k += 1;
    }
    out
}

/// Decides whether `input` is a correct entry of `target`. Whitespace
/// around the typed text is ignored; anything else must agree exactly, case
/// included.
pub fn is_correct(target: &str, input: &str) -> (ok: bool)
    ensures
        ok == matches_word(target@, input@),
        ok == (trim(input@) == target@),
{
    let t = chars_of(target);
    let typed = chars_of(input);
    let (lo, hi) = trimmed_bounds(&typed);
    if hi - lo != t.len() {
        return false;
    }
    let mut k: usize = 0;
    while k < t.len()
        invariant
            k <= t.len(),
            lo <= hi <= typed.len(),
            hi - lo == t.len(),
            t@ == target@,
            typed@.subrange(lo as int, hi as int) == trim(input@),
            forall|j: int| 0 <= j < k ==> typed@[lo + j] == t@[j],
        decreases t.len() - k,
    {
        if typed[lo + k] != t[k] {
            assert(typed@.subrange(lo as int, hi as int)[k as int] != t@[k as int]);
            return false;
        }
        k += 1;
    }
    assert(typed@.subrange(lo as int, hi as int) =~= t@);
    true
}

} // verus!
