//! Score calculator: from a tally of correct words to words per minute, and
//! the comparison with the best score so far.

use vstd::prelude::*;
use crate::clock::SESSION_SECONDS;

verus! {

/// Words per minute for `correct_count` words typed in `duration_secs`
/// seconds, truncated toward zero. Every correct word counts as one word,
/// whatever its length.
pub open spec fn words_per_minute(correct_count: nat, duration_secs: nat) -> nat
    recommends
        duration_secs > 0,
{
    correct_count * 60 / duration_secs
}

/// The score of a session: words per minute over the fixed session length,
/// held at `u32::MAX` where the exact figure would not fit.
pub open spec fn session_wpm(correct_count: u32) -> u32 {
    let exact = words_per_minute(correct_count as nat, SESSION_SECONDS as nat);
    if exact <= u32::MAX {
        exact as u32
    } else {
        u32::MAX
    }
}

/// Over a session of thirty seconds every correct word is worth two words
/// per minute.
pub proof fn lemma_wpm_is_double(correct_count: nat)
    ensures
        words_per_minute(correct_count, SESSION_SECONDS as nat) == 2 * correct_count,
{
}

/// Computes the words-per-minute score of a session from its tally of
/// correctly typed words.
pub fn compute_wpm(correct_count: u32) -> (wpm: u32)
    ensures
        wpm == session_wpm(correct_count),
        2 * correct_count <= u32::MAX ==> wpm == 2 * correct_count,
        2 * correct_count > u32::MAX ==> wpm == u32::MAX,
{
    proof {
        lemma_wpm_is_double(correct_count as nat);
    }
    let exact: u64 = (correct_count as u64) * 60 / SESSION_SECONDS;
    if exact <= u32::MAX as u64 {
        exact as u32
    } else {
        u32::MAX
    }
}

/// The best score after a session that ended with `new_score`, and whether
/// it replaced `current_best`.
pub open spec fn best_after(current_best: u32, new_score: u32) -> (u32, bool) {
    if new_score > current_best {
        (new_score, true)
    } else {
        (current_best, false)
    }
}

/// Compares the score of a finished session with the best so far. The best
/// changes only when the new score is strictly higher.
pub fn update_best(current_best: u32, new_score: u32) -> (r: (u32, bool))
    ensures
        r == best_after(current_best, new_score),
        r.1 <==> new_score > current_best,
        r.0 >= current_best,
        r.0 >= new_score,
        r.0 == current_best || r.0 == new_score,
{
    if new_score > current_best {
        (new_score, true)
    } else {
        (current_best, false)
    }
}

} // verus!
