//! Session clock: how much of the fixed session time has gone by.
//!
//! The clock does not read the time itself. Its caller reads a clock that
//! never runs backwards and hands in the reading, in nanoseconds since a
//! moment of its own choosing.

use vstd::prelude::*;

verus! {

/// Length of one session in seconds. It is the same for every run.
pub const SESSION_SECONDS: u64 = 30;

/// Nanoseconds in a second.
pub const NANOS_PER_SECOND: u64 = 1_000_000_000;

/// Length of one session in nanoseconds.
pub const SESSION_NANOS: u64 = SESSION_SECONDS * NANOS_PER_SECOND;

/// Time gone by at `now` since `start`. A reading from before the start
/// counts as the start itself.
pub open spec fn elapsed_since(start: nat, now: nat) -> nat {
    if now >= start {
        (now - start) as nat
    } else {
        0
    }
}

/// Time left at `now` of a session begun at `start`; zero once the session
/// time is used up.
pub open spec fn remaining_at(start: nat, now: nat) -> nat {
    let elapsed = elapsed_since(start, now);
    if elapsed >= SESSION_NANOS {
        0
    } else {
        (SESSION_NANOS - elapsed) as nat
    }
}

/// Whether a session begun at `start` is over at `now`.
pub open spec fn expired_at(start: nat, now: nat) -> bool {
    elapsed_since(start, now) >= SESSION_NANOS
}

/// A session is over exactly when no time is left, and until then the time
/// gone by and the time left add up to the session length.
pub proof fn lemma_expired_iff_nothing_left(start: nat, now: nat)
    ensures
        expired_at(start, now) <==> remaining_at(start, now) == 0,
        !expired_at(start, now) ==> elapsed_since(start, now) + remaining_at(start, now)
            == SESSION_NANOS,
        remaining_at(start, now) <= SESSION_NANOS,
{
}

/// Time only moves on: at a later reading more time has gone by, less is
/// left, and a session that was over stays over.
pub proof fn lemma_clock_monotonic(start: nat, earlier: nat, later: nat)
    requires
        earlier <= later,
    ensures
        elapsed_since(start, earlier) <= elapsed_since(start, later),
        remaining_at(start, earlier) >= remaining_at(start, later),
        expired_at(start, earlier) ==> expired_at(start, later),
{
}

/// The clock of one session. It starts once and runs on without pause.
#[derive(Clone, Copy, Debug, PartialEq, Eq)]
pub struct SessionClock {
    start: u64,
}

impl SessionClock {
    /// The reading at which the session began.
    pub closed spec fn started(&self) -> nat {
        self.start as nat
    }

    /// Starts a clock at the reading `now`.
    pub fn start_at(now: u64) -> (clock: SessionClock)
        ensures
            clock.started() == now,
    {
        SessionClock { start: now }
    }

    /// The reading at which the session began.
    pub fn start(&self) -> (start: u64)
        ensures
            start == self.started(),
    {
        self.start
    }

    /// Time gone by since the session began, in nanoseconds.
    pub fn elapsed(&self, now: u64) -> (elapsed: u64)
        ensures
            elapsed == elapsed_since(self.started(), now as nat),
    {
        if now >= self.start {
            now - self.start
        } else {
            0
        }
    }

    /// Time left in the session, in nanoseconds and exact.
    pub fn remaining(&self, now: u64) -> (left: u64)
        ensures
            left == remaining_at(self.started(), now as nat),
            left <= SESSION_NANOS,
    {
        let elapsed = self.elapsed(now);
        if elapsed >= SESSION_NANOS {
            0
        } else {
            SESSION_NANOS - elapsed
        }
    }

    /// Time left in the session in whole seconds, rounded down, as a timer
    /// shows it.
    pub fn remaining_secs(&self, now: u64) -> (secs: u64)
        ensures
            secs == remaining_at(self.started(), now as nat) / (NANOS_PER_SECOND as nat),
            secs <= SESSION_SECONDS,
    {
        self.remaining(now) / NANOS_PER_SECOND
    }

    /// Whether the session time is used up.
    pub fn is_expired(&self, now: u64) -> (expired: bool)
        ensures
            expired == expired_at(self.started(), now as nat),
            expired <==> remaining_at(self.started(), now as nat) == 0,
    {
        self.elapsed(now) >= SESSION_NANOS
    }
}

} // verus!
