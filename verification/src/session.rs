//! Session: the state of one timed run, and what typing does to it.

use vstd::prelude::*;
use crate::clock::{remaining_at, SessionClock, NANOS_PER_SECOND};
use crate::matcher::{diff, is_correct, is_diff, matches_word, CharTag};
use crate::queue::{lemma_advance_keeps_order, EmptyListError, QueueView, WordQueue};
use crate::score::{compute_wpm, session_wpm};
use crate::shuffle::Shuffler;
use crate::text::texts;

verus! {

/// How many upcoming words a snapshot previews.
pub const PREVIEW_WORDS: usize = 3;

/// What a session holds, in mathematical terms.
pub struct SessionView {
    /// The word queue.
    pub queue: QueueView,
    /// The text typed so far for the current word.
    pub input: Seq<char>,
    /// The number of words entered correctly.
    pub correct_count: nat,
    /// The clock reading at which the session began.
    pub start: nat,
}

impl SessionView {
    /// The invariant of a session: its queue is in order and has a word to
    /// show.
    pub open spec fn wf(self) -> bool {
        &&& self.queue.wf()
        &&& self.queue.len() > 0
        &&& self.correct_count <= u32::MAX
    }

    /// The session after the character `c` was typed.
    pub open spec fn typed(self, c: char) -> SessionView {
        SessionView {
            queue: self.queue,
            input: self.input.push(c),
            correct_count: self.correct_count,
            start: self.start,
        }
    }

    /// The session after the last typed character was taken back. With
    /// nothing typed, nothing changes.
    pub open spec fn erased(self) -> SessionView {
        SessionView {
            queue: self.queue,
            input: if self.input.len() > 0 {
                self.input.drop_last()
            } else {
                self.input
            },
            correct_count: self.correct_count,
            start: self.start,
        }
    }

    /// Whether the text typed so far is a correct entry of the current
    /// word.
    pub open spec fn input_correct(self) -> bool {
        matches_word(self.queue.current(), self.input)
    }

    /// The tally after the typed text was submitted: one more for a correct
    /// entry, unless the tally has reached the largest number it can hold.
    pub open spec fn tally_after_submit(self) -> nat {
        if self.input_correct() && self.correct_count < u32::MAX {
            self.correct_count + 1
        } else {
            self.correct_count
        }
    }

    /// Whether `next` is a state that submitting the typed text may lead
    /// to. The entry is judged, the queue moves on whatever the verdict,
    /// and the typed text is cleared.
    pub open spec fn submits_to(self, next: SessionView) -> bool {
        &&& self.queue.advances_to(next.queue)
        &&& next.input == Seq::<char>::empty()
        &&& next.correct_count == self.tally_after_submit()
        &&& next.start == self.start
    }
}

/// Taking back a character when nothing is typed changes nothing.
pub proof fn lemma_backspace_on_empty(session: SessionView)
    requires
        session.input.len() == 0,
    ensures
        session.erased() == session,
{
}

/// Typing and taking back leave the tally, the queue and the clock alone,
/// and taking back undoes typing.
pub proof fn lemma_editing_keeps_progress(session: SessionView, c: char)
    ensures
        session.typed(c).correct_count == session.correct_count,
        session.typed(c).queue == session.queue,
        session.typed(c).start == session.start,
        session.erased().correct_count == session.correct_count,
        session.erased().queue == session.queue,
        session.erased().start == session.start,
        session.typed(c).erased() == session,
{
    assert(session.input.push(c).drop_last() =~= session.input);
}

/// Submitting never lowers the tally: it goes up by one for a correct
/// entry and stays for a wrong one. It always clears the typed text and
/// moves the queue on.
pub proof fn lemma_submit_counts(session: SessionView, next: SessionView)
    requires
        session.wf(),
        session.submits_to(next),
    ensures
        next.wf(),
        next.correct_count >= session.correct_count,
        next.correct_count <= session.correct_count + 1,
        !session.input_correct() ==> next.correct_count == session.correct_count,
        session.input_correct() && session.correct_count < u32::MAX ==> next.correct_count
            == session.correct_count + 1,
        next.input.len() == 0,
        next.queue.words == session.queue.words,
{
    lemma_advance_keeps_order(session.queue, next.queue);
}

/// A picture of a running session for whoever draws the screen. It is made
/// anew from the session each time and holds no state of its own.
#[derive(Debug, PartialEq, Eq)]
pub struct RenderSnapshot {
    /// Whole seconds left on the clock.
    pub remaining_secs: u64,
    /// The current word, each character tagged against the typed text.
    pub current: Vec<CharTag>,
    /// The words that come next.
    pub upcoming: Vec<String>,
    /// The text typed so far.
    pub input: String,
    /// The best score ever reached.
    pub highest_wpm: u32,
}

/// Whether `snap` is the picture of `session` at the clock reading `now`
/// with `best` as the best score.
pub open spec fn shows(snap: RenderSnapshot, session: SessionView, now: nat, best: u32) -> bool {
    &&& snap.remaining_secs == remaining_at(session.start, now) / (NANOS_PER_SECOND as nat)
    &&& is_diff(snap.current@, session.queue.current(), session.input)
    &&& texts(snap.upcoming@) == session.queue.upcoming(PREVIEW_WORDS as nat)
    &&& snap.input@ == session.input
    &&& snap.highest_wpm == best
}

/// One timed run.
pub struct Session {
    queue: WordQueue,
    input: String,
    correct_count: u32,
    clock: SessionClock,
}

impl View for Session {
    type V = SessionView;

    closed spec fn view(&self) -> SessionView {
        SessionView {
            queue: self.queue@,
            input: self.input@,
            correct_count: self.correct_count as nat,
            start: self.clock.started(),
        }
    }
}

impl Session {
    /// Whether the session is in order. Every session that this module
    /// hands out is.
    pub open spec fn wf(&self) -> bool {
        self@.wf()
    }

    /// Begins a session over `words` at the clock reading `now`: the words
    /// freshly shuffled, nothing typed, nothing counted. A session needs at
    /// least one word.
    pub fn new(words: Vec<String>, shuffler: &mut Shuffler, now: u64) -> (session: Result<
        Session,
        EmptyListError,
    >)
        ensures
            words@.len() == 0 <==> session is Err,
            session matches Ok(s) ==> {
                &&& s.wf()
                &&& s@.queue.words == texts(words@)
                &&& s@.queue.index == 0
                &&& s@.input == Seq::<char>::empty()
                &&& s@.correct_count == 0
                &&& s@.start == now
            },
    {
        if words.len() == 0 {
            return Err(EmptyListError);
        }
        let queue = WordQueue::new(words, shuffler);
        Ok(Session { queue, input: String::new(), correct_count: 0, clock: SessionClock::start_at(now) })
    }

    /// Appends a typed character to the text typed so far.
    pub fn type_char(&mut self, c: char)
        ensures
            final(self)@ == old(self)@.typed(c),
            final(self).wf() == old(self).wf(),
    {
        self.input.push(c);
    }

    /// Takes back the last typed character, if there is one.
    pub fn backspace(&mut self)
        ensures
            final(self)@ == old(self)@.erased(),
            old(self)@.input.len() == 0 ==> final(self)@ == old(self)@,
            final(self).wf() == old(self).wf(),
    {
        self.input.pop();
    }

    /// Submits the text typed so far as the entry for the current word and
    /// tells whether it was correct. A correct entry is counted; a wrong one
    /// is not tried again. Either way the queue moves on and the typed text
    /// is cleared.
    pub fn submit(&mut self, shuffler: &mut Shuffler) -> (correct: bool)
        requires
            old(self).wf(),
        ensures
            final(self).wf(),
            correct == old(self)@.input_correct(),
            old(self)@.submits_to(final(self)@),
    {
        let correct = match self.queue.current() {
            Ok(word) => is_correct(word, self.input.as_str()),
            Err(_) => false,
        };
        if correct && self.correct_count < u32::MAX {
            self.correct_count = self.correct_count + 1;
        }
        self.queue.advance(shuffler);
        self.input.clear();
        correct
    }

    /// The word that is to be typed now.
    pub fn current_word(&self) -> (word: &str)
        requires
            self.wf(),
        ensures
            word@ == self@.queue.current(),
    {
        match self.queue.current() {
            Ok(word) => word,
            Err(_) => "",
        }
    }

    /// The text typed so far for the current word.
    pub fn input(&self) -> (input: &str)
        ensures
            input@ == self@.input,
    {
        self.input.as_str()
    }

    /// The number of words entered correctly so far.
    pub fn correct_count(&self) -> (count: u32)
        ensures
            count == self@.correct_count,
    {
        self.correct_count
    }

    /// The position of the current word in this pass through the words.
    pub fn current_index(&self) -> (index: usize)
        ensures
            index == self@.queue.index,
    {
        self.queue.current_index()
    }

    /// The clock of the session.
    pub fn clock(&self) -> (clock: SessionClock)
        ensures
            clock.started() == self@.start,
    {
        self.clock
    }

    /// The score that the session stands at, in words per minute.
    pub fn wpm(&self) -> (wpm: u32)
        ensures
            wpm == session_wpm(self@.correct_count as u32),
    {
        compute_wpm(self.correct_count)
    }

    /// The picture of the session at the clock reading `now`, with `best`
    /// as the best score to show.
    pub fn snapshot(&self, now: u64, best: u32) -> (snap: RenderSnapshot)
        requires
            self.wf(),
        ensures
            shows(snap, self@, now as nat, best),
            snap.upcoming@.len() <= PREVIEW_WORDS,
            snap.current@.len() == self@.queue.current().len(),
    {
        let word = self.current_word();
        RenderSnapshot {
            remaining_secs: self.clock.remaining_secs(now),
            current: diff(word, self.input.as_str()),
            upcoming: self.queue.peek_upcoming(PREVIEW_WORDS),
            input: self.input.clone(),
            highest_wpm: best,
        }
    }
}

} // verus!
