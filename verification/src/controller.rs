//! Session controller: the state machine of the exercise.
//!
//! The controller takes one input event at a time, together with the clock
//! reading at which it is handled, and answers with what its caller has to
//! do. It never waits, draws or writes anything itself.

use vstd::prelude::*;
use crate::clock::expired_at;
use crate::queue::EmptyListError;
use crate::score::{best_after, session_wpm, update_best};
use crate::session::{lemma_submit_counts, shows, RenderSnapshot, Session, SessionView};
use crate::shuffle::Shuffler;
use crate::text::texts;

verus! {

/// An input event, as the controller sees it.
#[derive(Clone, Copy, Debug, PartialEq, Eq, Structural)]
pub enum InputEvent {
    /// A character key.
    Char(char),
    /// The space bar.
    Space,
    /// The enter key: it confirms, and it submits a word.
    Enter,
    /// The backspace key.
    Backspace,
    /// The escape key: it cancels.
    Cancel,
    /// No key within the waiting time.
    Tick,
}

/// Where the exercise stands.
#[derive(Clone, Copy, Debug, PartialEq, Eq, Structural)]
pub enum Phase {
    /// Before the first session.
    Idle,
    /// A session is running.
    Running,
    /// A session has ended and its result is shown.
    Complete,
    /// The exercise is over.
    Terminated,
}

/// What the caller has to do after an event was handled, apart from
/// drawing the screen again.
#[derive(Clone, Copy, Debug, PartialEq, Eq, Structural)]
pub enum Action {
    /// Nothing: go on with the next event.
    Continue,
    /// Store this score: a session has just ended with a new best.
    SaveScore(u32),
    /// Put the terminal back in order and leave.
    Exit,
}

/// The result of a finished session.
#[derive(Clone, Copy, Debug, PartialEq, Eq, Structural)]
pub struct Summary {
    /// The score of the session in words per minute.
    pub wpm: u32,
    /// The best score, this session included.
    pub best: u32,
    /// Whether this session set a new best.
    pub improved: bool,
    /// Whether the caller reported that the new best could not be stored.
    pub save_failed: bool,
}

/// The state of the controller, in mathematical terms.
pub enum StateView {
    Idle,
    Running(SessionView),
    Complete(Summary),
    Terminated,
}

/// What a controller holds, in mathematical terms.
pub struct ControllerView {
    /// The word list.
    pub words: Seq<Seq<char>>,
    /// The best score so far.
    pub best: u32,
    /// The state of the machine.
    pub state: StateView,
}

/// Whether an event submits the typed text: the space bar, the enter key,
/// or a space that arrives as a character.
pub open spec fn is_submit(event: InputEvent) -> bool {
    event is Space || event is Enter || event == InputEvent::Char(' ')
}

impl ControllerView {
    /// The invariant of a controller: there are words to type, a running
    /// session is in order and runs over those words, and a result on show
    /// agrees with the best score.
    pub open spec fn wf(self) -> bool {
        &&& self.words.len() > 0
        &&& self.state matches StateView::Running(s) ==> s.wf() && s.queue.words == self.words
        &&& self.state matches StateView::Complete(sum) ==> sum.best == self.best
    }

    /// The phase that the machine is in.
    pub open spec fn phase(self) -> Phase {
        match self.state {
            StateView::Idle => Phase::Idle,
            StateView::Running(_) => Phase::Running,
            StateView::Complete(_) => Phase::Complete,
            StateView::Terminated => Phase::Terminated,
        }
    }

    /// Whether `s` is a session as it begins at the clock reading `now`:
    /// over the controller's words, with nothing typed and nothing counted.
    pub open spec fn begins(self, s: SessionView, now: nat) -> bool {
        &&& s.wf()
        &&& s.queue.words == self.words
        &&& s.queue.index == 0
        &&& s.input == Seq::<char>::empty()
        &&& s.correct_count == 0
        &&& s.start == now
    }

    /// The result of the session `s` when it ends now.
    pub open spec fn summary_of(self, s: SessionView) -> Summary {
        let wpm = session_wpm(s.correct_count as u32);
        let (best, improved) = best_after(self.best, wpm);
        Summary { wpm, best, improved, save_failed: false }
    }

    /// Whether handling `event` at the clock reading `now` may lead from
    /// this state to `next` with `action` for the caller.
    ///
    /// Before a session and after one, the enter key begins a session and
    /// the escape key ends the exercise; other events change nothing. A
    /// running session ends when its time is used up or the escape key
    /// comes, and its score then counts against the best. Until then a
    /// submitting event submits the typed text, a character is appended to
    /// it, the backspace key takes one back, and a tick changes nothing.
    pub open spec fn steps_to(
        self,
        event: InputEvent,
        now: nat,
        next: ControllerView,
        action: Action,
    ) -> bool {
        &&& next.words == self.words
        &&& match self.state {
            StateView::Idle | StateView::Complete(_) => match event {
                InputEvent::Enter => {
                    &&& next.best == self.best
                    &&& action == Action::Continue
                    &&& next.state matches StateView::Running(s)
                    &&& self.begins(s, now)
                },
                InputEvent::Cancel => {
                    &&& next.best == self.best
                    &&& action == Action::Exit
                    &&& next.state is Terminated
                },
                _ => next == self && action == Action::Continue,
            },
            StateView::Running(s) => if event is Cancel || expired_at(s.start, now) {
                let summary = self.summary_of(s);
                &&& next.best == summary.best
                &&& next.state == StateView::Complete(summary)
                &&& action == if summary.improved {
                    Action::SaveScore(summary.best)
                } else {
                    Action::Continue
                }
            } else {
                &&& next.best == self.best
                &&& action == Action::Continue
                &&& next.state matches StateView::Running(t)
                &&& if is_submit(event) {
                    s.submits_to(t)
                } else {
                    match event {
                        InputEvent::Char(c) => t == s.typed(c),
                        InputEvent::Backspace => t == s.erased(),
                        _ => t == s,
                    }
                }
            },
            StateView::Terminated => next == self && action == Action::Exit,
        }
    }
}

enum State {
    Idle,
    Running(Session),
    Complete(Summary),
    Terminated,
}

/// The controller of the exercise.
pub struct Controller {
    words: Vec<String>,
    shuffler: Shuffler,
    best: u32,
    state: State,
}

impl View for Controller {
    type V = ControllerView;

    closed spec fn view(&self) -> ControllerView {
        ControllerView {
            words: texts(self.words@),
            best: self.best,
            state: match self.state {
                State::Idle => StateView::Idle,
                State::Running(s) => StateView::Running(s@),
                State::Complete(sum) => StateView::Complete(sum),
                State::Terminated => StateView::Terminated,
            },
        }
    }
}

/// A copy of a word list.
fn clone_words(words: &Vec<String>) -> (copy: Vec<String>)
    ensures
        texts(copy@) == texts(words@),
        copy@.len() == words@.len(),
{
    let mut copy: Vec<String> = Vec::new();
    let mut i: usize = 0;
    while i < words.len()
        invariant
            i <= words.len(),
            copy@.len() == i,
            forall|j: int| 0 <= j < i ==> (#[trigger] copy@[j])@ == words@[j]@,
        decreases words.len() - i,
    {
        copy.push(words[i].clone());
        i += 1;
    }
    assert(texts(copy@) =~= texts(words@));
    copy
}

impl Controller {
    /// Whether the controller is in order. Every controller that this
    /// module hands out is.
    pub open spec fn wf(&self) -> bool {
        self@.wf()
    }

    /// Makes a controller over a word list, with the seed of its shuffles
    /// and the best score as it was loaded. It waits before the first
    /// session. A word list without words is refused.
    pub fn new(words: Vec<String>, seed: u64, best: u32) -> (controller: Result<
        Controller,
        EmptyListError,
    >)
        ensures
            words@.len() == 0 <==> controller is Err,
            controller matches Ok(c) ==> {
                &&& c.wf()
                &&& c@.words == texts(words@)
                &&& c@.best == best
                &&& c@.state is Idle
            },
    {
        if words.len() == 0 {
            return Err(EmptyListError);
        }
        Ok(Controller { words, shuffler: Shuffler::new(seed), best, state: State::Idle })
    }

    /// Handles one event at the clock reading `now` and tells the caller
    /// what to do.
    pub fn handle(&mut self, event: InputEvent, now: u64) -> (action: Action)
        requires
            old(self).wf(),
        ensures
            final(self).wf(),
            old(self)@.steps_to(event, now as nat, final(self)@, action),
    {
        let mut state = State::Terminated;
        core::mem::swap(&mut state, &mut self.state);
        match state {
            State::Idle => self.handle_at_rest(State::Idle, event, now),
            State::Complete(summary) => self.handle_at_rest(State::Complete(summary), event, now),
            State::Running(session) => self.handle_running(session, event, now),
            State::Terminated => Action::Exit,
        }
    }

    /// The phase that the exercise is in.
    pub fn phase(&self) -> (phase: Phase)
        ensures
            phase == self@.phase(),
    {
        match &self.state {
            State::Idle => Phase::Idle,
            State::Running(_) => Phase::Running,
            State::Complete(_) => Phase::Complete,
            State::Terminated => Phase::Terminated,
        }
    }

    /// The best score so far.
    pub fn best(&self) -> (best: u32)
        ensures
            best == self@.best,
    {
        self.best
    }

    /// The running session, if one is running.
    pub fn session(&self) -> (session: Option<&Session>)
        ensures
            match session {
                Some(s) => self@.state == StateView::Running(s@),
                None => !(self@.state is Running),
            },
            self.wf() && session is Some ==> session->0.wf(),
    {
        match &self.state {
            State::Running(s) => Some(s),
            _ => None,
        }
    }

    /// The result of the session that has just ended, while it is on show.
    pub fn summary(&self) -> (summary: Option<Summary>)
        ensures
            match summary {
                Some(sum) => self@.state == StateView::Complete(sum),
                None => !(self@.state is Complete),
            },
    {
        match &self.state {
            State::Complete(sum) => Some(*sum),
            _ => None,
        }
    }

    /// The picture of the running session at the clock reading `now`, with
    /// the best score so far. There is none unless a session is running.
    pub fn snapshot(&self, now: u64) -> (snap: Option<RenderSnapshot>)
        requires
            self.wf(),
        ensures
            snap is Some <==> self@.state is Running,
            snap matches Some(p) ==> self@.state matches StateView::Running(s) && shows(
                p,
                s,
                now as nat,
                self@.best,
            ),
    {
        match &self.state {
            State::Running(s) => Some(s.snapshot(now, self.best)),
            _ => None,
        }
    }

    /// Takes note that the new best score could not be stored. The result
    /// on show then says so; the best score itself stays as it is. Outside
    /// the showing of a result this changes nothing.
    pub fn record_save_failure(&mut self)
        requires
            old(self).wf(),
        ensures
            final(self).wf(),
            final(self)@.words == old(self)@.words,
            final(self)@.best == old(self)@.best,
            match old(self)@.state {
                StateView::Complete(sum) => final(self)@.state == StateView::Complete(
                    Summary { save_failed: true, ..sum },
                ),
                _ => final(self)@.state == old(self)@.state,
            },
    {
        let mut state = State::Terminated;
        core::mem::swap(&mut state, &mut self.state);
        match state {
            State::Complete(sum) => {
                self.state = State::Complete(
                    Summary {
                        wpm: sum.wpm,
                        best: sum.best,
                        improved: sum.improved,
                        save_failed: true,
                    },
                );
            },
            other => {
                self.state = other;
            },
        }
    }

    /// Handles an event before a session or after one. On entry the state
    /// has been taken out of the controller and is handed in as `state`.
    fn handle_at_rest(&mut self, state: State, event: InputEvent, now: u64) -> (action: Action)
        requires
            state is Idle || state is Complete,
            old(self).words@.len() > 0,
            state matches State::Complete(sum) ==> sum.best == old(self).best,
        ensures
            final(self).wf(),
            (Controller {
                words: old(self).words,
                shuffler: old(self).shuffler,
                best: old(self).best,
                state,
            })@.steps_to(event, now as nat, final(self)@, action),
    {
        match event {
            InputEvent::Enter => {
                let words = clone_words(&self.words);
                match Session::new(words, &mut self.shuffler, now) {
                    Ok(session) => {
                        self.state = State::Running(session);
                    },
                    Err(_) => {
                        self.state = state;
                    },
                }
                Action::Continue
            },
            InputEvent::Cancel => {
                self.state = State::Terminated;
                Action::Exit
            },
            _ => {
                self.state = state;
                Action::Continue
            },
        }
    }

    /// Handles an event while a session runs. On entry the session has been
    /// taken out of the controller and is handed in as `session`.
    fn handle_running(&mut self, session: Session, event: InputEvent, now: u64) -> (action: Action)
        requires
            old(self).words@.len() > 0,
            session.wf(),
            session@.queue.words == texts(old(self).words@),
        ensures
            final(self).wf(),
            (Controller {
                words: old(self).words,
                shuffler: old(self).shuffler,
                best: old(self).best,
                state: State::Running(session),
            })@.steps_to(event, now as nat, final(self)@, action),
    {
        let mut session = session;
        let cancelled = match event {
            InputEvent::Cancel => true,
            _ => false,
        };
        if cancelled || session.clock().is_expired(now) {
            let wpm = session.wpm();
            let (best, improved) = update_best(self.best, wpm);
            self.best = best;
            self.state = State::Complete(Summary { wpm, best, improved, save_failed: false });
            if improved {
                Action::SaveScore(best)
            } else {
                Action::Continue
            }
        } else {
            match event {
                InputEvent::Space | InputEvent::Enter => {
                    session.submit(&mut self.shuffler);
                },
                InputEvent::Char(c) => {
                    if c == ' ' {
                        session.submit(&mut self.shuffler);
                    } else {
                        session.type_char(c);
                    }
                },
                InputEvent::Backspace => {
                    session.backspace();
                },
                _ => {},
            }
            self.state = State::Running(session);
            Action::Continue
        }
    }
}

/// Handling an event leaves a controller in order, never lowers the best
/// score, and asks for a score to be stored only when a session has just
/// ended above the best score so far; the score to store is then the new
/// best.
pub proof fn lemma_step_keeps_order(
    before: ControllerView,
    event: InputEvent,
    now: nat,
    after: ControllerView,
    action: Action,
)
    requires
        before.wf(),
        before.steps_to(event, now, after, action),
    ensures
        after.wf(),
        after.words == before.words,
        after.best >= before.best,
        action matches Action::SaveScore(score) ==> {
            &&& before.state is Running
            &&& after.state is Complete
            &&& score == after.best
            &&& score > before.best
        },
        after.best > before.best ==> action == Action::SaveScore(after.best),
        action is Exit <==> after.state is Terminated,
{
    if let StateView::Running(s) = before.state {
        if !(event is Cancel || expired_at(s.start, now)) {
            if let StateView::Running(t) = after.state {
                if is_submit(event) {
                    lemma_submit_counts(s, t);
                }
            }
        }
    }
}

/// The machine moves along these lines only: from waiting to running or to
/// the end; from running to running or to the showing of a result; from a
/// result to running or to the end; and from the end nowhere.
pub proof fn lemma_phase_moves(
    before: ControllerView,
    event: InputEvent,
    now: nat,
    after: ControllerView,
    action: Action,
)
    requires
        before.steps_to(event, now, after, action),
    ensures
        match before.phase() {
            Phase::Idle => after.phase() == (match event {
                InputEvent::Enter => Phase::Running,
                InputEvent::Cancel => Phase::Terminated,
                _ => Phase::Idle,
            }),
            Phase::Running => after.phase() == Phase::Running || after.phase() == Phase::Complete,
            Phase::Complete => after.phase() == (match event {
                InputEvent::Enter => Phase::Running,
                InputEvent::Cancel => Phase::Terminated,
                _ => Phase::Complete,
            }),
            Phase::Terminated => after.phase() == Phase::Terminated,
        },
        before.phase() == Phase::Running ==> (after.phase() == Phase::Complete <==> event is Cancel
            || expired_at(before.state->Running_0.start, now)),
{
}

/// While a session runs, its tally never goes down and the typed text is
/// cleared by a submitting event and by nothing else: any other event leaves
/// it alone, adds one character to it or takes one from it. The clock and
/// the word list of the session stay as they are.
pub proof fn lemma_running_step(
    before: ControllerView,
    event: InputEvent,
    now: nat,
    after: ControllerView,
    action: Action,
)
    requires
        before.wf(),
        before.steps_to(event, now, after, action),
        before.state is Running,
        after.state is Running,
    ensures
        ({
            let s = before.state->Running_0;
            let t = after.state->Running_0;
            &&& t.correct_count >= s.correct_count
            &&& t.correct_count <= s.correct_count + 1
            &&& t.start == s.start
            &&& t.queue.words == s.queue.words
            &&& is_submit(event) ==> t.input.len() == 0 && s.queue.advances_to(t.queue)
            &&& !is_submit(event) ==> {
                &&& t.correct_count == s.correct_count
                &&& t.queue == s.queue
                &&& match event {
                    InputEvent::Char(c) => t.input == s.input.push(c),
                    InputEvent::Backspace => t.input == if s.input.len() > 0 {
                        s.input.drop_last()
                    } else {
                        s.input
                    },
                    _ => t.input == s.input,
                }
            }
        }),
{
    let s = before.state->Running_0;
    let t = after.state->Running_0;
    if is_submit(event) {
        lemma_submit_counts(s, t);
    }
}

/// The backspace key does nothing to a running session in which nothing is
/// typed.
pub proof fn lemma_backspace_with_nothing_typed(
    before: ControllerView,
    now: nat,
    after: ControllerView,
    action: Action,
)
    requires
        before.steps_to(InputEvent::Backspace, now, after, action),
        before.state matches StateView::Running(s) && s.input.len() == 0 && !expired_at(
            s.start,
            now,
        ),
    ensures
        after == before,
        action == Action::Continue,
{
}

} // verus!
