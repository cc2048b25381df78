//! Word queue: the words of a session in their shuffled order, and the
//! position of the word that is to be typed next.

use vstd::prelude::*;
use crate::shuffle::{identity_order, is_permutation, lemma_rearranged_is_rearrangement,
    lemma_rearranged_permutation, rearranged, Shuffler};
use crate::text::texts;

verus! {

/// The error of asking an empty queue for a word.
#[derive(Clone, Copy, Debug, PartialEq, Eq)]
pub struct EmptyListError;

/// What a word queue holds, in mathematical terms.
pub struct QueueView {
    /// The word list, in the order in which it was given. It never changes.
    pub words: Seq<Seq<char>>,
    /// The order in which the words are presented: position `i` of the
    /// sequence shows word `order[i]` of the list.
    pub order: Seq<usize>,
    /// The position of the current word in the sequence.
    pub index: int,
}

impl QueueView {
    /// The invariant of a queue: the order is a permutation of the word
    /// list, and the index points at one of its words (or is zero where
    /// there are none).
    pub open spec fn wf(self) -> bool {
        &&& is_permutation(self.order, self.words.len())
        &&& 0 <= self.index
        &&& self.index < self.words.len() || (self.words.len() == 0 && self.index == 0)
    }

    /// The number of words.
    pub open spec fn len(self) -> nat {
        self.words.len()
    }

    /// The words in the order in which they are presented.
    pub open spec fn sequence(self) -> Seq<Seq<char>> {
        rearranged(self.words, self.order)
    }

    /// The word shown at position `i` of the sequence.
    pub open spec fn word_at(self, i: int) -> Seq<char> {
        self.sequence()[i]
    }

    /// The word that is to be typed now.
    pub open spec fn current(self) -> Seq<char> {
        self.word_at(self.index)
    }

    /// How many words a preview of at most `n` words shows: those left
    /// after the current one in this pass, and no more than `n`.
    pub open spec fn upcoming_len(self, n: nat) -> nat {
        let left = self.len() - self.index - 1;
        if left <= 0 {
            0
        } else if n <= left {
            n
        } else {
            left as nat
        }
    }

    /// The preview of at most `n` words: the words that follow the current
    /// one, up to the end of this pass.
    pub open spec fn upcoming(self, n: nat) -> Seq<Seq<char>> {
        Seq::new(self.upcoming_len(n), |j: int| self.word_at(self.index + 1 + j))
    }

    /// Whether `next` is a state that one step forward may lead to from
    /// this one. Inside a pass the step moves to the following word and
    /// leaves the order alone. From the last word it starts a new pass at
    /// position zero, over a rearrangement of the same words.
    pub open spec fn advances_to(self, next: QueueView) -> bool {
        &&& next.words == self.words
        &&& if self.index + 1 < self.len() {
            &&& next.index == self.index + 1
            &&& next.order == self.order
        } else {
            &&& next.index == 0
            &&& next.order.to_multiset() == self.order.to_multiset()
        }
    }
}

/// The word queue of a session.
pub struct WordQueue {
    words: Vec<String>,
    order: Vec<usize>,
    index: usize,
}

impl View for WordQueue {
    type V = QueueView;

    closed spec fn view(&self) -> QueueView {
        QueueView { words: texts(self.words@), order: self.order@, index: self.index as int }
    }
}

impl WordQueue {
    /// Every queue is in order, at all times.
    #[verifier::type_invariant]
    pub open spec fn inv(&self) -> bool {
        self@.wf()
    }

    /// Makes the queue of a word list: a fresh shuffle of all its words,
    /// with the first of them as the current word.
    pub fn new(words: Vec<String>, shuffler: &mut Shuffler) -> (queue: WordQueue)
        ensures
            queue@.wf(),
            queue@.words == texts(words@),
            queue@.index == 0,
    {
        let mut order = identity_order(words.len());
        let ghost before = order@;
        shuffler.shuffle(&mut order);
        proof {
            lemma_rearranged_permutation(before, order@, words@.len());
        }
        WordQueue { words, order, index: 0 }
    }

    /// The number of words in the queue.
    pub fn len(&self) -> (n: usize)
        ensures
            n == self@.len(),
            self@.wf(),
    {
        proof {
            use_type_invariant(self);
        }
        self.words.len()
    }

    /// The position of the current word in the sequence.
    pub fn current_index(&self) -> (i: usize)
        ensures
            i == self@.index,
            self@.wf(),
    {
        proof {
            use_type_invariant(self);
        }
        self.index
    }

    /// The word that is to be typed now. An empty queue has none.
    pub fn current(&self) -> (word: Result<&str, EmptyListError>)
        ensures
            self@.wf(),
            self@.len() == 0 <==> word is Err,
            word matches Ok(w) ==> w@ == self@.current(),
    {
        proof {
            use_type_invariant(self);
        }
        if self.words.len() == 0 {
            Err(EmptyListError)
        } else {
            Ok(self.words[self.order[self.index]].as_str())
        }
    }

    /// A preview of the words that follow the current one: at most `n` of
    /// them, and none from beyond the end of this pass. The queue stays as
    /// it is.
    pub fn peek_upcoming(&self, n: usize) -> (preview: Vec<String>)
        ensures
            self@.wf(),
            texts(preview@) == self@.upcoming(n as nat),
            preview@.len() == self@.upcoming_len(n as nat),
            preview@.len() <= n,
    {
        proof {
            use_type_invariant(self);
        }
        let len: usize = self.words.len();
        let mut preview: Vec<String> = Vec::new();
        if len == 0 {
            assert(texts(preview@) =~= self@.upcoming(n as nat));
            return preview;
        }
        let start: usize = self.index + 1;
        let left: usize = len - start;
        let count: usize = if n <= left {
            n
        } else {
            left
        };
        let mut k: usize = 0;
        while k < count
            invariant
                self@.wf(),
                len == self.words@.len(),
                start == self.index + 1,
                start + count <= len,
                k <= count,
                preview@.len() == k,
                forall|j: int| 0 <= j < k ==> (#[trigger] preview@[j])@ == self@.word_at(start + j),
            decreases count - k,
        {
            let word = self.words[self.order[start + k]].clone();
            preview.push(word);
            k += 1;
        }
        assert(texts(preview@) =~= self@.upcoming(n as nat));
        preview
    }

    /// Moves on to the next word. After the last word of a pass the words
    /// are shuffled afresh and the queue starts again at position zero; a
    /// word may then come up twice in a row.
    pub fn advance(&mut self, shuffler: &mut Shuffler)
        ensures
            old(self)@.wf(),
            final(self)@.wf(),
            old(self)@.advances_to(final(self)@),
    {
        proof {
            use_type_invariant(&*self);
        }
        let len: usize = self.words.len();
        if self.index + 1 < len {
            self.index = self.index + 1;
        } else {
            let mut fresh = self.order.clone();
            assert(fresh@ =~= self.order@);
            shuffler.shuffle(&mut fresh);
            proof {
                lemma_rearranged_permutation(self.order@, fresh@, self.words@.len());
            }
            self.order = fresh;
            self.index = 0;
        }
    }
}

/// A step forward leaves a queue in order.
pub proof fn lemma_advance_keeps_order(queue: QueueView, next: QueueView)
    requires
        queue.wf(),
        queue.advances_to(next),
    ensures
        next.wf(),
        next.len() == queue.len(),
{
    if queue.index + 1 >= queue.len() {
        lemma_rearranged_permutation(queue.order, next.order, queue.words.len());
    }
}

/// A full pass comes back to where it began. Take a queue and step forward
/// once for each of its words, `trace` being the states passed through.
/// One of the steps, the one from the last word, starts a new pass and
/// shuffles; the others move one word on and leave the order alone. So the
/// queue ends at the position where it began, over the same word list, in
/// an order that is a rearrangement of the order it began with. A queue that
/// begins at position zero is at position zero again.
pub proof fn lemma_full_pass_returns_to_start(trace: Seq<QueueView>)
    requires
        trace.len() > 0,
        trace[0].wf(),
        trace.len() == trace[0].len() + 1,
        forall|i: int| 0 <= i < trace.len() - 1 ==> (#[trigger] trace[i]).advances_to(trace[i + 1]),
    ensures
        trace.last().index == trace[0].index,
        trace.last().wf(),
        trace.last().words == trace[0].words,
        trace.last().order.to_multiset() == trace[0].order.to_multiset(),
        trace.last().sequence().to_multiset() == trace[0].sequence().to_multiset(),
        forall|i: int|
            0 <= i < trace[0].len() - trace[0].index ==> (#[trigger] trace[i]).index
                == trace[0].index + i && trace[i].order == trace[0].order,
        forall|i: int|
            trace[0].len() - trace[0].index <= i < trace.len() ==> (#[trigger] trace[i]).index == i
                - (trace[0].len() - trace[0].index) && trace[i].order == trace.last().order,
{
    let n = trace[0].len() as int;
    let start = trace[0].index;
    if n > 0 {
        let turn = n - 1 - start;
        lemma_steps_inside_pass(trace, 0, turn);
        assert(trace[turn].advances_to(trace[turn + 1]));
        lemma_advance_keeps_order(trace[turn], trace[turn + 1]);
        lemma_steps_inside_pass(trace, turn + 1, start);
    }
    lemma_sequence_rearranges_words(trace[0]);
    lemma_sequence_rearranges_words(trace.last());
}

/// Steps that stay inside a pass: from state `from` of the trace, `k` steps
/// that do not reach the end of the sequence each move one word on and leave
/// words and order alone.
proof fn lemma_steps_inside_pass(trace: Seq<QueueView>, from: int, k: int)
    requires
        0 <= from,
        0 <= k,
        from + k < trace.len(),
        trace[from].wf(),
        trace[from].index + k < trace[from].len(),
        forall|i: int| 0 <= i < trace.len() - 1 ==> (#[trigger] trace[i]).advances_to(trace[i + 1]),
    ensures
        forall|i: int|
            from <= i <= from + k ==> {
                &&& (#[trigger] trace[i]).index == trace[from].index + (i - from)
                &&& trace[i].order == trace[from].order
                &&& trace[i].words == trace[from].words
                &&& trace[i].wf()
            },
    decreases k,
{
    if k > 0 {
        lemma_steps_inside_pass(trace, from, k - 1);
        assert(trace[from + k - 1].advances_to(trace[from + k]));
    }
}

/// The sequence of a queue is its word list rearranged: every word occurs
/// in it as often as in the list.
pub proof fn lemma_sequence_rearranges_words(queue: QueueView)
    requires
        queue.wf(),
    ensures
        queue.sequence().len() == queue.words.len(),
        queue.sequence().to_multiset() == queue.words.to_multiset(),
{
    lemma_rearranged_is_rearrangement(queue.words, queue.order);
}

/// A preview shows no more words than asked for, and only words from
/// positions after the current one. Where no word occurs twice in the word
/// list, the current word is therefore not among them.
pub proof fn lemma_upcoming_follows_current(queue: QueueView, n: nat)
    requires
        queue.wf(),
    ensures
        queue.upcoming(n).len() <= n,
        queue.upcoming(n).len() <= queue.len(),
        forall|j: int|
            0 <= j < queue.upcoming(n).len() ==> {
                &&& queue.index + 1 + j < queue.len()
                &&& #[trigger] queue.upcoming(n)[j] == queue.sequence()[queue.index + 1 + j]
            },
        queue.words.no_duplicates() ==> !queue.upcoming(n).contains(queue.current()),
{
    let preview = queue.upcoming(n);
    if queue.words.no_duplicates() && preview.contains(queue.current()) {
        let j = choose|j: int| 0 <= j < preview.len() && preview[j] == queue.current();
        let a = queue.order[queue.index + 1 + j] as int;
        let b = queue.order[queue.index] as int;
        assert(queue.words[a] == queue.words[b]);
        assert(a != b);
    }
}

} // verus!
