//! Matching a box's output stream against its prompt.
use vstd::prelude::*;
use crate::output::{out_eq, BoxOut};

verus! {

/// `a` is a prefix of `p`, element by element under [`out_eq`].
pub open spec fn is_prefix_of(a: Seq<BoxOut>, p: Seq<BoxOut>) -> bool {
    a.len() <= p.len() && forall|k: int| 0 <= k < a.len() ==> out_eq(#[trigger] a[k], p[k])
}

/// `s` with elements dropped from the front until what is left is a prefix
/// of `p` (or empty).
pub open spec fn trimmed(s: Seq<BoxOut>, p: Seq<BoxOut>) -> Seq<BoxOut>
    decreases s.len(),
{
    if s.len() > 0 && !is_prefix_of(s, p) {
        trimmed(s.drop_first(), p)
    } else {
        s
    }
}

/// The suffix of `s` that starts at `j`.
pub open spec fn suffix_from(s: Seq<BoxOut>, j: int) -> Seq<BoxOut> {
    s.subrange(j, s.len() as int)
}

/// The model of a [`Progression`].
pub struct ProgressionView {
    /// The target sequence.
    pub prompt: Seq<BoxOut>,
    /// The outputs observed so far that may still begin the prompt.
    pub answer: Seq<BoxOut>,
    /// Completion has been signalled.
    pub signalled: bool,
}

impl ProgressionView {
    pub open spec fn wf(self) -> bool {
        is_prefix_of(self.answer, self.prompt)
    }

    /// The whole prompt has been matched.
    pub open spec fn complete(self) -> bool {
        self.answer.len() >= self.prompt.len()
    }

    /// The state after one more output has been matched.
    pub open spec fn matched(self, o: BoxOut) -> ProgressionView {
        ProgressionView { answer: trimmed(self.answer.push(o), self.prompt), ..self }
    }

    /// Whether observing `o` signals completion: the output completes the
    /// prompt and completion has not been signalled before.
    pub open spec fn fires(self, o: BoxOut) -> bool {
        self.matched(o).complete() && !self.signalled
    }

    /// The state after observing `o`.
    pub open spec fn observed(self, o: BoxOut) -> ProgressionView {
        let m = self.matched(o);
        ProgressionView { signalled: self.signalled || m.complete(), ..m }
    }

    /// The state after observing each of `os` in order.
    pub open spec fn observed_all(self, os: Seq<BoxOut>) -> ProgressionView
        decreases os.len(),
    {
        if os.len() == 0 {
            self
        } else {
            self.observed_all(os.drop_last()).observed(os.last())
        }
    }

    /// How many times completion is signalled while observing `os` in order.
    pub open spec fn fire_count(self, os: Seq<BoxOut>) -> nat
        decreases os.len(),
    {
        if os.len() == 0 {
            0
        } else {
            let before = self.observed_all(os.drop_last());
            self.fire_count(os.drop_last()) + if before.fires(os.last()) { 1nat } else { 0nat }
        }
    }
}

/// Completion is signalled at most once: observing any stream of outputs
/// signals it at most once, never again once it has been signalled, and it
/// stays signalled afterwards.
pub proof fn lemma_completion_fires_once(v: ProgressionView, os: Seq<BoxOut>)
    ensures
        v.fire_count(os) <= 1,
        v.signalled ==> v.fire_count(os) == 0,
        v.observed_all(os).signalled == (v.signalled || v.fire_count(os) == 1),
    decreases os.len(),
{
    if os.len() > 0 {
        lemma_completion_fires_once(v, os.drop_last());
    }
}

/// One piece of the display of a prompt: its position, and whether the
/// output there has been matched.
#[derive(Copy, Clone, Debug, PartialEq, Eq, Structural)]
pub struct ProgressPiecePrefab {
    pub index: usize,
    pub matched: bool,
}

/// The matcher of one box: the prompt and the longest suffix of the box's
/// outputs that is a prefix of the prompt.
#[derive(Clone, Debug, Default)]
pub struct Progression {
    prompt: Vec<BoxOut>,
    answer: Vec<BoxOut>,
    signalled: bool,
}

impl View for Progression {
    type V = ProgressionView;

    closed spec fn view(&self) -> ProgressionView {
        ProgressionView { prompt: self.prompt@, answer: self.answer@, signalled: self.signalled }
    }
}

/// Whether `a` is a prefix of `p`.
fn starts_with(p: &Vec<BoxOut>, a: &Vec<BoxOut>) -> (r: bool)
    ensures
        r == is_prefix_of(a@, p@),
{
    if a.len() > p.len() {
        return false;
    }
    let mut k: usize = 0;
    while k < a.len()
        invariant
            k <= a.len() <= p.len(),
            forall|j: int| 0 <= j < k ==> out_eq(#[trigger] a@[j], p@[j]),
        decreases a.len() - k,
    {
        if !(a[k] == p[k]) {
            return false;
        }
        k += 1;
    }
    true
}

impl Progression {
    pub fn new(prompt: Vec<BoxOut>) -> (r: Progression)
        ensures
            r@.prompt == prompt@,
            r@.answer.len() == 0,
            !r@.signalled,
            r@.wf(),
    {
        Progression { prompt, answer: Vec::new(), signalled: false }
    }

    /// Appends `output` to the answer, then drops outputs from its front
    /// until it is a prefix of the prompt again.
    pub fn update(&mut self, output: BoxOut)
        requires
            old(self)@.wf(),
        ensures
            final(self)@ == old(self)@.matched(output),
            final(self)@.wf(),
            ({
                let s = old(self)@.answer.push(output);
                let a = final(self)@.answer;
                &&& a == suffix_from(s, s.len() - a.len())
                &&& forall|j: int|
                    0 <= j < s.len() - a.len() ==> !is_prefix_of(#[trigger] suffix_from(s, j), old(self)@.prompt)
            }),
    {
        let ghost s = self.answer@.push(output);
        let ghost p = self.prompt@;
        self.answer.push(output);
        proof {
            assert(suffix_from(s, 0) =~= s);
        }
        let ghost mut j: int = 0;
        while !self.answer.is_empty() && !starts_with(&self.prompt, &self.answer)
            invariant
                self.prompt@ == p,
                self.signalled == old(self).signalled,
                0 <= j <= s.len(),
                self.answer@ == suffix_from(s, j),
                trimmed(s, p) == trimmed(self.answer@, p),
                forall|i: int| 0 <= i < j ==> !is_prefix_of(#[trigger] suffix_from(s, i), p),
            decreases self.answer.len(),
        {
            proof {
                assert(suffix_from(s, j + 1) =~= self.answer@.drop_first());
            }
            self.answer.remove(0);
            proof {
                j = j + 1;
            }
        }
        proof {
            assert(s.len() - self.answer@.len() == j);
            if self.answer@.len() == 0 {
                assert(is_prefix_of(self.answer@, p));
            }
        }
    }

    /// Matches one output and reports whether completion is signalled now:
    /// true only the first time the whole prompt has been matched.
    pub fn observe(&mut self, output: BoxOut) -> (fired: bool)
        requires
            old(self)@.wf(),
        ensures
            final(self)@ == old(self)@.observed(output),
            fired == old(self)@.fires(output),
            final(self)@.wf(),
    {
        self.update(output);
        let fired = self.answer.len() >= self.prompt.len() && !self.signalled;
        if fired {
            self.signalled = true;
        }
        fired
    }

    /// How many outputs of the prompt are matched.
    pub fn progress(&self) -> (r: usize)
        ensures
            r == self@.answer.len(),
    {
        self.answer.len()
    }

    /// The length of the prompt.
    pub fn total(&self) -> (r: usize)
        ensures
            r == self@.prompt.len(),
    {
        self.prompt.len()
    }

    pub fn get_prompt(&self) -> (r: &Vec<BoxOut>)
        ensures
            r@ == self@.prompt,
    {
        &self.prompt
    }

    /// The display pieces of the prompt, one per output in order; the first
    /// `progress()` of them are matched.
    pub fn pieces(&self) -> (r: Vec<ProgressPiecePrefab>)
        ensures
            r.len() == self@.prompt.len(),
            forall|i: int| 0 <= i < r.len() ==> #[trigger] r@[i] == (ProgressPiecePrefab { index: i as usize, matched: i < self@.answer.len() }),
    {
        let mut r: Vec<ProgressPiecePrefab> = Vec::new();
        let mut i: usize = 0;
        while i < self.prompt.len()
            invariant
                i <= self.prompt.len(),
                r.len() == i,
                forall|j: int| 0 <= j < i ==> #[trigger] r@[j] == (ProgressPiecePrefab { index: j as usize, matched: j < self@.answer.len() }),
            decreases self.prompt.len() - i,
        {
            r.push(ProgressPiecePrefab { index: i, matched: i < self.answer.len() });
            i += 1;
        }
        r
    }

    /// The whole prompt has been matched.
    pub fn is_complete(&self) -> (r: bool)
        ensures
            r == self@.complete(),
    {
        self.answer.len() >= self.prompt.len()
    }
}

} // verus!
