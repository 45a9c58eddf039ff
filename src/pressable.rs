//! Press/release edge detection on a sampled boolean input.
use vstd::prelude::*;

verus! {

/// Edge state of one input: the current sample and the one before it.
#[derive(Copy, Clone, Debug, Default, PartialEq, Eq, Hash, Structural)]
pub struct Pressable {
    pressed: bool,
    previous: bool,
}

impl Pressable {
    /// `self` is `before` after taking the sample `pressed`.
    pub open spec fn is_update_of(self, before: Pressable, pressed: bool) -> bool {
        self.is_down() == pressed && self.was_down() == before.is_down()
    }

    /// The input went down on the current sample.
    pub open spec fn rose(self) -> bool {
        self.is_down() && !self.was_down()
    }

    /// The input went up on the current sample.
    pub open spec fn fell(self) -> bool {
        !self.is_down() && self.was_down()
    }

    /// The current sample.
    pub closed spec fn is_down(self) -> bool {
        self.pressed
    }

    /// The sample before the current one.
    pub closed spec fn was_down(self) -> bool {
        self.previous
    }

    /// A detector that has only seen the input up.
    pub fn new() -> (r: Pressable)
        ensures
            !r.is_down(),
            !r.was_down(),
    {
        Pressable { pressed: false, previous: false }
    }

    /// Takes one new sample: the current sample becomes the previous one.
    pub fn update(&mut self, pressed: bool)
        ensures
            final(self).is_update_of(*old(self), pressed),
    {
        self.previous = self.pressed;
        self.pressed = pressed;
    }

    /// Whether taking the sample `pressed` would change the state.
    pub fn update_necessary(&self, pressed: bool) -> (r: bool)
        ensures
            r == (self.was_down() != self.is_down() || self.is_down() != pressed),
    {
        self.previous != self.pressed || self.pressed != pressed
    }

    pub fn pressed(&self) -> (r: bool)
        ensures
            r == self.is_down(),
    {
        self.pressed
    }

    /// True on the sample where the input went down.
    pub fn just_pressed(&self) -> (r: bool)
        ensures
            r == self.rose(),
    {
        self.pressed && !self.previous
    }

    /// True on the sample where the input went up.
    pub fn just_unpressed(&self) -> (r: bool)
        ensures
            r == self.fell(),
    {
        !self.pressed && self.previous
    }
}

/// Taking the same sample twice in a row leaves no edge: after the second,
/// the input neither rose nor fell.
pub proof fn lemma_repeated_sample_no_edge(before: Pressable, once: Pressable, twice: Pressable, pressed: bool)
    requires
        once.is_update_of(before, pressed),
        twice.is_update_of(once, pressed),
    ensures
        !twice.rose(),
        !twice.fell(),
{
}

/// Exactly one of rising, falling or neither holds, and an edge is seen on
/// the sample that makes it: a rise when a sample `true` follows a sample
/// `false`, a fall when `false` follows `true`.
pub proof fn lemma_edges_follow_samples(before: Pressable, once: Pressable, pressed: bool)
    requires
        once.is_update_of(before, pressed),
    ensures
        !(once.rose() && once.fell()),
        once.rose() <==> (pressed && !before.is_down()),
        once.fell() <==> (!pressed && before.is_down()),
{
}

} // verus!
