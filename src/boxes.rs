//! A box: its register file, its buttons and its progression, and what one
//! tick of input does to them.
use vstd::prelude::*;
use crate::actions::{
    evaluate_list, float_arithmetic, arith_of, run_list, script_is_wf, script_wf, Action, Arith,
    BoxState, FloatOp,
};
use crate::output::BoxOut;
use crate::pressable::Pressable;
use crate::progression::{Progression, ProgressionView};

verus! {

/// An output of a box, tagged with the box that emitted it.
#[derive(Clone, Debug)]
pub struct OutputEvent {
    pub box_: u64,
    pub output: BoxOut,
}

/// Signals that the prompt of a box has been completed.
#[derive(Copy, Clone, Debug, PartialEq, Eq, Structural)]
pub struct BoxCompletedEvent {
    pub box_: u64,
}

/// Places an item at `index` in the ordered list of `collector`.
#[derive(Copy, Clone, Debug, PartialEq, Eq, Hash, Structural)]
pub struct Itemized {
    pub collector: u64,
    pub index: usize,
}

/// The box whose buttons currently take input, if any.
#[derive(Copy, Clone, Debug, PartialEq, Eq, Structural)]
pub struct SelectionGroup {
    pub active: Option<u64>,
}

impl SelectionGroup {
    /// Whether input reaches the button at `item`: its box is the active one.
    pub fn accepts(&self, item: Itemized) -> (r: bool)
        ensures
            r == (self.active == Some(item.collector)),
    {
        match self.active {
            Some(id) => id == item.collector,
            None => false,
        }
    }
}

/// Level data of one button: its script.
#[derive(Debug)]
pub struct ButtonData {
    pub button: Vec<Action>,
}

/// Level data of one box: the prompt and the buttons in order.
#[derive(Debug)]
pub struct BoxData {
    pub prompt: Vec<BoxOut>,
    pub buttons: Vec<ButtonData>,
}

/// Why level data was refused.
#[derive(Copy, Clone, Debug, PartialEq, Eq, Structural)]
pub enum LevelError {
    /// The script of this button names a register outside the file.
    RegisterIndexOutOfBounds { button: usize },
}

/// The scripts of all buttons are well formed.
pub open spec fn buttons_wf(buttons: Seq<ButtonData>) -> bool {
    forall|b: int| 0 <= b < buttons.len() ==> script_wf(#[trigger] buttons[b].button@)
}

/// `button` is the first button whose script is not well formed.
pub open spec fn first_bad_button(buttons: Seq<ButtonData>, button: int) -> bool {
    &&& 0 <= button < buttons.len()
    &&& !script_wf(buttons[button].button@)
    &&& forall|b: int| 0 <= b < button ==> script_wf(#[trigger] buttons[b].button@)
}

/// The button released on this sample.
pub open spec fn released(p: Pressable) -> bool {
    p.fell()
}

/// Outputs tagged with the box that emitted them.
pub open spec fn tagged(id: u64, outs: Seq<BoxOut>) -> Seq<OutputEvent> {
    Seq::new(outs.len(), |k: int| OutputEvent { box_: id, output: outs[k] })
}

/// What the first `n` buttons do when each released one runs its script, in
/// button order: the registers after them and the events they emit.
pub open spec fn run_released(
    scripts: Seq<Vec<Action>>,
    presses: Seq<Pressable>,
    n: int,
    regs: Seq<u32>,
    f: Arith,
    id: u64,
) -> (Seq<u32>, Seq<OutputEvent>)
    decreases n,
{
    if n <= 0 {
        (regs, seq![])
    } else {
        let before = run_released(scripts, presses, n - 1, regs, f, id);
        if released(presses[n - 1]) {
            let after = run_list(scripts[n - 1]@, before.0, f);
            (after.0, before.1 + tagged(id, after.1))
        } else {
            before
        }
    }
}

/// The outputs among `events` that came from box `id`, in order.
pub open spec fn outputs_for(id: u64, events: Seq<OutputEvent>) -> Seq<BoxOut>
    decreases events.len(),
{
    if events.len() == 0 {
        seq![]
    } else if events.last().box_ == id {
        outputs_for(id, events.drop_last()).push(events.last().output)
    } else {
        outputs_for(id, events.drop_last())
    }
}

/// A relay that re-emits, as its own, the outputs of the box it reads from.
#[derive(Copy, Clone, Debug, PartialEq, Eq, Structural)]
pub struct PipeIn {
    pub out_entity: Option<u64>,
}

/// The events that one event becomes after the relays `pipes[..n]`: for each
/// relay, in order, that reads from the event's box, the same output tagged
/// with the relay.
pub open spec fn relayed_one(e: OutputEvent, pipes: Seq<(u64, PipeIn)>, n: int) -> Seq<OutputEvent>
    decreases n,
{
    if n <= 0 {
        seq![]
    } else if pipes[n - 1].1.out_entity == Some(e.box_) {
        relayed_one(e, pipes, n - 1).push(OutputEvent { box_: pipes[n - 1].0, output: e.output })
    } else {
        relayed_one(e, pipes, n - 1)
    }
}

/// The events relayed from `events`, event by event in order.
pub open spec fn relayed(events: Seq<OutputEvent>, pipes: Seq<(u64, PipeIn)>) -> Seq<OutputEvent>
    decreases events.len(),
{
    if events.len() == 0 {
        seq![]
    } else {
        relayed(events.drop_last(), pipes) + relayed_one(events.last(), pipes, pipes.len() as int)
    }
}

/// Passes outputs on through relays: for each event in order, and each relay
/// in order that reads from the event's box, the output re-tagged with the
/// relay.
pub fn pipe_pass(events: &Vec<OutputEvent>, pipes: &Vec<(u64, PipeIn)>) -> (r: Vec<OutputEvent>)
    ensures
        r@ == relayed(events@, pipes@),
{
    let mut r: Vec<OutputEvent> = Vec::new();
    let mut k: usize = 0;
    while k < events.len()
        invariant
            k <= events.len(),
            r@ == relayed(events@.take(k as int), pipes@),
        decreases events.len() - k,
    {
        let ghost before = r@;
        let e = &events[k];
        let mut j: usize = 0;
        while j < pipes.len()
            invariant
                k < events.len(),
                j <= pipes.len(),
                *e == events@[k as int],
                r@ == before + relayed_one(*e, pipes@, j as int),
            decreases pipes.len() - j,
        {
            let (entity, pipe_in) = pipes[j];
            if pipe_in.out_entity == Some(e.box_) {
                r.push(OutputEvent { box_: entity, output: e.output.duplicate() });
                proof {
                    assert(before + relayed_one(*e, pipes@, j + 1) =~= (before + relayed_one(*e, pipes@, j as int)).push(OutputEvent { box_: entity, output: e.output }));
                }
            }
            j += 1;
        }
        proof {
            assert(events@.take(k + 1).drop_last() =~= events@.take(k as int));
            assert(events@.take(k + 1).last() == events@[k as int]);
        }
        k += 1;
    }
    proof {
        assert(events@.take(k as int) =~= events@);
    }
    r
}

/// The model of a [`BlackBox`].
pub struct BlackBoxView {
    pub id: u64,
    pub regs: Seq<u32>,
    pub scripts: Seq<Vec<Action>>,
    pub presses: Seq<Pressable>,
    pub progression: ProgressionView,
}

impl BlackBoxView {
    pub open spec fn wf(self) -> bool {
        &&& self.regs.len() == 8
        &&& self.scripts.len() == self.presses.len()
        &&& forall|b: int| 0 <= b < self.scripts.len() ==> script_wf(#[trigger] self.scripts[b]@)
        &&& self.progression.wf()
    }
}

/// One box: its register file, the script and edge state of each button,
/// and the progression that matches its outputs against its prompt.
pub struct BlackBox {
    id: u64,
    state: BoxState,
    scripts: Vec<Vec<Action>>,
    presses: Vec<Pressable>,
    progression: Progression,
}

impl View for BlackBox {
    type V = BlackBoxView;

    closed spec fn view(&self) -> BlackBoxView {
        BlackBoxView {
            id: self.id,
            regs: self.state@,
            scripts: self.scripts@,
            presses: self.presses@,
            progression: self.progression@,
        }
    }
}

/// Checks the level data of a box: `Ok` exactly when every register index in
/// every script is in range, else the first button whose script is not.
pub fn validate(data: &BoxData) -> (r: Result<(), LevelError>)
    ensures
        r is Ok <==> buttons_wf(data.buttons@),
        r matches Err(LevelError::RegisterIndexOutOfBounds { button }) ==> first_bad_button(data.buttons@, button as int),
{
    let mut k: usize = 0;
    while k < data.buttons.len()
        invariant
            k <= data.buttons.len(),
            forall|b: int| 0 <= b < k ==> script_wf(#[trigger] data.buttons@[b].button@),
        decreases data.buttons.len() - k,
    {
        if !script_is_wf(&data.buttons[k].button) {
            return Err(LevelError::RegisterIndexOutOfBounds { button: k });
        }
        k += 1;
    }
    Ok(())
}

impl BlackBox {
    /// Builds box `id` from its level data: a zero register file, every
    /// button up, and a progression on the prompt. Refuses data whose
    /// scripts name a register outside the file, as [`validate`] does.
    pub fn new(id: u64, data: BoxData) -> (r: Result<BlackBox, LevelError>)
        ensures
            r is Ok <==> buttons_wf(data.buttons@),
            r matches Err(LevelError::RegisterIndexOutOfBounds { button }) ==> first_bad_button(data.buttons@, button as int),
            r matches Ok(bx) ==> {
                &&& bx@.wf()
                &&& bx@.id == id
                &&& forall|k: int| 0 <= k < 8 ==> bx@.regs[k] == 0
                &&& bx@.scripts.len() == data.buttons.len()
                &&& forall|b: int| 0 <= b < data.buttons.len() ==> (#[trigger] bx@.scripts[b])@ == data.buttons@[b].button@
                &&& forall|b: int| 0 <= b < data.buttons.len() ==> !(#[trigger] bx@.presses[b]).is_down() && !bx@.presses[b].was_down()
                &&& bx@.progression.prompt == data.prompt@
                &&& bx@.progression.answer.len() == 0
                &&& !bx@.progression.signalled
            },
    {
        match validate(&data) {
            Err(e) => Err(e),
            Ok(()) => {
                let BoxData { prompt, buttons } = data;
                let ghost given = buttons@;
                let mut buttons = buttons;
                let mut scripts: Vec<Vec<Action>> = Vec::new();
                let mut presses: Vec<Pressable> = Vec::new();
                while buttons.len() > 0
                    invariant
                        buttons_wf(given),
                        scripts.len() == presses.len(),
                        scripts.len() + buttons.len() == given.len(),
                        buttons@ == given.subrange(scripts.len() as int, given.len() as int),
                        forall|b: int| 0 <= b < scripts.len() ==> (#[trigger] scripts@[b])@ == given[b].button@,
                        forall|b: int| 0 <= b < presses.len() ==> !(#[trigger] presses@[b]).is_down() && !presses@[b].was_down(),
                    decreases buttons.len(),
                {
                    let ghost n = scripts.len() as int;
                    let ButtonData { button } = buttons.remove(0);
                    assert(button@ == given[n].button@);
                    scripts.push(button);
                    presses.push(Pressable::new());
                    assert(buttons@ =~= given.subrange(n + 1, given.len() as int));
                }
                let bx = BlackBox {
                    id,
                    state: [0u32; 8],
                    scripts,
                    presses,
                    progression: Progression::new(prompt),
                };
                proof {
                    assert forall|b: int| 0 <= b < bx@.scripts.len() implies script_wf(#[trigger] bx@.scripts[b]@) by {
                        assert(script_wf(given[b].button@));
                    }
                }
                Ok(bx)
            },
        }
    }

    pub fn id(&self) -> (r: u64)
        ensures
            r == self@.id,
    {
        self.id
    }

    /// The register file.
    pub fn registers(&self) -> (r: &BoxState)
        ensures
            r@ == self@.regs,
    {
        &self.state
    }

    pub fn progression(&self) -> (r: &Progression)
        ensures
            r@ == self@.progression,
    {
        &self.progression
    }

    /// The number of buttons.
    pub fn button_count(&self) -> (r: usize)
        ensures
            r == self@.scripts.len(),
    {
        self.scripts.len()
    }

    /// The edge state of button `index`.
    pub fn pressable(&self, index: usize) -> (r: Pressable)
        requires
            index < self@.presses.len(),
        ensures
            r == self@.presses[index as int],
    {
        self.presses[index]
    }

    /// Where button `index` stands: in this box, at that position.
    pub fn itemized(&self, index: usize) -> (r: Itemized)
        ensures
            r == (Itemized { collector: self@.id, index }),
    {
        Itemized { collector: self.id, index }
    }

    /// Feeds one input sample to each button, in order.
    pub fn feed(&mut self, samples: &Vec<bool>)
        requires
            old(self)@.wf(),
            samples.len() == old(self)@.presses.len(),
        ensures
            final(self)@.wf(),
            final(self)@ == (BlackBoxView { presses: final(self)@.presses, ..old(self)@ }),
            final(self)@.presses.len() == old(self)@.presses.len(),
            forall|b: int| 0 <= b < samples.len() ==> {
                &&& (#[trigger] final(self)@.presses[b]).is_down() == samples@[b]
                &&& final(self)@.presses[b].was_down() == old(self)@.presses[b].is_down()
            },
    {
        let mut k: usize = 0;
        while k < samples.len()
            invariant
                k <= samples.len() == self.presses.len() == old(self)@.presses.len(),
                self@ == (BlackBoxView { presses: self@.presses, ..old(self)@ }),
                forall|b: int| 0 <= b < k ==> {
                    &&& (#[trigger] self@.presses[b]).is_down() == samples@[b]
                    &&& self@.presses[b].was_down() == old(self)@.presses[b].is_down()
                },
                forall|b: int| k <= b < self.presses.len() ==> #[trigger] self@.presses[b] == old(self)@.presses[b],
            decreases samples.len() - k,
        {
            let pressed = samples[k];
            if self.presses[k].update_necessary(pressed) {
                self.presses[k].update(pressed);
            }
            k += 1;
        }
    }

    /// Runs the script of every button released on this sample, in button
    /// order, each to completion against the register file, and returns
    /// their outputs tagged with this box, in the order they were emitted.
    pub fn button_output<F: Fn(FloatOp, u32, u32) -> u32>(&mut self, arith: &F) -> (events: Vec<OutputEvent>)
        requires
            old(self)@.wf(),
            float_arithmetic(*arith),
        ensures
            final(self)@.wf(),
            ({
                let run = run_released(old(self)@.scripts, old(self)@.presses, old(self)@.scripts.len() as int, old(self)@.regs, arith_of(*arith), old(self)@.id);
                &&& final(self)@ == (BlackBoxView { regs: run.0, ..old(self)@ })
                &&& events@ == run.1
            }),
    {
        let ghost f = arith_of(*arith);
        let mut events: Vec<OutputEvent> = Vec::new();
        let mut k: usize = 0;
        while k < self.scripts.len()
            invariant
                k <= self.scripts.len(),
                old(self)@.wf(),
                float_arithmetic(*arith),
                f == arith_of(*arith),
                self@ == (BlackBoxView { regs: self@.regs, ..old(self)@ }),
                (self@.regs, events@) == run_released(old(self)@.scripts, old(self)@.presses, k as int, old(self)@.regs, f, old(self)@.id),
            decreases self.scripts.len() - k,
        {
            if self.presses[k].just_unpressed() {
                assert(script_wf(self@.scripts[k as int]@));
                let outs = evaluate_list(&self.scripts[k], &mut self.state, arith);
                let ghost before = events@;
                let mut j: usize = 0;
                while j < outs.len()
                    invariant
                        j <= outs.len(),
                        events@ == before + tagged(self.id, outs@.take(j as int)),
                    decreases outs.len() - j,
                {
                    events.push(OutputEvent { box_: self.id, output: outs[j].duplicate() });
                    proof {
                        assert(tagged(self.id, outs@.take(j + 1)) =~= tagged(self.id, outs@.take(j as int)).push(OutputEvent { box_: self.id, output: outs@[j as int] }));
                        assert(before + tagged(self.id, outs@.take(j + 1)) =~= (before + tagged(self.id, outs@.take(j as int))).push(OutputEvent { box_: self.id, output: outs@[j as int] }));
                    }
                    j += 1;
                }
                proof {
                    assert(outs@.take(j as int) =~= outs@);
                }
            }
            k += 1;
        }
        events
    }

    /// Matches this box's outputs among `events`, in order, and returns one
    /// completion event for each time completion is signalled (at most once
    /// over the life of the box). Events of other boxes are ignored.
    pub fn observe_events(&mut self, events: &Vec<OutputEvent>) -> (done: Vec<BoxCompletedEvent>)
        requires
            old(self)@.wf(),
        ensures
            final(self)@.wf(),
            ({
                let outs = outputs_for(old(self)@.id, events@);
                &&& final(self)@ == (BlackBoxView { progression: old(self)@.progression.observed_all(outs), ..old(self)@ })
                &&& done.len() == old(self)@.progression.fire_count(outs)
                &&& forall|k: int| 0 <= k < done.len() ==> (#[trigger] done@[k]).box_ == old(self)@.id
            }),
    {
        let mut done: Vec<BoxCompletedEvent> = Vec::new();
        let mut k: usize = 0;
        while k < events.len()
            invariant
                k <= events.len(),
                self@.wf(),
                self@ == (BlackBoxView { progression: old(self)@.progression.observed_all(outputs_for(old(self)@.id, events@.take(k as int))), ..old(self)@ }),
                done.len() == old(self)@.progression.fire_count(outputs_for(old(self)@.id, events@.take(k as int))),
                forall|j: int| 0 <= j < done.len() ==> (#[trigger] done@[j]).box_ == old(self)@.id,
            decreases events.len() - k,
        {
            proof {
                assert(events@.take(k + 1).drop_last() =~= events@.take(k as int));
                assert(events@.take(k + 1).last() == events@[k as int]);
            }
            if events[k].box_ == self.id {
                let ghost outs = outputs_for(old(self)@.id, events@.take(k as int));
                proof {
                    assert(outputs_for(old(self)@.id, events@.take(k + 1)).drop_last() =~= outs);
                }
                let fired = self.progression.observe(events[k].output.duplicate());
                if fired {
                    done.push(BoxCompletedEvent { box_: self.id });
                }
            }
            k += 1;
        }
        proof {
            assert(events@.take(k as int) =~= events@);
        }
        done
    }

    /// One tick: feeds the samples to the buttons, runs the scripts of the
    /// released ones, and matches the emitted outputs against the prompt.
    /// Returns the emitted events and the completion events.
    pub fn tick<F: Fn(FloatOp, u32, u32) -> u32>(&mut self, samples: &Vec<bool>, arith: &F) -> (r: (Vec<OutputEvent>, Vec<BoxCompletedEvent>))
        requires
            old(self)@.wf(),
            samples.len() == old(self)@.presses.len(),
            float_arithmetic(*arith),
        ensures
            final(self)@.wf(),
            ({
                let presses = final(self)@.presses;
                let run = run_released(old(self)@.scripts, presses, old(self)@.scripts.len() as int, old(self)@.regs, arith_of(*arith), old(self)@.id);
                let outs = outputs_for(old(self)@.id, r.0@);
                &&& presses.len() == samples.len()
                &&& forall|b: int| 0 <= b < samples.len() ==> {
                    &&& (#[trigger] presses[b]).is_down() == samples@[b]
                    &&& presses[b].was_down() == old(self)@.presses[b].is_down()
                }
                &&& r.0@ == run.1
                &&& final(self)@.regs == run.0
                &&& final(self)@.progression == old(self)@.progression.observed_all(outs)
                &&& r.1.len() == old(self)@.progression.fire_count(outs)
                &&& forall|k: int| 0 <= k < r.1.len() ==> (#[trigger] r.1@[k]).box_ == old(self)@.id
                &&& final(self)@.id == old(self)@.id
                &&& final(self)@.scripts == old(self)@.scripts
            }),
    {
        self.feed(samples);
        let events = self.button_output(arith);
        let done = self.observe_events(&events);
        (events, done)
    }
}

} // verus!
