use black_box::actions::{Action, FloatOp, Val};
use black_box::boxes::{
    pipe_pass, validate, BlackBox, BoxData, ButtonData, Itemized, LevelError, OutputEvent, PipeIn,
    SelectionGroup,
};
use black_box::output::BoxOut;

fn arith(op: FloatOp, a: u32, b: u32) -> u32 {
    let x = f32::from_bits(a);
    let y = f32::from_bits(b);
    let r = match op {
        FloatOp::Sum => x + y,
        FloatOp::Product => x * y,
        FloatOp::Remainder => x % y,
        FloatOp::Difference => x - y,
    };
    r.to_bits()
}

fn c(x: f32) -> Val {
    Val::C(x.to_bits())
}

/// A counter box: button 0 adds one and prints, button 1 resets to zero and prints.
fn counter_data() -> BoxData {
    BoxData {
        prompt: vec![BoxOut::Int(1), BoxOut::Int(2)],
        buttons: vec![
            ButtonData { button: vec![Action::AddEq(c(1.0), 0), Action::PrintInt(Val::G(0))] },
            ButtonData { button: vec![Action::Assign(c(0.0), 0), Action::PrintInt(Val::G(0))] },
        ],
    }
}

fn outputs(events: &[OutputEvent]) -> Vec<BoxOut> {
    events.iter().map(|e| e.output.clone()).collect()
}

#[test]
fn validation_finds_first_bad_button() {
    let good = counter_data();
    assert_eq!(validate(&good), Ok(()));
    let bad = BoxData {
        prompt: vec![],
        buttons: vec![
            ButtonData { button: vec![Action::PrintInt(Val::G(1))] },
            ButtonData { button: vec![Action::Add(Val::G(8), c(1.0), 0)] },
            ButtonData { button: vec![Action::Assign(c(1.0), 9)] },
        ],
    };
    assert_eq!(validate(&bad), Err(LevelError::RegisterIndexOutOfBounds { button: 1 }));
    match BlackBox::new(4, bad) {
        Err(e) => assert_eq!(e, LevelError::RegisterIndexOutOfBounds { button: 1 }),
        Ok(_) => panic!("accepted a script with a register out of range"),
    }
}

#[test]
fn new_box_starts_clean() {
    let bx = BlackBox::new(9, counter_data()).unwrap();
    assert_eq!(bx.id(), 9);
    assert_eq!(*bx.registers(), [0u32; 8]);
    assert_eq!(bx.button_count(), 2);
    assert!(!bx.pressable(1).pressed());
    assert_eq!(bx.progression().progress(), 0);
    assert_eq!(bx.progression().total(), 2);
    assert_eq!(bx.itemized(1), Itemized { collector: 9, index: 1 });
}

#[test]
fn script_runs_on_release_only() {
    let mut bx = BlackBox::new(7, counter_data()).unwrap();
    let (events, done) = bx.tick(&vec![true, false], &arith);
    assert!(events.is_empty());
    assert!(done.is_empty());
    let (events, done) = bx.tick(&vec![true, false], &arith);
    assert!(events.is_empty());
    assert!(done.is_empty());
    let (events, done) = bx.tick(&vec![false, false], &arith);
    assert_eq!(outputs(&events), vec![BoxOut::Int(1)]);
    assert!(events.iter().all(|e| e.box_ == 7));
    assert!(done.is_empty());
    let (events, _) = bx.tick(&vec![false, false], &arith);
    assert!(events.is_empty());
    assert_eq!(f32::from_bits(bx.registers()[0]), 1.0);
}

#[test]
fn completion_is_signalled_once() {
    let mut bx = BlackBox::new(3, counter_data()).unwrap();
    bx.tick(&vec![true, false], &arith);
    bx.tick(&vec![false, false], &arith);
    bx.tick(&vec![true, false], &arith);
    let (events, done) = bx.tick(&vec![false, false], &arith);
    assert_eq!(outputs(&events), vec![BoxOut::Int(2)]);
    assert_eq!(done.len(), 1);
    assert_eq!(done[0].box_, 3);
    bx.tick(&vec![false, true], &arith);
    let (events, done) = bx.tick(&vec![false, false], &arith);
    assert_eq!(outputs(&events), vec![BoxOut::Int(0)]);
    assert!(done.is_empty());
    bx.tick(&vec![true, false], &arith);
    bx.tick(&vec![false, false], &arith);
    bx.tick(&vec![true, false], &arith);
    let (_, done) = bx.tick(&vec![false, false], &arith);
    assert!(done.is_empty());
    assert!(bx.progression().is_complete());
}

#[test]
fn buttons_released_together_run_in_order() {
    let mut bx = BlackBox::new(1, counter_data()).unwrap();
    bx.tick(&vec![true, true], &arith);
    let (events, _) = bx.tick(&vec![false, false], &arith);
    assert_eq!(outputs(&events), vec![BoxOut::Int(1), BoxOut::Int(0)]);
    assert_eq!(bx.registers()[0], 0);
}

#[test]
fn observe_ignores_other_boxes() {
    let mut bx = BlackBox::new(2, counter_data()).unwrap();
    let events = vec![
        OutputEvent { box_: 5, output: BoxOut::Int(1) },
        OutputEvent { box_: 2, output: BoxOut::Int(1) },
        OutputEvent { box_: 5, output: BoxOut::Int(7) },
        OutputEvent { box_: 2, output: BoxOut::Int(2) },
    ];
    let done = bx.observe_events(&events);
    assert_eq!(done.len(), 1);
    assert_eq!(done[0].box_, 2);
}

#[test]
fn pipes_relay_in_order() {
    let events = vec![
        OutputEvent { box_: 1, output: BoxOut::Int(10) },
        OutputEvent { box_: 2, output: BoxOut::Int(20) },
    ];
    let pipes = vec![
        (100, PipeIn { out_entity: Some(2) }),
        (101, PipeIn { out_entity: Some(1) }),
        (102, PipeIn { out_entity: None }),
        (103, PipeIn { out_entity: Some(1) }),
    ];
    let r = pipe_pass(&events, &pipes);
    let tags: Vec<(u64, BoxOut)> = r.iter().map(|e| (e.box_, e.output.clone())).collect();
    assert_eq!(
        tags,
        vec![(101, BoxOut::Int(10)), (103, BoxOut::Int(10)), (100, BoxOut::Int(20))]
    );
}

#[test]
fn selection_routes_input_to_active_box() {
    let none = SelectionGroup { active: None };
    let some = SelectionGroup { active: Some(4) };
    assert!(!none.accepts(Itemized { collector: 4, index: 0 }));
    assert!(some.accepts(Itemized { collector: 4, index: 2 }));
    assert!(!some.accepts(Itemized { collector: 5, index: 0 }));
}
