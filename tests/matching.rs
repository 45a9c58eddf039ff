use black_box::levels::LevelNum;
use black_box::output::BoxOut;
use black_box::pressable::Pressable;
use black_box::progression::{ProgressPiecePrefab, Progression};

#[test]
fn pressable_edges() {
    let mut p = Pressable::new();
    p.update(true);
    assert!(p.just_pressed());
    assert!(!p.just_unpressed());
    p.update(true);
    assert!(!p.just_pressed());
    assert!(!p.just_unpressed());
    assert!(p.pressed());
    p.update(false);
    assert!(!p.just_pressed());
    assert!(p.just_unpressed());
    p.update(false);
    assert!(!p.just_pressed());
    assert!(!p.just_unpressed());
}

#[test]
fn pressable_update_necessary() {
    let mut p = Pressable::default();
    assert!(!p.update_necessary(false));
    assert!(p.update_necessary(true));
    p.update(true);
    assert!(p.update_necessary(true));
    p.update(true);
    assert!(!p.update_necessary(true));
    assert!(p.update_necessary(false));
}

#[test]
fn progression_trace() {
    let mut p = Progression::new(vec![BoxOut::Int(0), BoxOut::Int(2), BoxOut::Int(1)]);
    assert_eq!(p.total(), 3);
    p.update(BoxOut::Int(2));
    assert_eq!(p.progress(), 0);
    p.update(BoxOut::Int(0));
    assert_eq!(p.progress(), 1);
    p.update(BoxOut::Int(2));
    assert_eq!(p.progress(), 2);
    assert!(!p.is_complete());
    p.update(BoxOut::Int(1));
    assert_eq!(p.progress(), 3);
    assert!(p.is_complete());
}

#[test]
fn progression_restarts_on_mismatch() {
    let mut p = Progression::new(vec![BoxOut::Int(1), BoxOut::Int(1), BoxOut::Int(2)]);
    p.update(BoxOut::Int(1));
    p.update(BoxOut::Int(1));
    p.update(BoxOut::Int(1));
    assert_eq!(p.progress(), 2);
    p.update(BoxOut::Int(2));
    assert_eq!(p.progress(), 3);
}

#[test]
fn completion_fires_once() {
    let mut p = Progression::new(vec![BoxOut::Int(0), BoxOut::Int(0)]);
    assert!(!p.observe(BoxOut::Int(0)));
    assert!(p.observe(BoxOut::Int(0)));
    assert!(p.is_complete());
    assert!(!p.observe(BoxOut::Int(0)));
    assert!(p.is_complete());
    assert!(!p.observe(BoxOut::Int(5)));
    assert!(!p.observe(BoxOut::Int(0)));
    assert!(!p.observe(BoxOut::Int(0)));
}

#[test]
fn empty_prompt_completes_on_first_output() {
    let mut p = Progression::new(vec![]);
    assert!(p.is_complete());
    assert!(p.observe(BoxOut::Int(3)));
    assert!(!p.observe(BoxOut::Int(3)));
}

#[test]
fn output_equality() {
    assert_eq!(BoxOut::Int(3), BoxOut::Int(3));
    assert_ne!(BoxOut::Int(3), BoxOut::Flt(3.0f32.to_bits()));
    assert_eq!(BoxOut::Flt(0.0f32.to_bits()), BoxOut::Flt((-0.0f32).to_bits()));
    assert_ne!(BoxOut::Flt(f32::NAN.to_bits()), BoxOut::Flt(f32::NAN.to_bits()));
    assert_eq!(BoxOut::Str("ab".to_string()), BoxOut::Str("ab".to_string()));
    assert_ne!(BoxOut::Str("ab".to_string()), BoxOut::Str("abc".to_string()));
    assert_eq!(BoxOut::default(), BoxOut::Int(0));
}

#[test]
fn progression_matches_floats_and_strings() {
    let mut p = Progression::new(vec![BoxOut::Flt(0.0f32.to_bits()), BoxOut::Str("go".to_string())]);
    p.update(BoxOut::Flt((-0.0f32).to_bits()));
    assert_eq!(p.progress(), 1);
    p.update(BoxOut::Str("go".to_string()));
    assert!(p.is_complete());
    let mut q = Progression::new(vec![BoxOut::Flt(f32::NAN.to_bits())]);
    q.update(BoxOut::Flt(f32::NAN.to_bits()));
    assert_eq!(q.progress(), 0);
    assert_eq!(q.get_prompt().len(), 1);
}

#[test]
fn pieces_mark_matched_prefix() {
    let mut p = Progression::new(vec![BoxOut::Int(4), BoxOut::Int(5), BoxOut::Int(6)]);
    p.update(BoxOut::Int(4));
    let pieces = p.pieces();
    assert_eq!(
        pieces,
        vec![
            ProgressPiecePrefab { index: 0, matched: true },
            ProgressPiecePrefab { index: 1, matched: false },
            ProgressPiecePrefab { index: 2, matched: false },
        ]
    );
}

#[test]
fn level_numbers_cycle() {
    assert_eq!(LevelNum(1).slot(10), 0);
    assert_eq!(LevelNum(10).slot(10), 9);
    assert_eq!(LevelNum(11).slot(10), 0);
    let mut n = LevelNum(4);
    n.advance();
    assert_eq!(n, LevelNum(5));
}
