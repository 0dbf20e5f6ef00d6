use livesplit_hotkeys::engine::KeyState;
use livesplit_hotkeys::key::Hotkey;

const A: u32 = 30;
const B: u32 = 48;
const X: u32 = 45;
const T1: u32 = 29;
const T2: u32 = 20;

fn table(split: Vec<u32>, reset: Vec<u32>, toggle: Vec<u32>) -> Vec<Vec<u32>> {
    vec![split, reset, vec![], vec![], vec![], toggle]
}

fn engine(split: Vec<u32>, reset: Vec<u32>, toggle: Vec<u32>, enabled: bool) -> KeyState {
    KeyState::with_table(100, table(split, reset, toggle), enabled).unwrap()
}

#[test]
fn press_then_release_leaves_key_up() {
    let mut ks = engine(vec![A, B], vec![], vec![], true);
    for c in [0u32, A, 99] {
        ks.handle_key(c, true);
        assert!(ks.is_held(c));
        ks.handle_key(c, false);
        assert!(!ks.is_held(c));
    }
    assert!(!ks.is_held(A));
}

#[test]
fn pair_fires_on_member_press_only_when_other_held() {
    let mut ks = engine(vec![A, B], vec![], vec![], true);
    assert_eq!(ks.handle_key(A, true), vec![]);
    assert_eq!(ks.handle_key(B, true), vec![Hotkey::SplitKey]);
    ks.handle_key(A, false);
    ks.handle_key(B, false);
    assert_eq!(ks.handle_key(B, true), vec![]);
    assert_eq!(ks.handle_key(A, true), vec![Hotkey::SplitKey]);
}

#[test]
fn unrelated_key_never_refires_held_combo() {
    let mut ks = engine(vec![A, B], vec![], vec![], true);
    ks.handle_key(A, true);
    assert_eq!(ks.handle_key(B, true), vec![Hotkey::SplitKey]);
    assert_eq!(ks.handle_key(X, true), vec![]);
    assert_eq!(ks.handle_key(X, false), vec![]);
}

#[test]
fn member_retransition_refires() {
    let mut ks = engine(vec![A, B], vec![], vec![], true);
    ks.handle_key(A, true);
    assert_eq!(ks.handle_key(B, true), vec![Hotkey::SplitKey]);
    assert_eq!(ks.handle_key(B, true), vec![Hotkey::SplitKey]);
    assert_eq!(ks.handle_key(B, false), vec![]);
}

#[test]
fn toggle_fires_while_disabled() {
    let mut ks = engine(vec![A], vec![], vec![T1, T2], false);
    assert_eq!(ks.handle_key(A, true), vec![]);
    ks.handle_key(A, false);
    ks.handle_key(T1, true);
    assert!(!ks.is_enabled());
    assert_eq!(ks.handle_key(T2, true), vec![]);
    assert!(ks.is_enabled());
    ks.handle_key(T1, false);
    ks.handle_key(T2, false);
    assert_eq!(ks.handle_key(A, true), vec![Hotkey::SplitKey]);
}

#[test]
fn toggle_on_evaluates_combos_sharing_the_key() {
    let mut ks = engine(vec![T1, T2], vec![A], vec![T1, T2], false);
    ks.handle_key(T1, true);
    assert_eq!(ks.handle_key(T2, true), vec![Hotkey::SplitKey]);
    assert!(ks.is_enabled());
}

#[test]
fn toggle_off_suppresses_everything() {
    let mut ks = engine(vec![T1, T2], vec![], vec![T1, T2], true);
    ks.handle_key(T1, true);
    assert_eq!(ks.handle_key(T2, true), vec![]);
    assert!(!ks.is_enabled());
}

#[test]
fn toggle_reported_when_asked() {
    let mut ks = engine(vec![], vec![], vec![T1], true);
    ks.set_report_toggle(true);
    assert_eq!(ks.handle_key(T1, true), vec![Hotkey::ToggleGlobalHotkeys]);
    assert!(!ks.is_enabled());
    assert_eq!(ks.handle_key(T1, true), vec![Hotkey::ToggleGlobalHotkeys]);
    assert!(ks.is_enabled());
}

#[test]
fn activations_in_table_order() {
    let mut ks = engine(vec![A], vec![A], vec![], true);
    assert_eq!(ks.handle_key(A, true), vec![Hotkey::SplitKey, Hotkey::ResetKey]);
}

#[test]
fn with_table_checks_shape_and_codes() {
    assert!(KeyState::with_table(100, vec![vec![]; 5], true).is_none());
    assert!(KeyState::with_table(100, vec![vec![]; 7], true).is_none());
    assert!(KeyState::with_table(30, table(vec![A], vec![], vec![]), true).is_none());
    let ks = KeyState::with_table(31, table(vec![A], vec![], vec![]), true).unwrap();
    assert_eq!(ks.num_keys(), 31);
    assert_eq!(ks.combo(Hotkey::SplitKey), &vec![A]);
    assert!(ks.combo(Hotkey::UndoKey).is_empty());
    assert!(!ks.is_held(A));
    assert!(!ks.is_held(500));
}

#[test]
fn unconfigured_kind_never_fires() {
    let mut ks = engine(vec![], vec![], vec![], true);
    for c in 0..100u32 {
        assert_eq!(ks.handle_key(c, true), vec![]);
    }
}
