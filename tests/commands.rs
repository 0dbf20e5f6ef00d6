use livesplit_hotkeys::commands::{CommandMapper, Dispatcher};
use livesplit_hotkeys::engine::KeyState;
use livesplit_hotkeys::key::Hotkey;

#[test]
fn pause_alternates_across_other_commands() {
    let mut m = CommandMapper::new();
    assert_eq!(m.command_for(Hotkey::PauseKey), Some("pause"));
    assert!(m.is_paused());
    assert_eq!(m.command_for(Hotkey::SplitKey), Some("startorsplit"));
    assert_eq!(m.command_for(Hotkey::ResetKey), Some("reset"));
    assert_eq!(m.command_for(Hotkey::PauseKey), Some("resume"));
    assert!(!m.is_paused());
}

#[test]
fn every_kind_has_its_command() {
    let mut m = CommandMapper::new();
    assert_eq!(m.command_for(Hotkey::SkipKey), Some("skipsplit"));
    assert_eq!(m.command_for(Hotkey::UndoKey), Some("unsplit"));
    assert_eq!(m.command_for(Hotkey::ToggleGlobalHotkeys), None);
    assert!(!m.is_paused());
}

#[test]
fn dispatcher_sends_commands_in_order() {
    let combos = vec![vec![10], vec![], vec![], vec![], vec![10], vec![]];
    let ks = KeyState::with_table(50, combos, true).unwrap();
    let mut d = Dispatcher::new(ks);
    assert_eq!(
        d.on_key(10, true),
        Some(vec![(Hotkey::SplitKey, "startorsplit"), (Hotkey::PauseKey, "pause")])
    );
    assert_eq!(d.on_key(10, false), Some(vec![]));
    assert_eq!(
        d.on_key(10, true),
        Some(vec![(Hotkey::SplitKey, "startorsplit"), (Hotkey::PauseKey, "resume")])
    );
    assert!(d.key_state().is_held(10));
}

#[test]
fn dispatcher_ignores_codes_outside_table() {
    let combos = vec![vec![10], vec![], vec![], vec![], vec![], vec![]];
    let ks = KeyState::with_table(50, combos, true).unwrap();
    let mut d = Dispatcher::new(ks);
    assert_eq!(d.on_key(50, true), None);
    assert_eq!(d.on_key(u32::MAX, true), None);
}

#[test]
fn toggle_sends_nothing_even_when_reported() {
    let combos = vec![vec![], vec![], vec![], vec![], vec![], vec![7]];
    let mut ks = KeyState::with_table(50, combos, true).unwrap();
    ks.set_report_toggle(true);
    let mut d = Dispatcher::new(ks);
    assert_eq!(d.on_key(7, true), Some(vec![]));
    assert!(!d.key_state().is_enabled());
}
