use input_event_codes_hashmap::KEY;
use livesplit_hotkeys::key::{Hotkey, Keymapper, HOTKEY_COUNT};

#[test]
fn test_key() {
    let mapper = Keymapper::new();
    assert_eq!(mapper.map("G").unwrap(), KEY["G"]);
    assert_eq!(mapper.map("Alt").unwrap(), KEY["LEFTALT"]);
    assert_eq!(mapper.map("NumPad6").unwrap(), KEY["KP6"]);
}

#[test]
fn test_combo() {
    let mapper = Keymapper::new();
    assert_eq!(
        mapper.map_combo("G, Control").unwrap()[..],
        [KEY["G"], KEY["LEFTCTRL"]]
    );
    assert_eq!(
        mapper.map_combo("R, Shift, Alt").unwrap()[..],
        [KEY["R"], KEY["LEFTSHIFT"], KEY["LEFTALT"]]
    );
}

#[test]
fn lower_case_name_resolves_through_upper_case() {
    let mapper = Keymapper::new();
    assert_eq!(mapper.map("g"), Some(34));
    assert_eq!(mapper.map("space"), Some(KEY["SPACE"]));
}

#[test]
fn digit_and_modifier_aliases() {
    let mapper = Keymapper::new();
    assert_eq!(mapper.map("D1"), Some(KEY["1"]));
    assert_eq!(mapper.map("D0"), Some(11));
    assert_eq!(mapper.map("Control"), Some(29));
    assert_eq!(mapper.map("RShiftKey"), Some(KEY["RIGHTSHIFT"]));
    assert_eq!(mapper.map("Return"), Some(KEY["ENTER"]));
    assert_eq!(mapper.map("Oemtilde"), Some(KEY["GRAVE"]));
}

#[test]
fn unknown_name_has_no_code() {
    let mapper = Keymapper::new();
    assert_eq!(mapper.map("NoSuchKey"), None);
    assert_eq!(mapper.map(""), None);
}

#[test]
fn resolve_control_g_in_order() {
    let mapper = Keymapper::new();
    assert_eq!(mapper.map_combo("Control, G").unwrap(), vec![29, 34]);
}

#[test]
fn empty_token_fails_the_whole_combo() {
    let mapper = Keymapper::new();
    let err = mapper.map_combo("Shift, , Alt").unwrap_err();
    assert_eq!(err.token, "");
    assert_eq!(err.combo, "Shift, , Alt");
}

#[test]
fn first_unresolved_token_is_reported_trimmed() {
    let mapper = Keymapper::new();
    let err = mapper.map_combo("G,  Bogus , Nope").unwrap_err();
    assert_eq!(err.token, "Bogus");
    assert_eq!(err.combo, "G,  Bogus , Nope");
}

#[test]
fn single_key_combo_and_whitespace() {
    let mapper = Keymapper::new();
    assert_eq!(mapper.map_combo("  NumPad6\t").unwrap(), vec![77]);
    assert_eq!(mapper.map_combo("G,G").unwrap(), vec![34, 34]);
}

#[test]
fn hotkey_table_order() {
    assert_eq!(HOTKEY_COUNT, 6);
    let kinds = [
        Hotkey::SplitKey,
        Hotkey::ResetKey,
        Hotkey::SkipKey,
        Hotkey::UndoKey,
        Hotkey::PauseKey,
        Hotkey::ToggleGlobalHotkeys,
    ];
    for (i, k) in kinds.iter().enumerate() {
        assert_eq!(k.index(), i);
        assert_eq!(Hotkey::at(i), *k);
    }
}
