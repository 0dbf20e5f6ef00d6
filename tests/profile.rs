use input_event_codes_hashmap::KEY;
use livesplit_hotkeys::engine::KeyState;
use livesplit_hotkeys::key::{Hotkey, Keymapper};
use livesplit_hotkeys::profile::{ConfigError, Expect, ProfileScanner, XmlAttribute, XmlToken};

const SETTINGS: &str = r#"<?xml version="1.0" encoding="UTF-8"?>
<Settings>
  <HotkeyProfiles>
    <HotkeyProfile name="Other">
      <SplitKey>NumPad1</SplitKey>
      <GlobalHotkeysEnabled>False</GlobalHotkeysEnabled>
    </HotkeyProfile>
    <HotkeyProfile name="Default">
      <SplitKey>G</SplitKey>
      <ResetKey>R, Shift</ResetKey>
      <PauseKey>Control, P</PauseKey>
    </HotkeyProfile>
  </HotkeyProfiles>
  <SplitKey>Escape</SplitKey>
</Settings>
"#;

#[test]
fn end_to_end_split_and_reset() {
    let mut ks = KeyState::new(SETTINGS.as_bytes(), "Default").unwrap();
    assert_eq!(ks.combo(Hotkey::SplitKey), &vec![KEY["G"]]);
    assert_eq!(ks.combo(Hotkey::ResetKey), &vec![KEY["R"], KEY["LEFTSHIFT"]]);
    assert!(ks.combo(Hotkey::SkipKey).is_empty());
    assert!(ks.is_enabled());
    assert_eq!(ks.handle_key(KEY["G"], true), vec![Hotkey::SplitKey]);
    assert_eq!(ks.handle_key(KEY["G"], false), vec![]);
    assert_eq!(ks.handle_key(KEY["LEFTSHIFT"], true), vec![]);
    assert_eq!(ks.handle_key(KEY["R"], true), vec![Hotkey::ResetKey]);
}

#[test]
fn held_table_covers_every_key_code() {
    let ks = KeyState::new(SETTINGS.as_bytes(), "Default").unwrap();
    let largest = *KEY.values().max().unwrap() as usize;
    assert_eq!(ks.num_keys(), largest + 1);
}

#[test]
fn other_profile_is_used_when_chosen() {
    let ks = KeyState::new(SETTINGS.as_bytes(), "Other").unwrap();
    assert_eq!(ks.combo(Hotkey::SplitKey), &vec![KEY["KP1"]]);
    assert!(ks.combo(Hotkey::ResetKey).is_empty());
    assert!(!ks.is_enabled());
}

#[test]
fn missing_profile_gives_empty_enabled_engine() {
    let ks = KeyState::new(SETTINGS.as_bytes(), "Nobody").unwrap();
    assert!(ks.combo(Hotkey::SplitKey).is_empty());
    assert!(ks.is_enabled());
}

#[test]
fn enabled_flag_ignores_case_and_space() {
    let doc = r#"<HotkeyProfile name="Default"><GlobalHotkeysEnabled> TRUE </GlobalHotkeysEnabled></HotkeyProfile>"#;
    assert!(KeyState::new(doc.as_bytes(), "Default").unwrap().is_enabled());
    let doc = r#"<HotkeyProfile name="Default"><GlobalHotkeysEnabled>no</GlobalHotkeysEnabled></HotkeyProfile>"#;
    assert!(!KeyState::new(doc.as_bytes(), "Default").unwrap().is_enabled());
}

#[test]
fn unresolved_key_fails_loading() {
    let doc = r#"<HotkeyProfile name="Default"><SplitKey>G, Bogus</SplitKey></HotkeyProfile>"#;
    match KeyState::new(doc.as_bytes(), "Default") {
        Err(ConfigError::Unresolved(u)) => {
            assert_eq!(u.token, "Bogus");
            assert_eq!(u.combo, "G, Bogus");
        }
        other => panic!("unexpected {:?}", other.map(|_| ())),
    }
}

#[test]
fn unresolved_key_outside_profile_is_ignored() {
    let doc = r#"<HotkeyProfile name="Other"><SplitKey>Bogus</SplitKey></HotkeyProfile>"#;
    assert!(KeyState::new(doc.as_bytes(), "Default").is_ok());
}

#[test]
fn malformed_document_fails_loading() {
    let doc = r#"<HotkeyProfile name="Default"><SplitKey>G</ResetKey></HotkeyProfile>"#;
    assert!(matches!(
        KeyState::new(doc.as_bytes(), "Default"),
        Err(ConfigError::Xml(_))
    ));
}

#[test]
fn scanner_follows_profile_tags() {
    let mapper = Keymapper::new();
    let mut scanner = ProfileScanner::new("Default");
    let attrs = vec![
        None,
        Some(XmlAttribute { key: b"name".to_vec(), value: b"Default".to_vec() }),
    ];
    scanner.feed(&mapper, &XmlToken::Start(b"HotkeyProfile".to_vec(), attrs)).unwrap();
    scanner.feed(&mapper, &XmlToken::Start(b"UndoKey".to_vec(), vec![])).unwrap();
    scanner.feed(&mapper, &XmlToken::Text(Ok("Back".to_string()))).unwrap();
    scanner.feed(&mapper, &XmlToken::End(b"UndoKey".to_vec())).unwrap();
    scanner.feed(&mapper, &XmlToken::Text(Ok("Bogus".to_string()))).unwrap();
    scanner.feed(&mapper, &XmlToken::End(b"HotkeyProfile".to_vec())).unwrap();
    scanner.feed(&mapper, &XmlToken::Start(b"SkipKey".to_vec(), vec![])).unwrap();
    scanner.feed(&mapper, &XmlToken::Text(Ok("Bogus".to_string()))).unwrap();
    scanner.feed(&mapper, &XmlToken::Other).unwrap();
    let (combos, enabled) = scanner.into_parts();
    assert_eq!(combos[Hotkey::UndoKey.index()], vec![KEY["BACKSPACE"]]);
    assert!(combos[Hotkey::SkipKey.index()].is_empty());
    assert!(enabled);
}

#[test]
fn scanner_reports_bad_combo() {
    let mapper = Keymapper::new();
    let mut scanner = ProfileScanner::new("P");
    let attrs = vec![Some(XmlAttribute { key: b"name".to_vec(), value: b"P".to_vec() })];
    scanner.feed(&mapper, &XmlToken::Start(b"HotkeyProfile".to_vec(), attrs)).unwrap();
    scanner.feed(&mapper, &XmlToken::Start(b"SplitKey".to_vec(), vec![])).unwrap();
    match scanner.feed(&mapper, &XmlToken::Text(Ok("Shift, , Alt".to_string()))) {
        Err(ConfigError::Unresolved(u)) => assert_eq!(u.token, ""),
        _ => panic!("expected an unresolved key"),
    }
}

#[test]
fn expect_values_are_distinct() {
    assert_ne!(Expect::Nothing, Expect::HotkeysEnabled);
    assert_eq!(Expect::Hotkey(Hotkey::PauseKey), Expect::Hotkey(Hotkey::PauseKey));
}

#[test]
fn bad_escape_in_profile_text_fails_loading() {
    let doc = r#"<HotkeyProfile name="Default"><SplitKey>&bogus;</SplitKey></HotkeyProfile>"#;
    assert!(matches!(
        KeyState::new(doc.as_bytes(), "Default"),
        Err(ConfigError::Xml(_))
    ));
}

#[test]
fn bad_escape_outside_profile_is_ignored() {
    let doc = r#"<HotkeyProfile name="Other"><SplitKey>&bogus;</SplitKey></HotkeyProfile>"#;
    assert!(KeyState::new(doc.as_bytes(), "Default").is_ok());
}
