use livesplit_hotkeys::device::{EventDecoder, RawEvent};
use livesplit_hotkeys::engine::KeyState;
use livesplit_hotkeys::key::Hotkey;

fn record(kind: u16, code: u16, value: i32) -> Vec<u8> {
    let mut r = vec![0u8; 16];
    r.extend_from_slice(&kind.to_le_bytes());
    r.extend_from_slice(&code.to_le_bytes());
    r.extend_from_slice(&value.to_le_bytes());
    r
}

#[test]
fn record_fields_are_read_from_the_end() {
    let ev = RawEvent::from_record(&record(1, 34, 1)).unwrap();
    assert_eq!(ev, RawEvent { kind: 1, code: 34, value: 1 });
    let ev = RawEvent::from_record(&record(4, 0x2ff, -5)).unwrap();
    assert_eq!(ev, RawEvent { kind: 4, code: 0x2ff, value: -5 });
    assert_eq!(RawEvent::from_record(&[1, 2, 3]), None);
}

#[test]
fn decoder_uses_key_event_type() {
    let d = EventDecoder::new(100);
    assert_eq!(d.key_type, 1);
    assert_eq!(d.num_keys, 100);
}

#[test]
fn decoder_filters_autorepeat_and_other_types() {
    let d = EventDecoder::new(100);
    assert_eq!(d.decode(RawEvent { kind: 1, code: 30, value: 1 }), Some((30, true)));
    assert_eq!(d.decode(RawEvent { kind: 1, code: 30, value: 0 }), Some((30, false)));
    assert_eq!(d.decode(RawEvent { kind: 1, code: 30, value: 2 }), None);
    assert_eq!(d.decode(RawEvent { kind: 1, code: 30, value: 3 }), Some((30, true)));
    assert_eq!(d.decode(RawEvent { kind: 1, code: 30, value: -1 }), Some((30, true)));
    assert_eq!(d.decode(RawEvent { kind: 4, code: 30, value: 1 }), None);
    assert_eq!(d.decode(RawEvent { kind: 1, code: 100, value: 1 }), None);
}

fn activations(events: &[RawEvent]) -> Vec<Hotkey> {
    let d = EventDecoder::new(100);
    let combos = vec![vec![30, 48], vec![], vec![], vec![], vec![], vec![]];
    let mut ks = KeyState::with_table(100, combos, true).unwrap();
    let mut fired = Vec::new();
    for ev in events {
        if let Some((code, pressed)) = d.decode(*ev) {
            fired.extend(ks.handle_key(code, pressed));
        }
    }
    fired
}

#[test]
fn autorepeat_adds_no_activation() {
    let press = |code| RawEvent { kind: 1, code, value: 1 };
    let repeat = |code| RawEvent { kind: 1, code, value: 2 };
    let without = vec![press(30), press(48)];
    let with = vec![press(30), press(48), repeat(48), repeat(30)];
    assert_eq!(activations(&without), vec![Hotkey::SplitKey]);
    assert_eq!(activations(&with), activations(&without));
}
