//! Raw events of a keyboard device and the key transitions they carry.

use vstd::prelude::*;

use input_event_codes_hashmap::EV;

use crate::engine::KeyStateView;

verus! {

/// A little-endian 16-bit number.
pub open spec fn le_u16(b0: u8, b1: u8) -> int {
    b0 + 256 * b1
}

/// A little-endian 32-bit two's-complement number.
pub open spec fn le_i32(b0: u8, b1: u8, b2: u8, b3: u8) -> int {
    let raw = b0 + 256 * b1 + 65536 * b2 + 16777216 * b3;
    if raw >= 0x8000_0000 {
        raw - 0x1_0000_0000
    } else {
        raw
    }
}

/// An input event as a device reports it: type, code and value.
#[derive(Debug, Clone, Copy, PartialEq, Eq, Structural)]
pub struct RawEvent {
    pub kind: u16,
    pub code: u16,
    pub value: i32,
}

impl RawEvent {
    /// The event of a kernel input record (a time stamp, then type, code and
    /// value, little-endian): these are its last eight bytes. `None` for a
    /// record shorter than that.
    pub fn from_record(record: &[u8]) -> (r: Option<RawEvent>)
        ensures
            match r {
                Some(ev) => {
                    let n = record@.len() - 8;
                    &&& record@.len() >= 8
                    &&& ev.kind == le_u16(record@[n], record@[n + 1])
                    &&& ev.code == le_u16(record@[n + 2], record@[n + 3])
                    &&& ev.value == le_i32(record@[n + 4], record@[n + 5], record@[n + 6], record@[n + 7])
                },
                None => record@.len() < 8,
            },
    {
        if record.len() < 8 {
            return None;
        }
        let n = record.len() - 8;
        let kind = record[n] as u16 + 256 * record[n + 1] as u16;
        let code = record[n + 2] as u16 + 256 * record[n + 3] as u16;
        let raw: i64 = record[n + 4] as i64 + 256 * record[n + 5] as i64 + 65536 * record[n + 6] as i64
            + 16777216 * record[n + 7] as i64;
        let value: i64 = if raw >= 0x8000_0000 {
            raw - 0x1_0000_0000
        } else {
            raw
        };
        Some(RawEvent { kind, code, value: value as i32 })
    }
}

/// The type code that the input layer's event table gives an event kind name.
pub uninterp spec fn event_type_of(name: Seq<char>) -> Option<u32>;

/// Relies on `input_event_codes_hashmap::EV`: the type code of an event kind
/// name, if the table has the name; `KEY` has code 1.
#[verifier::external_body]
fn event_type(name: &str) -> (r: Option<u32>)
    ensures
        r == event_type_of(name@),
        name@ == "KEY"@ ==> r == Some(1u32),
{
    EV.get(name).copied()
}

/// Turns a device's raw events into key transitions for a held table of a
/// given size.
#[derive(Debug, Clone, Copy)]
pub struct EventDecoder {
    /// The type code of key events.
    pub key_type: u32,
    /// The size of the held table.
    pub num_keys: usize,
}

impl EventDecoder {
    /// The transition that an event carries: a key event whose code lies in
    /// the table is a release for value 0 and a press for any other value but
    /// 2. Autorepeat (value 2) carries none.
    pub open spec fn transition_of(self, ev: RawEvent) -> Option<(u32, bool)> {
        if ev.kind as u32 == self.key_type && ev.value != 2 && (ev.code as int) < self.num_keys {
            Some((ev.code as u32, ev.value != 0))
        } else {
            None
        }
    }

    /// The transitions of a stream of events, in order.
    pub open spec fn transitions(self, evs: Seq<RawEvent>) -> Seq<(u32, bool)>
        decreases evs.len(),
    {
        if evs.len() == 0 {
            Seq::empty()
        } else {
            match self.transition_of(evs[0]) {
                Some(t) => seq![t] + self.transitions(evs.drop_first()),
                None => self.transitions(evs.drop_first()),
            }
        }
    }

    /// A decoder for key events, with the key-event type of the input layer's
    /// event table.
    pub fn new(num_keys: usize) -> (r: EventDecoder)
        ensures
            r.key_type == 1,
            event_type_of("KEY"@) == Some(r.key_type),
            r.num_keys == num_keys,
    {
        let key_type = event_type("KEY").unwrap();
        EventDecoder { key_type, num_keys }
    }

    /// The transition that `ev` carries, if any.
    pub fn decode(&self, ev: RawEvent) -> (r: Option<(u32, bool)>)
        ensures
            r == self.transition_of(ev),
    {
        if ev.kind as u32 == self.key_type && ev.value != 2 && (ev.code as usize) < self.num_keys {
            Some((ev.code as u32, ev.value != 0))
        } else {
            None
        }
    }
}

/// The transitions of two streams one after the other are those of each.
pub proof fn lemma_transitions_append(d: EventDecoder, a: Seq<RawEvent>, b: Seq<RawEvent>)
    ensures
        d.transitions(a + b) == d.transitions(a) + d.transitions(b),
    decreases a.len(),
{
    if a.len() == 0 {
        assert(a + b =~= b);
        assert(d.transitions(a) + d.transitions(b) =~= d.transitions(b));
    } else {
        assert((a + b).drop_first() =~= a.drop_first() + b);
        lemma_transitions_append(d, a.drop_first(), b);
        match d.transition_of(a[0]) {
            Some(t) => {
                assert(seq![t] + (d.transitions(a.drop_first()) + d.transitions(b)) =~= (seq![t]
                    + d.transitions(a.drop_first())) + d.transitions(b));
            },
            None => {},
        }
    }
}

/// An autorepeat event never reaches the engine: a stream with one inserted
/// anywhere gives the same transitions, and so the same hotkeys from any
/// engine state, as the stream without it.
pub proof fn lemma_autorepeat_changes_nothing(
    d: EventDecoder,
    m: KeyStateView,
    evs: Seq<RawEvent>,
    i: int,
    repeat: RawEvent,
)
    requires
        0 <= i <= evs.len(),
        repeat.value == 2,
    ensures
        d.transitions(evs.insert(i, repeat)) == d.transitions(evs),
        m.run(d.transitions(evs.insert(i, repeat))) == m.run(d.transitions(evs)),
{
    let before = evs.take(i);
    let after = evs.skip(i);
    assert(evs.insert(i, repeat) =~= before + (seq![repeat] + after));
    assert(evs =~= before + after);
    lemma_transitions_append(d, before, seq![repeat] + after);
    lemma_transitions_append(d, seq![repeat], after);
    lemma_transitions_append(d, before, after);
    assert((seq![repeat] + after).drop_first() =~= after);
    assert(seq![repeat].drop_first() =~= Seq::<RawEvent>::empty());
    assert(d.transitions(seq![repeat]) =~= Seq::<(u32, bool)>::empty());
    assert(d.transitions(seq![repeat]) + d.transitions(after) =~= d.transitions(after));
}

} // verus!
