//! The LiveSplit server's commands for hotkeys, and the dispatcher that feeds
//! key transitions to the engine and hands back what to send.

use vstd::prelude::*;

use crate::engine::{KeyState, KeyStateView};
use crate::key::Hotkey;

verus! {

/// The server command for a hotkey, given whether the timer is paused. The
/// pause hotkey alternates between pausing and resuming; the enable/disable
/// hotkey has no command.
pub open spec fn command_word(hotkey: Hotkey, paused: bool) -> Option<&'static str> {
    match hotkey {
        Hotkey::SplitKey => Some("startorsplit"),
        Hotkey::ResetKey => Some("reset"),
        Hotkey::SkipKey => Some("skipsplit"),
        Hotkey::UndoKey => Some("unsplit"),
        Hotkey::PauseKey => if paused {
            Some("resume")
        } else {
            Some("pause")
        },
        Hotkey::ToggleGlobalHotkeys => None,
    }
}

/// Whether the timer is paused after a hotkey: only the pause hotkey changes it.
pub open spec fn paused_after(hotkey: Hotkey, paused: bool) -> bool {
    if hotkey == Hotkey::PauseKey {
        !paused
    } else {
        paused
    }
}

/// Whether the timer is paused after a run of hotkeys.
pub open spec fn paused_after_all(paused: bool, hotkeys: Seq<Hotkey>) -> bool
    decreases hotkeys.len(),
{
    if hotkeys.len() == 0 {
        paused
    } else {
        paused_after_all(paused_after(hotkeys[0], paused), hotkeys.drop_first())
    }
}

/// The commands sent for a run of hotkeys, each with its hotkey, in order;
/// hotkeys without a command send nothing.
pub open spec fn deliveries(paused: bool, hotkeys: Seq<Hotkey>) -> Seq<(Hotkey, &'static str)>
    decreases hotkeys.len(),
{
    if hotkeys.len() == 0 {
        Seq::empty()
    } else {
        let rest = deliveries(paused_after(hotkeys[0], paused), hotkeys.drop_first());
        match command_word(hotkeys[0], paused) {
            Some(word) => seq![(hotkeys[0], word)] + rest,
            None => rest,
        }
    }
}

/// Maps hotkeys to server commands, remembering whether the timer is paused.
#[derive(Debug, Clone, Copy)]
pub struct CommandMapper {
    paused: bool,
}

impl View for CommandMapper {
    type V = bool;

    /// Whether the timer is paused.
    closed spec fn view(&self) -> bool {
        self.paused
    }
}

impl CommandMapper {
    /// A mapper for a timer that is not paused.
    pub fn new() -> (r: Self)
        ensures
            !r@,
    {
        CommandMapper { paused: false }
    }

    /// Whether the timer is paused.
    pub fn is_paused(&self) -> (r: bool)
        ensures
            r == self@,
    {
        self.paused
    }

    /// The command for a hotkey.
    pub fn command_for(&mut self, hotkey: Hotkey) -> (r: Option<&'static str>)
        ensures
            r == command_word(hotkey, old(self)@),
            final(self)@ == paused_after(hotkey, old(self)@),
    {
        match hotkey {
            Hotkey::SplitKey => Some("startorsplit"),
            Hotkey::ResetKey => Some("reset"),
            Hotkey::SkipKey => Some("skipsplit"),
            Hotkey::UndoKey => Some("unsplit"),
            Hotkey::PauseKey => {
                let word = if self.paused {
                    "resume"
                } else {
                    "pause"
                };
                self.paused = !self.paused;
                Some(word)
            },
            Hotkey::ToggleGlobalHotkeys => None,
        }
    }
}

/// A run of hotkeys with no pause hotkey leaves the paused state alone and
/// sends no pause or resume command.
pub proof fn lemma_no_pause_in_between(paused: bool, hotkeys: Seq<Hotkey>)
    requires
        !hotkeys.contains(Hotkey::PauseKey),
    ensures
        paused_after_all(paused, hotkeys) == paused,
        forall|i: int|
            0 <= i < deliveries(paused, hotkeys).len() ==> (#[trigger] deliveries(
                paused,
                hotkeys,
            )[i]).0 != Hotkey::PauseKey,
    decreases hotkeys.len(),
{
    if hotkeys.len() > 0 {
        assert(hotkeys[0] != Hotkey::PauseKey);
        assert forall|j: int|
            0 <= j < hotkeys.drop_first().len() implies #[trigger] hotkeys.drop_first()[j]
            != Hotkey::PauseKey by {
            assert(hotkeys.drop_first()[j] == hotkeys[j + 1]);
        }
        lemma_no_pause_in_between(paused, hotkeys.drop_first());
    }
}

/// The command and paused state for a single hotkey.
pub proof fn lemma_single(paused: bool, hotkey: Hotkey)
    ensures
        deliveries(paused, seq![hotkey]) == match command_word(hotkey, paused) {
            Some(word) => seq![(hotkey, word)],
            None => Seq::empty(),
        },
        paused_after_all(paused, seq![hotkey]) == paused_after(hotkey, paused),
{
    let one = seq![hotkey];
    let next = paused_after(hotkey, paused);
    assert(one.drop_first() =~= Seq::<Hotkey>::empty());
    assert(deliveries(next, one.drop_first()) == Seq::<(Hotkey, &'static str)>::empty());
    assert(paused_after_all(next, one.drop_first()) == next);
    match command_word(hotkey, paused) {
        Some(word) => {
            assert(seq![(hotkey, word)] + Seq::<(Hotkey, &'static str)>::empty() =~= seq![(hotkey, word)]);
        },
        None => {},
    }
}

/// The commands of two runs of hotkeys one after the other.
pub proof fn lemma_deliveries_append(paused: bool, a: Seq<Hotkey>, b: Seq<Hotkey>)
    ensures
        deliveries(paused, a + b) == deliveries(paused, a) + deliveries(
            paused_after_all(paused, a),
            b,
        ),
        paused_after_all(paused, a + b) == paused_after_all(paused_after_all(paused, a), b),
    decreases a.len(),
{
    if a.len() == 0 {
        assert(a + b =~= b);
        assert(deliveries(paused, a) + deliveries(paused, b) =~= deliveries(paused, b));
    } else {
        assert((a + b).drop_first() =~= a.drop_first() + b);
        lemma_deliveries_append(paused_after(a[0], paused), a.drop_first(), b);
        let rest_a = deliveries(paused_after(a[0], paused), a.drop_first());
        let tail = deliveries(paused_after_all(paused, a), b);
        match command_word(a[0], paused) {
            Some(word) => {
                assert(seq![(a[0], word)] + (rest_a + tail) =~= (seq![(a[0], word)] + rest_a)
                    + tail);
            },
            None => {},
        }
    }
}

/// Two pause hotkeys with only other hotkeys between them send opposite
/// commands: from a timer that is not paused, "pause" and then "resume".
pub proof fn lemma_pause_alternates(paused: bool, between: Seq<Hotkey>)
    requires
        !between.contains(Hotkey::PauseKey),
    ensures
        ({
            let sent = deliveries(paused, seq![Hotkey::PauseKey] + between + seq![Hotkey::PauseKey]);
            &&& sent.len() > 0
            &&& sent[0] == (Hotkey::PauseKey, if paused {
                "resume"
            } else {
                "pause"
            })
            &&& sent.last() == (Hotkey::PauseKey, if paused {
                "pause"
            } else {
                "resume"
            })
            &&& forall|i: int|
                0 < i < sent.len() - 1 ==> (#[trigger] sent[i]).0 != Hotkey::PauseKey
        }),
{
    let first = seq![Hotkey::PauseKey];
    let last = seq![Hotkey::PauseKey];
    lemma_deliveries_append(paused, first, between);
    lemma_deliveries_append(paused, first + between, last);
    lemma_single(paused, Hotkey::PauseKey);
    lemma_single(!paused, Hotkey::PauseKey);
    lemma_no_pause_in_between(!paused, between);
    let mid = deliveries(!paused, between);
    assert(deliveries(paused, first) =~= seq![
        (Hotkey::PauseKey, if paused {
            "resume"
        } else {
            "pause"
        }),
    ]);
    assert(deliveries(!paused, last) =~= seq![
        (Hotkey::PauseKey, if paused {
            "pause"
        } else {
            "resume"
        }),
    ]);
    let sent = deliveries(paused, first + between + last);
    assert(sent =~= deliveries(paused, first) + mid + deliveries(!paused, last));
    assert forall|i: int| 0 < i < sent.len() - 1 implies (#[trigger] sent[i]).0 != Hotkey::PauseKey by {
        assert(sent[i] == mid[i - 1]);
    }
}

/// Feeds key transitions to the engine, in arrival order, and turns the
/// hotkeys that fire into server commands.
#[derive(Debug)]
pub struct Dispatcher {
    key_state: KeyState,
    commands: CommandMapper,
}

impl View for Dispatcher {
    type V = (KeyStateView, bool);

    /// The engine, and whether the timer is paused.
    closed spec fn view(&self) -> (KeyStateView, bool) {
        (self.key_state@, self.commands@)
    }
}

impl Dispatcher {
    /// A dispatcher around an engine, for a timer that is not paused.
    pub fn new(key_state: KeyState) -> (r: Self)
        ensures
            r@ == (key_state@, false),
    {
        Dispatcher { key_state, commands: CommandMapper::new() }
    }

    /// The engine.
    pub fn key_state(&self) -> (r: &KeyState)
        ensures
            r@ == self@.0,
    {
        &self.key_state
    }

    /// Takes in one transition and returns the commands to send for it, each
    /// with its hotkey, in order. A code outside the engine's held table
    /// changes nothing and gives `None`.
    pub fn on_key(&mut self, code: u32, is_pressed: bool) -> (r: Option<Vec<(Hotkey, &'static str)>>)
        ensures
            code >= old(self)@.0.held.len() ==> r is None && final(self)@ == old(self)@,
            code < old(self)@.0.held.len() ==> {
                let (next, fired) = old(self)@.0.step(code, is_pressed);
                &&& r matches Some(sent) && sent@ == deliveries(old(self)@.1, fired)
                &&& final(self)@ == (next, paused_after_all(old(self)@.1, fired))
            },
    {
        if code as usize >= self.key_state.num_keys() {
            return None;
        }
        let fired = self.key_state.handle_key(code, is_pressed);
        let mut sent: Vec<(Hotkey, &'static str)> = Vec::new();
        let ghost paused = self.commands@;
        let ghost engine = self.key_state@;
        let mut i: usize = 0;
        assert(fired@.take(0) =~= Seq::<Hotkey>::empty());
        while i < fired.len()
            invariant
                i <= fired@.len(),
                self.key_state@ == engine,
                self.commands@ == paused_after_all(paused, fired@.take(i as int)),
                sent@ == deliveries(paused, fired@.take(i as int)),
            decreases fired@.len() - i,
        {
            let ghost prefix = fired@.take(i as int);
            let hotkey = fired[i];
            let ghost before = self.commands@;
            let command = self.commands.command_for(hotkey);
            proof {
                lemma_deliveries_append(paused, prefix, seq![hotkey]);
                assert(prefix + seq![hotkey] =~= fired@.take(i + 1));
                lemma_single(before, hotkey);
            }
            if let Some(word) = command {
                sent.push((hotkey, word));
            }
            i += 1;
        }
        assert(fired@.take(i as int) =~= fired@);
        Some(sent)
    }
}

/// The commands that a dispatcher sends for a run of transitions, call after
/// call, starting from engine state `m` and paused state `paused`.
pub open spec fn sent_over(m: KeyStateView, paused: bool, ts: Seq<(u32, bool)>) -> Seq<
    (Hotkey, &'static str),
>
    decreases ts.len(),
{
    if ts.len() == 0 {
        Seq::empty()
    } else {
        let (next, fired) = m.step(ts[0].0, ts[0].1);
        deliveries(paused, fired) + sent_over(next, paused_after_all(paused, fired), ts.drop_first())
    }
}

/// Call after call, a dispatcher sends the commands of the whole run of
/// hotkeys that the transitions fire, as if they had come at once.
pub proof fn lemma_sent_over_run(m: KeyStateView, paused: bool, ts: Seq<(u32, bool)>)
    ensures
        sent_over(m, paused, ts) == deliveries(paused, m.run(ts).1),
    decreases ts.len(),
{
    if ts.len() > 0 {
        let (next, fired) = m.step(ts[0].0, ts[0].1);
        lemma_sent_over_run(next, paused_after_all(paused, fired), ts.drop_first());
        lemma_deliveries_append(paused, fired, next.run(ts.drop_first()).1);
    } else {
        assert(deliveries(paused, Seq::<Hotkey>::empty()) =~= Seq::<(Hotkey, &'static str)>::empty());
    }
}

/// Over any run of transitions of a fresh dispatcher whose hotkeys hold two
/// pause hotkeys, with none before the first and none between them, the
/// first sends "pause" and the second "resume", whatever other commands come
/// around them.
pub proof fn lemma_dispatch_pause_then_resume(
    m: KeyStateView,
    ts: Seq<(u32, bool)>,
    before: Seq<Hotkey>,
    between: Seq<Hotkey>,
    after: Seq<Hotkey>,
)
    requires
        m.run(ts).1 == before + seq![Hotkey::PauseKey] + between + seq![Hotkey::PauseKey] + after,
        !before.contains(Hotkey::PauseKey),
        !between.contains(Hotkey::PauseKey),
    ensures
        sent_over(m, false, ts) == deliveries(false, before) + seq![(Hotkey::PauseKey, "pause")]
            + deliveries(true, between) + seq![(Hotkey::PauseKey, "resume")] + deliveries(
            false,
            after,
        ),
{
    let p = seq![Hotkey::PauseKey];
    lemma_sent_over_run(m, false, ts);
    lemma_no_pause_in_between(false, before);
    lemma_no_pause_in_between(true, between);
    lemma_single(false, Hotkey::PauseKey);
    lemma_single(true, Hotkey::PauseKey);
    lemma_deliveries_append(false, before, p);
    lemma_deliveries_append(false, before + p, between);
    lemma_deliveries_append(true, between, p);
    lemma_deliveries_append(false, before + p + between, p);
    lemma_deliveries_append(false, before + p + between + p, after);
    assert(paused_after_all(false, before + p) == true);
    assert(paused_after_all(false, before + p + between) == true);
    assert(paused_after_all(false, before + p + between + p) == false);
}

} // verus!
