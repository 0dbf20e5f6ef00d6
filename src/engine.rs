//! The hotkey engine: which keys are held, whether hotkeys are enabled, and
//! which hotkeys fire on each key transition.

use vstd::prelude::*;

use crate::key::{Hotkey, HOTKEY_COUNT};

verus! {

/// The position of the enable/disable combination in table order.
pub const TOGGLE_INDEX: usize = 5;

/// A combination is active on a transition of `code` when `code` is one of its
/// keys and every one of its keys is held.
pub open spec fn combo_active(held: Seq<bool>, combo: Seq<u32>, code: u32) -> bool {
    &&& combo.contains(code)
    &&& forall|i: int| 0 <= i < combo.len() ==> #[trigger] held[combo[i] as int]
}

/// The kinds among the first `n` of table order whose combination is active,
/// in table order.
pub open spec fn fired_upto(held: Seq<bool>, combos: Seq<Seq<u32>>, code: u32, n: nat) -> Seq<
    Hotkey,
>
    decreases n,
{
    if n == 0 {
        Seq::empty()
    } else {
        let before = fired_upto(held, combos, code, (n - 1) as nat);
        if combo_active(held, combos[n - 1], code) {
            before.push(Hotkey::spec_at((n - 1) as nat))
        } else {
            before
        }
    }
}

/// What the engine holds, as mathematics.
pub struct KeyStateView {
    /// Whether each key code is held.
    pub held: Seq<bool>,
    /// The combination of each kind, in table order; empty where none is set.
    pub combos: Seq<Seq<u32>>,
    /// Whether hotkeys other than the enable/disable one may fire.
    pub enabled: bool,
    /// Whether the enable/disable combination reports its own firing.
    pub report_toggle: bool,
}

impl KeyStateView {
    /// Every combination's codes lie within the held table.
    pub open spec fn wf(self) -> bool {
        &&& self.combos.len() == HOTKEY_COUNT
        &&& forall|k: int, i: int|
            0 <= k < HOTKEY_COUNT && 0 <= i < self.combos[k].len() ==> #[trigger] self.combos[k][i]
                < self.held.len()
    }

    /// The effect of one transition: the new state and the hotkeys that fire,
    /// in table order.
    ///
    /// The held table records the transition first. The enable/disable
    /// combination is then checked whatever the state; if active it flips
    /// `enabled`. While enabled (after that flip) every other kind whose
    /// combination is active fires.
    pub open spec fn step(self, code: u32, pressed: bool) -> (KeyStateView, Seq<Hotkey>) {
        let held = self.held.update(code as int, pressed);
        let toggled = combo_active(held, self.combos[TOGGLE_INDEX as int], code);
        let enabled = self.enabled != toggled;
        let own = if toggled && self.report_toggle {
            seq![Hotkey::ToggleGlobalHotkeys]
        } else {
            Seq::empty()
        };
        let others = if enabled {
            fired_upto(held, self.combos, code, TOGGLE_INDEX as nat)
        } else {
            Seq::empty()
        };
        (KeyStateView { held, enabled, ..self }, own + others)
    }
}

/// The hotkey engine.
#[derive(Debug)]
pub struct KeyState {
    state: Vec<bool>,
    hotkeys: Vec<Vec<u32>>,
    hotkeys_enabled: bool,
    report_toggle: bool,
}

impl View for KeyState {
    type V = KeyStateView;

    closed spec fn view(&self) -> KeyStateView {
        KeyStateView {
            held: self.state@,
            combos: self.hotkeys@.map_values(|c: Vec<u32>| c@),
            enabled: self.hotkeys_enabled,
            report_toggle: self.report_toggle,
        }
    }
}

/// Whether every code of every combination is below `n`.
pub open spec fn codes_below(combos: Seq<Seq<u32>>, n: int) -> bool {
    forall|k: int, i: int|
        0 <= k < combos.len() && 0 <= i < combos[k].len() ==> #[trigger] combos[k][i] < n
}

impl KeyState {
    /// The engine's combinations lie within its held table.
    #[verifier::type_invariant]
    spec fn inv(&self) -> bool {
        self@.wf()
    }

    /// An engine for key codes below `num_keys`, with nothing held, and the
    /// combination of each kind in table order (empty where none is set).
    /// `None` when there is not one combination per kind, or when a
    /// combination has a code outside the table.
    pub fn with_table(num_keys: usize, hotkeys: Vec<Vec<u32>>, enabled: bool) -> (r: Option<Self>)
        ensures
            match r {
                Some(ks) => {
                    &&& hotkeys@.len() == HOTKEY_COUNT
                    &&& codes_below(hotkeys@.map_values(|c: Vec<u32>| c@), num_keys as int)
                    &&& ks@.wf()
                    &&& ks@.held == Seq::new(num_keys as nat, |i: int| false)
                    &&& ks@.combos == hotkeys@.map_values(|c: Vec<u32>| c@)
                    &&& ks@.enabled == enabled
                    &&& !ks@.report_toggle
                },
                None => !(hotkeys@.len() == HOTKEY_COUNT && codes_below(
                    hotkeys@.map_values(|c: Vec<u32>| c@),
                    num_keys as int,
                )),
            },
    {
        let ghost combos = hotkeys@.map_values(|c: Vec<u32>| c@);
        if hotkeys.len() != HOTKEY_COUNT {
            return None;
        }
        let mut k: usize = 0;
        while k < hotkeys.len()
            invariant
                k <= hotkeys@.len(),
                combos == hotkeys@.map_values(|c: Vec<u32>| c@),
                codes_below(combos.take(k as int), num_keys as int),
            decreases hotkeys@.len() - k,
        {
            let combo = &hotkeys[k];
            let mut i: usize = 0;
            while i < combo.len()
                invariant
                    k < hotkeys@.len(),
                    combo == hotkeys@[k as int],
                    combos == hotkeys@.map_values(|c: Vec<u32>| c@),
                    i <= combo@.len(),
                    forall|j: int| 0 <= j < i ==> #[trigger] combo@[j] < num_keys,
                decreases combo@.len() - i,
            {
                if combo[i] as usize >= num_keys {
                    assert(combos[k as int][i as int] >= num_keys);
                    return None;
                }
                i += 1;
            }
            assert(codes_below(combos.take(k + 1), num_keys as int)) by {
                assert forall|a: int, b: int|
                    0 <= a < combos.take(k + 1).len() && 0 <= b < combos.take(k + 1)[a].len()
                        implies #[trigger] combos.take(k + 1)[a][b] < num_keys by {
                    if a < k {
                        assert(combos.take(k as int)[a] == combos.take(k + 1)[a]);
                    }
                }
            }
            k += 1;
        }
        assert(combos.take(k as int) =~= combos);
        Some(Self::from_parts(num_keys, hotkeys, enabled))
    }

    /// An engine for key codes below `num_keys`, with nothing held.
    pub(crate) fn from_parts(num_keys: usize, hotkeys: Vec<Vec<u32>>, enabled: bool) -> (r: Self)
        requires
            hotkeys@.len() == HOTKEY_COUNT,
            codes_below(hotkeys@.map_values(|c: Vec<u32>| c@), num_keys as int),
        ensures
            r@.wf(),
            r@.held == Seq::new(num_keys as nat, |i: int| false),
            r@.combos == hotkeys@.map_values(|c: Vec<u32>| c@),
            r@.enabled == enabled,
            !r@.report_toggle,
    {
        let state = vec![false; num_keys];
        KeyState { state, hotkeys, hotkeys_enabled: enabled, report_toggle: false }
    }

    /// Whether `key` is one of the keys of `combo` and all of them are held.
    fn check_hotkey(&self, key: u32, combo: &Vec<u32>) -> (r: bool)
        requires
            forall|i: int| 0 <= i < combo@.len() ==> #[trigger] combo@[i] < self.state@.len(),
        ensures
            r == combo_active(self.state@, combo@, key),
    {
        let mut member = false;
        let mut all_held = true;
        let mut i: usize = 0;
        while i < combo.len()
            invariant
                i <= combo@.len(),
                forall|j: int| 0 <= j < combo@.len() ==> #[trigger] combo@[j] < self.state@.len(),
                member == (exists|j: int| 0 <= j < i && combo@[j] == key),
                all_held == (forall|j: int| 0 <= j < i ==> #[trigger] self.state@[combo@[j] as int]),
            decreases combo@.len() - i,
        {
            let c = combo[i];
            if c == key {
                member = true;
            }
            if !self.state[c as usize] {
                all_held = false;
            }
            i += 1;
        }
        member && all_held
    }

    /// Records that `key` was pressed or released and returns the hotkeys that
    /// fire on this transition, in table order.
    pub fn handle_key(&mut self, key: u32, is_pressed: bool) -> (r: Vec<Hotkey>)
        requires
            key < old(self)@.held.len(),
        ensures
            final(self)@.wf(),
            (final(self)@, r@) == old(self)@.step(key, is_pressed),
    {
        proof {
            use_type_invariant(&*self);
        }
        let ghost before = self@;
        self.state[key as usize] = is_pressed;
        proof {
            use_type_invariant(&*self);
        }
        let ghost held = self.state@;
        assert(self@.combos == before.combos);
        let mut result: Vec<Hotkey> = Vec::new();
        assert(self@.combos[TOGGLE_INDEX as int] == self.hotkeys@[TOGGLE_INDEX as int]@);
        assert(forall|i: int|
            0 <= i < self.hotkeys@[TOGGLE_INDEX as int]@.len() ==> #[trigger] self@.combos[TOGGLE_INDEX as int][i]
                < self@.held.len());
        let toggled = self.check_hotkey(key, &self.hotkeys[TOGGLE_INDEX]);
        if toggled {
            self.hotkeys_enabled = !self.hotkeys_enabled;
            if self.report_toggle {
                result.push(Hotkey::ToggleGlobalHotkeys);
            }
        }
        let ghost own = result@;
        if !self.hotkeys_enabled {
            assert(result@ =~= own + Seq::<Hotkey>::empty());
            return result;
        }
        let mut k: usize = 0;
        while k < TOGGLE_INDEX
            invariant
                k <= TOGGLE_INDEX,
                self@.wf(),
                self@.held == held,
                self@.combos == before.combos,
                result@ == own + fired_upto(held, before.combos, key, k as nat),
            decreases TOGGLE_INDEX - k,
        {
            assert(self@.combos[k as int] == self.hotkeys@[k as int]@);
            assert(forall|i: int|
                0 <= i < self.hotkeys@[k as int]@.len() ==> #[trigger] self@.combos[k as int][i]
                    < self@.held.len());
            if self.check_hotkey(key, &self.hotkeys[k]) {
                result.push(Hotkey::at(k));
                assert(result@ =~= own + fired_upto(held, before.combos, key, (k + 1) as nat));
            }
            k += 1;
        }
        result
    }
}

impl KeyStateView {
    /// The effect of a run of transitions: the final state and every hotkey
    /// that fired, in order.
    pub open spec fn run(self, transitions: Seq<(u32, bool)>) -> (KeyStateView, Seq<Hotkey>)
        decreases transitions.len(),
    {
        if transitions.len() == 0 {
            (self, Seq::empty())
        } else {
            let (next, fired) = self.step(transitions[0].0, transitions[0].1);
            let (last, later) = next.run(transitions.drop_first());
            (last, fired + later)
        }
    }
}

/// A kind is among those that fire within the first `n` of table order
/// exactly when it lies there and its combination is active.
pub proof fn lemma_fired_upto_contains(
    held: Seq<bool>,
    combos: Seq<Seq<u32>>,
    code: u32,
    n: nat,
    k: Hotkey,
)
    requires
        n <= HOTKEY_COUNT,
    ensures
        fired_upto(held, combos, code, n).contains(k) <==> (k.spec_index() < n && combo_active(
            held,
            combos[k.spec_index() as int],
            code,
        )),
    decreases n,
{
    if n > 0 {
        lemma_fired_upto_contains(held, combos, code, (n - 1) as nat, k);
        let before = fired_upto(held, combos, code, (n - 1) as nat);
        let last = Hotkey::spec_at((n - 1) as nat);
        Hotkey::lemma_index_at((n - 1) as nat);
        k.lemma_at_index();
        if combo_active(held, combos[n - 1], code) {
            assert(before.push(last).contains(k) <==> (before.contains(k) || k == last)) by {
                if k == last {
                    assert(before.push(last)[before.len() as int] == k);
                }
                if before.contains(k) {
                    let i = choose|i: int| 0 <= i < before.len() && before[i] == k;
                    assert(before.push(last)[i] == k);
                }
                if before.push(last).contains(k) && k != last {
                    let i = choose|i: int| 0 <= i < before.push(last).len() && before.push(last)[i] == k;
                    assert(before[i] == k);
                }
            }
        }
    }
}

/// Pressing a key and releasing it right away leaves it released, and every
/// other key as it was.
pub proof fn lemma_press_then_release(m: KeyStateView, c: u32)
    requires
        c < m.held.len(),
    ensures
        !m.step(c, true).0.step(c, false).0.held[c as int],
        m.step(c, true).0.step(c, false).0.held == m.held.update(c as int, false),
{
    assert(m.step(c, true).0.step(c, false).0.held =~= m.held.update(c as int, false));
}

/// A two-key combination `{a, b}` of an ordinary kind fires on a press of `a`
/// exactly when `b` is already held, and on a press of `b` exactly when `a`
/// is, while hotkeys are enabled and neither key belongs to the enable/disable
/// combination.
pub proof fn lemma_pair_combo(m: KeyStateView, k: Hotkey, a: u32, b: u32)
    requires
        m.wf(),
        k != Hotkey::ToggleGlobalHotkeys,
        m.combos[k.spec_index() as int] == seq![a, b],
        a != b,
        a < m.held.len(),
        b < m.held.len(),
        m.enabled,
        !m.combos[TOGGLE_INDEX as int].contains(a),
        !m.combos[TOGGLE_INDEX as int].contains(b),
    ensures
        m.step(a, true).1.contains(k) <==> m.held[b as int],
        m.step(b, true).1.contains(k) <==> m.held[a as int],
{
    let combo = seq![a, b];
    assert(combo[0] == a && combo[1] == b);
    assert(combo.contains(a) && combo.contains(b));
    let held_a = m.held.update(a as int, true);
    let held_b = m.held.update(b as int, true);
    lemma_fired_upto_contains(held_a, m.combos, a, TOGGLE_INDEX as nat, k);
    lemma_fired_upto_contains(held_b, m.combos, b, TOGGLE_INDEX as nat, k);
    assert(combo_active(held_a, combo, a) <==> m.held[b as int]) by {
        if m.held[b as int] {
            assert forall|i: int| 0 <= i < combo.len() implies #[trigger] held_a[combo[i] as int] by {
                if i == 1 {
                    assert(held_a[b as int] == m.held[b as int]);
                }
            }
        }
        if combo_active(held_a, combo, a) {
            assert(held_a[combo[1] as int]);
        }
    }
    assert(combo_active(held_b, combo, b) <==> m.held[a as int]) by {
        if m.held[a as int] {
            assert forall|i: int| 0 <= i < combo.len() implies #[trigger] held_b[combo[i] as int] by {
                if i == 0 {
                    assert(held_b[a as int] == m.held[a as int]);
                }
            }
        }
        if combo_active(held_b, combo, b) {
            assert(held_b[combo[0] as int]);
        }
    }
    assert(!combo_active(held_a, m.combos[TOGGLE_INDEX as int], a));
    assert(!combo_active(held_b, m.combos[TOGGLE_INDEX as int], b));
    assert(m.step(a, true).1 =~= fired_upto(held_a, m.combos, a, TOGGLE_INDEX as nat));
    assert(m.step(b, true).1 =~= fired_upto(held_b, m.combos, b, TOGGLE_INDEX as nat));
    k.lemma_at_index();
}

/// A transition of a key that is not in a kind's combination never fires
/// that kind, whatever else is held.
pub proof fn lemma_unrelated_key_never_fires(m: KeyStateView, k: Hotkey, x: u32, pressed: bool)
    requires
        m.wf(),
        !m.combos[k.spec_index() as int].contains(x),
    ensures
        !m.step(x, pressed).1.contains(k),
{
    let held = m.held.update(x as int, pressed);
    let toggled = combo_active(held, m.combos[TOGGLE_INDEX as int], x);
    let own = if toggled && m.report_toggle {
        seq![Hotkey::ToggleGlobalHotkeys]
    } else {
        Seq::empty()
    };
    let others = if m.enabled != toggled {
        fired_upto(held, m.combos, x, TOGGLE_INDEX as nat)
    } else {
        Seq::empty()
    };
    lemma_fired_upto_contains(held, m.combos, x, TOGGLE_INDEX as nat, k);
    k.lemma_at_index();
    if toggled && m.report_toggle {
        assert(k != Hotkey::ToggleGlobalHotkeys);
    }
    if (own + others).contains(k) {
        let i = choose|i: int| 0 <= i < (own + others).len() && (own + others)[i] == k;
        if i < own.len() {
            assert(own[i] == k);
        } else {
            assert(others[i - own.len()] == k);
        }
    }
}

/// The enable/disable combination fires while hotkeys are disabled and
/// enables them; on that same transition another kind fires only where the
/// transition's key is in its combination and the rest of it is held.
pub proof fn lemma_toggle_while_disabled(m: KeyStateView, c: u32, pressed: bool, k: Hotkey)
    requires
        m.wf(),
        c < m.held.len(),
        !m.enabled,
        combo_active(m.held.update(c as int, pressed), m.combos[TOGGLE_INDEX as int], c),
        k != Hotkey::ToggleGlobalHotkeys,
    ensures
        m.step(c, pressed).0.enabled,
        m.step(c, pressed).1.contains(k) <==> combo_active(
            m.held.update(c as int, pressed),
            m.combos[k.spec_index() as int],
            c,
        ),
{
    let held = m.held.update(c as int, pressed);
    let own = if m.report_toggle {
        seq![Hotkey::ToggleGlobalHotkeys]
    } else {
        Seq::empty()
    };
    let others = fired_upto(held, m.combos, c, TOGGLE_INDEX as nat);
    lemma_fired_upto_contains(held, m.combos, c, TOGGLE_INDEX as nat, k);
    k.lemma_at_index();
    assert(m.step(c, pressed).1 == own + others);
    if (own + others).contains(k) {
        let i = choose|i: int| 0 <= i < (own + others).len() && (own + others)[i] == k;
        if i < own.len() {
            assert(own[i] == k);
        } else {
            assert(others[i - own.len()] == k);
        }
    }
    if others.contains(k) {
        let i = choose|i: int| 0 <= i < others.len() && others[i] == k;
        assert((own + others)[own.len() + i] == k);
    }
}

impl KeyState {
    /// The size of the held table: transitions must have codes below it.
    pub fn num_keys(&self) -> (r: usize)
        ensures
            r == self@.held.len(),
    {
        self.state.len()
    }

    /// Whether `code` is held; `false` for a code outside the table.
    pub fn is_held(&self, code: u32) -> (r: bool)
        ensures
            r == (code < self@.held.len() && self@.held[code as int]),
    {
        (code as usize) < self.state.len() && self.state[code as usize]
    }

    /// Whether hotkeys other than the enable/disable one may fire.
    pub fn is_enabled(&self) -> (r: bool)
        ensures
            r == self@.enabled,
    {
        self.hotkeys_enabled
    }

    /// The combination of a kind; empty where none is set.
    pub fn combo(&self, hotkey: Hotkey) -> (r: &Vec<u32>)
        ensures
            r@ == self@.combos[hotkey.spec_index() as int],
    {
        proof {
            use_type_invariant(self);
        }
        &self.hotkeys[hotkey.index()]
    }

    /// Sets whether the enable/disable combination reports its own firing
    /// (first among the hotkeys of the transition, whichever way it flips).
    pub fn set_report_toggle(&mut self, report: bool)
        ensures
            final(self)@ == (KeyStateView { report_toggle: report, ..old(self)@ }),
    {
        proof {
            use_type_invariant(&*self);
        }
        self.report_toggle = report;
    }
}

/// One transition keeps the combinations and the size of the held table,
/// and so the engine's well-formedness.
pub proof fn lemma_step_keeps_shape(m: KeyStateView, code: u32, pressed: bool)
    requires
        m.wf(),
        code < m.held.len(),
    ensures
        m.step(code, pressed).0.wf(),
        m.step(code, pressed).0.combos == m.combos,
        m.step(code, pressed).0.held.len() == m.held.len(),
        m.step(code, pressed).0.report_toggle == m.report_toggle,
{
}

/// While a kind's combination is held, any run of transitions of keys outside
/// it never fires that kind again, and leaves its keys as they were.
pub proof fn lemma_unrelated_run_never_fires(m: KeyStateView, k: Hotkey, ts: Seq<(u32, bool)>)
    requires
        m.wf(),
        forall|i: int| 0 <= i < ts.len() ==> (#[trigger] ts[i]).0 < m.held.len(),
        forall|i: int|
            0 <= i < ts.len() ==> !m.combos[k.spec_index() as int].contains((#[trigger] ts[i]).0),
    ensures
        !m.run(ts).1.contains(k),
        m.run(ts).0.wf(),
        m.run(ts).0.combos == m.combos,
        m.run(ts).0.held.len() == m.held.len(),
        forall|c: u32|
            #[trigger] m.combos[k.spec_index() as int].contains(c) ==> m.run(ts).0.held[c as int]
                == m.held[c as int],
    decreases ts.len(),
{
    if ts.len() > 0 {
        let (next, fired) = m.step(ts[0].0, ts[0].1);
        lemma_step_keeps_shape(m, ts[0].0, ts[0].1);
        lemma_unrelated_key_never_fires(m, k, ts[0].0, ts[0].1);
        let rest = ts.drop_first();
        assert forall|i: int| 0 <= i < rest.len() implies (#[trigger] rest[i]).0 < next.held.len()
            && !next.combos[k.spec_index() as int].contains(rest[i].0) by {
            assert(rest[i] == ts[i + 1]);
        }
        lemma_unrelated_run_never_fires(next, k, rest);
        let later = next.run(rest).1;
        assert forall|c: u32| #[trigger] m.combos[k.spec_index() as int].contains(c) implies next.held[c as int]
            == m.held[c as int] by {
            if c == ts[0].0 {
                assert(m.combos[k.spec_index() as int].contains(ts[0].0));
            }
        }
        if (fired + later).contains(k) {
            let i = choose|i: int| 0 <= i < (fired + later).len() && (fired + later)[i] == k;
            if i < fired.len() {
                assert(fired[i] == k);
            } else {
                assert(later[i - fired.len()] == k);
            }
        }
    }
}

} // verus!
