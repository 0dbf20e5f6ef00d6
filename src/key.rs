//! Key names and key codes: the hotkey kinds, the code table of the input
//! layer, and the resolver from configured key names to codes.

use vstd::prelude::*;

use input_event_codes_hashmap::KEY;

use crate::text::{same_text, split_at_char, split_on, to_upper, trim, trim_text, upper_of};

verus! {

/// The actions that a hotkey can stand for.
#[derive(Debug, Clone, Copy, PartialEq, Eq, Structural)]
pub enum Hotkey {
    SplitKey,
    ResetKey,
    SkipKey,
    UndoKey,
    PauseKey,
    ToggleGlobalHotkeys,
}

/// The number of hotkey kinds.
pub const HOTKEY_COUNT: usize = 6;

impl Hotkey {
    /// The position of the kind in table order.
    pub open spec fn spec_index(self) -> nat {
        match self {
            Hotkey::SplitKey => 0,
            Hotkey::ResetKey => 1,
            Hotkey::SkipKey => 2,
            Hotkey::UndoKey => 3,
            Hotkey::PauseKey => 4,
            Hotkey::ToggleGlobalHotkeys => 5,
        }
    }

    /// The kind at a position of table order.
    pub open spec fn spec_at(i: nat) -> Hotkey {
        if i == 0 {
            Hotkey::SplitKey
        } else if i == 1 {
            Hotkey::ResetKey
        } else if i == 2 {
            Hotkey::SkipKey
        } else if i == 3 {
            Hotkey::UndoKey
        } else if i == 4 {
            Hotkey::PauseKey
        } else {
            Hotkey::ToggleGlobalHotkeys
        }
    }

    /// The kind at a position sits at that position.
    pub proof fn lemma_index_at(i: nat)
        requires
            i < HOTKEY_COUNT,
        ensures
            Hotkey::spec_at(i).spec_index() == i,
    {
    }

    /// Each kind is the kind at its own position.
    pub proof fn lemma_at_index(self)
        ensures
            Hotkey::spec_at(self.spec_index()) == self,
            self.spec_index() < HOTKEY_COUNT,
    {
    }

    /// The position of the kind in table order.
    pub fn index(&self) -> (r: usize)
        ensures
            r == self.spec_index(),
    {
        match self {
            Hotkey::SplitKey => 0,
            Hotkey::ResetKey => 1,
            Hotkey::SkipKey => 2,
            Hotkey::UndoKey => 3,
            Hotkey::PauseKey => 4,
            Hotkey::ToggleGlobalHotkeys => 5,
        }
    }

    /// The kind at position `i` of table order.
    pub fn at(i: usize) -> (r: Hotkey)
        requires
            i < HOTKEY_COUNT,
        ensures
            r == Hotkey::spec_at(i as nat),
    {
        if i == 0 {
            Hotkey::SplitKey
        } else if i == 1 {
            Hotkey::ResetKey
        } else if i == 2 {
            Hotkey::SkipKey
        } else if i == 3 {
            Hotkey::UndoKey
        } else if i == 4 {
            Hotkey::PauseKey
        } else {
            Hotkey::ToggleGlobalHotkeys
        }
    }
}

/// The code that the input layer's key table gives a canonical key name.
pub uninterp spec fn key_code_of(name: Seq<char>) -> Option<u32>;

/// Relies on `input_event_codes_hashmap::KEY`: the code of a canonical key
/// name, if the table has the name.
#[verifier::external_body]
pub(crate) fn key_code(name: &str) -> (r: Option<u32>)
    ensures
        r == key_code_of(name@),
{
    KEY.get(name).copied()
}

/// Whether a code is one that the key table gives some name.
pub open spec fn is_key_code(c: u32) -> bool {
    exists|n: Seq<char>| key_code_of(n) == Some(c)
}

/// Relies on `input_event_codes_hashmap::KEY`: the codes of the table, one
/// for each name, in the map's order. Every code of the table is among them,
/// each fits the 16-bit code field of an input event, and the table is not
/// empty.
#[verifier::external_body]
fn table_codes() -> (r: Vec<u32>)
    ensures
        r@.len() > 0,
        forall|i: int| 0 <= i < r@.len() ==> is_key_code(#[trigger] r@[i]),
        forall|n: Seq<char>| #[trigger] key_code_of(n) matches Some(c) ==> r@.contains(c),
        forall|i: int| 0 <= i < r@.len() ==> #[trigger] r@[i] < 0x1_0000,
{
    KEY.values().copied().collect()
}

/// Whether `n` is one more than the largest code of the key table: every code
/// lies below it and some name has code `n - 1`.
pub open spec fn is_table_size(n: int) -> bool {
    &&& n >= 1
    &&& forall|name: Seq<char>| #[trigger] key_code_of(name) matches Some(c) ==> c < n
    &&& exists|name: Seq<char>| #[trigger] key_code_of(name) == Some((n - 1) as u32)
}

/// The size of a held table with one entry for each possible key code: one
/// more than the largest code of the key table.
pub fn key_table_size() -> (r: usize)
    ensures
        is_table_size(r as int),
{
    let codes = table_codes();
    let mut largest: u32 = codes[0];
    let mut at: usize = 0;
    let mut i: usize = 1;
    while i < codes.len()
        invariant
            1 <= i <= codes@.len(),
            at < i,
            codes@[at as int] == largest,
            forall|j: int| 0 <= j < i ==> #[trigger] codes@[j] <= largest,
        decreases codes@.len() - i,
    {
        if codes[i] > largest {
            largest = codes[i];
            at = i;
        }
        i += 1;
    }
    assert(largest < 0x1_0000);
    let r = largest as usize + 1;
    assert(forall|name: Seq<char>| #[trigger] key_code_of(name) matches Some(c) ==> c < r) by {
        assert forall|name: Seq<char>| #[trigger] key_code_of(name) is Some implies key_code_of(name)->0 < r by {
            let c = key_code_of(name)->0;
            assert(codes@.contains(c));
            let j = choose|j: int| 0 <= j < codes@.len() && codes@[j] == c;
            assert(codes@[j] <= largest);
        }
    }
    assert(is_key_code(codes@[at as int]));
    r
}

/// Configuration names of keys and the canonical names they stand for.
pub open spec fn alias_table() -> Seq<(&'static str, &'static str)> {
    seq![
        ("Control", "LEFTCTRL"),
        ("ControlKey", "LEFTCTRL"),
        ("LControlKey", "LEFTCTRL"),
        ("Alt", "LEFTALT"),
        ("LMenu", "LEFTALT"),
        ("Back", "BACKSPACE"),
        ("Capital", "CAPSLOCK"),
        ("Escape", "ESC"),
        ("LShiftKey", "LEFTSHIFT"),
        ("Shift", "LEFTSHIFT"),
        ("ShiftKey", "LEFTSHIFT"),
        ("LWin", "LEFTMETA"),
        ("Next", "PAGEDOWN"),
        ("Prior", "PAGEUP"),
        ("D0", "0"),
        ("D1", "1"),
        ("D2", "2"),
        ("D3", "3"),
        ("D4", "4"),
        ("D5", "5"),
        ("D6", "6"),
        ("D7", "7"),
        ("D8", "8"),
        ("D9", "9"),
        ("NumPad0", "KP0"),
        ("NumPad1", "KP1"),
        ("NumPad2", "KP2"),
        ("NumPad3", "KP3"),
        ("NumPad4", "KP4"),
        ("NumPad5", "KP5"),
        ("NumPad6", "KP6"),
        ("NumPad7", "KP7"),
        ("NumPad8", "KP8"),
        ("NumPad9", "KP9"),
        ("OemBackslash", "BACKSLASH"),
        ("OemClear", "CLEAR"),
        ("OemCloseBrackets", "RIGHTBRACE"),
        ("Oemcomma", "COMMA"),
        ("OemMinus", "MINUS"),
        ("OemOpenBrackets", "LEFTBRACE"),
        ("OemPeriod", "DOT"),
        ("OemPipe", "BACKSLASH"),
        ("Oemplus", "EQUAL"),
        ("OemQuestion", "SLASH"),
        ("OemQuotes", "APOSTROPHE"),
        ("OemSemicolon", "SEMICOLON"),
        ("Oemtilde", "GRAVE"),
        ("RControlKey", "RIGHTCTRL"),
        ("Return", "ENTER"),
        ("RShiftKey", "RIGHTSHIFT"),
        ("RWin", "RIGHTMETA"),
        ("Scroll", "SCROLLLOCK"),
    ]
}

/// Whether no name occurs twice in a table.
pub open spec fn alias_names_distinct(table: Seq<(&'static str, &'static str)>) -> bool {
    forall|i: int, j: int| 0 <= i < j < table.len() ==> #[trigger] table[i].0@ != #[trigger] table[j].0@
}

/// The position of a name in the alias table, by comparing it with each
/// entry's name in turn.
spec fn alias_position(name: Seq<char>) -> int {
    if name == "Control"@ {
        0
    } else if name == "ControlKey"@ {
        1
    } else if name == "LControlKey"@ {
        2
    } else if name == "Alt"@ {
        3
    } else if name == "LMenu"@ {
        4
    } else if name == "Back"@ {
        5
    } else if name == "Capital"@ {
        6
    } else if name == "Escape"@ {
        7
    } else if name == "LShiftKey"@ {
        8
    } else if name == "Shift"@ {
        9
    } else if name == "ShiftKey"@ {
        10
    } else if name == "LWin"@ {
        11
    } else if name == "Next"@ {
        12
    } else if name == "Prior"@ {
        13
    } else if name == "D0"@ {
        14
    } else if name == "D1"@ {
        15
    } else if name == "D2"@ {
        16
    } else if name == "D3"@ {
        17
    } else if name == "D4"@ {
        18
    } else if name == "D5"@ {
        19
    } else if name == "D6"@ {
        20
    } else if name == "D7"@ {
        21
    } else if name == "D8"@ {
        22
    } else if name == "D9"@ {
        23
    } else if name == "NumPad0"@ {
        24
    } else if name == "NumPad1"@ {
        25
    } else if name == "NumPad2"@ {
        26
    } else if name == "NumPad3"@ {
        27
    } else if name == "NumPad4"@ {
        28
    } else if name == "NumPad5"@ {
        29
    } else if name == "NumPad6"@ {
        30
    } else if name == "NumPad7"@ {
        31
    } else if name == "NumPad8"@ {
        32
    } else if name == "NumPad9"@ {
        33
    } else if name == "OemBackslash"@ {
        34
    } else if name == "OemClear"@ {
        35
    } else if name == "OemCloseBrackets"@ {
        36
    } else if name == "Oemcomma"@ {
        37
    } else if name == "OemMinus"@ {
        38
    } else if name == "OemOpenBrackets"@ {
        39
    } else if name == "OemPeriod"@ {
        40
    } else if name == "OemPipe"@ {
        41
    } else if name == "Oemplus"@ {
        42
    } else if name == "OemQuestion"@ {
        43
    } else if name == "OemQuotes"@ {
        44
    } else if name == "OemSemicolon"@ {
        45
    } else if name == "Oemtilde"@ {
        46
    } else if name == "RControlKey"@ {
        47
    } else if name == "Return"@ {
        48
    } else if name == "RShiftKey"@ {
        49
    } else if name == "RWin"@ {
        50
    } else if name == "Scroll"@ {
        51
    } else {
        52
    }
}

/// The names of the alias table are distinct, so the first entry for a name
/// is its only one.
#[verifier::rlimit(100)]
pub proof fn lemma_alias_names_distinct()
    ensures
        alias_names_distinct(alias_table()),
{
    let t = alias_table();
    reveal_strlit("Control");
    assert("Control"@.len() == 7);
    assert("Control"@[0] == 'C');
    assert("Control"@[1] == 'o');
    assert("Control"@[2] == 'n');
    assert("Control"@[3] == 't');
    assert("Control"@[4] == 'r');
    assert("Control"@[5] == 'o');
    assert("Control"@[6] == 'l');
    reveal_strlit("ControlKey");
    assert("ControlKey"@.len() == 10);
    assert("ControlKey"@[0] == 'C');
    assert("ControlKey"@[1] == 'o');
    assert("ControlKey"@[2] == 'n');
    assert("ControlKey"@[3] == 't');
    assert("ControlKey"@[4] == 'r');
    assert("ControlKey"@[5] == 'o');
    assert("ControlKey"@[6] == 'l');
    assert("ControlKey"@[7] == 'K');
    assert("ControlKey"@[8] == 'e');
    assert("ControlKey"@[9] == 'y');
    reveal_strlit("LControlKey");
    assert("LControlKey"@.len() == 11);
    assert("LControlKey"@[0] == 'L');
    assert("LControlKey"@[1] == 'C');
    assert("LControlKey"@[2] == 'o');
    assert("LControlKey"@[3] == 'n');
    assert("LControlKey"@[4] == 't');
    assert("LControlKey"@[5] == 'r');
    assert("LControlKey"@[6] == 'o');
    assert("LControlKey"@[7] == 'l');
    assert("LControlKey"@[8] == 'K');
    assert("LControlKey"@[9] == 'e');
    assert("LControlKey"@[10] == 'y');
    reveal_strlit("Alt");
    assert("Alt"@.len() == 3);
    assert("Alt"@[0] == 'A');
    assert("Alt"@[1] == 'l');
    assert("Alt"@[2] == 't');
    reveal_strlit("LMenu");
    assert("LMenu"@.len() == 5);
    assert("LMenu"@[0] == 'L');
    assert("LMenu"@[1] == 'M');
    assert("LMenu"@[2] == 'e');
    assert("LMenu"@[3] == 'n');
    assert("LMenu"@[4] == 'u');
    reveal_strlit("Back");
    assert("Back"@.len() == 4);
    assert("Back"@[0] == 'B');
    assert("Back"@[1] == 'a');
    assert("Back"@[2] == 'c');
    assert("Back"@[3] == 'k');
    reveal_strlit("Capital");
    assert("Capital"@.len() == 7);
    assert("Capital"@[0] == 'C');
    assert("Capital"@[1] == 'a');
    assert("Capital"@[2] == 'p');
    assert("Capital"@[3] == 'i');
    assert("Capital"@[4] == 't');
    assert("Capital"@[5] == 'a');
    assert("Capital"@[6] == 'l');
    reveal_strlit("Escape");
    assert("Escape"@.len() == 6);
    assert("Escape"@[0] == 'E');
    assert("Escape"@[1] == 's');
    assert("Escape"@[2] == 'c');
    assert("Escape"@[3] == 'a');
    assert("Escape"@[4] == 'p');
    assert("Escape"@[5] == 'e');
    reveal_strlit("LShiftKey");
    assert("LShiftKey"@.len() == 9);
    assert("LShiftKey"@[0] == 'L');
    assert("LShiftKey"@[1] == 'S');
    assert("LShiftKey"@[2] == 'h');
    assert("LShiftKey"@[3] == 'i');
    assert("LShiftKey"@[4] == 'f');
    assert("LShiftKey"@[5] == 't');
    assert("LShiftKey"@[6] == 'K');
    assert("LShiftKey"@[7] == 'e');
    assert("LShiftKey"@[8] == 'y');
    reveal_strlit("Shift");
    assert("Shift"@.len() == 5);
    assert("Shift"@[0] == 'S');
    assert("Shift"@[1] == 'h');
    assert("Shift"@[2] == 'i');
    assert("Shift"@[3] == 'f');
    assert("Shift"@[4] == 't');
    reveal_strlit("ShiftKey");
    assert("ShiftKey"@.len() == 8);
    assert("ShiftKey"@[0] == 'S');
    assert("ShiftKey"@[1] == 'h');
    assert("ShiftKey"@[2] == 'i');
    assert("ShiftKey"@[3] == 'f');
    assert("ShiftKey"@[4] == 't');
    assert("ShiftKey"@[5] == 'K');
    assert("ShiftKey"@[6] == 'e');
    assert("ShiftKey"@[7] == 'y');
    reveal_strlit("LWin");
    assert("LWin"@.len() == 4);
    assert("LWin"@[0] == 'L');
    assert("LWin"@[1] == 'W');
    assert("LWin"@[2] == 'i');
    assert("LWin"@[3] == 'n');
    reveal_strlit("Next");
    assert("Next"@.len() == 4);
    assert("Next"@[0] == 'N');
    assert("Next"@[1] == 'e');
    assert("Next"@[2] == 'x');
    assert("Next"@[3] == 't');
    reveal_strlit("Prior");
    assert("Prior"@.len() == 5);
    assert("Prior"@[0] == 'P');
    assert("Prior"@[1] == 'r');
    assert("Prior"@[2] == 'i');
    assert("Prior"@[3] == 'o');
    assert("Prior"@[4] == 'r');
    reveal_strlit("D0");
    assert("D0"@.len() == 2);
    assert("D0"@[0] == 'D');
    assert("D0"@[1] == '0');
    reveal_strlit("D1");
    assert("D1"@.len() == 2);
    assert("D1"@[0] == 'D');
    assert("D1"@[1] == '1');
    reveal_strlit("D2");
    assert("D2"@.len() == 2);
    assert("D2"@[0] == 'D');
    assert("D2"@[1] == '2');
    reveal_strlit("D3");
    assert("D3"@.len() == 2);
    assert("D3"@[0] == 'D');
    assert("D3"@[1] == '3');
    reveal_strlit("D4");
    assert("D4"@.len() == 2);
    assert("D4"@[0] == 'D');
    assert("D4"@[1] == '4');
    reveal_strlit("D5");
    assert("D5"@.len() == 2);
    assert("D5"@[0] == 'D');
    assert("D5"@[1] == '5');
    reveal_strlit("D6");
    assert("D6"@.len() == 2);
    assert("D6"@[0] == 'D');
    assert("D6"@[1] == '6');
    reveal_strlit("D7");
    assert("D7"@.len() == 2);
    assert("D7"@[0] == 'D');
    assert("D7"@[1] == '7');
    reveal_strlit("D8");
    assert("D8"@.len() == 2);
    assert("D8"@[0] == 'D');
    assert("D8"@[1] == '8');
    reveal_strlit("D9");
    assert("D9"@.len() == 2);
    assert("D9"@[0] == 'D');
    assert("D9"@[1] == '9');
    reveal_strlit("NumPad0");
    assert("NumPad0"@.len() == 7);
    assert("NumPad0"@[0] == 'N');
    assert("NumPad0"@[1] == 'u');
    assert("NumPad0"@[2] == 'm');
    assert("NumPad0"@[3] == 'P');
    assert("NumPad0"@[4] == 'a');
    assert("NumPad0"@[5] == 'd');
    assert("NumPad0"@[6] == '0');
    reveal_strlit("NumPad1");
    assert("NumPad1"@.len() == 7);
    assert("NumPad1"@[0] == 'N');
    assert("NumPad1"@[1] == 'u');
    assert("NumPad1"@[2] == 'm');
    assert("NumPad1"@[3] == 'P');
    assert("NumPad1"@[4] == 'a');
    assert("NumPad1"@[5] == 'd');
    assert("NumPad1"@[6] == '1');
    reveal_strlit("NumPad2");
    assert("NumPad2"@.len() == 7);
    assert("NumPad2"@[0] == 'N');
    assert("NumPad2"@[1] == 'u');
    assert("NumPad2"@[2] == 'm');
    assert("NumPad2"@[3] == 'P');
    assert("NumPad2"@[4] == 'a');
    assert("NumPad2"@[5] == 'd');
    assert("NumPad2"@[6] == '2');
    reveal_strlit("NumPad3");
    assert("NumPad3"@.len() == 7);
    assert("NumPad3"@[0] == 'N');
    assert("NumPad3"@[1] == 'u');
    assert("NumPad3"@[2] == 'm');
    assert("NumPad3"@[3] == 'P');
    assert("NumPad3"@[4] == 'a');
    assert("NumPad3"@[5] == 'd');
    assert("NumPad3"@[6] == '3');
    reveal_strlit("NumPad4");
    assert("NumPad4"@.len() == 7);
    assert("NumPad4"@[0] == 'N');
    assert("NumPad4"@[1] == 'u');
    assert("NumPad4"@[2] == 'm');
    assert("NumPad4"@[3] == 'P');
    assert("NumPad4"@[4] == 'a');
    assert("NumPad4"@[5] == 'd');
    assert("NumPad4"@[6] == '4');
    reveal_strlit("NumPad5");
    assert("NumPad5"@.len() == 7);
    assert("NumPad5"@[0] == 'N');
    assert("NumPad5"@[1] == 'u');
    assert("NumPad5"@[2] == 'm');
    assert("NumPad5"@[3] == 'P');
    assert("NumPad5"@[4] == 'a');
    assert("NumPad5"@[5] == 'd');
    assert("NumPad5"@[6] == '5');
    reveal_strlit("NumPad6");
    assert("NumPad6"@.len() == 7);
    assert("NumPad6"@[0] == 'N');
    assert("NumPad6"@[1] == 'u');
    assert("NumPad6"@[2] == 'm');
    assert("NumPad6"@[3] == 'P');
    assert("NumPad6"@[4] == 'a');
    assert("NumPad6"@[5] == 'd');
    assert("NumPad6"@[6] == '6');
    reveal_strlit("NumPad7");
    assert("NumPad7"@.len() == 7);
    assert("NumPad7"@[0] == 'N');
    assert("NumPad7"@[1] == 'u');
    assert("NumPad7"@[2] == 'm');
    assert("NumPad7"@[3] == 'P');
    assert("NumPad7"@[4] == 'a');
    assert("NumPad7"@[5] == 'd');
    assert("NumPad7"@[6] == '7');
    reveal_strlit("NumPad8");
    assert("NumPad8"@.len() == 7);
    assert("NumPad8"@[0] == 'N');
    assert("NumPad8"@[1] == 'u');
    assert("NumPad8"@[2] == 'm');
    assert("NumPad8"@[3] == 'P');
    assert("NumPad8"@[4] == 'a');
    assert("NumPad8"@[5] == 'd');
    assert("NumPad8"@[6] == '8');
    reveal_strlit("NumPad9");
    assert("NumPad9"@.len() == 7);
    assert("NumPad9"@[0] == 'N');
    assert("NumPad9"@[1] == 'u');
    assert("NumPad9"@[2] == 'm');
    assert("NumPad9"@[3] == 'P');
    assert("NumPad9"@[4] == 'a');
    assert("NumPad9"@[5] == 'd');
    assert("NumPad9"@[6] == '9');
    reveal_strlit("OemBackslash");
    assert("OemBackslash"@.len() == 12);
    assert("OemBackslash"@[0] == 'O');
    assert("OemBackslash"@[1] == 'e');
    assert("OemBackslash"@[2] == 'm');
    assert("OemBackslash"@[3] == 'B');
    assert("OemBackslash"@[4] == 'a');
    assert("OemBackslash"@[5] == 'c');
    assert("OemBackslash"@[6] == 'k');
    assert("OemBackslash"@[7] == 's');
    assert("OemBackslash"@[8] == 'l');
    assert("OemBackslash"@[9] == 'a');
    assert("OemBackslash"@[10] == 's');
    assert("OemBackslash"@[11] == 'h');
    reveal_strlit("OemClear");
    assert("OemClear"@.len() == 8);
    assert("OemClear"@[0] == 'O');
    assert("OemClear"@[1] == 'e');
    assert("OemClear"@[2] == 'm');
    assert("OemClear"@[3] == 'C');
    assert("OemClear"@[4] == 'l');
    assert("OemClear"@[5] == 'e');
    assert("OemClear"@[6] == 'a');
    assert("OemClear"@[7] == 'r');
    reveal_strlit("OemCloseBrackets");
    assert("OemCloseBrackets"@.len() == 16);
    assert("OemCloseBrackets"@[0] == 'O');
    assert("OemCloseBrackets"@[1] == 'e');
    assert("OemCloseBrackets"@[2] == 'm');
    assert("OemCloseBrackets"@[3] == 'C');
    assert("OemCloseBrackets"@[4] == 'l');
    assert("OemCloseBrackets"@[5] == 'o');
    assert("OemCloseBrackets"@[6] == 's');
    assert("OemCloseBrackets"@[7] == 'e');
    assert("OemCloseBrackets"@[8] == 'B');
    assert("OemCloseBrackets"@[9] == 'r');
    assert("OemCloseBrackets"@[10] == 'a');
    assert("OemCloseBrackets"@[11] == 'c');
    assert("OemCloseBrackets"@[12] == 'k');
    assert("OemCloseBrackets"@[13] == 'e');
    assert("OemCloseBrackets"@[14] == 't');
    assert("OemCloseBrackets"@[15] == 's');
    reveal_strlit("Oemcomma");
    assert("Oemcomma"@.len() == 8);
    assert("Oemcomma"@[0] == 'O');
    assert("Oemcomma"@[1] == 'e');
    assert("Oemcomma"@[2] == 'm');
    assert("Oemcomma"@[3] == 'c');
    assert("Oemcomma"@[4] == 'o');
    assert("Oemcomma"@[5] == 'm');
    assert("Oemcomma"@[6] == 'm');
    assert("Oemcomma"@[7] == 'a');
    reveal_strlit("OemMinus");
    assert("OemMinus"@.len() == 8);
    assert("OemMinus"@[0] == 'O');
    assert("OemMinus"@[1] == 'e');
    assert("OemMinus"@[2] == 'm');
    assert("OemMinus"@[3] == 'M');
    assert("OemMinus"@[4] == 'i');
    assert("OemMinus"@[5] == 'n');
    assert("OemMinus"@[6] == 'u');
    assert("OemMinus"@[7] == 's');
    reveal_strlit("OemOpenBrackets");
    assert("OemOpenBrackets"@.len() == 15);
    assert("OemOpenBrackets"@[0] == 'O');
    assert("OemOpenBrackets"@[1] == 'e');
    assert("OemOpenBrackets"@[2] == 'm');
    assert("OemOpenBrackets"@[3] == 'O');
    assert("OemOpenBrackets"@[4] == 'p');
    assert("OemOpenBrackets"@[5] == 'e');
    assert("OemOpenBrackets"@[6] == 'n');
    assert("OemOpenBrackets"@[7] == 'B');
    assert("OemOpenBrackets"@[8] == 'r');
    assert("OemOpenBrackets"@[9] == 'a');
    assert("OemOpenBrackets"@[10] == 'c');
    assert("OemOpenBrackets"@[11] == 'k');
    assert("OemOpenBrackets"@[12] == 'e');
    assert("OemOpenBrackets"@[13] == 't');
    assert("OemOpenBrackets"@[14] == 's');
    reveal_strlit("OemPeriod");
    assert("OemPeriod"@.len() == 9);
    assert("OemPeriod"@[0] == 'O');
    assert("OemPeriod"@[1] == 'e');
    assert("OemPeriod"@[2] == 'm');
    assert("OemPeriod"@[3] == 'P');
    assert("OemPeriod"@[4] == 'e');
    assert("OemPeriod"@[5] == 'r');
    assert("OemPeriod"@[6] == 'i');
    assert("OemPeriod"@[7] == 'o');
    assert("OemPeriod"@[8] == 'd');
    reveal_strlit("OemPipe");
    assert("OemPipe"@.len() == 7);
    assert("OemPipe"@[0] == 'O');
    assert("OemPipe"@[1] == 'e');
    assert("OemPipe"@[2] == 'm');
    assert("OemPipe"@[3] == 'P');
    assert("OemPipe"@[4] == 'i');
    assert("OemPipe"@[5] == 'p');
    assert("OemPipe"@[6] == 'e');
    reveal_strlit("Oemplus");
    assert("Oemplus"@.len() == 7);
    assert("Oemplus"@[0] == 'O');
    assert("Oemplus"@[1] == 'e');
    assert("Oemplus"@[2] == 'm');
    assert("Oemplus"@[3] == 'p');
    assert("Oemplus"@[4] == 'l');
    assert("Oemplus"@[5] == 'u');
    assert("Oemplus"@[6] == 's');
    reveal_strlit("OemQuestion");
    assert("OemQuestion"@.len() == 11);
    assert("OemQuestion"@[0] == 'O');
    assert("OemQuestion"@[1] == 'e');
    assert("OemQuestion"@[2] == 'm');
    assert("OemQuestion"@[3] == 'Q');
    assert("OemQuestion"@[4] == 'u');
    assert("OemQuestion"@[5] == 'e');
    assert("OemQuestion"@[6] == 's');
    assert("OemQuestion"@[7] == 't');
    assert("OemQuestion"@[8] == 'i');
    assert("OemQuestion"@[9] == 'o');
    assert("OemQuestion"@[10] == 'n');
    reveal_strlit("OemQuotes");
    assert("OemQuotes"@.len() == 9);
    assert("OemQuotes"@[0] == 'O');
    assert("OemQuotes"@[1] == 'e');
    assert("OemQuotes"@[2] == 'm');
    assert("OemQuotes"@[3] == 'Q');
    assert("OemQuotes"@[4] == 'u');
    assert("OemQuotes"@[5] == 'o');
    assert("OemQuotes"@[6] == 't');
    assert("OemQuotes"@[7] == 'e');
    assert("OemQuotes"@[8] == 's');
    reveal_strlit("OemSemicolon");
    assert("OemSemicolon"@.len() == 12);
    assert("OemSemicolon"@[0] == 'O');
    assert("OemSemicolon"@[1] == 'e');
    assert("OemSemicolon"@[2] == 'm');
    assert("OemSemicolon"@[3] == 'S');
    assert("OemSemicolon"@[4] == 'e');
    assert("OemSemicolon"@[5] == 'm');
    assert("OemSemicolon"@[6] == 'i');
    assert("OemSemicolon"@[7] == 'c');
    assert("OemSemicolon"@[8] == 'o');
    assert("OemSemicolon"@[9] == 'l');
    assert("OemSemicolon"@[10] == 'o');
    assert("OemSemicolon"@[11] == 'n');
    reveal_strlit("Oemtilde");
    assert("Oemtilde"@.len() == 8);
    assert("Oemtilde"@[0] == 'O');
    assert("Oemtilde"@[1] == 'e');
    assert("Oemtilde"@[2] == 'm');
    assert("Oemtilde"@[3] == 't');
    assert("Oemtilde"@[4] == 'i');
    assert("Oemtilde"@[5] == 'l');
    assert("Oemtilde"@[6] == 'd');
    assert("Oemtilde"@[7] == 'e');
    reveal_strlit("RControlKey");
    assert("RControlKey"@.len() == 11);
    assert("RControlKey"@[0] == 'R');
    assert("RControlKey"@[1] == 'C');
    assert("RControlKey"@[2] == 'o');
    assert("RControlKey"@[3] == 'n');
    assert("RControlKey"@[4] == 't');
    assert("RControlKey"@[5] == 'r');
    assert("RControlKey"@[6] == 'o');
    assert("RControlKey"@[7] == 'l');
    assert("RControlKey"@[8] == 'K');
    assert("RControlKey"@[9] == 'e');
    assert("RControlKey"@[10] == 'y');
    reveal_strlit("Return");
    assert("Return"@.len() == 6);
    assert("Return"@[0] == 'R');
    assert("Return"@[1] == 'e');
    assert("Return"@[2] == 't');
    assert("Return"@[3] == 'u');
    assert("Return"@[4] == 'r');
    assert("Return"@[5] == 'n');
    reveal_strlit("RShiftKey");
    assert("RShiftKey"@.len() == 9);
    assert("RShiftKey"@[0] == 'R');
    assert("RShiftKey"@[1] == 'S');
    assert("RShiftKey"@[2] == 'h');
    assert("RShiftKey"@[3] == 'i');
    assert("RShiftKey"@[4] == 'f');
    assert("RShiftKey"@[5] == 't');
    assert("RShiftKey"@[6] == 'K');
    assert("RShiftKey"@[7] == 'e');
    assert("RShiftKey"@[8] == 'y');
    reveal_strlit("RWin");
    assert("RWin"@.len() == 4);
    assert("RWin"@[0] == 'R');
    assert("RWin"@[1] == 'W');
    assert("RWin"@[2] == 'i');
    assert("RWin"@[3] == 'n');
    reveal_strlit("Scroll");
    assert("Scroll"@.len() == 6);
    assert("Scroll"@[0] == 'S');
    assert("Scroll"@[1] == 'c');
    assert("Scroll"@[2] == 'r');
    assert("Scroll"@[3] == 'o');
    assert("Scroll"@[4] == 'l');
    assert("Scroll"@[5] == 'l');
    assert(t[0].0 == "Control");
    assert(alias_position("Control"@) == 0);
    assert(t[1].0 == "ControlKey");
    assert(alias_position("ControlKey"@) == 1);
    assert(t[2].0 == "LControlKey");
    assert(alias_position("LControlKey"@) == 2);
    assert(t[3].0 == "Alt");
    assert(alias_position("Alt"@) == 3);
    assert(t[4].0 == "LMenu");
    assert(alias_position("LMenu"@) == 4);
    assert(t[5].0 == "Back");
    assert(alias_position("Back"@) == 5);
    assert(t[6].0 == "Capital");
    assert(alias_position("Capital"@) == 6);
    assert(t[7].0 == "Escape");
    assert(alias_position("Escape"@) == 7);
    assert(t[8].0 == "LShiftKey");
    assert(alias_position("LShiftKey"@) == 8);
    assert(t[9].0 == "Shift");
    assert(alias_position("Shift"@) == 9);
    assert(t[10].0 == "ShiftKey");
    assert(alias_position("ShiftKey"@) == 10);
    assert(t[11].0 == "LWin");
    assert(alias_position("LWin"@) == 11);
    assert(t[12].0 == "Next");
    assert(alias_position("Next"@) == 12);
    assert(t[13].0 == "Prior");
    assert(alias_position("Prior"@) == 13);
    assert(t[14].0 == "D0");
    assert(alias_position("D0"@) == 14);
    assert(t[15].0 == "D1");
    assert(alias_position("D1"@) == 15);
    assert(t[16].0 == "D2");
    assert(alias_position("D2"@) == 16);
    assert(t[17].0 == "D3");
    assert(alias_position("D3"@) == 17);
    assert(t[18].0 == "D4");
    assert(alias_position("D4"@) == 18);
    assert(t[19].0 == "D5");
    assert(alias_position("D5"@) == 19);
    assert(t[20].0 == "D6");
    assert(alias_position("D6"@) == 20);
    assert(t[21].0 == "D7");
    assert(alias_position("D7"@) == 21);
    assert(t[22].0 == "D8");
    assert(alias_position("D8"@) == 22);
    assert(t[23].0 == "D9");
    assert(alias_position("D9"@) == 23);
    assert(t[24].0 == "NumPad0");
    assert(alias_position("NumPad0"@) == 24);
    assert(t[25].0 == "NumPad1");
    assert(alias_position("NumPad1"@) == 25);
    assert(t[26].0 == "NumPad2");
    assert(alias_position("NumPad2"@) == 26);
    assert(t[27].0 == "NumPad3");
    assert(alias_position("NumPad3"@) == 27);
    assert(t[28].0 == "NumPad4");
    assert(alias_position("NumPad4"@) == 28);
    assert(t[29].0 == "NumPad5");
    assert(alias_position("NumPad5"@) == 29);
    assert(t[30].0 == "NumPad6");
    assert(alias_position("NumPad6"@) == 30);
    assert(t[31].0 == "NumPad7");
    assert(alias_position("NumPad7"@) == 31);
    assert(t[32].0 == "NumPad8");
    assert(alias_position("NumPad8"@) == 32);
    assert(t[33].0 == "NumPad9");
    assert(alias_position("NumPad9"@) == 33);
    assert(t[34].0 == "OemBackslash");
    assert(alias_position("OemBackslash"@) == 34);
    assert(t[35].0 == "OemClear");
    assert(alias_position("OemClear"@) == 35);
    assert(t[36].0 == "OemCloseBrackets");
    assert(alias_position("OemCloseBrackets"@) == 36);
    assert(t[37].0 == "Oemcomma");
    assert(alias_position("Oemcomma"@) == 37);
    assert(t[38].0 == "OemMinus");
    assert(alias_position("OemMinus"@) == 38);
    assert(t[39].0 == "OemOpenBrackets");
    assert(alias_position("OemOpenBrackets"@) == 39);
    assert(t[40].0 == "OemPeriod");
    assert(alias_position("OemPeriod"@) == 40);
    assert(t[41].0 == "OemPipe");
    assert(alias_position("OemPipe"@) == 41);
    assert(t[42].0 == "Oemplus");
    assert(alias_position("Oemplus"@) == 42);
    assert(t[43].0 == "OemQuestion");
    assert(alias_position("OemQuestion"@) == 43);
    assert(t[44].0 == "OemQuotes");
    assert(alias_position("OemQuotes"@) == 44);
    assert(t[45].0 == "OemSemicolon");
    assert(alias_position("OemSemicolon"@) == 45);
    assert(t[46].0 == "Oemtilde");
    assert(alias_position("Oemtilde"@) == 46);
    assert(t[47].0 == "RControlKey");
    assert(alias_position("RControlKey"@) == 47);
    assert(t[48].0 == "Return");
    assert(alias_position("Return"@) == 48);
    assert(t[49].0 == "RShiftKey");
    assert(alias_position("RShiftKey"@) == 49);
    assert(t[50].0 == "RWin");
    assert(alias_position("RWin"@) == 50);
    assert(t[51].0 == "Scroll");
    assert(alias_position("Scroll"@) == 51);
    assert forall|i: int| 0 <= i < t.len() implies #[trigger] alias_position(t[i].0@) == i by {
        if i == 0 {
            assert(alias_position(t[0].0@) == 0);
        } else if i == 1 {
            assert(alias_position(t[1].0@) == 1);
        } else if i == 2 {
            assert(alias_position(t[2].0@) == 2);
        } else if i == 3 {
            assert(alias_position(t[3].0@) == 3);
        } else if i == 4 {
            assert(alias_position(t[4].0@) == 4);
        } else if i == 5 {
            assert(alias_position(t[5].0@) == 5);
        } else if i == 6 {
            assert(alias_position(t[6].0@) == 6);
        } else if i == 7 {
            assert(alias_position(t[7].0@) == 7);
        } else if i == 8 {
            assert(alias_position(t[8].0@) == 8);
        } else if i == 9 {
            assert(alias_position(t[9].0@) == 9);
        } else if i == 10 {
            assert(alias_position(t[10].0@) == 10);
        } else if i == 11 {
            assert(alias_position(t[11].0@) == 11);
        } else if i == 12 {
            assert(alias_position(t[12].0@) == 12);
        } else if i == 13 {
            assert(alias_position(t[13].0@) == 13);
        } else if i == 14 {
            assert(alias_position(t[14].0@) == 14);
        } else if i == 15 {
            assert(alias_position(t[15].0@) == 15);
        } else if i == 16 {
            assert(alias_position(t[16].0@) == 16);
        } else if i == 17 {
            assert(alias_position(t[17].0@) == 17);
        } else if i == 18 {
            assert(alias_position(t[18].0@) == 18);
        } else if i == 19 {
            assert(alias_position(t[19].0@) == 19);
        } else if i == 20 {
            assert(alias_position(t[20].0@) == 20);
        } else if i == 21 {
            assert(alias_position(t[21].0@) == 21);
        } else if i == 22 {
            assert(alias_position(t[22].0@) == 22);
        } else if i == 23 {
            assert(alias_position(t[23].0@) == 23);
        } else if i == 24 {
            assert(alias_position(t[24].0@) == 24);
        } else if i == 25 {
            assert(alias_position(t[25].0@) == 25);
        } else if i == 26 {
            assert(alias_position(t[26].0@) == 26);
        } else if i == 27 {
            assert(alias_position(t[27].0@) == 27);
        } else if i == 28 {
            assert(alias_position(t[28].0@) == 28);
        } else if i == 29 {
            assert(alias_position(t[29].0@) == 29);
        } else if i == 30 {
            assert(alias_position(t[30].0@) == 30);
        } else if i == 31 {
            assert(alias_position(t[31].0@) == 31);
        } else if i == 32 {
            assert(alias_position(t[32].0@) == 32);
        } else if i == 33 {
            assert(alias_position(t[33].0@) == 33);
        } else if i == 34 {
            assert(alias_position(t[34].0@) == 34);
        } else if i == 35 {
            assert(alias_position(t[35].0@) == 35);
        } else if i == 36 {
            assert(alias_position(t[36].0@) == 36);
        } else if i == 37 {
            assert(alias_position(t[37].0@) == 37);
        } else if i == 38 {
            assert(alias_position(t[38].0@) == 38);
        } else if i == 39 {
            assert(alias_position(t[39].0@) == 39);
        } else if i == 40 {
            assert(alias_position(t[40].0@) == 40);
        } else if i == 41 {
            assert(alias_position(t[41].0@) == 41);
        } else if i == 42 {
            assert(alias_position(t[42].0@) == 42);
        } else if i == 43 {
            assert(alias_position(t[43].0@) == 43);
        } else if i == 44 {
            assert(alias_position(t[44].0@) == 44);
        } else if i == 45 {
            assert(alias_position(t[45].0@) == 45);
        } else if i == 46 {
            assert(alias_position(t[46].0@) == 46);
        } else if i == 47 {
            assert(alias_position(t[47].0@) == 47);
        } else if i == 48 {
            assert(alias_position(t[48].0@) == 48);
        } else if i == 49 {
            assert(alias_position(t[49].0@) == 49);
        } else if i == 50 {
            assert(alias_position(t[50].0@) == 50);
        } else if i == 51 {
            assert(alias_position(t[51].0@) == 51);
        }
    }
    assert forall|i: int, j: int| 0 <= i < j < t.len() implies #[trigger] t[i].0@ != #[trigger] t[j].0@ by {
        assert(alias_position(t[i].0@) == i);
        assert(alias_position(t[j].0@) == j);
    }
}

/// The canonical name for `name` in `table`: the first entry that has it.
pub open spec fn alias_in(table: Seq<(&'static str, &'static str)>, name: Seq<char>) -> Option<
    Seq<char>,
>
    decreases table.len(),
{
    if table.len() == 0 {
        None
    } else if table[0].0@ == name {
        Some(table[0].1@)
    } else {
        alias_in(table.drop_first(), name)
    }
}

/// The code of a configured key name: through its alias if it has one, else
/// the code of its upper-case form.
pub open spec fn resolve_name(table: Seq<(&'static str, &'static str)>, name: Seq<char>) -> Option<
    u32,
> {
    match alias_in(table, name) {
        Some(canonical) => key_code_of(canonical),
        None => key_code_of(upper_of(name)),
    }
}

/// The codes of a list of key names, or the first name that has none.
pub open spec fn resolve_names(
    table: Seq<(&'static str, &'static str)>,
    names: Seq<Seq<char>>,
) -> Result<Seq<u32>, Seq<char>>
    decreases names.len(),
{
    if names.len() == 0 {
        Ok(Seq::empty())
    } else {
        match resolve_name(table, names[0]) {
            None => Err(names[0]),
            Some(code) => match resolve_names(table, names.drop_first()) {
                Ok(codes) => Ok(seq![code] + codes),
                Err(name) => Err(name),
            },
        }
    }
}

/// The key names of a combination text: its comma-separated pieces, trimmed.
pub open spec fn combo_names(text: Seq<char>) -> Seq<Seq<char>> {
    split_on(text, ',').map_values(|piece: Seq<char>| trim(piece))
}

/// The codes of a combination text, or the first name that has none.
pub open spec fn resolve_combo(table: Seq<(&'static str, &'static str)>, text: Seq<char>) -> Result<
    Seq<u32>,
    Seq<char>,
> {
    resolve_names(table, combo_names(text))
}

/// A text always has at least one comma-separated piece.
pub proof fn lemma_split_nonempty(s: Seq<char>, sep: char)
    ensures
        split_on(s, sep).len() >= 1,
    decreases s.len(),
{
    if s.len() > 0 {
        lemma_split_nonempty(s.drop_first(), sep);
    }
}

/// Resolved names give one code each.
pub proof fn lemma_resolved_len(table: Seq<(&'static str, &'static str)>, names: Seq<Seq<char>>)
    ensures
        resolve_names(table, names) matches Ok(codes) ==> codes.len() == names.len(),
    decreases names.len(),
{
    if names.len() > 0 {
        lemma_resolved_len(table, names.drop_first());
    }
}

/// A combination text that names a key the resolver does not know.
#[derive(Debug, Clone, PartialEq, Eq)]
pub struct UnresolvedKeyName {
    /// The name that has no code, trimmed.
    pub token: String,
    /// The whole combination text.
    pub combo: String,
}

/// Resolves the key names of a configuration to key codes.
#[derive(Debug)]
pub struct Keymapper {
    key_map: Vec<(&'static str, &'static str)>,
}

impl View for Keymapper {
    type V = Seq<(&'static str, &'static str)>;

    closed spec fn view(&self) -> Self::V {
        self.key_map@
    }
}

impl Keymapper {
    pub fn new() -> (r: Self)
        ensures
            r@ == alias_table(),
            alias_names_distinct(r@),
    {
        proof {
            lemma_alias_names_distinct();
        }
        let key_map = vec![
            ("Control", "LEFTCTRL"),
            ("ControlKey", "LEFTCTRL"),
            ("LControlKey", "LEFTCTRL"),
            ("Alt", "LEFTALT"),
            ("LMenu", "LEFTALT"),
            ("Back", "BACKSPACE"),
            ("Capital", "CAPSLOCK"),
            ("Escape", "ESC"),
            ("LShiftKey", "LEFTSHIFT"),
            ("Shift", "LEFTSHIFT"),
            ("ShiftKey", "LEFTSHIFT"),
            ("LWin", "LEFTMETA"),
            ("Next", "PAGEDOWN"),
            ("Prior", "PAGEUP"),
            ("D0", "0"),
            ("D1", "1"),
            ("D2", "2"),
            ("D3", "3"),
            ("D4", "4"),
            ("D5", "5"),
            ("D6", "6"),
            ("D7", "7"),
            ("D8", "8"),
            ("D9", "9"),
            ("NumPad0", "KP0"),
            ("NumPad1", "KP1"),
            ("NumPad2", "KP2"),
            ("NumPad3", "KP3"),
            ("NumPad4", "KP4"),
            ("NumPad5", "KP5"),
            ("NumPad6", "KP6"),
            ("NumPad7", "KP7"),
            ("NumPad8", "KP8"),
            ("NumPad9", "KP9"),
            ("OemBackslash", "BACKSLASH"),
            ("OemClear", "CLEAR"),
            ("OemCloseBrackets", "RIGHTBRACE"),
            ("Oemcomma", "COMMA"),
            ("OemMinus", "MINUS"),
            ("OemOpenBrackets", "LEFTBRACE"),
            ("OemPeriod", "DOT"),
            ("OemPipe", "BACKSLASH"),
            ("Oemplus", "EQUAL"),
            ("OemQuestion", "SLASH"),
            ("OemQuotes", "APOSTROPHE"),
            ("OemSemicolon", "SEMICOLON"),
            ("Oemtilde", "GRAVE"),
            ("RControlKey", "RIGHTCTRL"),
            ("Return", "ENTER"),
            ("RShiftKey", "RIGHTSHIFT"),
            ("RWin", "RIGHTMETA"),
            ("Scroll", "SCROLLLOCK"),
        ];
        Keymapper { key_map }
    }

    /// The canonical name that the alias table gives `name`.
    fn alias(&self, name: &str) -> (r: Option<&'static str>)
        ensures
            match r {
                Some(canonical) => alias_in(self@, name@) == Some(canonical@),
                None => alias_in(self@, name@) is None,
            },
    {
        let mut i: usize = 0;
        assert(self@.skip(0) =~= self@);
        while i < self.key_map.len()
            invariant
                i <= self@.len(),
                alias_in(self@, name@) == alias_in(self@.skip(i as int), name@),
            decreases self@.len() - i,
        {
            let (from, to) = self.key_map[i];
            assert(self@.skip(i as int).drop_first() =~= self@.skip(i + 1));
            if same_text(from, name) {
                return Some(to);
            }
            i += 1;
        }
        None
    }

    /// The code of a configured key name.
    pub fn map(&self, name: &str) -> (r: Option<u32>)
        ensures
            r == resolve_name(self@, name@),
    {
        match self.alias(name) {
            Some(canonical) => key_code(canonical),
            None => {
                let upper = to_upper(name);
                key_code(upper.as_str())
            },
        }
    }

    /// The codes of a comma-separated combination text, in order; fails on the
    /// first name that has no code.
    pub fn map_combo(&self, combo: &str) -> (r: Result<Vec<u32>, UnresolvedKeyName>)
        ensures
            match r {
                Ok(codes) => {
                    &&& resolve_combo(self@, combo@) == Ok::<Seq<u32>, Seq<char>>(codes@)
                    &&& codes@.len() >= 1
                },
                Err(e) => {
                    &&& resolve_combo(self@, combo@) == Err::<Seq<u32>, Seq<char>>(e.token@)
                    &&& e.combo@ == combo@
                },
            },
    {
        let pieces = split_at_char(combo, ',');
        let ghost names = combo_names(combo@);
        proof {
            lemma_split_nonempty(combo@, ',');
            lemma_resolved_len(self@, names);
        }
        let mut codes: Vec<u32> = Vec::new();
        let mut i: usize = 0;
        assert(names.skip(0) =~= names);
        proof {
            match resolve_names(self@, names) {
                Ok(rest) => {
                    assert(codes@ + rest =~= rest);
                },
                Err(_) => {},
            }
        }
        while i < pieces.len()
            invariant
                i <= pieces@.len(),
                names.len() == pieces@.len(),
                forall|j: int| 0 <= j < names.len() ==> #[trigger] names[j] == trim(pieces@[j]@),
                names == combo_names(combo@),
                resolve_names(self@, names) == match resolve_names(self@, names.skip(i as int)) {
                    Ok(rest) => Ok(codes@ + rest),
                    Err(name) => Err(name),
                },
            decreases pieces@.len() - i,
        {
            let name = trim_text(pieces[i]);
            assert(names.skip(i as int).drop_first() =~= names.skip(i + 1));
            assert(names.skip(i as int)[0] == names[i as int]);
            match self.map(name) {
                Some(code) => {
                    proof {
                        match resolve_names(self@, names.skip(i + 1)) {
                            Ok(rest) => {
                                assert(codes@ + (seq![code] + rest) =~= codes@.push(code) + rest);
                            },
                            Err(_) => {},
                        }
                    }
                    codes.push(code);
                },
                None => {
                    return Err(UnresolvedKeyName { token: name.to_owned(), combo: combo.to_owned() });
                },
            }
            i += 1;
        }
        assert(names.skip(i as int) =~= Seq::<Seq<char>>::empty());
        assert(codes@ + Seq::<u32>::empty() =~= codes@);
        Ok(codes)
    }
}

} // verus!
