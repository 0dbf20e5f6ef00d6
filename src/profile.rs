//! The hotkey profile of a LiveSplit settings document: which elements of the
//! chosen profile set a combination or the enabled flag, and the engine that
//! the profile configures.

use vstd::prelude::*;
use vstd::string::StringSliceAdditionalSpecFns;

use quick_xml::events::Event::{End, Eof, Start, Text};
use quick_xml::Reader;

use crate::engine::{codes_below, KeyState};
use crate::key::{
    alias_in, alias_table, combo_names, is_key_code, is_table_size, key_code_of, key_table_size,
    resolve_combo, resolve_name, resolve_names, Hotkey, Keymapper, UnresolvedKeyName,
    HOTKEY_COUNT,
};
use crate::text::{eq_ignore_ascii_case, same_bytes, same_text_ignoring_case, trim, trim_text, upper_of};

verus! {

#[verifier::external_type_specification]
#[verifier::external_body]
pub struct ExXmlError(quick_xml::Error);

/// Relies on quick-xml's derived `Clone` for its error: a copy of the error,
/// for a failure found in a token that stays with its reader.
pub assume_specification[ <quick_xml::Error as Clone>::clone ](e: &quick_xml::Error) -> quick_xml::Error;

/// An attribute of an opening tag, as raw bytes.
#[derive(Debug)]
pub struct XmlAttribute {
    pub key: Vec<u8>,
    pub value: Vec<u8>,
}

/// One event of a settings document.
#[derive(Debug)]
pub enum XmlToken {
    /// An opening tag: its name, and its attributes in order (`None` for one
    /// that is malformed).
    Start(Vec<u8>, Vec<Option<XmlAttribute>>),
    /// Character data, unescaped, or why it could not be.
    Text(Result<String, quick_xml::Error>),
    /// A closing tag and its name.
    End(Vec<u8>),
    /// Anything else: comments, declarations, empty tags.
    Other,
}

/// An event of a settings document, as mathematics.
pub enum TokenView {
    /// An opening tag: its name, and its attributes as key and value (`None`
    /// for one that is malformed).
    Start(Seq<u8>, Seq<Option<(Seq<u8>, Seq<u8>)>>),
    /// Character data, unescaped; `None` where it could not be.
    Text(Option<Seq<char>>),
    /// A closing tag and its name.
    End(Seq<u8>),
    /// Anything else.
    Other,
}

/// An attribute as key and value.
pub open spec fn attribute_view(a: Option<XmlAttribute>) -> Option<(Seq<u8>, Seq<u8>)> {
    match a {
        Some(a) => Some((a.key@, a.value@)),
        None => None,
    }
}

impl View for XmlToken {
    type V = TokenView;

    open spec fn view(&self) -> TokenView {
        match self {
            XmlToken::Start(name, attrs) => TokenView::Start(
                name@,
                attrs@.map_values(|a: Option<XmlAttribute>| attribute_view(a)),
            ),
            XmlToken::Text(text) => TokenView::Text(
                match text {
                    Ok(s) => Some(s@),
                    Err(_) => None,
                },
            ),
            XmlToken::End(name) => TokenView::End(name@),
            XmlToken::Other => TokenView::Other,
        }
    }
}

/// The events that quick-xml reads from a document, with white space around
/// text left out, up to the end of the document; `None` where the document
/// is not well-formed.
pub uninterp spec fn xml_tokens_of(doc: Seq<u8>) -> Option<Seq<TokenView>>;

/// Relies on `quick_xml::Reader` (`from_reader`, `trim_text(true)` and
/// `read_event` up to `Eof`, with the events' `name`, `attributes` and
/// `unescape`): the events of `settings` as tokens, or the reader's error.
#[verifier::external_body]
fn read_tokens(settings: &[u8]) -> (r: Result<Vec<XmlToken>, quick_xml::Error>)
    ensures
        match r {
            Ok(tokens) => xml_tokens_of(settings@) == Some(tokens@.map_values(|t: XmlToken| t@)),
            Err(_) => xml_tokens_of(settings@) is None,
        },
{
    let mut reader = Reader::from_reader(settings);
    reader.trim_text(true);
    let mut tokens = Vec::new();
    loop {
        tokens.push(match reader.read_event()? {
            Start(e) => XmlToken::Start(e.name().0.to_vec(), e.attributes().map(|a| a.ok().map(
                |a| XmlAttribute { key: a.key.0.to_vec(), value: a.value.to_vec() })).collect()),
            Text(e) => XmlToken::Text(e.unescape().map(|t| t.into_owned())),
            End(e) => XmlToken::End(e.name().0.to_vec()),
            Eof => return Ok(tokens),
            _ => XmlToken::Other,
        });
    }
}

/// Why a settings document gives no engine.
#[derive(Debug)]
pub enum ConfigError {
    /// The document is not well-formed XML, or a text that the profile needs
    /// cannot be unescaped.
    Xml(quick_xml::Error),
    /// A combination names a key that has no code.
    Unresolved(UnresolvedKeyName),
}

/// A copy of a byte string.
fn copy_bytes(b: &[u8]) -> (r: Vec<u8>)
    ensures
        r@ == b@,
{
    let mut r: Vec<u8> = Vec::new();
    let mut i: usize = 0;
    while i < b.len()
        invariant
            i <= b@.len(),
            r@ == b@.take(i as int),
        decreases b@.len() - i,
    {
        r.push(b[i]);
        i += 1;
        assert(r@ =~= b@.take(i as int));
    }
    assert(b@.take(i as int) =~= b@);
    r
}

/// The byte form of a text.
pub open spec fn bytes_of(s: &str) -> Seq<u8> {
    s.spec_bytes()
}

/// The value of the first well-formed attribute called `name`.
pub open spec fn name_attribute(attrs: Seq<Option<(Seq<u8>, Seq<u8>)>>) -> Option<Seq<u8>>
    decreases attrs.len(),
{
    if attrs.len() == 0 {
        None
    } else {
        match attrs[0] {
            Some((key, value)) if key == bytes_of("name") => Some(value),
            _ => name_attribute(attrs.drop_first()),
        }
    }
}

/// What the text of an element is read as.
#[derive(Debug, Clone, Copy, PartialEq, Eq, Structural)]
pub enum Expect {
    /// The combination of a hotkey kind.
    Hotkey(Hotkey),
    /// The enabled flag.
    HotkeysEnabled,
    /// Nothing.
    Nothing,
}

/// What the text of an element of the chosen profile is read as.
pub open spec fn expect_for(name: Seq<u8>) -> Expect {
    if name == bytes_of("SplitKey") {
        Expect::Hotkey(Hotkey::SplitKey)
    } else if name == bytes_of("ResetKey") {
        Expect::Hotkey(Hotkey::ResetKey)
    } else if name == bytes_of("SkipKey") {
        Expect::Hotkey(Hotkey::SkipKey)
    } else if name == bytes_of("UndoKey") {
        Expect::Hotkey(Hotkey::UndoKey)
    } else if name == bytes_of("PauseKey") {
        Expect::Hotkey(Hotkey::PauseKey)
    } else if name == bytes_of("ToggleGlobalHotkeys") {
        Expect::Hotkey(Hotkey::ToggleGlobalHotkeys)
    } else if name == bytes_of("GlobalHotkeysEnabled") {
        Expect::HotkeysEnabled
    } else {
        Expect::Nothing
    }
}

/// Why reading a profile fails, as mathematics.
pub enum ScanFailure {
    /// A text that the profile needs could not be unescaped.
    BadText,
    /// A key name without a code, and the combination text it is in.
    Unresolved(Seq<char>, Seq<char>),
}

/// What the scanner has read so far, as mathematics.
pub struct ScanView {
    /// The name of the chosen profile, as bytes.
    pub profile: Seq<u8>,
    /// Whether the reader is inside the chosen profile.
    pub in_profile: bool,
    /// What the next text is read as.
    pub expect: Expect,
    /// The combination of each kind, in table order; empty where none is set.
    pub combos: Seq<Seq<u32>>,
    /// The enabled flag of the profile (on unless the profile says otherwise).
    pub enabled: bool,
}

impl ScanView {
    /// Before any event: outside every profile, no combination set, hotkeys
    /// enabled.
    pub open spec fn initial(profile: Seq<u8>) -> ScanView {
        ScanView {
            profile,
            in_profile: false,
            expect: Expect::Nothing,
            combos: Seq::new(HOTKEY_COUNT as nat, |k: int| Seq::<u32>::empty()),
            enabled: true,
        }
    }

    /// One combination per kind, made of codes of the key table.
    pub open spec fn wf(self) -> bool {
        &&& self.combos.len() == HOTKEY_COUNT
        &&& forall|k: int, i: int|
            0 <= k < HOTKEY_COUNT && 0 <= i < self.combos[k].len() ==> is_key_code(
                #[trigger] self.combos[k][i],
            )
    }

    /// The state after an opening tag. A `HotkeyProfile` tag enters or leaves
    /// the chosen profile by its `name` attribute; inside the chosen profile
    /// a hotkey element or `GlobalHotkeysEnabled` says how its text is read.
    pub open spec fn on_start(self, name: Seq<u8>, attrs: Seq<Option<(Seq<u8>, Seq<u8>)>>) -> ScanView {
        if name == bytes_of("HotkeyProfile") {
            ScanView {
                in_profile: name_attribute(attrs) == Some(self.profile),
                expect: Expect::Nothing,
                ..self
            }
        } else if self.in_profile {
            ScanView { expect: expect_for(name), ..self }
        } else {
            ScanView { expect: Expect::Nothing, ..self }
        }
    }

    /// The state after a closing tag.
    pub open spec fn on_end(self, name: Seq<u8>) -> ScanView {
        ScanView {
            in_profile: self.in_profile && name != bytes_of("HotkeyProfile"),
            expect: Expect::Nothing,
            ..self
        }
    }

    /// The state after a text: a combination is resolved with `table`, the
    /// enabled flag is whether the trimmed text is `true` in any ASCII case.
    pub open spec fn on_text(
        self,
        text: Option<Seq<char>>,
        table: Seq<(&'static str, &'static str)>,
    ) -> Result<ScanView, ScanFailure> {
        match self.expect {
            Expect::Nothing => Ok(self),
            Expect::HotkeysEnabled => match text {
                Some(s) => Ok(ScanView { enabled: eq_ignore_ascii_case(trim(s), "true"@), ..self }),
                None => Err(ScanFailure::BadText),
            },
            Expect::Hotkey(k) => match text {
                Some(s) => match resolve_combo(table, s) {
                    Ok(codes) => Ok(
                        ScanView { combos: self.combos.update(k.spec_index() as int, codes), ..self },
                    ),
                    Err(key) => Err(ScanFailure::Unresolved(key, s)),
                },
                None => Err(ScanFailure::BadText),
            },
        }
    }

    /// The state after one event.
    pub open spec fn step(self, token: TokenView, table: Seq<(&'static str, &'static str)>) -> Result<
        ScanView,
        ScanFailure,
    > {
        match token {
            TokenView::Start(name, attrs) => Ok(self.on_start(name, attrs)),
            TokenView::End(name) => Ok(self.on_end(name)),
            TokenView::Text(text) => self.on_text(text, table),
            TokenView::Other => Ok(self),
        }
    }

    /// The state after a run of events, or the first failure.
    pub open spec fn scan(self, tokens: Seq<TokenView>, table: Seq<(&'static str, &'static str)>) -> Result<
        ScanView,
        ScanFailure,
    >
        decreases tokens.len(),
    {
        if tokens.len() == 0 {
            Ok(self)
        } else {
            match self.step(tokens[0], table) {
                Ok(next) => next.scan(tokens.drop_first(), table),
                Err(failure) => Err(failure),
            }
        }
    }
}

/// Reads the hotkey profile of a settings document, one token at a time.
#[derive(Debug)]
pub struct ProfileScanner {
    profile: Vec<u8>,
    in_profile: bool,
    expect: Expect,
    hotkeys: Vec<Vec<u32>>,
    hotkeys_enabled: bool,
}

impl View for ProfileScanner {
    type V = ScanView;

    closed spec fn view(&self) -> ScanView {
        ScanView {
            profile: self.profile@,
            in_profile: self.in_profile,
            expect: self.expect,
            combos: self.hotkeys@.map_values(|c: Vec<u32>| c@),
            enabled: self.hotkeys_enabled,
        }
    }
}

/// Every code of a resolved combination is a code of the key table.
pub proof fn lemma_resolved_codes_are_key_codes(
    table: Seq<(&'static str, &'static str)>,
    names: Seq<Seq<char>>,
)
    ensures
        resolve_names(table, names) matches Ok(codes) ==> forall|i: int|
            0 <= i < codes.len() ==> is_key_code(#[trigger] codes[i]),
    decreases names.len(),
{
    if names.len() > 0 {
        lemma_resolved_codes_are_key_codes(table, names.drop_first());
        if let Ok(codes) = resolve_names(table, names) {
            let c = codes[0];
            assert(resolve_name(table, names[0]) == Some(c));
            assert(is_key_code(c)) by {
                match alias_in(table, names[0]) {
                    Some(canonical) => assert(key_code_of(canonical) == Some(c)),
                    None => assert(key_code_of(upper_of(names[0])) == Some(c)),
                }
            }
            let rest = resolve_names(table, names.drop_first())->Ok_0;
            assert forall|i: int| 0 <= i < codes.len() implies is_key_code(#[trigger] codes[i]) by {
                if i > 0 {
                    assert(codes[i] == rest[i - 1]);
                }
            }
        }
    }
}

impl ProfileScanner {
    /// A scanner for the profile called `profile`, before any token: no
    /// combination set and hotkeys enabled.
    pub fn new(profile: &str) -> (r: Self)
        ensures
            r@.profile == bytes_of(profile),
            !r@.in_profile,
            r@.expect == Expect::Nothing,
            r@.combos == Seq::new(HOTKEY_COUNT as nat, |k: int| Seq::<u32>::empty()),
            r@.enabled,
            r@.wf(),
    {
        let mut hotkeys: Vec<Vec<u32>> = Vec::new();
        let mut k: usize = 0;
        while k < HOTKEY_COUNT
            invariant
                k <= HOTKEY_COUNT,
                hotkeys@.len() == k,
                forall|j: int| 0 <= j < k ==> (#[trigger] hotkeys@[j])@ == Seq::<u32>::empty(),
            decreases HOTKEY_COUNT - k,
        {
            hotkeys.push(Vec::new());
            k += 1;
        }
        let r = ProfileScanner {
            profile: copy_bytes(profile.as_bytes()),
            in_profile: false,
            expect: Expect::Nothing,
            hotkeys,
            hotkeys_enabled: true,
        };
        assert(r@.combos =~= Seq::new(HOTKEY_COUNT as nat, |k: int| Seq::<u32>::empty()));
        r
    }

    /// What the text of an element of the chosen profile is read as.
    fn expect_for(name: &[u8]) -> (r: Expect)
        ensures
            r == expect_for(name@),
    {
        if same_bytes(name, "SplitKey".as_bytes()) {
            Expect::Hotkey(Hotkey::SplitKey)
        } else if same_bytes(name, "ResetKey".as_bytes()) {
            Expect::Hotkey(Hotkey::ResetKey)
        } else if same_bytes(name, "SkipKey".as_bytes()) {
            Expect::Hotkey(Hotkey::SkipKey)
        } else if same_bytes(name, "UndoKey".as_bytes()) {
            Expect::Hotkey(Hotkey::UndoKey)
        } else if same_bytes(name, "PauseKey".as_bytes()) {
            Expect::Hotkey(Hotkey::PauseKey)
        } else if same_bytes(name, "ToggleGlobalHotkeys".as_bytes()) {
            Expect::Hotkey(Hotkey::ToggleGlobalHotkeys)
        } else if same_bytes(name, "GlobalHotkeysEnabled".as_bytes()) {
            Expect::HotkeysEnabled
        } else {
            Expect::Nothing
        }
    }

    /// The value of the first well-formed attribute called `name`.
    fn name_attribute(attrs: &Vec<Option<XmlAttribute>>) -> (r: Option<&Vec<u8>>)
        ensures
            match r {
                Some(v) => name_attribute(attrs@.map_values(|a: Option<XmlAttribute>| attribute_view(a))) == Some(v@),
                None => name_attribute(attrs@.map_values(|a: Option<XmlAttribute>| attribute_view(a))) is None,
            },
    {
        let ghost view = attrs@.map_values(|a: Option<XmlAttribute>| attribute_view(a));
        let mut i: usize = 0;
        assert(view.skip(0) =~= view);
        while i < attrs.len()
            invariant
                i <= attrs@.len(),
                view == attrs@.map_values(|a: Option<XmlAttribute>| attribute_view(a)),
                name_attribute(view) == name_attribute(view.skip(i as int)),
            decreases attrs@.len() - i,
        {
            assert(view.skip(i as int).drop_first() =~= view.skip(i + 1));
            assert(view.skip(i as int)[0] == attribute_view(attrs@[i as int]));
            if let Some(a) = &attrs[i] {
                if same_bytes(a.key.as_slice(), "name".as_bytes()) {
                    return Some(&a.value);
                }
            }
            i += 1;
        }
        None
    }

    /// Takes in one token of the document. Fails where a text that the profile
    /// needs cannot be unescaped or names a key with no code.
    pub fn feed(&mut self, mapper: &Keymapper, token: &XmlToken) -> (r: Result<(), ConfigError>)
        requires
            old(self)@.wf(),
        ensures
            match old(self)@.step(token@, mapper@) {
                Ok(next) => r is Ok && final(self)@ == next && next.wf(),
                Err(ScanFailure::BadText) => r matches Err(ConfigError::Xml(_)),
                Err(ScanFailure::Unresolved(key, text)) => r matches Err(ConfigError::Unresolved(u))
                    && u.token@ == key && u.combo@ == text,
            },
    {
        match token {
            XmlToken::Start(name, attrs) => {
                if same_bytes(name.as_slice(), "HotkeyProfile".as_bytes()) {
                    self.in_profile = match Self::name_attribute(attrs) {
                        Some(value) => same_bytes(value.as_slice(), self.profile.as_slice()),
                        None => false,
                    };
                    self.expect = Expect::Nothing;
                } else if self.in_profile {
                    self.expect = Self::expect_for(name.as_slice());
                } else {
                    self.expect = Expect::Nothing;
                }
                Ok(())
            },
            XmlToken::End(name) => {
                if same_bytes(name.as_slice(), "HotkeyProfile".as_bytes()) {
                    self.in_profile = false;
                }
                self.expect = Expect::Nothing;
                Ok(())
            },
            XmlToken::Text(text) => match self.expect {
                Expect::Nothing => Ok(()),
                Expect::HotkeysEnabled => match text {
                    Ok(s) => {
                        self.hotkeys_enabled = same_text_ignoring_case(
                            trim_text(s.as_str()),
                            "true",
                        );
                        Ok(())
                    },
                    Err(e) => Err(ConfigError::Xml(e.clone())),
                },
                Expect::Hotkey(k) => match text {
                    Ok(s) => match mapper.map_combo(s.as_str()) {
                        Ok(codes) => {
                            proof {
                                lemma_resolved_codes_are_key_codes(mapper@, combo_names(s@));
                            }
                            let ghost before = self@;
                            self.hotkeys.set(k.index(), codes);
                            assert(self@.combos =~= before.combos.update(
                                k.spec_index() as int,
                                codes@,
                            ));
                            Ok(())
                        },
                        Err(u) => Err(ConfigError::Unresolved(u)),
                    },
                    Err(e) => Err(ConfigError::Xml(e.clone())),
                },
            },
            XmlToken::Other => Ok(()),
        }
    }
}

impl ProfileScanner {
    /// The combinations read, in table order, and the enabled flag.
    pub fn into_parts(self) -> (r: (Vec<Vec<u32>>, bool))
        ensures
            r.0@.map_values(|c: Vec<u32>| c@) == self@.combos,
            r.1 == self@.enabled,
    {
        (self.hotkeys, self.hotkeys_enabled)
    }
}

impl KeyState {
    /// The engine that the profile called `profile` of a LiveSplit settings
    /// document configures: the combinations and enabled flag that reading
    /// the document's events gives, a held table with one entry for each
    /// possible key code, and nothing held. Fails where the document is not
    /// well-formed, or a text of the profile cannot be unescaped or names a
    /// key with no code.
    pub fn new(settings: &[u8], profile: &str) -> (r: Result<KeyState, ConfigError>)
        ensures
            match xml_tokens_of(settings@) {
                None => r matches Err(ConfigError::Xml(_)),
                Some(tokens) => match ScanView::initial(bytes_of(profile)).scan(
                    tokens,
                    alias_table(),
                ) {
                    Ok(read) => r matches Ok(ks) && {
                        &&& ks@.wf()
                        &&& ks@.combos == read.combos
                        &&& ks@.enabled == read.enabled
                        &&& is_table_size(ks@.held.len() as int)
                        &&& forall|i: int| 0 <= i < ks@.held.len() ==> !#[trigger] ks@.held[i]
                        &&& !ks@.report_toggle
                    },
                    Err(ScanFailure::BadText) => r matches Err(ConfigError::Xml(_)),
                    Err(ScanFailure::Unresolved(key, text)) => r matches Err(
                        ConfigError::Unresolved(u),
                    ) && u.token@ == key && u.combo@ == text,
                },
            },
    {
        let tokens = match read_tokens(settings) {
            Ok(tokens) => tokens,
            Err(e) => return Err(ConfigError::Xml(e)),
        };
        let ghost all = tokens@.map_values(|t: XmlToken| t@);
        let mapper = Keymapper::new();
        let mut scanner = ProfileScanner::new(profile);
        proof {
            assert(scanner@ == ScanView::initial(bytes_of(profile)));
            assert(all.skip(0) =~= all);
        }
        let mut i: usize = 0;
        while i < tokens.len()
            invariant
                i <= tokens@.len(),
                all == tokens@.map_values(|t: XmlToken| t@),
                xml_tokens_of(settings@) == Some(all),
                scanner@.wf(),
                mapper@ == alias_table(),
                ScanView::initial(bytes_of(profile)).scan(all, alias_table()) == scanner@.scan(
                    all.skip(i as int),
                    alias_table(),
                ),
            decreases tokens@.len() - i,
        {
            assert(all.skip(i as int).drop_first() =~= all.skip(i + 1));
            assert(all.skip(i as int)[0] == tokens@[i as int]@);
            let ghost before = scanner@;
            let fed = scanner.feed(&mapper, &tokens[i]);
            proof {
                let rest = all.skip(i as int);
                assert(rest.len() > 0);
                assert(before.scan(rest, alias_table()) == match before.step(rest[0], alias_table()) {
                    Ok(next) => next.scan(rest.drop_first(), alias_table()),
                    Err(failure) => Err(failure),
                });
            }
            if let Err(e) = fed {
                return Err(e);
            }
            i += 1;
        }
        assert(all.skip(i as int) =~= Seq::<TokenView>::empty());
        let num_keys = key_table_size();
        let ghost view = scanner@;
        let (hotkeys, enabled) = scanner.into_parts();
        assert(codes_below(hotkeys@.map_values(|c: Vec<u32>| c@), num_keys as int)) by {
            assert forall|k: int, i: int|
                0 <= k < view.combos.len() && 0 <= i < view.combos[k].len() implies #[trigger] view.combos[k][i]
                    < num_keys by {
                assert(is_key_code(view.combos[k][i]));
                let n = choose|n: Seq<char>| key_code_of(n) == Some(view.combos[k][i]);
                assert(key_code_of(n) == Some(view.combos[k][i]));
            }
        }
        let ks = KeyState::from_parts(num_keys, hotkeys, enabled);
        Ok(ks)
    }
}

} // verus!
