//! Incremental EWTS composition independent of Windows keyboard APIs.

use vstd::prelude::*;

use ewts::EwtsConverter;

use crate::text::chars_of;
use crate::tray::{encode_utf16, utf16};

verus! {

#[verifier::external_type_specification]
#[verifier::external_body]
pub struct ExEwtsConverter(ewts::EwtsConverter);

/// The Tibetan Unicode text that `EwtsConverter::ewts_to_unicode` produces for
/// the EWTS text `source`. Every converter holds the same tables (they are
/// built from the crate's fixed dictionaries), so the result depends on
/// `source` alone.
pub uninterp spec fn ewts_unicode(source: Seq<char>) -> Seq<char>;

/// Reading `s` left to right, where a `\` that the `\` just before it does not
/// take opens an escape that takes the next character: how many escapes open,
/// and whether the next character would be taken. No EWTS token holds `\`, so
/// each escape the converter forms starts at one of these, or else just after
/// one that it does not form; hence there are at least as many of these.
pub open spec fn escape_scan(s: Seq<char>) -> (nat, bool)
    decreases s.len(),
{
    if s.len() == 0 {
        (0, false)
    } else {
        let (opened, taking) = escape_scan(s.drop_last());
        if taking {
            (opened, false)
        } else if s.last() == '\\' {
            (opened + 1, true)
        } else {
            (opened, false)
        }
    }
}

/// Reading `s` left to right, where a `[` outside a bracketed span opens one
/// that runs to the next `]`: how many spans open, and whether one is open at
/// the end. No EWTS token holds `[`, so every bracketed span the converter forms
/// opens inside a distinct one of these: their number bounds the converter's.
pub open spec fn bracket_scan(s: Seq<char>) -> (nat, bool)
    decreases s.len(),
{
    if s.len() == 0 {
        (0, false)
    } else {
        let (opened, open) = bracket_scan(s.drop_last());
        if !open && s.last() == '[' {
            (opened + 1, true)
        } else if open && s.last() == ']' {
            (opened, false)
        } else {
            (opened, open)
        }
    }
}

/// Inputs the converter handles without overflowing its one-byte indices of
/// bracketed (`[..]`) spans and escaped (`\..`) characters: fewer than 256 of
/// each open (by `bracket_scan` and `escape_scan`).
pub open spec fn ewts_input_ok(source: Seq<char>) -> bool {
    bracket_scan(source).0 < 256 && escape_scan(source).0 < 256
}

/// `EwtsConverter::create` builds the converter's lookup tables; nothing is
/// stated of the result, which is opaque.
pub assume_specification[ ewts::EwtsConverter::create ]() -> (c: ewts::EwtsConverter);

/// `EwtsConverter::ewts_to_unicode` tokenizes `src` and converts the tokens to
/// Tibetan Unicode. The result is `ewts_unicode(src)`; the empty input gives
/// the empty output. Its indices of bracketed spans and of escaped characters
/// are `u8`s that underflow (a panic in debug builds) at the 256th of either;
/// `requires` rules that out by bounds on what forms them (`ewts_input_ok`).
pub assume_specification[ ewts::EwtsConverter::ewts_to_unicode ](
    converter: &ewts::EwtsConverter,
    src: &str,
) -> (r: String)
    requires
        ewts_input_ok(src@),
    ensures
        r@ == ewts_unicode(src@),
        src@.len() == 0 ==> r@.len() == 0,
;

/// `String::pop`: removes and returns the last character, or `None` when empty.
pub assume_specification[ String::pop ](s: &mut String) -> (r: Option<char>)
    ensures
        old(s)@.len() == 0 ==> r is None && final(s)@ == old(s)@,
        old(s)@.len() > 0 ==> r == Some(old(s)@.last()) && final(s)@ == old(s)@.drop_last(),
;

/// What the foreground application shows for a composition span of source `source`.
pub open spec fn rendering(source: Seq<char>) -> Seq<char> {
    if source.len() == 0 {
        Seq::empty()
    } else {
        ewts_unicode(source)
    }
}

/// An edit to apply to the foreground application.
#[derive(Debug, Clone, PartialEq, Eq)]
pub struct Replacement {
    /// Number of previously emitted Unicode scalar values to erase.
    pub backspaces: usize,
    /// Replacement Unicode text to emit.
    pub text: String,
}

/// One key event that applying an edit sends to the foreground application.
#[derive(Debug, Clone, Copy, PartialEq, Eq, Structural)]
pub enum Keystroke {
    /// The Backspace key.
    Backspace { is_down: bool },
    /// A Unicode UTF-16 code unit.
    Unit { unit: u16, is_down: bool },
}

/// A press and a release of Backspace for each character to erase, then a press
/// and a release of each UTF-16 unit of the text to type.
pub open spec fn edit_keystrokes(backspaces: nat, units: Seq<u16>) -> Seq<Keystroke> {
    Seq::new(2 * backspaces, |i: int| Keystroke::Backspace { is_down: i % 2 == 0 }) + Seq::new(
        2 * units.len(),
        |i: int| Keystroke::Unit { unit: units[i / 2], is_down: i % 2 == 0 },
    )
}

/// The key events that apply `edit`: erase, then type.
pub fn replacement_keystrokes(edit: &Replacement) -> (k: Vec<Keystroke>)
    ensures
        k@ == edit_keystrokes(edit.backspaces as nat, utf16(edit.text@)),
{
    let mut k: Vec<Keystroke> = Vec::new();
    let mut i: usize = 0;
    while i < edit.backspaces
        invariant
            i <= edit.backspaces,
            k@ =~= Seq::new(2 * i as nat, |j: int| Keystroke::Backspace { is_down: j % 2 == 0 }),
        decreases edit.backspaces - i,
    {
        k.push(Keystroke::Backspace { is_down: true });
        k.push(Keystroke::Backspace { is_down: false });
        i = i + 1;
    }
    let ghost erase = k@;
    let units = encode_utf16(edit.text.as_str());
    let mut j: usize = 0;
    while j < units.len()
        invariant
            j <= units.len(),
            units@ == utf16(edit.text@),
            erase == Seq::new(2 * edit.backspaces as nat, |j: int| Keystroke::Backspace { is_down: j % 2 == 0 }),
            k@ =~= erase + Seq::new(
                2 * j as nat,
                |t: int| Keystroke::Unit { unit: units@[t / 2], is_down: t % 2 == 0 },
            ),
        decreases units.len() - j,
    {
        k.push(Keystroke::Unit { unit: units[j], is_down: true });
        k.push(Keystroke::Unit { unit: units[j], is_down: false });
        j = j + 1;
    }
    k
}

/// `screen` after erasing `backspaces` characters and typing `text`.
pub open spec fn apply_edit(screen: Seq<char>, backspaces: nat, text: Seq<char>) -> Seq<char> {
    screen.take(screen.len() - backspaces) + text
}

/// Characters whose EWTS meaning finishes a composition span.
pub open spec fn spec_is_commit_character(ch: char) -> bool {
    ch == ' ' || ch == '_' || ch == '/' || ch == ';' || ch == '|' || ch == '!' || ch == ':' || ch
        == '\n' || ch == '\r'
}

/// Characters whose EWTS meaning finishes a composition span.
pub fn is_commit_character(ch: char) -> (b: bool)
    ensures
        b == spec_is_commit_character(ch),
{
    ch == ' ' || ch == '_' || ch == '/' || ch == ';' || ch == '|' || ch == '!' || ch == ':' || ch
        == '\n' || ch == '\r'
}

/// The abstract state of a [`Composer`]: the live EWTS span and what it shows.
pub struct ComposerState {
    pub source: Seq<char>,
    pub rendered: Seq<char>,
}

impl ComposerState {
    /// No live span.
    pub open spec fn empty() -> ComposerState {
        ComposerState { source: Seq::empty(), rendered: Seq::empty() }
    }

    /// The shown text is always the conversion of the whole span.
    pub open spec fn wf(self) -> bool {
        &&& self.rendered == rendering(self.source)
        &&& ewts_input_ok(self.source)
    }

    /// The span after typing `ch`: empty when `ch` finishes it.
    pub open spec fn after_push(self, ch: char) -> ComposerState {
        if spec_is_commit_character(ch) {
            ComposerState::empty()
        } else {
            ComposerState {
                source: self.source.push(ch),
                rendered: rendering(self.source.push(ch)),
            }
        }
    }

    /// The span after erasing its last source character.
    pub open spec fn after_backspace(self) -> ComposerState {
        ComposerState {
            source: self.source.drop_last(),
            rendered: rendering(self.source.drop_last()),
        }
    }

    /// Room to type `ch` without exceeding what the converter handles.
    pub open spec fn accepts(self, ch: char) -> bool {
        ewts_input_ok(self.source.push(ch))
    }
}

/// Maintains one live EWTS composition span.
///
/// The span is reconverted after every keystroke. This makes ambiguous stacks
/// such as `rgy` display correctly as they are extended.
pub struct Composer {
    converter: EwtsConverter,
    source: String,
    rendered: String,
}

impl View for Composer {
    type V = ComposerState;

    closed spec fn view(&self) -> ComposerState {
        ComposerState { source: self.source@, rendered: self.rendered@ }
    }
}

impl Default for Composer {
    fn default() -> (c: Self)
        ensures
            c@ == ComposerState::empty(),
            c@.wf(),
    {
        let c = Composer {
            converter: EwtsConverter::create(),
            source: String::new(),
            rendered: String::new(),
        };
        assert(c@ =~= ComposerState::empty());
        c
    }
}

proof fn lemma_scans_drop_last(s: Seq<char>)
    requires
        s.len() > 0,
    ensures
        escape_scan(s.drop_last()).0 <= escape_scan(s).0,
        bracket_scan(s.drop_last()).0 <= bracket_scan(s).0,
{
}

impl Composer {
    pub fn source(&self) -> (s: &str)
        ensures
            s@ == self@.source,
    {
        self.source.as_str()
    }

    pub fn rendered(&self) -> (s: &str)
        ensures
            s@ == self@.rendered,
    {
        self.rendered.as_str()
    }

    pub fn is_empty(&self) -> (b: bool)
        ensures
            b == (self@.source.len() == 0),
    {
        self.source.as_str().is_empty()
    }

    /// How many bracketed spans and escapes the span opens (by `bracket_scan`
    /// and `escape_scan`).
    pub fn span_counts(&self) -> (r: (usize, usize))
        ensures
            r.0 == bracket_scan(self@.source).0,
            r.1 == escape_scan(self@.source).0,
    {
        let (opened, _open, escapes, _taking) = self.scan();
        (opened, escapes)
    }

    fn scan(&self) -> (r: (usize, bool, usize, bool))
        ensures
            (r.0 as nat, r.1) == bracket_scan(self@.source),
            (r.2 as nat, r.3) == escape_scan(self@.source),
    {
        let chars = chars_of(self.source.as_str());
        let mut opened: usize = 0;
        let mut open = false;
        let mut escapes: usize = 0;
        let mut taking = false;
        let mut i: usize = 0;
        while i < chars.len()
            invariant
                i <= chars.len(),
                chars@ == self@.source,
                (opened as nat, open) == bracket_scan(chars@.take(i as int)),
                (escapes as nat, taking) == escape_scan(chars@.take(i as int)),
                opened <= i,
                escapes <= i,
            decreases chars.len() - i,
        {
            assert(chars@.take(i + 1).drop_last() =~= chars@.take(i as int));
            let c = chars[i];
            if !open && c == '[' {
                opened = opened + 1;
                open = true;
            } else if open && c == ']' {
                open = false;
            }
            if taking {
                taking = false;
            } else if c == '\\' {
                escapes = escapes + 1;
                taking = true;
            }
            i = i + 1;
        }
        assert(chars@.take(chars.len() as int) =~= chars@);
        (opened, open, escapes, taking)
    }

    /// Whether `ch` can be typed without exceeding what the converter handles.
    pub fn accepts(&self, ch: char) -> (b: bool)
        ensures
            b == self@.accepts(ch),
    {
        let (opened, open, escapes, taking) = self.scan();
        assert(self@.source.push(ch).drop_last() =~= self@.source);
        let brackets_ok = if !open && ch == '[' { opened < 255 } else { opened < 256 };
        let escapes_ok = if !taking && ch == '\\' { escapes < 255 } else { escapes < 256 };
        brackets_ok && escapes_ok
    }

    /// Add one ASCII EWTS character and return the foreground edit.
    pub fn push(&mut self, ch: char) -> (edit: Replacement)
        requires
            old(self)@.wf(),
            (ch as u32) < 128,
            old(self)@.accepts(ch),
        ensures
            final(self)@.wf(),
            final(self)@ == old(self)@.after_push(ch),
            edit.backspaces == old(self)@.rendered.len(),
            edit.text@ == rendering(old(self)@.source.push(ch)),
    {
        let old_len = self.rendered.as_str().unicode_len();
        self.source.push(ch);
        self.rendered = self.converter.ewts_to_unicode(self.source.as_str());
        let edit = Replacement { backspaces: old_len, text: self.rendered.clone() };
        if is_commit_character(ch) {
            self.source = String::new();
            self.rendered = String::new();
            assert(self@ =~= ComposerState::empty());
        }
        edit
    }

    /// Remove one source character, if a composition is active.
    pub fn backspace(&mut self) -> (edit: Option<Replacement>)
        requires
            old(self)@.wf(),
        ensures
            final(self)@.wf(),
            old(self)@.source.len() == 0 ==> edit is None && final(self)@ == old(self)@,
            old(self)@.source.len() > 0 ==> {
                &&& final(self)@ == old(self)@.after_backspace()
                &&& edit matches Some(e) && e.backspaces == old(self)@.rendered.len()
                    && e.text@ == rendering(old(self)@.source.drop_last())
            },
    {
        let popped = self.source.pop();
        if popped.is_none() {
            return None;
        }
        proof {
            lemma_scans_drop_last(old(self)@.source);
        }
        let old_len = self.rendered.as_str().unicode_len();
        assert(self@.source == old(self)@.source.drop_last());
        assert(ewts_input_ok(self@.source));
        self.rendered = self.converter.ewts_to_unicode(self.source.as_str());
        assert(self@.rendered == rendering(self@.source));
        Some(Replacement { backspaces: old_len, text: self.rendered.clone() })
    }

    /// Finish the current span without altering its rendered text.
    pub fn commit(&mut self)
        ensures
            final(self)@ == ComposerState::empty(),
            final(self)@.wf(),
    {
        self.source = String::new();
        self.rendered = String::new();
        assert(self@ =~= ComposerState::empty());
    }
}

/// Applying a composer edit to any screen that ends with the span's old
/// rendering leaves the screen ending with the new rendering: the edit erases
/// exactly what the span showed and types what it now shows.
pub proof fn lemma_edit_replaces_rendering(prefix: Seq<char>, shown: Seq<char>, text: Seq<char>)
    ensures
        apply_edit(prefix + shown, shown.len(), text) == prefix + text,
{
    assert((prefix + shown).take(prefix.len() as int) =~= prefix);
}

/// Erasing a character just typed (one that does not finish the span) restores
/// the span exactly as it was.
pub proof fn lemma_backspace_undoes_push(s: ComposerState, ch: char)
    requires
        s.wf(),
        !spec_is_commit_character(ch),
    ensures
        s.after_push(ch).after_backspace() == s,
{
    assert(s.source.push(ch).drop_last() =~= s.source);
}

/// Typing a character that finishes the span leaves an empty composer, and the
/// edit still shows the converted span including that character.
pub proof fn lemma_commit_character_ends_span(s: ComposerState, ch: char)
    requires
        spec_is_commit_character(ch),
    ensures
        s.after_push(ch).source.len() == 0,
        s.after_push(ch).rendered.len() == 0,
{
}

/// Exactly space, `_`, `/`, `;`, `|`, `!`, `:`, newline and carriage return end
/// a span: typing one of them leaves no live span; typing any other character
/// (the a-chung `'` included) extends the span by that character.
pub proof fn lemma_commit_characters_are_exactly(s: ComposerState, ch: char)
    ensures
        (ch == ' ' || ch == '_' || ch == '/' || ch == ';' || ch == '|' || ch == '!' || ch == ':'
            || ch == '\n' || ch == '\r') ==> s.after_push(ch) == ComposerState::empty(),
        !(ch == ' ' || ch == '_' || ch == '/' || ch == ';' || ch == '|' || ch == '!' || ch == ':'
            || ch == '\n' || ch == '\r') ==> s.after_push(ch).source == s.source.push(ch),
        spec_is_commit_character(ch) <==> (ch == ' ' || ch == '_' || ch == '/' || ch == ';' || ch
            == '|' || ch == '!' || ch == ':' || ch == '\n' || ch == '\r'),
{
}

} // verus!
