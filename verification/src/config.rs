//! User configuration and hotkey values.

use vstd::prelude::*;

pub use crate::matcher::{HotkeyMatch, HotkeyMatcher};
use crate::matcher::{repeated_stroke_hotkey, spec_required_modifier_key, MatcherState};
use crate::text::{
    ascii_lower, ascii_upper, chars_equal, chars_of, split, split_chars, to_ascii_lower,
    to_ascii_upper, trim, trim_chars,
};

verus! {

/// Held modifier keys, as seen just before a key event.
#[derive(Debug, Clone, Copy, PartialEq, Eq, Structural)]
pub struct Modifiers {
    pub ctrl: bool,
    pub alt: bool,
    pub shift: bool,
    pub win: bool,
}

impl Modifiers {
    /// No modifier held.
    pub open spec fn none() -> Modifiers {
        Modifiers { ctrl: false, alt: false, shift: false, win: false }
    }

    /// At least one modifier is held.
    pub open spec fn any(self) -> bool {
        self.ctrl || self.alt || self.shift || self.win
    }
}

impl Default for Modifiers {
    fn default() -> (m: Self)
        ensures
            m == Modifiers::none(),
    {
        Modifiers { ctrl: false, alt: false, shift: false, win: false }
    }
}

/// A toggle hotkey: modifiers plus one or more strokes of Windows virtual keys.
/// Multi-stroke hotkeys repeat the same key, for example `Shift+Space+Space`.
#[derive(Debug, Clone, PartialEq, Eq)]
pub struct Hotkey {
    pub modifiers: Modifiers,
    pub keys: Vec<u16>,
}


/// Persistent user settings.
#[derive(Debug, Clone, PartialEq, Eq)]
pub struct Config {
    /// Human-editable global toggle chord or repeated stroke, for example
    /// `Ctrl+Alt+T` or `Shift+Space+Space`.
    pub hotkey: String,
    /// Start in Tibetan mode rather than disabled mode.
    pub enabled_on_start: bool,
}

impl Default for Config {
    fn default() -> (c: Self)
        ensures
            c.hotkey@ == "Shift+Space+Space"@,
            !c.enabled_on_start,
    {
        Config { hotkey: "Shift+Space+Space".to_owned(), enabled_on_start: false }
    }
}

impl Config {
    pub fn parsed_hotkey(&self) -> (r: Result<Hotkey, HotkeyParseError>)
        ensures
            hotkey_result_is(r, spec_parse_hotkey(self.hotkey@)),
    {
        Hotkey::parse(self.hotkey.as_str())
    }
}

/// Why a hotkey setting was rejected.
#[derive(Debug, Clone, PartialEq, Eq)]
pub struct HotkeyParseError(pub String);

pub open spec fn spec_is_ascii_digit(c: char) -> bool {
    '0' <= c && c <= '9'
}

pub open spec fn spec_is_ascii_alphanumeric(c: char) -> bool {
    ||| spec_is_ascii_digit(c)
    ||| ('A' <= c && c <= 'Z')
    ||| ('a' <= c && c <= 'z')
}

/// The number written by the decimal digits `s`.
pub open spec fn digits_value(s: Seq<char>) -> nat
    decreases s.len(),
{
    if s.len() == 0 {
        0
    } else {
        digits_value(s.drop_last()) * 10 + ((s.last() as int) - ('0' as int)) as nat
    }
}

/// `s` without one leading `+`, if it has one.
pub open spec fn sign_stripped(s: Seq<char>) -> Seq<char> {
    if s.len() > 0 && s[0] == '+' {
        s.drop_first()
    } else {
        s
    }
}

pub open spec fn all_ascii_digits(s: Seq<char>) -> bool {
    forall|i: int| 0 <= i < s.len() ==> spec_is_ascii_digit(#[trigger] s[i])
}

/// What `str::parse::<u16>` accepts: an optional `+`, then one or more decimal
/// digits whose value fits in 16 bits.
pub open spec fn spec_parse_u16(s: Seq<char>) -> Option<u16> {
    let digits = sign_stripped(s);
    if 0 < digits.len() && all_ascii_digits(digits) && digits_value(digits) <= 0xFFFF {
        Some(digits_value(digits) as u16)
    } else {
        None
    }
}

pub open spec fn unsupported_key_message(token: Seq<char>) -> Seq<char> {
    "unsupported hotkey key: "@ + token
}

/// The virtual-key value named by one non-modifier hotkey component.
pub open spec fn spec_parse_key(token: Seq<char>) -> Result<u16, Seq<char>> {
    let upper = ascii_upper(token);
    if upper.len() == 1 && spec_is_ascii_alphanumeric(upper[0]) {
        Ok(upper[0] as u16)
    } else if upper.len() > 0 && upper[0] == 'F' && spec_parse_u16(upper.drop_first()) is Some
        && 1 <= spec_parse_u16(upper.drop_first())->0 <= 24 {
        Ok((0x70 + spec_parse_u16(upper.drop_first())->0 - 1) as u16)
    } else if upper == seq!['S', 'P', 'A', 'C', 'E'] {
        Ok(0x20)
    } else if upper == seq!['T', 'A', 'B'] {
        Ok(0x09)
    } else if upper == seq!['E', 'N', 'T', 'E', 'R'] || upper == seq!['R', 'E', 'T', 'U', 'R', 'N'] {
        Ok(0x0D)
    } else if upper == seq!['E', 'S', 'C'] || upper == seq!['E', 'S', 'C', 'A', 'P', 'E'] {
        Ok(0x1B)
    } else {
        Err(unsupported_key_message(token))
    }
}

/// Fold one `+`-separated component into the modifiers and keys read so far.
pub open spec fn apply_component(m: Modifiers, keys: Seq<u16>, raw: Seq<char>) -> Result<
    (Modifiers, Seq<u16>),
    Seq<char>,
> {
    let token = trim(raw);
    let lower = ascii_lower(token);
    if token.len() == 0 {
        Err("empty hotkey component"@)
    } else if lower == seq!['c', 't', 'r', 'l'] || lower == seq!['c', 'o', 'n', 't', 'r', 'o', 'l'] {
        Ok((Modifiers { ctrl: true, ..m }, keys))
    } else if lower == seq!['a', 'l', 't'] {
        Ok((Modifiers { alt: true, ..m }, keys))
    } else if lower == seq!['s', 'h', 'i', 'f', 't'] {
        Ok((Modifiers { shift: true, ..m }, keys))
    } else if lower == seq!['w', 'i', 'n'] || lower == seq!['w', 'i', 'n', 'd', 'o', 'w', 's']
        || lower == seq!['s', 'u', 'p', 'e', 'r'] {
        Ok((Modifiers { win: true, ..m }, keys))
    } else {
        match spec_parse_key(token) {
            Ok(k) => Ok((m, keys.push(k))),
            Err(e) => Err(e),
        }
    }
}

/// Read the components in order, stopping at the first rejected one.
pub open spec fn parse_components(m: Modifiers, keys: Seq<u16>, parts: Seq<Seq<char>>) -> Result<
    (Modifiers, Seq<u16>),
    Seq<char>,
>
    decreases parts.len(),
{
    if parts.len() == 0 {
        Ok((m, keys))
    } else {
        match apply_component(m, keys, parts[0]) {
            Ok((m2, k2)) => parse_components(m2, k2, parts.drop_first()),
            Err(e) => Err(e),
        }
    }
}

/// The hotkey that a setting such as `Ctrl+Alt+T` or `Shift+Space+Space` names,
/// or the message explaining why it is rejected.
pub open spec fn spec_parse_hotkey(source: Seq<char>) -> Result<(Modifiers, Seq<u16>), Seq<char>> {
    match parse_components(Modifiers::none(), Seq::empty(), split(source, '+')) {
        Err(e) => Err(e),
        Ok((m, keys)) => if keys.len() == 0 {
            Err("hotkey needs a non-modifier key"@)
        } else if exists|i: int| 0 <= i < keys.len() && #[trigger] keys[i] != keys[0] {
            Err("multi-stroke hotkeys must repeat the same main key"@)
        } else if !m.any() {
            Err("hotkey needs at least one modifier"@)
        } else {
            Ok((m, keys))
        },
    }
}

/// Whether a hotkey parse result agrees with the specification's result.
pub open spec fn hotkey_result_is(r: Result<Hotkey, HotkeyParseError>, spec: Result<(Modifiers, Seq<u16>), Seq<char>>) -> bool {
    match r {
        Ok(h) => spec == Ok::<(Modifiers, Seq<u16>), Seq<char>>((h.modifiers, h.keys@)),
        Err(e) => spec == Err::<(Modifiers, Seq<u16>), Seq<char>>(e.0@),
    }
}

fn is_ascii_digit(c: char) -> (b: bool)
    ensures
        b == spec_is_ascii_digit(c),
{
    '0' <= c && c <= '9'
}

fn is_ascii_alphanumeric(c: char) -> (b: bool)
    ensures
        b == spec_is_ascii_alphanumeric(c),
{
    ('0' <= c && c <= '9') || ('A' <= c && c <= 'Z') || ('a' <= c && c <= 'z')
}

fn error_from(message: &str) -> (e: HotkeyParseError)
    ensures
        e.0@ == message@,
{
    HotkeyParseError(message.to_owned())
}

/// `str::parse::<u16>` over a character sequence.
pub fn parse_u16(s: &Vec<char>) -> (r: Option<u16>)
    ensures
        r == spec_parse_u16(s@),
{
    let start: usize = if s.len() > 0 && s[0] == '+' { 1 } else { 0 };
    let ghost digits = sign_stripped(s@);
    assert(digits =~= s@.skip(start as int));
    if start >= s.len() {
        return None;
    }
    // The value read so far, capped just above the largest `u16`.
    let mut value: u32 = 0;
    let mut i: usize = start;
    while i < s.len()
        invariant
            start <= i <= s.len(),
            digits == s@.skip(start as int),
            digits == sign_stripped(s@),
            forall|j: int| 0 <= j < i - start ==> spec_is_ascii_digit(#[trigger] digits[j]),
            value as int == if digits_value(digits.take(i - start)) > 0x10000 {
                0x10000
            } else {
                digits_value(digits.take(i - start))
            },
        decreases s.len() - i,
    {
        let c = s[i];
        if !is_ascii_digit(c) {
            assert(digits[i - start] == c);
            assert(!spec_is_ascii_digit(digits[i - start]));
            return None;
        }
        let d: u32 = (c as u32) - ('0' as u32);
        assert(digits.take(i + 1 - start).drop_last() =~= digits.take(i - start));
        assert(digits.take(i + 1 - start).last() == c);
        let next: u32 = value * 10 + d;
        value = if next > 0x10000 { 0x10000 } else { next };
        i = i + 1;
    }
    assert(digits.take(s.len() - start) =~= digits);
    if value > 0xFFFF {
        None
    } else {
        Some(value as u16)
    }
}

/// The virtual-key value named by one non-modifier hotkey component.
pub fn parse_key(token: &str) -> (r: Result<u16, HotkeyParseError>)
    ensures
        match r {
            Ok(k) => spec_parse_key(token@) == Ok::<u16, Seq<char>>(k),
            Err(e) => spec_parse_key(token@) == Err::<u16, Seq<char>>(e.0@),
        },
{
    let chars = chars_of(token);
    parse_key_chars(&chars)
}

fn parse_key_chars(token: &Vec<char>) -> (r: Result<u16, HotkeyParseError>)
    ensures
        match r {
            Ok(k) => spec_parse_key(token@) == Ok::<u16, Seq<char>>(k),
            Err(e) => spec_parse_key(token@) == Err::<u16, Seq<char>>(e.0@),
        },
{
    let upper = to_ascii_upper(token);
    if upper.len() == 1 {
        let c = upper[0];
        if is_ascii_alphanumeric(c) {
            let code: u32 = c as u32;
            return Ok(code as u16);
        }
    }
    if upper.len() > 0 && upper[0] == 'F' {
        let mut rest: Vec<char> = Vec::new();
        let mut i: usize = 1;
        while i < upper.len()
            invariant
                1 <= i <= upper.len(),
                rest@ == upper@.subrange(1, i as int),
            decreases upper.len() - i,
        {
            rest.push(upper[i]);
            i = i + 1;
            assert(rest@ =~= upper@.subrange(1, i as int));
        }
        assert(rest@ =~= upper@.drop_first());
        match parse_u16(&rest) {
            Some(n) => {
                if 1 <= n && n <= 24 {
                    return Ok(0x70 + n - 1);
                }
            },
            None => {},
        }
    }
    if chars_equal(&upper, &['S', 'P', 'A', 'C', 'E']) {
        return Ok(0x20);
    }
    if chars_equal(&upper, &['T', 'A', 'B']) {
        return Ok(0x09);
    }
    if chars_equal(&upper, &['E', 'N', 'T', 'E', 'R']) || chars_equal(
        &upper,
        &['R', 'E', 'T', 'U', 'R', 'N'],
    ) {
        return Ok(0x0D);
    }
    if chars_equal(&upper, &['E', 'S', 'C']) || chars_equal(&upper, &['E', 'S', 'C', 'A', 'P', 'E']) {
        return Ok(0x1B);
    }
    let mut message = "unsupported hotkey key: ".to_owned();
    let mut i: usize = 0;
    while i < token.len()
        invariant
            i <= token.len(),
            message@ == "unsupported hotkey key: "@ + token@.take(i as int),
        decreases token.len() - i,
    {
        message.push(token[i]);
        i = i + 1;
        assert(message@ =~= "unsupported hotkey key: "@ + token@.take(i as int));
    }
    assert(token@.take(token.len() as int) =~= token@);
    Err(HotkeyParseError(message))
}

impl Hotkey {
    /// Parse a human-editable hotkey such as `Ctrl+Alt+T` or `Shift+Space+Space`.
    pub fn parse(source: &str) -> (r: Result<Hotkey, HotkeyParseError>)
        ensures
            hotkey_result_is(r, spec_parse_hotkey(source@)),
    {
        let chars = chars_of(source);
        let parts = split_chars(&chars, '+');
        let ghost pv = parts@.map_values(|p: Vec<char>| p@);
        let mut modifiers = Modifiers { ctrl: false, alt: false, shift: false, win: false };
        let mut keys: Vec<u16> = Vec::new();
        let mut i: usize = 0;
        assert(pv.skip(0) =~= pv);
        while i < parts.len()
            invariant
                i <= parts.len(),
                pv == parts@.map_values(|p: Vec<char>| p@),
                pv == split(source@, '+'),
                parse_components(Modifiers::none(), Seq::empty(), pv) == parse_components(
                    modifiers,
                    keys@,
                    pv.skip(i as int),
                ),
            decreases parts.len() - i,
        {
            let ghost rest = pv.skip(i as int);
            assert(rest[0] == parts@[i as int]@);
            assert(rest.drop_first() =~= pv.skip(i + 1));
            let token = trim_chars(&parts[i]);
            if token.len() == 0 {
                return Err(error_from("empty hotkey component"));
            }
            let lower = to_ascii_lower(&token);
            if chars_equal(&lower, &['c', 't', 'r', 'l']) || chars_equal(
                &lower,
                &['c', 'o', 'n', 't', 'r', 'o', 'l'],
            ) {
                modifiers.ctrl = true;
            } else if chars_equal(&lower, &['a', 'l', 't']) {
                modifiers.alt = true;
            } else if chars_equal(&lower, &['s', 'h', 'i', 'f', 't']) {
                modifiers.shift = true;
            } else if chars_equal(&lower, &['w', 'i', 'n']) || chars_equal(
                &lower,
                &['w', 'i', 'n', 'd', 'o', 'w', 's'],
            ) || chars_equal(&lower, &['s', 'u', 'p', 'e', 'r']) {
                modifiers.win = true;
            } else {
                match parse_key_chars(&token) {
                    Ok(k) => keys.push(k),
                    Err(e) => return Err(e),
                }
            }
            i = i + 1;
        }
        assert(pv.skip(i as int) =~= Seq::<Seq<char>>::empty());
        assert(parse_components(Modifiers::none(), Seq::empty(), split(source@, '+')) == Ok::<
            (Modifiers, Seq<u16>),
            Seq<char>,
        >((modifiers, keys@)));
        if keys.len() == 0 {
            return Err(error_from("hotkey needs a non-modifier key"));
        }
        let first_key = keys[0];
        let mut j: usize = 0;
        while j < keys.len()
            invariant
                j <= keys.len(),
                first_key == keys@[0],
                parse_components(Modifiers::none(), Seq::empty(), split(source@, '+')) == Ok::<
                    (Modifiers, Seq<u16>),
                    Seq<char>,
                >((modifiers, keys@)),
                forall|t: int| 0 <= t < j ==> keys@[t] == first_key,
            decreases keys.len() - j,
        {
            if keys[j] != first_key {
                assert(keys@[j as int] != keys@[0]);
                return Err(error_from("multi-stroke hotkeys must repeat the same main key"));
            }
            j = j + 1;
        }
        if !modifiers.ctrl && !modifiers.alt && !modifiers.shift && !modifiers.win {
            return Err(error_from("hotkey needs at least one modifier"));
        }
        Ok(Hotkey { modifiers, keys })
    }
}

/// Virtual keys that a hotkey component can name: letters, digits, `F1`–`F24`,
/// `Space`, `Tab`, `Enter` and `Escape`.
pub open spec fn spec_is_main_key(k: u16) -> bool {
    ||| 0x30 <= k <= 0x39
    ||| 0x41 <= k <= 0x5A
    ||| 0x70 <= k <= 0x87
    ||| k == 0x20 || k == 0x09 || k == 0x0D || k == 0x1B
}

proof fn lemma_parse_key_names_main_key(token: Seq<char>)
    ensures
        spec_parse_key(token) matches Ok(k) ==> spec_is_main_key(k),
{
    let upper = ascii_upper(token);
    if upper.len() == 1 && spec_is_ascii_alphanumeric(upper[0]) {
        let c = token[0];
        assert(upper[0] == crate::text::ascii_upper_char(c));
        assert(!('a' <= upper[0] && upper[0] <= 'z'));
    }
}

proof fn lemma_components_name_main_keys(m: Modifiers, keys: Seq<u16>, parts: Seq<Seq<char>>)
    requires
        forall|i: int| 0 <= i < keys.len() ==> spec_is_main_key(#[trigger] keys[i]),
    ensures
        parse_components(m, keys, parts) matches Ok((m2, k2)) ==> forall|i: int|
            0 <= i < k2.len() ==> spec_is_main_key(#[trigger] k2[i]),
    decreases parts.len(),
{
    if parts.len() > 0 {
        let token = trim(parts[0]);
        lemma_parse_key_names_main_key(token);
        match apply_component(m, keys, parts[0]) {
            Ok((m2, k2)) => {
                assert forall|i: int| 0 <= i < k2.len() implies spec_is_main_key(#[trigger] k2[i]) by {
                    if i < keys.len() {
                        assert(k2[i] == keys[i]);
                    }
                }
                lemma_components_name_main_keys(m2, k2, parts.drop_first());
            },
            Err(_) => {},
        }
    }
}

/// Every accepted hotkey holds at least one modifier and at least one stroke, all
/// of one key that is not itself a modifier: exactly the hotkeys for which the
/// matcher's repeated-stroke guarantee holds.
pub proof fn lemma_parsed_hotkey_is_repeated_stroke(source: Seq<char>)
    ensures
        spec_parse_hotkey(source) matches Ok((m, keys)) ==> {
            &&& m.any()
            &&& repeated_stroke_hotkey(m, keys)
            &&& MatcherState::fresh(m, keys).wf()
        },
{
    lemma_components_name_main_keys(Modifiers::none(), Seq::empty(), split(source, '+'));
    if let Ok((m, keys)) = spec_parse_hotkey(source) {
        assert(spec_is_main_key(keys[0]));
        assert(!spec_required_modifier_key(keys[0], m));
    }
}

/// Whether some `+`-separated component, ignoring ASCII case and surrounding
/// whitespace, is `word`.
pub open spec fn has_component(parts: Seq<Seq<char>>, word: Seq<char>) -> bool {
    exists|i: int| 0 <= i < parts.len() && ascii_lower(trim(#[trigger] parts[i])) == word
}

proof fn lemma_has_component_unfold(parts: Seq<Seq<char>>, word: Seq<char>)
    requires
        parts.len() > 0,
    ensures
        has_component(parts, word) <==> (ascii_lower(trim(parts[0])) == word || has_component(
            parts.drop_first(),
            word,
        )),
{
    let rest = parts.drop_first();
    if has_component(parts, word) {
        let i = choose|i: int| 0 <= i < parts.len() && ascii_lower(trim(#[trigger] parts[i])) == word;
        if i > 0 {
            assert(rest[i - 1] == parts[i]);
        }
    }
    if has_component(rest, word) {
        let j = choose|j: int| 0 <= j < rest.len() && ascii_lower(trim(#[trigger] rest[j])) == word;
        assert(parts[j + 1] == rest[j]);
    }
}

/// Each component sets the flag of the modifier it names and no other.
proof fn lemma_components_set_named_flags(m: Modifiers, keys: Seq<u16>, parts: Seq<Seq<char>>)
    ensures
        parse_components(m, keys, parts) matches Ok((m2, k2)) ==> {
            &&& m2.alt <==> (m.alt || has_component(parts, seq!['a', 'l', 't']))
            &&& m2.ctrl <==> (m.ctrl || has_component(parts, seq!['c', 't', 'r', 'l'])
                || has_component(parts, seq!['c', 'o', 'n', 't', 'r', 'o', 'l']))
            &&& m2.shift <==> (m.shift || has_component(parts, seq!['s', 'h', 'i', 'f', 't']))
            &&& m2.win <==> (m.win || has_component(parts, seq!['w', 'i', 'n']) || has_component(
                parts,
                seq!['w', 'i', 'n', 'd', 'o', 'w', 's'],
            ) || has_component(parts, seq!['s', 'u', 'p', 'e', 'r']))
        },
    decreases parts.len(),
{
    if parts.len() > 0 {
        lemma_has_component_unfold(parts, seq!['a', 'l', 't']);
        lemma_has_component_unfold(parts, seq!['c', 't', 'r', 'l']);
        lemma_has_component_unfold(parts, seq!['c', 'o', 'n', 't', 'r', 'o', 'l']);
        lemma_has_component_unfold(parts, seq!['s', 'h', 'i', 'f', 't']);
        lemma_has_component_unfold(parts, seq!['w', 'i', 'n']);
        lemma_has_component_unfold(parts, seq!['w', 'i', 'n', 'd', 'o', 'w', 's']);
        lemma_has_component_unfold(parts, seq!['s', 'u', 'p', 'e', 'r']);
        let lower = ascii_lower(trim(parts[0]));
        assert(seq!['a', 'l', 't'][0] != seq!['w', 'i', 'n'][0]);
        assert(seq!['c', 't', 'r', 'l'][0] != seq!['w', 'i', 'n', 'd'][0]);
        match apply_component(m, keys, parts[0]) {
            Ok((m1, k1)) => {
                lemma_components_set_named_flags(m1, k1, parts.drop_first());
                if lower == seq!['a', 'l', 't'] {
                    assert(lower[0] == 'a');
                }
                if lower == seq!['s', 'h', 'i', 'f', 't'] {
                    assert(lower[0] == 's' && lower[1] == 'h');
                }
                if lower == seq!['s', 'u', 'p', 'e', 'r'] {
                    assert(lower[0] == 's' && lower[1] == 'u');
                }
                if lower == seq!['c', 't', 'r', 'l'] {
                    assert(lower[0] == 'c');
                }
                if lower == seq!['w', 'i', 'n'] {
                    assert(lower[0] == 'w');
                }
            },
            Err(_) => {},
        }
    }
}

/// A parsed hotkey holds exactly the modifiers its components name, each
/// component read without regard to ASCII case or surrounding whitespace: Alt
/// when one is `alt`; Ctrl when one is `ctrl` or `control`; Shift when one is
/// `shift`; Win when one is `win`, `windows` or `super`.
pub proof fn lemma_parsed_modifiers_are_named(source: Seq<char>)
    ensures
        spec_parse_hotkey(source) matches Ok((m, keys)) ==> {
            let parts = split(source, '+');
            &&& m.alt <==> has_component(parts, seq!['a', 'l', 't'])
            &&& m.ctrl <==> (has_component(parts, seq!['c', 't', 'r', 'l']) || has_component(
                parts,
                seq!['c', 'o', 'n', 't', 'r', 'o', 'l'],
            ))
            &&& m.shift <==> has_component(parts, seq!['s', 'h', 'i', 'f', 't'])
            &&& m.win <==> (has_component(parts, seq!['w', 'i', 'n']) || has_component(
                parts,
                seq!['w', 'i', 'n', 'd', 'o', 'w', 's'],
            ) || has_component(parts, seq!['s', 'u', 'p', 'e', 'r']))
        },
{
    lemma_components_set_named_flags(Modifiers::none(), Seq::empty(), split(source, '+'));
}

impl std::str::FromStr for Hotkey {
    type Err = HotkeyParseError;

    fn from_str(source: &str) -> (r: Result<Self, Self::Err>)
        ensures
            hotkey_result_is(r, spec_parse_hotkey(source@)),
    {
        Hotkey::parse(source)
    }
}

} // verus!
