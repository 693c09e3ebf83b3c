//! The keyboard state a low-level hook tracks for itself, and the
//! classification of keys and layout-translated characters.

use vstd::prelude::*;

use crate::config::Modifiers;

verus! {

pub const VK_BACK: u16 = 0x08;
pub const VK_SHIFT: u16 = 0x10;
pub const VK_CONTROL: u16 = 0x11;
pub const VK_MENU: u16 = 0x12;
pub const VK_CAPITAL: u16 = 0x14;
pub const VK_LWIN: u16 = 0x5B;
pub const VK_RWIN: u16 = 0x5C;
pub const VK_LSHIFT: u16 = 0xA0;
pub const VK_RSHIFT: u16 = 0xA1;
pub const VK_LCONTROL: u16 = 0xA2;
pub const VK_RCONTROL: u16 = 0xA3;
pub const VK_LMENU: u16 = 0xA4;
pub const VK_RMENU: u16 = 0xA5;

/// `dwExtraInfo` that marks the key events this keyboard injects itself.
pub const INPUT_MARKER: u64 = 0x4557_5453_4B42_4455;

/// `KBDLLHOOKSTRUCT` flag of an injected key event.
pub const LLKHF_INJECTED: u32 = 0x10;

/// Whether the hook hands an event on untouched: the keyboard's own injected
/// input always, and any other injected input when `ignore_injected` (release
/// builds ignore automation; debug builds accept it for end-to-end checks).
pub fn is_ignored_event(extra_info: u64, flags: u32, ignore_injected: bool) -> (b: bool)
    ensures
        b == (extra_info == INPUT_MARKER || (ignore_injected && flags & LLKHF_INJECTED != 0)),
{
    extra_info == INPUT_MARKER || (ignore_injected && flags & LLKHF_INJECTED != 0)
}

/// `KBDLLHOOKSTRUCT` flag of an extended key (the right-hand Ctrl and Alt).
pub const LLKHF_EXTENDED: u32 = 0x01;

pub const WM_KEYDOWN: usize = 0x0100;
pub const WM_KEYUP: usize = 0x0101;
pub const WM_SYSKEYDOWN: usize = 0x0104;
pub const WM_SYSKEYUP: usize = 0x0105;
pub const WM_MOUSEMOVE: u32 = 0x0200;
pub const WM_LBUTTONDOWN: u32 = 0x0201;
pub const WM_RBUTTONDOWN: u32 = 0x0204;
pub const WM_MBUTTONDOWN: u32 = 0x0207;
pub const WM_XBUTTONDOWN: u32 = 0x020B;

/// Whether `key` is held in the 256-entry state `keys` (a key's state byte has
/// bit 7 for "held" and bit 0 for "toggled on").
pub open spec fn key_down(keys: Seq<u8>, key: u16) -> bool {
    key < 256 && keys[key as int] & 0x80 != 0
}

/// Whether the toggle bit of `key` (Caps Lock's light) is on.
pub open spec fn key_toggled(keys: Seq<u8>, key: u16) -> bool {
    key < 256 && keys[key as int] & 1 != 0
}

/// The state byte after an event on the key whose byte was `old`.
pub open spec fn updated_byte(old: u8, key: u16, is_down: bool) -> u8 {
    let was_down = old & 0x80 != 0;
    let state = if key == VK_CAPITAL && is_down && !was_down {
        old ^ 1
    } else {
        old
    };
    (state & 1) | (if is_down {
        0x80u8
    } else {
        0u8
    })
}

/// The generic entry `aggregate` set held exactly when one of its sides is held.
pub open spec fn refreshed(keys: Seq<u8>, aggregate: u16, left: u16, right: u16) -> Seq<u8> {
    let down = key_down(keys, left) || key_down(keys, right);
    keys.update(
        aggregate as int,
        (keys[aggregate as int] & 1) | (if down {
            0x80u8
        } else {
            0u8
        }),
    )
}

/// The keyboard state after a key event, as `KeyboardState::update` maintains it.
pub open spec fn state_after(keys: Seq<u8>, key: u16, is_down: bool) -> Seq<u8> {
    if key >= 256 {
        keys
    } else {
        let k1 = keys.update(key as int, updated_byte(keys[key as int], key, is_down));
        if key == VK_LSHIFT || key == VK_RSHIFT {
            refreshed(k1, VK_SHIFT, VK_LSHIFT, VK_RSHIFT)
        } else if key == VK_LCONTROL || key == VK_RCONTROL {
            refreshed(k1, VK_CONTROL, VK_LCONTROL, VK_RCONTROL)
        } else if key == VK_LMENU || key == VK_RMENU {
            refreshed(k1, VK_MENU, VK_LMENU, VK_RMENU)
        } else {
            k1
        }
    }
}

/// The modifiers held in `keys`, from generic or sided entries.
pub open spec fn modifiers_of(keys: Seq<u8>) -> Modifiers {
    Modifiers {
        ctrl: key_down(keys, VK_CONTROL) || key_down(keys, VK_LCONTROL) || key_down(
            keys,
            VK_RCONTROL,
        ),
        alt: key_down(keys, VK_MENU) || key_down(keys, VK_LMENU) || key_down(keys, VK_RMENU),
        shift: key_down(keys, VK_SHIFT) || key_down(keys, VK_LSHIFT) || key_down(
            keys,
            VK_RSHIFT,
        ),
        win: key_down(keys, VK_LWIN) || key_down(keys, VK_RWIN),
    }
}

/// `keys` with every modifier entry released (toggle bits kept).
pub open spec fn modifiers_released(keys: Seq<u8>) -> Seq<u8> {
    Seq::new(
        keys.len(),
        |i: int|
            if spec_is_modifier_key(i as u16) && i < 256 {
                keys[i] & 1
            } else {
                keys[i]
            },
    )
}

/// `keys` with exactly the modifiers `m` held, as generic Shift, Ctrl, Alt and left Win.
pub open spec fn with_modifiers(keys: Seq<u8>, m: Modifiers) -> Seq<u8> {
    let cleared = modifiers_released(keys);
    let s1 = state_after(cleared, VK_SHIFT, m.shift);
    let s2 = state_after(s1, VK_CONTROL, m.ctrl);
    let s3 = state_after(s2, VK_MENU, m.alt);
    state_after(s3, VK_LWIN, m.win)
}

/// The generic Shift, Ctrl and Alt entries agree with their sided keys.
pub open spec fn sides_agree(keys: Seq<u8>) -> bool {
    &&& key_down(keys, VK_SHIFT) == (key_down(keys, VK_LSHIFT) || key_down(keys, VK_RSHIFT))
    &&& key_down(keys, VK_CONTROL) == (key_down(keys, VK_LCONTROL) || key_down(
        keys,
        VK_RCONTROL,
    ))
    &&& key_down(keys, VK_MENU) == (key_down(keys, VK_LMENU) || key_down(keys, VK_RMENU))
}

pub open spec fn spec_is_modifier_key(key: u16) -> bool {
    ||| key == VK_SHIFT || key == VK_LSHIFT || key == VK_RSHIFT
    ||| key == VK_CONTROL || key == VK_LCONTROL || key == VK_RCONTROL
    ||| key == VK_MENU || key == VK_LMENU || key == VK_RMENU
    ||| key == VK_LWIN || key == VK_RWIN
}

pub fn is_modifier_key(key: u16) -> (b: bool)
    ensures
        b == spec_is_modifier_key(key),
{
    key == VK_SHIFT || key == VK_LSHIFT || key == VK_RSHIFT || key == VK_CONTROL || key
        == VK_LCONTROL || key == VK_RCONTROL || key == VK_MENU || key == VK_LMENU || key
        == VK_RMENU || key == VK_LWIN || key == VK_RWIN
}

proof fn lemma_byte_bits(b: u8, down: bool)
    ensures
        ((b & 1) | (if down {
            0x80u8
        } else {
            0u8
        })) & 0x80 != 0 <==> down,
        ((b & 1) | (if down {
            0x80u8
        } else {
            0u8
        })) & 1 == b & 1,
{
    if down {
        assert(((b & 1) | 0x80u8) & 0x80 != 0) by (bit_vector);
        assert(((b & 1) | 0x80u8) & 1 == b & 1) by (bit_vector);
    } else {
        assert(((b & 1) | 0u8) & 0x80 == 0) by (bit_vector);
        assert(((b & 1) | 0u8) & 1 == b & 1) by (bit_vector);
    }
}

/// Nothing held; Caps Lock's light as given.
pub open spec fn initial_keys(caps_lock_on: bool) -> Seq<u8> {
    Seq::new(
        256,
        |i: int|
            if i == VK_CAPITAL && caps_lock_on {
                1u8
            } else {
                0u8
            },
    )
}

/// The keyboard state the hook maintains for itself, in the 256-byte layout that
/// `ToUnicodeEx` reads: Windows' own asynchronous state lags behind the hook.
#[derive(Clone, Copy)]
pub struct KeyboardState {
    pub keys: [u8; 256],
}

impl KeyboardState {
    /// Nothing held; Caps Lock's light as given.
    pub fn with_caps_lock(caps_lock_on: bool) -> (s: Self)
        ensures
            s.keys@ == initial_keys(caps_lock_on),
    {
        let mut keys = [0u8; 256];
        if caps_lock_on {
            keys[VK_CAPITAL as usize] = 1;
        }
        let s = KeyboardState { keys };
        assert(s.keys@ =~= initial_keys(caps_lock_on));
        s
    }

    /// Record one key event.
    pub fn update(&mut self, key: u16, is_down: bool)
        ensures
            final(self).keys@ == state_after(old(self).keys@, key, is_down),
    {
        if key >= 256 {
            return;
        }
        let idx = key as usize;
        let state = self.keys[idx];
        let was_down = state & 0x80 != 0;
        let mut toggled = state;
        if key == VK_CAPITAL && is_down && !was_down {
            toggled = toggled ^ 1;
        }
        self.keys[idx] = (toggled & 1) | if is_down {
            0x80u8
        } else {
            0u8
        };
        if key == VK_LSHIFT || key == VK_RSHIFT {
            self.refresh_aggregate(VK_SHIFT, VK_LSHIFT, VK_RSHIFT);
        } else if key == VK_LCONTROL || key == VK_RCONTROL {
            self.refresh_aggregate(VK_CONTROL, VK_LCONTROL, VK_RCONTROL);
        } else if key == VK_LMENU || key == VK_RMENU {
            self.refresh_aggregate(VK_MENU, VK_LMENU, VK_RMENU);
        }
        assert(self.keys@ =~= state_after(old(self).keys@, key, is_down));
    }

    /// Set the generic entry `aggregate` held exactly when `left` or `right` is held.
    pub fn refresh_aggregate(&mut self, aggregate: u16, left: u16, right: u16)
        requires
            aggregate < 256,
        ensures
            final(self).keys@ == refreshed(old(self).keys@, aggregate, left, right),
    {
        let is_down = self.is_down(left) || self.is_down(right);
        let toggle = self.keys[aggregate as usize] & 1;
        self.keys[aggregate as usize] = toggle | if is_down {
            0x80u8
        } else {
            0u8
        };
        assert(self.keys@ =~= refreshed(old(self).keys@, aggregate, left, right));
    }

    pub fn is_down(&self, key: u16) -> (b: bool)
        ensures
            b == key_down(self.keys@, key),
    {
        if key < 256 {
            self.keys[key as usize] & 0x80 != 0
        } else {
            false
        }
    }

    pub fn modifiers(&self) -> (m: Modifiers)
        ensures
            m == modifiers_of(self.keys@),
    {
        Modifiers {
            ctrl: self.is_down(VK_CONTROL) || self.is_down(VK_LCONTROL) || self.is_down(
                VK_RCONTROL,
            ),
            alt: self.is_down(VK_MENU) || self.is_down(VK_LMENU) || self.is_down(VK_RMENU),
            shift: self.is_down(VK_SHIFT) || self.is_down(VK_LSHIFT) || self.is_down(VK_RSHIFT),
            win: self.is_down(VK_LWIN) || self.is_down(VK_RWIN),
        }
    }

    /// This state with exactly the modifiers `modifiers` held: what a layout sees
    /// when a key is replayed under a hotkey's chord.
    pub fn for_modifiers(&self, modifiers: Modifiers) -> (s: Self)
        ensures
            s.keys@ == with_modifiers(self.keys@, modifiers),
    {
        let mut state = *self;
        let mut i: usize = 0;
        while i < 256
            invariant
                i <= 256,
                forall|j: int|
                    0 <= j < 256 ==> #[trigger] state.keys@[j] == if j < i && spec_is_modifier_key(
                        j as u16,
                    ) {
                        self.keys@[j] & 1
                    } else {
                        self.keys@[j]
                    },
            decreases 256 - i,
        {
            if is_modifier_key(i as u16) {
                state.keys[i] = state.keys[i] & 1;
            }
            i = i + 1;
        }
        assert(state.keys@ =~= modifiers_released(self.keys@));
        state.update(VK_SHIFT, modifiers.shift);
        state.update(VK_CONTROL, modifiers.ctrl);
        state.update(VK_MENU, modifiers.alt);
        state.update(VK_LWIN, modifiers.win);
        state
    }
}

/// Which physical side a generic modifier event came from.
pub open spec fn spec_normalized_state_key(key: u16, scan_code: u32, flags: u32) -> u16 {
    if key == VK_SHIFT {
        if scan_code & 0xff == 0x36 {
            VK_RSHIFT
        } else {
            VK_LSHIFT
        }
    } else if key == VK_CONTROL {
        if flags & LLKHF_EXTENDED != 0 {
            VK_RCONTROL
        } else {
            VK_LCONTROL
        }
    } else if key == VK_MENU {
        if flags & LLKHF_EXTENDED != 0 {
            VK_RMENU
        } else {
            VK_LMENU
        }
    } else {
        key
    }
}

/// Map a generic Shift, Ctrl or Alt event to the key of its physical side.
pub fn normalized_state_key(key: u16, scan_code: u32, flags: u32) -> (k: u16)
    ensures
        k == spec_normalized_state_key(key, scan_code, flags),
{
    if key == VK_SHIFT {
        if scan_code & 0xff == 0x36 {
            VK_RSHIFT
        } else {
            VK_LSHIFT
        }
    } else if key == VK_CONTROL {
        if flags & LLKHF_EXTENDED != 0 {
            VK_RCONTROL
        } else {
            VK_LCONTROL
        }
    } else if key == VK_MENU {
        if flags & LLKHF_EXTENDED != 0 {
            VK_RMENU
        } else {
            VK_LMENU
        }
    } else {
        key
    }
}

/// A Win chord, or Ctrl/Alt held without AltGr (right Alt): a shortcut, not text input.
pub open spec fn spec_is_shortcut_chord(keys: Seq<u8>) -> bool {
    let m = modifiers_of(keys);
    m.win || ((m.ctrl || m.alt) && !key_down(keys, VK_RMENU))
}

pub fn is_shortcut_chord(state: &KeyboardState) -> (b: bool)
    ensures
        b == spec_is_shortcut_chord(state.keys@),
{
    let modifiers = state.modifiers();
    let altgr = state.is_down(VK_RMENU);
    modifiers.win || ((modifiers.ctrl || modifiers.alt) && !altgr)
}

/// The modifier state the hook records keeps each generic Shift, Ctrl and Alt
/// entry held exactly when one of its sides is held, whatever sided or ordinary
/// key event arrives (generic events are first mapped to their side).
pub proof fn lemma_update_keeps_sides_agreeing(keys: Seq<u8>, key: u16, scan_code: u32, flags: u32, is_down: bool)
    requires
        keys.len() == 256,
        sides_agree(keys),
    ensures
        sides_agree(state_after(keys, spec_normalized_state_key(key, scan_code, flags), is_down)),
{
    let k = spec_normalized_state_key(key, scan_code, flags);
    if k < 256 {
        let old = keys[k as int];
        let was_down = old & 0x80 != 0;
        let state = if k == VK_CAPITAL && is_down && !was_down {
            old ^ 1
        } else {
            old
        };
        lemma_byte_bits(state, is_down);
        let k1 = keys.update(k as int, updated_byte(old, k, is_down));
        lemma_byte_bits(k1[VK_SHIFT as int], key_down(k1, VK_LSHIFT) || key_down(k1, VK_RSHIFT));
        lemma_byte_bits(k1[VK_CONTROL as int], key_down(k1, VK_LCONTROL) || key_down(k1, VK_RCONTROL));
        lemma_byte_bits(k1[VK_MENU as int], key_down(k1, VK_LMENU) || key_down(k1, VK_RMENU));
    }
}

/// `side` and `other` are the two physical keys of the generic modifier `aggregate`.
pub open spec fn modifier_sides(aggregate: u16, side: u16, other: u16) -> bool {
    let pair = |l: u16, r: u16| (side == l && other == r) || (side == r && other == l);
    ||| aggregate == VK_SHIFT && pair(VK_LSHIFT, VK_RSHIFT)
    ||| aggregate == VK_CONTROL && pair(VK_LCONTROL, VK_RCONTROL)
    ||| aggregate == VK_MENU && pair(VK_LMENU, VK_RMENU)
}

/// Pressing one side of Shift, Ctrl or Alt makes that modifier held, generic
/// entry included; releasing it while the other side is up makes it no longer
/// held.
pub proof fn lemma_sided_modifier_tracks_press(
    keys: Seq<u8>,
    aggregate: u16,
    side: u16,
    other: u16,
    is_down: bool,
)
    requires
        keys.len() == 256,
        modifier_sides(aggregate, side, other),
        !key_down(keys, other),
    ensures
        key_down(state_after(keys, side, is_down), aggregate) == is_down,
        aggregate == VK_SHIFT ==> modifiers_of(state_after(keys, side, is_down)).shift == is_down,
        aggregate == VK_CONTROL ==> modifiers_of(state_after(keys, side, is_down)).ctrl == is_down,
        aggregate == VK_MENU ==> modifiers_of(state_after(keys, side, is_down)).alt == is_down,
{
    let old = keys[side as int];
    lemma_byte_bits(old, is_down);
    let k1 = keys.update(side as int, updated_byte(old, side, is_down));
    lemma_byte_bits(k1[aggregate as int], is_down);
}

/// Caps Lock's light flips on a fresh press and on nothing else: not on
/// auto-repeat, not on release.
pub proof fn lemma_caps_lock_flips_on_fresh_press(keys: Seq<u8>, is_down: bool)
    requires
        keys.len() == 256,
    ensures
        key_toggled(state_after(keys, VK_CAPITAL, is_down), VK_CAPITAL) == if is_down
            && !key_down(keys, VK_CAPITAL) {
            !key_toggled(keys, VK_CAPITAL)
        } else {
            key_toggled(keys, VK_CAPITAL)
        },
        key_down(state_after(keys, VK_CAPITAL, is_down), VK_CAPITAL) == is_down,
{
    let old = keys[VK_CAPITAL as int];
    assert((old ^ 1) & 1 != 0 <==> old & 1 == 0) by (bit_vector);
    let state = if is_down && !(old & 0x80 != 0) {
        old ^ 1
    } else {
        old
    };
    lemma_byte_bits(state, is_down);
}

/// What a layout-translated character means to the composer.
#[derive(Debug, Clone, Copy, PartialEq, Eq, Structural)]
pub enum KeyTranslation {
    /// Type this EWTS character.
    Ewts(char),
    /// Swallow the key: a Latin letter with no EWTS meaning.
    Suppress,
    /// Let the key through untouched.
    Pass,
}

/// Single-letter tokens and prefixes accepted by the EWTS converter.
pub open spec fn spec_is_supported_ewts_letter(ch: char) -> bool {
    ||| ('a' <= ch && ch <= 'p')
    ||| ('r' <= ch && ch <= 'w')
    ||| ch == 'y' || ch == 'z'
    ||| ch == 'A' || ch == 'D' || ch == 'H' || ch == 'I' || ch == 'M' || ch == 'N'
    ||| ch == 'R' || ch == 'S' || ch == 'T' || ch == 'U' || ch == 'W' || ch == 'X' || ch == 'Y'
}

/// Single-letter tokens and prefixes accepted by the EWTS converter.
/// q has no lowercase token; unsupported capitals such as L must not leak
/// into the foreground application as Latin text.
pub fn is_supported_ewts_letter(ch: char) -> (b: bool)
    ensures
        b == spec_is_supported_ewts_letter(ch),
{
    ('a' <= ch && ch <= 'p') || ('r' <= ch && ch <= 'w') || ch == 'y' || ch == 'z' || ch == 'A'
        || ch == 'D' || ch == 'H' || ch == 'I' || ch == 'M' || ch == 'N' || ch == 'R' || ch
        == 'S' || ch == 'T' || ch == 'U' || ch == 'W' || ch == 'X' || ch == 'Y'
}

pub open spec fn spec_is_ascii_alphabetic(ch: char) -> bool {
    ('a' <= ch && ch <= 'z') || ('A' <= ch && ch <= 'Z')
}

pub open spec fn spec_is_ascii_punctuation(ch: char) -> bool {
    ||| ('!' <= ch && ch <= '/')
    ||| (':' <= ch && ch <= '@')
    ||| ('[' <= ch && ch <= '`')
    ||| ('{' <= ch && ch <= '~')
}

/// What a character produced by the active layout means to the composer.
pub open spec fn spec_classify_character(ch: char) -> KeyTranslation {
    if ch == 'x' {
        KeyTranslation::Ewts('_')
    } else if spec_is_ascii_alphabetic(ch) {
        if spec_is_supported_ewts_letter(ch) {
            KeyTranslation::Ewts(ch)
        } else {
            KeyTranslation::Suppress
        }
    } else if ch == ' ' || ('0' <= ch && ch <= '9') || spec_is_ascii_punctuation(ch) {
        KeyTranslation::Ewts(ch)
    } else {
        KeyTranslation::Pass
    }
}

/// What a character produced by the active layout means to the composer.
pub fn classify_character(ch: char) -> (t: KeyTranslation)
    ensures
        t == spec_classify_character(ch),
{
    // Lowercase x is a convenient alias for EWTS underscore, which emits a
    // regular word space. Uppercase X retains its standard EWTS meaning.
    if ch == 'x' {
        KeyTranslation::Ewts('_')
    } else if ('a' <= ch && ch <= 'z') || ('A' <= ch && ch <= 'Z') {
        if is_supported_ewts_letter(ch) {
            KeyTranslation::Ewts(ch)
        } else {
            KeyTranslation::Suppress
        }
    } else if ch == ' ' || ('0' <= ch && ch <= '9') || ('!' <= ch && ch <= '/') || (':' <= ch
        && ch <= '@') || ('[' <= ch && ch <= '`') || ('{' <= ch && ch <= '~') {
        KeyTranslation::Ewts(ch)
    } else {
        KeyTranslation::Pass
    }
}

/// Only printable ASCII reaches the composer, and every Latin letter is either
/// typed as EWTS or swallowed: none leaks to the application as Latin text.
pub proof fn lemma_classification_is_safe(ch: char)
    ensures
        spec_classify_character(ch) matches KeyTranslation::Ewts(c) ==> (' ' <= c && c <= '~'),
        spec_is_ascii_alphabetic(ch) ==> !(spec_classify_character(ch) is Pass),
        ((ch as u32) >= 128 || ch < ' ') ==> spec_classify_character(ch) is Pass,
{
}

/// Whether `c` is a valid `char` value: not a surrogate and at most `0x10FFFF`.
pub open spec fn is_scalar_value(c: u32) -> bool {
    c < 0xD800 || (0xE000 <= c && c <= 0x10FFFF)
}

/// `char::from_u32`: the char of code point `i`, or `None` for a surrogate or a
/// value past `0x10FFFF`.
pub assume_specification[ core::char::from_u32 ](i: u32) -> (r: Option<char>)
    ensures
        is_scalar_value(i) ==> r == Some(i as char),
        !is_scalar_value(i) ==> r is None,
;

/// What `ToUnicodeEx` produced for a key (how many UTF-16 units, and the first
/// of them) means to the composer: anything but exactly one valid character
/// passes the key through untouched.
pub open spec fn spec_translation_of(count: i32, first_unit: u16) -> KeyTranslation {
    if count != 1 || !is_scalar_value(first_unit as u32) {
        KeyTranslation::Pass
    } else {
        spec_classify_character((first_unit as u32) as char)
    }
}

/// What `ToUnicodeEx` produced for a key means to the composer.
pub fn translation_of(count: i32, first_unit: u16) -> (t: KeyTranslation)
    ensures
        t == spec_translation_of(count, first_unit),
        t matches KeyTranslation::Ewts(c) ==> ' ' <= c && c <= '~',
{
    proof {
        lemma_classification_is_safe((first_unit as u32) as char);
    }
    if count != 1 {
        return KeyTranslation::Pass;
    }
    match core::char::from_u32(first_unit as u32) {
        Some(ch) => classify_character(ch),
        None => KeyTranslation::Pass,
    }
}

/// Whether a low-level mouse message is a button press, which can move the caret.
pub open spec fn spec_is_mouse_button_down(message: usize) -> bool {
    let m = message as u32;
    m == WM_LBUTTONDOWN || m == WM_RBUTTONDOWN || m == WM_MBUTTONDOWN || m == WM_XBUTTONDOWN
}

pub fn is_mouse_button_down(message: usize) -> (b: bool)
    ensures
        b == spec_is_mouse_button_down(message),
{
    let m = message as u32;
    m == WM_LBUTTONDOWN || m == WM_RBUTTONDOWN || m == WM_MBUTTONDOWN || m == WM_XBUTTONDOWN
}

/// Whether a low-level keyboard message is a press (`Some(true)`), a release
/// (`Some(false)`), or neither.
pub fn key_direction(message: usize) -> (d: Option<bool>)
    ensures
        d == if message == WM_KEYDOWN || message == WM_SYSKEYDOWN {
            Some(true)
        } else if message == WM_KEYUP || message == WM_SYSKEYUP {
            Some(false)
        } else {
            None::<bool>
        },
{
    if message == WM_KEYDOWN || message == WM_SYSKEYDOWN {
        Some(true)
    } else if message == WM_KEYUP || message == WM_SYSKEYUP {
        Some(false)
    } else {
        None
    }
}

/// Every lowercase ASCII letter but `q` and `x` is typed as itself; `x` is
/// typed as the word space `_`, and `q` is swallowed. The capitals A, D, H, I,
/// M, N, R, S, T, U, W, X and Y are typed as themselves; every other capital is
/// swallowed.
pub proof fn lemma_letters_classify(ch: char)
    ensures
        ('a' <= ch && ch <= 'z' && ch != 'q' && ch != 'x') ==> spec_classify_character(ch)
            == KeyTranslation::Ewts(ch),
        spec_classify_character('x') == KeyTranslation::Ewts('_'),
        spec_classify_character('q') == KeyTranslation::Suppress,
        (ch == 'A' || ch == 'D' || ch == 'H' || ch == 'I' || ch == 'M' || ch == 'N' || ch == 'R'
            || ch == 'S' || ch == 'T' || ch == 'U' || ch == 'W' || ch == 'X' || ch == 'Y')
            ==> spec_classify_character(ch) == KeyTranslation::Ewts(ch),
        ('A' <= ch && ch <= 'Z' && !(ch == 'A' || ch == 'D' || ch == 'H' || ch == 'I' || ch == 'M'
            || ch == 'N' || ch == 'R' || ch == 'S' || ch == 'T' || ch == 'U' || ch == 'W' || ch
            == 'X' || ch == 'Y')) ==> spec_classify_character(ch) == KeyTranslation::Suppress,
{
}

} // verus!
