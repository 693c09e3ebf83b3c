//! Text shown in the tray, and strings prepared for Win32 wide-character calls.

use vstd::prelude::*;

verus! {

/// The tray menu entry that switches Tibetan input.
pub open spec fn spec_toggle_label(enabled: bool, hotkey: Seq<char>) -> Seq<char> {
    (if enabled {
        "Disable"@
    } else {
        "Enable"@
    }) + " Tibetan ("@ + hotkey + ")"@
}

/// The tray icon's tooltip.
pub open spec fn spec_tooltip(enabled: bool, hotkey: Seq<char>) -> Seq<char> {
    "Tibetan EWTS Keyboard: "@ + (if enabled {
        "enabled"@
    } else {
        "disabled"@
    }) + "\nToggle: "@ + hotkey
}

/// The tray menu entry that switches Tibetan input.
pub fn toggle_label(enabled: bool, hotkey: &str) -> (s: String)
    ensures
        s@ == spec_toggle_label(enabled, hotkey@),
{
    let mut label = if enabled {
        "Disable".to_owned()
    } else {
        "Enable".to_owned()
    };
    label.append(" Tibetan (");
    label.append(hotkey);
    label.append(")");
    label
}

/// The tray icon's tooltip.
pub fn tooltip(enabled: bool, hotkey: &str) -> (s: String)
    ensures
        s@ == spec_tooltip(enabled, hotkey@),
{
    let mut text = "Tibetan EWTS Keyboard: ".to_owned();
    text.append(if enabled {
        "enabled"
    } else {
        "disabled"
    });
    text.append("\nToggle: ");
    text.append(hotkey);
    text
}

/// The UTF-16 code units of one character, as `char::encode_utf16` writes them.
pub open spec fn utf16_of_char(c: char) -> Seq<u16> {
    let v = c as u32;
    if v < 0x10000 {
        seq![v as u16]
    } else {
        let u = v - 0x10000;
        seq![(0xD800 + u / 0x400) as u16, (0xDC00 + u % 0x400) as u16]
    }
}

/// The UTF-16 encoding of `s`, as `str::encode_utf16` produces it.
pub open spec fn utf16(s: Seq<char>) -> Seq<u16>
    decreases s.len(),
{
    if s.len() == 0 {
        Seq::empty()
    } else {
        utf16(s.drop_last()) + utf16_of_char(s.last())
    }
}

/// `value` in UTF-16, as `str::encode_utf16` produces it.
pub fn encode_utf16(value: &str) -> (w: Vec<u16>)
    ensures
        w@ == utf16(value@),
{
    let chars = crate::text::chars_of(value);
    let mut w: Vec<u16> = Vec::new();
    let mut i: usize = 0;
    while i < chars.len()
        invariant
            i <= chars.len(),
            chars@ == value@,
            w@ == utf16(chars@.take(i as int)),
        decreases chars.len() - i,
    {
        let c = chars[i];
        let v: u32 = c as u32;
        if v < 0x10000 {
            w.push(v as u16);
        } else {
            let u: u32 = v - 0x10000;
            w.push((0xD800 + u / 0x400) as u16);
            w.push((0xDC00 + u % 0x400) as u16);
        }
        assert(chars@.take(i + 1).drop_last() =~= chars@.take(i as int));
        i = i + 1;
        assert(w@ =~= utf16(chars@.take(i as int)));
    }
    assert(chars@.take(chars.len() as int) =~= chars@);
    w
}

/// `value` in UTF-16 with a terminating NUL, for Win32 wide-string parameters.
pub fn wide_null(value: &str) -> (w: Vec<u16>)
    ensures
        w@ == utf16(value@).push(0),
{
    let mut w = encode_utf16(value);
    w.push(0);
    w
}

proof fn lemma_utf16_nonzero(s: Seq<char>)
    requires
        forall|i: int| 0 <= i < s.len() ==> #[trigger] s[i] != '\0',
    ensures
        forall|j: int| 0 <= j < utf16(s).len() ==> #[trigger] utf16(s)[j] != 0,
    decreases s.len(),
{
    if s.len() > 0 {
        lemma_utf16_nonzero(s.drop_last());
        let p = utf16(s.drop_last());
        let c = s.last();
        assert(c == s[s.len() - 1]);
        assert forall|j: int| 0 <= j < utf16(s).len() implies #[trigger] utf16(s)[j] != 0 by {
            if j < p.len() {
                assert(utf16(s)[j] == p[j]);
            } else {
                assert(utf16(s)[j] == utf16_of_char(c)[j - p.len()]);
                let v = c as u32;
                vstd::utf8::char_is_scalar(c);
                vstd::utf8::char_u32_cast(c, v);
                vstd::utf8::char_u32_cast('\0', 0);
                assert(v != 0);
                if v >= 0x10000 {
                    let u = v - 0x10000;
                    assert(u <= 0x100000);
                    assert(u / 0x400 <= 0x400);
                    assert(u % 0x400 < 0x400);
                }
            }
        }
    }
}

/// A string without NUL characters becomes a well-formed wide C string: its only
/// zero unit is the terminator.
pub proof fn lemma_wide_null_is_terminated_once(value: Seq<char>)
    requires
        forall|i: int| 0 <= i < value.len() ==> #[trigger] value[i] != '\0',
    ensures
        utf16(value).push(0).last() == 0,
        forall|j: int| 0 <= j < utf16(value).push(0).len() - 1 ==> #[trigger] utf16(value).push(0)[j] != 0,
{
    lemma_utf16_nonzero(value);
    assert forall|j: int| 0 <= j < utf16(value).push(0).len() - 1 implies #[trigger] utf16(value).push(0)[j] != 0 by {
        assert(utf16(value).push(0)[j] == utf16(value)[j]);
    }
}

} // verus!
