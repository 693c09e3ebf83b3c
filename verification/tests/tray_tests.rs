use tibetan_ewts_keyboard::tray::{toggle_label, tooltip, wide_null};
use tibetan_ewts_keyboard::updater::{missing_asset_message, release_tag};

#[test]
fn tray_texts() {
    assert_eq!(
        toggle_label(true, "Shift+Space+Space"),
        "Disable Tibetan (Shift+Space+Space)"
    );
    assert_eq!(toggle_label(false, "Ctrl+Alt+T"), "Enable Tibetan (Ctrl+Alt+T)");
    assert_eq!(
        tooltip(true, "Ctrl+Alt+T"),
        "Tibetan EWTS Keyboard: enabled\nToggle: Ctrl+Alt+T"
    );
    assert_eq!(
        tooltip(false, "Ctrl+Alt+T"),
        "Tibetan EWTS Keyboard: disabled\nToggle: Ctrl+Alt+T"
    );
}

#[test]
fn wide_strings_match_std_utf16() {
    for text in ["", "Exit", "ཨོཾ", "a😀b", "Open settings…"] {
        let expected: Vec<u16> = text.encode_utf16().chain(std::iter::once(0)).collect();
        assert_eq!(wide_null(text), expected);
    }
}

#[test]
fn release_names() {
    assert_eq!(release_tag("1.2.3"), "v1.2.3");
    assert_eq!(
        missing_asset_message("1.2.3", "x86_64-pc-windows-msvc"),
        "Release v1.2.3 does not contain a standalone build for x86_64-pc-windows-msvc."
    );
}
