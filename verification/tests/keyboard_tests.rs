use tibetan_ewts_keyboard::keyboard::{is_ignored_event, INPUT_MARKER, LLKHF_INJECTED};
use tibetan_ewts_keyboard::config::Modifiers;
use tibetan_ewts_keyboard::keyboard::{
    classify_character, is_modifier_key, is_mouse_button_down, is_shortcut_chord, key_direction,
    normalized_state_key, translation_of, KeyTranslation, KeyboardState, LLKHF_EXTENDED, VK_CAPITAL,
    VK_CONTROL, VK_LCONTROL, VK_LSHIFT, VK_LWIN, VK_MENU, VK_RCONTROL, VK_RMENU, VK_RSHIFT,
    VK_SHIFT, WM_LBUTTONDOWN, WM_MBUTTONDOWN, WM_MOUSEMOVE, WM_RBUTTONDOWN, WM_XBUTTONDOWN,
};

#[test]
fn accepts_layout_translated_ewts_characters() {
    assert_eq!(classify_character('t'), KeyTranslation::Ewts('t'));
    assert_eq!(classify_character('T'), KeyTranslation::Ewts('T'));
    assert_eq!(classify_character('@'), KeyTranslation::Ewts('@'));
    assert_eq!(classify_character('&'), KeyTranslation::Ewts('&'));
    assert_eq!(classify_character('1'), KeyTranslation::Ewts('1'));
}

#[test]
fn lowercase_x_is_a_regular_word_space_alias() {
    assert_eq!(classify_character('x'), KeyTranslation::Ewts('_'));
    assert_eq!(classify_character('X'), KeyTranslation::Ewts('X'));
}

#[test]
fn unsupported_or_non_ascii_layout_output_is_safe() {
    assert_eq!(classify_character('L'), KeyTranslation::Suppress);
    assert_eq!(classify_character('q'), KeyTranslation::Suppress);
    assert_eq!(classify_character('\t'), KeyTranslation::Pass);
    assert_eq!(classify_character('\u{00e9}'), KeyTranslation::Pass);
}

#[test]
fn hook_state_tracks_modifiers_before_windows_updates_async_state() {
    let mut state = KeyboardState { keys: [0; 256] };
    assert_eq!(state.modifiers(), Modifiers::default());

    state.update(VK_LSHIFT, true);
    assert!(state.modifiers().shift);
    assert!(state.is_down(VK_SHIFT));
    state.update(VK_LSHIFT, false);
    assert!(!state.modifiers().shift);
}

#[test]
fn altgr_is_text_input_but_regular_control_chords_are_shortcuts() {
    let mut state = KeyboardState { keys: [0; 256] };
    state.update(VK_LCONTROL, true);
    state.update(normalized_state_key(VK_MENU, 0x38, LLKHF_EXTENDED), true);
    assert!(!is_shortcut_chord(&state));

    state.update(VK_RMENU, false);
    assert!(is_shortcut_chord(&state));
}

#[test]
fn generic_modifier_events_are_normalized_to_their_physical_side() {
    assert_eq!(normalized_state_key(VK_SHIFT, 0x2a, 0), VK_LSHIFT);
    assert_eq!(normalized_state_key(VK_SHIFT, 0x36, 0), VK_RSHIFT);
    assert_eq!(
        normalized_state_key(VK_CONTROL, 0x1d, LLKHF_EXTENDED),
        VK_RCONTROL
    );
    assert_eq!(
        normalized_state_key(VK_MENU, 0x38, LLKHF_EXTENDED),
        VK_RMENU
    );
}

#[test]
fn mouse_button_presses_end_composition() {
    assert!(is_mouse_button_down(WM_LBUTTONDOWN as usize));
    assert!(is_mouse_button_down(WM_RBUTTONDOWN as usize));
    assert!(is_mouse_button_down(WM_MBUTTONDOWN as usize));
    assert!(is_mouse_button_down(WM_XBUTTONDOWN as usize));
    assert!(!is_mouse_button_down(WM_MOUSEMOVE as usize));
}

#[test]
fn both_shift_keys_must_be_released() {
    let mut state = KeyboardState::with_caps_lock(false);
    state.update(VK_LSHIFT, true);
    state.update(VK_RSHIFT, true);
    state.update(VK_LSHIFT, false);
    assert!(state.modifiers().shift);
    assert!(state.is_down(VK_SHIFT));
    state.update(VK_RSHIFT, false);
    assert!(!state.modifiers().shift);
    assert!(!state.is_down(VK_SHIFT));
}

#[test]
fn caps_lock_toggles_on_fresh_presses_only() {
    let mut state = KeyboardState::with_caps_lock(true);
    assert_eq!(state.keys[VK_CAPITAL as usize], 1);
    state.update(VK_CAPITAL, true);
    assert_eq!(state.keys[VK_CAPITAL as usize], 0x80);
    state.update(VK_CAPITAL, true);
    assert_eq!(state.keys[VK_CAPITAL as usize], 0x80);
    state.update(VK_CAPITAL, false);
    assert_eq!(state.keys[VK_CAPITAL as usize], 0);
    state.update(VK_CAPITAL, true);
    assert_eq!(state.keys[VK_CAPITAL as usize], 0x81);
}

#[test]
fn keys_beyond_the_table_are_ignored() {
    let mut state = KeyboardState::with_caps_lock(false);
    let before = state.keys;
    state.update(300, true);
    assert_eq!(state.keys, before);
    assert!(!state.is_down(300));
}

#[test]
fn replay_state_holds_exactly_the_chord() {
    let mut state = KeyboardState::with_caps_lock(false);
    state.update(VK_RCONTROL, true);
    state.update(VK_LSHIFT, true);
    let chord = Modifiers {
        shift: true,
        win: true,
        ..Modifiers::default()
    };
    let replay = state.for_modifiers(chord);
    assert_eq!(replay.modifiers(), chord);
    assert!(replay.is_down(VK_SHIFT));
    assert!(replay.is_down(VK_LWIN));
    assert!(!replay.is_down(VK_RCONTROL));
    assert!(!replay.is_down(VK_LSHIFT));
}

#[test]
fn windows_translations_are_decoded() {
    assert_eq!(translation_of(1, b'k' as u16), KeyTranslation::Ewts('k'));
    assert_eq!(translation_of(1, b'x' as u16), KeyTranslation::Ewts('_'));
    assert_eq!(translation_of(2, b'k' as u16), KeyTranslation::Pass);
    assert_eq!(translation_of(-1, b'k' as u16), KeyTranslation::Pass);
    assert_eq!(translation_of(0, 0), KeyTranslation::Pass);
    assert_eq!(translation_of(1, 0xD800), KeyTranslation::Pass);
    assert_eq!(translation_of(1, 0x00E9), KeyTranslation::Pass);
}

#[test]
fn modifier_keys_and_message_directions() {
    for key in [0x10, 0x11, 0x12, 0xA0, 0xA1, 0xA2, 0xA3, 0xA4, 0xA5, 0x5B, 0x5C] {
        assert!(is_modifier_key(key));
    }
    assert!(!is_modifier_key(0x14));
    assert!(!is_modifier_key(0x41));
    assert_eq!(key_direction(0x100), Some(true));
    assert_eq!(key_direction(0x104), Some(true));
    assert_eq!(key_direction(0x101), Some(false));
    assert_eq!(key_direction(0x105), Some(false));
    assert_eq!(key_direction(0x102), None);
}

#[test]
fn own_and_injected_events_are_handed_on() {
    assert!(is_ignored_event(INPUT_MARKER, 0, false));
    assert!(is_ignored_event(INPUT_MARKER, LLKHF_INJECTED, true));
    assert!(is_ignored_event(0, LLKHF_INJECTED, true));
    assert!(!is_ignored_event(0, LLKHF_INJECTED, false));
    assert!(!is_ignored_event(7, 0, true));
}
