use tibetan_ewts_keyboard::composition::Replacement;
use tibetan_ewts_keyboard::config::Hotkey;
use tibetan_ewts_keyboard::hook::{HookAction, HookResponse, HookRuntime, KeyEvent, TranslationRequest};
use tibetan_ewts_keyboard::keyboard::{
    translation_of, KeyTranslation, VK_BACK, VK_LSHIFT, VK_SHIFT, WM_LBUTTONDOWN, WM_MOUSEMOVE,
};

/// A US layout for letters, digits and space: Shift gives capitals.
fn us_layout(request: &TranslationRequest) -> KeyTranslation {
    let shift = request.keys[VK_SHIFT as usize] & 0x80 != 0;
    let key = request.virtual_key;
    let unit = if (0x41..=0x5A).contains(&key) {
        if shift {
            key as u16
        } else {
            key as u16 + 32
        }
    } else if (0x30..=0x39).contains(&key) || key == 0x20 {
        key as u16
    } else if key == 0xDB {
        b'[' as u16
    } else if key == 0xDD {
        b']' as u16
    } else {
        return translation_of(0, 0);
    };
    translation_of(1, unit)
}

fn key(virtual_key: u32, is_down: bool) -> KeyEvent {
    KeyEvent {
        virtual_key,
        scan_code: 0,
        flags: 0,
        is_down,
    }
}

fn send(runtime: &mut HookRuntime, event: KeyEvent) -> HookResponse {
    let requests = runtime.translation_requests(&event);
    let translations: Vec<KeyTranslation> = requests.iter().map(us_layout).collect();
    runtime.handle_key_event(&event, &translations)
}

fn runtime(enabled: bool) -> HookRuntime {
    let hotkey: Hotkey = "Shift+Space+Space".parse().unwrap();
    HookRuntime::new(hotkey, false, enabled)
}

fn replace(backspaces: usize, text: &str) -> HookAction {
    HookAction::Replace(Replacement {
        backspaces,
        text: text.to_string(),
    })
}

#[test]
fn typing_letters_replaces_the_span() {
    let mut rt = runtime(true);
    let r = send(&mut rt, key(0x4B, true));
    assert!(r.suppress);
    assert_eq!(r.actions, vec![replace(0, "ཀ")]);
    let r = send(&mut rt, key(0x4B, false));
    assert!(r.suppress);
    assert!(r.actions.is_empty());
    let r = send(&mut rt, key(0x41, true));
    assert_eq!(r.actions, vec![replace(1, "ཀ")]);
    let r = send(&mut rt, key(0x20, true));
    assert_eq!(r.actions, vec![replace(1, "ཀ་")]);
}

#[test]
fn disabled_runtime_passes_everything_through() {
    let mut rt = runtime(false);
    for event in [key(0x4B, true), key(0x4B, false), key(VK_BACK as u32, true)] {
        let r = send(&mut rt, event);
        assert!(!r.suppress);
        assert!(r.actions.is_empty());
    }
}

#[test]
fn hotkey_toggles_input_and_swallows_its_strokes() {
    let mut rt = runtime(false);
    let shift_down = KeyEvent {
        virtual_key: VK_SHIFT as u32,
        scan_code: 0x2a,
        flags: 0,
        is_down: true,
    };
    assert!(!send(&mut rt, shift_down).suppress);
    assert!(send(&mut rt, key(0x20, true)).suppress);
    assert!(send(&mut rt, key(0x20, false)).suppress);
    let r = send(&mut rt, key(0x20, true));
    assert!(r.suppress);
    assert_eq!(r.actions, vec![HookAction::StateChanged(true)]);
    assert!(rt.enabled());
    assert!(send(&mut rt, key(0x20, false)).suppress);
}

#[test]
fn releasing_the_modifier_replays_the_swallowed_stroke() {
    let mut rt = runtime(false);
    send(&mut rt, key(VK_LSHIFT as u32, true));
    assert!(send(&mut rt, key(0x20, true)).suppress);
    assert!(send(&mut rt, key(0x20, false)).suppress);
    let r = send(&mut rt, key(VK_LSHIFT as u32, false));
    assert!(r.suppress);
    assert_eq!(
        r.actions,
        vec![
            HookAction::RawKey { key: 0x20, is_down: true },
            HookAction::RawKey { key: 0x20, is_down: false },
            HookAction::RawKey { key: VK_LSHIFT, is_down: false },
        ]
    );
}

#[test]
fn enabled_replay_types_the_swallowed_stroke() {
    let mut rt = runtime(true);
    send(&mut rt, key(0x4B, true));
    send(&mut rt, key(0x4B, false));
    send(&mut rt, key(VK_LSHIFT as u32, true));
    assert!(send(&mut rt, key(0x20, true)).suppress);
    assert!(send(&mut rt, key(0x20, false)).suppress);
    let r = send(&mut rt, key(VK_LSHIFT as u32, false));
    assert!(r.suppress);
    // Pressing Shift ended the span `k`; the replayed space starts a new one.
    let converter = ewts::EwtsConverter::create();
    assert_eq!(
        r.actions,
        vec![
            replace(0, &converter.ewts_to_unicode(" ")),
            HookAction::RawKey { key: VK_LSHIFT, is_down: false },
        ]
    );
}

#[test]
fn another_key_after_a_partial_hotkey_is_reprocessed() {
    let mut rt = runtime(true);
    send(&mut rt, key(VK_LSHIFT as u32, true));
    assert!(send(&mut rt, key(0x20, true)).suppress);
    assert!(send(&mut rt, key(0x20, false)).suppress);
    let r = send(&mut rt, key(0x41, true));
    assert!(r.suppress);
    // The replayed space finishes an empty span; the Shift+A becomes EWTS `A`.
    let converter = ewts::EwtsConverter::create();
    assert_eq!(
        r.actions,
        vec![
            replace(0, &converter.ewts_to_unicode(" ")),
            replace(0, &converter.ewts_to_unicode("A")),
        ]
    );
}

#[test]
fn backspace_edits_the_span_then_passes() {
    let mut rt = runtime(true);
    send(&mut rt, key(0x4B, true));
    send(&mut rt, key(0x4B, false));
    let r = send(&mut rt, key(VK_BACK as u32, true));
    assert!(r.suppress);
    assert_eq!(r.actions, vec![replace(1, "")]);
    assert!(!send(&mut rt, key(VK_BACK as u32, false)).suppress);
    let r = send(&mut rt, key(VK_BACK as u32, true));
    assert!(!r.suppress);
    assert!(r.actions.is_empty());
}

#[test]
fn mouse_click_ends_the_span() {
    let mut rt = runtime(true);
    send(&mut rt, key(0x4B, true));
    send(&mut rt, key(0x4B, false));
    rt.mouse_message(WM_MOUSEMOVE as usize);
    assert_eq!(send(&mut rt, key(0x41, true)).actions, vec![replace(1, "ཀ")]);
    rt.mouse_message(WM_LBUTTONDOWN as usize);
    assert_eq!(send(&mut rt, key(0x4B, true)).actions, vec![replace(0, "ཀ")]);
}

#[test]
fn shortcut_chords_pass_and_end_the_span() {
    let mut rt = runtime(true);
    send(&mut rt, key(0x4B, true));
    send(&mut rt, key(0x4B, false));
    send(&mut rt, key(0xA2, true));
    let r = send(&mut rt, key(0x43, true));
    assert!(!r.suppress);
    assert!(r.actions.is_empty());
    send(&mut rt, key(0x43, false));
    send(&mut rt, key(0xA2, false));
    assert_eq!(send(&mut rt, key(0x4B, true)).actions, vec![replace(0, "ཀ")]);
}

#[test]
fn toggle_and_new_hotkey_end_the_span() {
    let mut rt = runtime(true);
    send(&mut rt, key(0x4B, true));
    assert!(!rt.toggle());
    assert!(rt.toggle());
    assert_eq!(send(&mut rt, key(0x47, true)).actions, vec![replace(0, "ག")]);
    let hotkey: Hotkey = "Ctrl+Alt+T".parse().unwrap();
    rt.set_hotkey(hotkey.clone());
    assert_eq!(rt.hotkey(), &hotkey);
    assert_eq!(send(&mut rt, key(0x4B, true)).actions, vec![replace(0, "ཀ")]);
}

#[test]
fn requests_name_the_keys_to_translate() {
    let rt = runtime(true);
    let requests = rt.translation_requests(&key(0x4B, true));
    assert_eq!(requests.len(), 1);
    assert_eq!(requests[0].virtual_key, 0x4B);
    assert_eq!(requests[0].scan_code, Some(0));
    assert!(rt.translation_requests(&key(0x4B, false)).is_empty());
    assert!(runtime(false).translation_requests(&key(0x4B, true)).is_empty());
}

#[test]
fn a_long_bracketed_span_keeps_typing_and_passing() {
    let mut rt = runtime(true);
    for _ in 0..255 {
        for vk in [0xDB, 0xDD] {
            send(&mut rt, key(vk, true));
            send(&mut rt, key(vk, false));
        }
    }
    // A letter is still converted within the span.
    let r = send(&mut rt, key(0x4B, true));
    assert!(r.suppress);
    let source: String = "[]".repeat(255) + "k";
    let converter = ewts::EwtsConverter::create();
    assert_eq!(
        r.actions,
        vec![HookAction::Replace(Replacement {
            backspaces: converter.ewts_to_unicode(&"[]".repeat(255)).chars().count(),
            text: converter.ewts_to_unicode(&source),
        })]
    );
    send(&mut rt, key(0x4B, false));
    // A key without EWTS meaning ends the span and passes.
    let r = send(&mut rt, key(0x27, true));
    assert!(!r.suppress);
    assert!(r.actions.is_empty());
}

#[test]
fn a_span_at_the_converter_bound_ends_before_the_next_bracket() {
    let mut rt = runtime(true);
    for _ in 0..255 {
        for vk in [0xDB, 0xDD] {
            send(&mut rt, key(vk, true));
            send(&mut rt, key(vk, false));
        }
    }
    let r = send(&mut rt, key(0xDB, true));
    assert!(r.suppress);
    assert_eq!(
        r.actions,
        vec![replace(0, &ewts::EwtsConverter::create().ewts_to_unicode("["))]
    );
    let r = send(&mut rt, key(0x4B, true));
    assert_eq!(
        r.actions,
        vec![replace(0, &ewts::EwtsConverter::create().ewts_to_unicode("[k"))]
    );
}
