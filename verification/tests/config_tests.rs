use tibetan_ewts_keyboard::config::{
    parse_key, parse_u16, Config, Hotkey, HotkeyMatch, HotkeyMatcher, HotkeyParseError, Modifiers,
};

#[test]
fn parses_configurable_hotkeys() {
    let hotkey: Hotkey = "Ctrl+Alt+T".parse().unwrap();
    assert_eq!(hotkey.keys, vec![b'T' as u16]);
    assert_eq!(
        hotkey.modifiers,
        Modifiers {
            ctrl: true,
            alt: true,
            shift: false,
            win: false
        }
    );

    let hotkey: Hotkey = "Win+Shift+F12".parse().unwrap();
    assert_eq!(hotkey.keys, vec![0x7B]);
    assert!(hotkey.modifiers.win && hotkey.modifiers.shift);

    let hotkey: Hotkey = "Shift+Space+Space".parse().unwrap();
    assert_eq!(hotkey.keys, vec![0x20, 0x20]);
    assert_eq!(
        hotkey.modifiers,
        Modifiers {
            shift: true,
            ..Modifiers::default()
        }
    );
}

#[test]
fn rejects_unsafe_bare_keys() {
    assert!("T".parse::<Hotkey>().is_err());
    assert!("Ctrl+Alt".parse::<Hotkey>().is_err());
    assert!("Ctrl+T+Y".parse::<Hotkey>().is_err());
}

#[test]
fn default_config_has_valid_hotkey() {
    let config = Config::default();
    assert_eq!(config.hotkey, "Shift+Space+Space");
    assert!(config.parsed_hotkey().is_ok());
}

fn shift() -> Modifiers {
    Modifiers {
        shift: true,
        ..Modifiers::default()
    }
}

#[test]
fn repeated_stroke_triggers_only_after_distinct_presses() {
    let hotkey: Hotkey = "Shift+Space+Space".parse().unwrap();
    let mut matcher = HotkeyMatcher::new(hotkey);

    assert_eq!(matcher.handle(0x20, true, shift()), HotkeyMatch::Suppress);
    assert_eq!(matcher.handle(0x20, true, shift()), HotkeyMatch::Suppress);
    assert_eq!(matcher.handle(0x20, false, shift()), HotkeyMatch::Suppress);
    assert_eq!(matcher.handle(0x20, true, shift()), HotkeyMatch::Trigger);
    assert_eq!(matcher.handle(0x20, false, shift()), HotkeyMatch::Suppress);
}

#[test]
fn releasing_shift_cancels_and_replays_prefix() {
    let hotkey: Hotkey = "Shift+Space+Space".parse().unwrap();
    let mut matcher = HotkeyMatcher::new(hotkey);

    assert_eq!(matcher.handle(0x20, true, shift()), HotkeyMatch::Suppress);
    assert_eq!(matcher.handle(0x20, false, shift()), HotkeyMatch::Suppress);
    assert_eq!(
        matcher.handle(0xA0, false, shift()),
        HotkeyMatch::CancelAndPass(vec![0x20])
    );
    assert_eq!(
        matcher.handle(0x20, true, Modifiers::default()),
        HotkeyMatch::Pass
    );
}

#[test]
fn another_key_cancels_and_requires_a_fresh_sequence() {
    let hotkey: Hotkey = "Shift+Space+Space".parse().unwrap();
    let mut matcher = HotkeyMatcher::new(hotkey);

    assert_eq!(matcher.handle(0x20, true, shift()), HotkeyMatch::Suppress);
    assert_eq!(matcher.handle(0x20, false, shift()), HotkeyMatch::Suppress);
    assert_eq!(
        matcher.handle(b'A' as u16, true, shift()),
        HotkeyMatch::CancelAndReprocess(vec![0x20])
    );
    assert_eq!(matcher.handle(0x20, true, shift()), HotkeyMatch::Suppress);
    assert_eq!(matcher.handle(0x20, false, shift()), HotkeyMatch::Suppress);
    assert_eq!(matcher.handle(0x20, true, shift()), HotkeyMatch::Trigger);
}

fn error_of(source: &str) -> String {
    match source.parse::<Hotkey>() {
        Err(HotkeyParseError(message)) => message,
        Ok(hotkey) => panic!("{source} parsed as {hotkey:?}"),
    }
}

#[test]
fn each_rejection_has_its_message() {
    assert_eq!(error_of("Ctrl++T"), "empty hotkey component");
    assert_eq!(error_of(""), "empty hotkey component");
    assert_eq!(error_of("Ctrl+Alt"), "hotkey needs a non-modifier key");
    assert_eq!(
        error_of("Ctrl+T+Y"),
        "multi-stroke hotkeys must repeat the same main key"
    );
    assert_eq!(error_of("T"), "hotkey needs at least one modifier");
    assert_eq!(error_of("Ctrl+Home"), "unsupported hotkey key: Home");
    assert_eq!(error_of("Ctrl+ F25 "), "unsupported hotkey key: F25");
    // The first rejected component decides the message.
    assert_eq!(error_of("Ctrl+Home+"), "unsupported hotkey key: Home");
}

#[test]
fn components_are_trimmed_and_case_insensitive() {
    let hotkey: Hotkey = " control + ALT +\tt ".parse().unwrap();
    assert_eq!(hotkey.keys, vec![0x54]);
    assert_eq!(
        hotkey.modifiers,
        Modifiers {
            ctrl: true,
            alt: true,
            ..Modifiers::default()
        }
    );
    let hotkey: Hotkey = "super+windows+win+esc".parse().unwrap();
    assert_eq!(hotkey.keys, vec![0x1B]);
    assert!(hotkey.modifiers.win && !hotkey.modifiers.ctrl);
}

#[test]
fn named_and_function_keys() {
    assert_eq!(parse_key("space").unwrap(), 0x20);
    assert_eq!(parse_key("Tab").unwrap(), 0x09);
    assert_eq!(parse_key("Enter").unwrap(), 0x0D);
    assert_eq!(parse_key("return").unwrap(), 0x0D);
    assert_eq!(parse_key("Esc").unwrap(), 0x1B);
    assert_eq!(parse_key("ESCAPE").unwrap(), 0x1B);
    assert_eq!(parse_key("f1").unwrap(), 0x70);
    assert_eq!(parse_key("F24").unwrap(), 0x87);
    assert_eq!(parse_key("F05").unwrap(), 0x74);
    assert_eq!(parse_key("7").unwrap(), 0x37);
    assert_eq!(parse_key("q").unwrap(), 0x51);
    assert!(parse_key("F0").is_err());
    assert_eq!(parse_key("F").unwrap(), 0x46);
    assert!(parse_key("F-1").is_err());
    assert!(parse_key("é").is_err());
    assert_eq!(
        parse_key("[").unwrap_err(),
        HotkeyParseError("unsupported hotkey key: [".to_string())
    );
}

#[test]
fn decimal_parsing_matches_std() {
    for text in ["0", "65535", "65536", "+7", "+", "", "12a", "007", "99999999999"] {
        let chars: Vec<char> = text.chars().collect();
        assert_eq!(parse_u16(&chars), text.parse::<u16>().ok(), "{text}");
    }
}

#[test]
fn single_stroke_hotkey_triggers_at_once_and_swallows_its_release() {
    let hotkey: Hotkey = "Ctrl+Alt+T".parse().unwrap();
    let chord = Modifiers {
        ctrl: true,
        alt: true,
        ..Modifiers::default()
    };
    let mut matcher = HotkeyMatcher::new(hotkey);
    assert_eq!(matcher.handle(0x54, true, chord), HotkeyMatch::Trigger);
    assert_eq!(
        matcher.handle(0x54, false, Modifiers::default()),
        HotkeyMatch::Suppress
    );
    assert_eq!(matcher.handle(0x54, true, Modifiers::default()), HotkeyMatch::Pass);
    // Wrong modifiers never trigger.
    assert_eq!(matcher.handle(0x54, true, shift()), HotkeyMatch::Pass);
}

#[test]
fn reset_forgets_a_partial_hotkey() {
    let hotkey: Hotkey = "Shift+Space+Space".parse().unwrap();
    let mut matcher = HotkeyMatcher::new(hotkey.clone());
    assert_eq!(matcher.handle(0x20, true, shift()), HotkeyMatch::Suppress);
    matcher.reset();
    assert_eq!(matcher.hotkey(), &hotkey);
    assert_eq!(matcher.handle(0x20, false, shift()), HotkeyMatch::Pass);
    assert_eq!(matcher.handle(0x20, true, shift()), HotkeyMatch::Suppress);
}

#[test]
fn triple_stroke_hotkey_needs_three_presses() {
    let hotkey: Hotkey = "Ctrl+F2+F2+F2".parse().unwrap();
    assert_eq!(hotkey.keys, vec![0x71, 0x71, 0x71]);
    let ctrl = Modifiers {
        ctrl: true,
        ..Modifiers::default()
    };
    let mut matcher = HotkeyMatcher::new(hotkey);
    for _ in 0..2 {
        assert_eq!(matcher.handle(0x71, true, ctrl), HotkeyMatch::Suppress);
        assert_eq!(matcher.handle(0x71, false, ctrl), HotkeyMatch::Suppress);
    }
    assert_eq!(matcher.handle(0x71, true, ctrl), HotkeyMatch::Trigger);
}

#[test]
fn an_empty_hotkey_matcher_answers_releases() {
    let hotkey = Hotkey {
        modifiers: Modifiers::default(),
        keys: Vec::new(),
    };
    let mut matcher = HotkeyMatcher::new(hotkey);
    assert_eq!(matcher.handle(0x20, false, Modifiers::default()), HotkeyMatch::Pass);
}
