use ewts::EwtsConverter;
use tibetan_ewts_keyboard::composition::{
    is_commit_character, replacement_keystrokes, Composer, Keystroke, Replacement,
};

#[test]
fn converts_representative_ewts() {
    let converter = EwtsConverter::create();
    assert_eq!(converter.ewts_to_unicode("sangs rgyas"), "སངས་རྒྱས");
    assert_eq!(converter.ewts_to_unicode("oM"), "ཨོཾ");
    assert_eq!(converter.ewts_to_unicode("bka' brgyud"), "བཀའ་བརྒྱུད");
    assert_eq!(converter.ewts_to_unicode("grA"), "གྲཱ");
}

#[test]
fn incremental_replacement_tracks_rendered_length() {
    let mut composer = Composer::default();
    let first = composer.push('r');
    assert_eq!(
        first,
        Replacement {
            backspaces: 0,
            text: "ར".into()
        }
    );

    let second = composer.push('g');
    assert_eq!(second.backspaces, 1);

    for ch in ['y', 'a', 's'] {
        composer.push(ch);
    }
    assert_eq!(composer.rendered(), "རྒྱས");
}

#[test]
fn space_emits_tsheg_and_commits() {
    let mut composer = Composer::default();
    for ch in "sangs".chars() {
        composer.push(ch);
    }
    let edit = composer.push(' ');
    assert_eq!(edit.text, "སངས་");
    assert!(composer.is_empty());
}

#[test]
fn underscore_emits_word_space_and_commits() {
    let mut composer = Composer::default();
    for ch in "sangs".chars() {
        composer.push(ch);
    }
    let edit = composer.push('_');
    assert_eq!(edit.text, "སངས ");
    assert!(composer.is_empty());
}

#[test]
fn backspace_reconverts_source() {
    let mut composer = Composer::default();
    for ch in "rgyas".chars() {
        composer.push(ch);
    }
    let edit = composer.backspace().unwrap();
    assert_eq!(edit.text, "རྒྱ");
    assert_eq!(composer.source(), "rgya");
}

/// Apply an edit to a screen, as the foreground application would.
fn apply(screen: &mut Vec<char>, edit: &Replacement) {
    for _ in 0..edit.backspaces {
        screen.pop();
    }
    screen.extend(edit.text.chars());
}

#[test]
fn edits_keep_the_screen_showing_the_converted_span() {
    let mut composer = Composer::default();
    let mut screen: Vec<char> = "x ".chars().collect();
    for ch in "bka' brgyud".chars() {
        let edit = composer.push(ch);
        apply(&mut screen, &edit);
    }
    let shown: String = screen.iter().collect();
    assert_eq!(shown, "x བཀའ་བརྒྱུད");
    let edit = composer.backspace().unwrap();
    apply(&mut screen, &edit);
    let shown: String = screen.iter().collect();
    assert_eq!(shown, "x བཀའ་བརྒྱུ");
}

#[test]
fn backspace_undoes_a_push() {
    let mut composer = Composer::default();
    for ch in "rgy".chars() {
        composer.push(ch);
    }
    let before = composer.rendered().to_string();
    composer.push('a');
    composer.backspace().unwrap();
    assert_eq!(composer.source(), "rgy");
    assert_eq!(composer.rendered(), before);
}

#[test]
fn backspace_on_an_empty_span_does_nothing() {
    let mut composer = Composer::default();
    assert_eq!(composer.backspace(), None);
    assert!(composer.is_empty());
    assert_eq!(composer.rendered(), "");
}

#[test]
fn commit_keeps_text_but_ends_the_span() {
    let mut composer = Composer::default();
    composer.push('k');
    composer.commit();
    assert!(composer.is_empty());
    assert_eq!(composer.rendered(), "");
    let edit = composer.push('k');
    assert_eq!(edit.backspaces, 0);
    assert_eq!(edit.text, "ཀ");
}

#[test]
fn commit_characters() {
    for ch in [' ', '_', '/', ';', '|', '!', ':', '\n', '\r'] {
        assert!(is_commit_character(ch));
    }
    for ch in ['a', 'x', '[', '\\', '.', '+'] {
        assert!(!is_commit_character(ch));
    }
}

#[test]
fn converter_room_is_tracked() {
    let mut composer = Composer::default();
    assert!(composer.accepts('['));
    for _ in 0..255 {
        composer.push('[');
        composer.push(']');
    }
    assert_eq!(composer.span_counts(), (255, 0));
    assert!(!composer.accepts('['));
    assert!(composer.accepts(']'));
    assert!(composer.accepts('k'));
}

#[test]
fn escaped_backslashes_count_once_per_escape() {
    let mut composer = Composer::default();
    for _ in 0..300 {
        assert!(composer.accepts('\\'));
        composer.push('\\');
    }
    assert_eq!(composer.span_counts(), (0, 150));
    let converter = EwtsConverter::create();
    assert_eq!(composer.rendered(), converter.ewts_to_unicode(&"\\".repeat(300)));
    for _ in 0..105 {
        composer.push('\\');
        composer.push('k');
    }
    assert_eq!(composer.span_counts(), (0, 255));
    assert!(!composer.accepts('\\'));
    assert!(composer.accepts('k'));
}

#[test]
fn brackets_inside_one_span_count_once() {
    let mut composer = Composer::default();
    for _ in 0..300 {
        assert!(composer.accepts('['));
        composer.push('[');
    }
    assert_eq!(composer.span_counts(), (1, 0));
    let converter = EwtsConverter::create();
    assert_eq!(composer.rendered(), converter.ewts_to_unicode(&"[".repeat(300)));
}

#[test]
fn edits_become_backspaces_then_utf16_units() {
    let edit = Replacement {
        backspaces: 2,
        text: "ཀ😀".to_string(),
    };
    let strokes = replacement_keystrokes(&edit);
    let mut expected = vec![
        Keystroke::Backspace { is_down: true },
        Keystroke::Backspace { is_down: false },
        Keystroke::Backspace { is_down: true },
        Keystroke::Backspace { is_down: false },
    ];
    for unit in edit.text.encode_utf16() {
        expected.push(Keystroke::Unit { unit, is_down: true });
        expected.push(Keystroke::Unit { unit, is_down: false });
    }
    assert_eq!(strokes, expected);
    assert_eq!(strokes.len(), 4 + 2 * 3);
}
