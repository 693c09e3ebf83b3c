# Tibetan EWTS Keyboard

A Windows tray keyboard that turns Extended Wylie (EWTS) typing into Unicode
Tibetan as you type. The library in `src/` is verified with Verus; `app/` is the
Windows program around it.

- `src/config.rs` – settings values and the hotkey parser (`Ctrl+Alt+T`,
  `Shift+Space+Space`, …).
- `src/matcher.rs` – the hotkey recognizer for single and repeated strokes.
- `src/composition.rs` – the live EWTS span, reconverted after every keystroke.
- `src/keyboard.rs` – the key state a low-level hook tracks, and what a
  layout-translated character means.
- `src/hook.rs` – the keyboard hook's decisions as a state machine.
- `src/tray.rs`, `src/updater.rs` – tray texts, wide strings, release names.
- `src/text.rs` – trimming, splitting and ASCII case mapping on characters.
- `app/` – settings file I/O, the update check, and the Win32 hooks, key
  injection and tray icon.
