//! The decisions of the low-level keyboard and mouse hooks, as a state machine.
//!
//! A keyboard event is handled in two steps. `translation_requests` names the
//! keys whose meaning under the active keyboard layout is needed (the layout
//! lives outside this library); the caller asks `ToUnicodeEx` for each and
//! hands the classified answers to `handle_key_event`, which decides what to
//! type, what to replay, and whether to swallow the physical event.

use vstd::prelude::*;

use crate::composition::{
    bracket_scan, escape_scan, rendering, spec_is_commit_character, Composer, ComposerState, Replacement,
};
use crate::config::{Hotkey, Modifiers};
use crate::keyboard::{
    initial_keys,
    is_modifier_key, is_mouse_button_down, is_shortcut_chord, modifiers_of, normalized_state_key,
    spec_is_modifier_key, spec_is_mouse_button_down, spec_is_shortcut_chord,
    spec_normalized_state_key, state_after, with_modifiers, KeyTranslation, KeyboardState,
    VK_BACK,
};
use crate::matcher::{match_step, HotkeyMatch, HotkeyMatcher, MatchOutcome, MatcherState};

verus! {

/// One low-level keyboard event, as `KBDLLHOOKSTRUCT` and the message report it.
#[derive(Debug, Clone, Copy, PartialEq, Eq, Structural)]
pub struct KeyEvent {
    pub virtual_key: u32,
    pub scan_code: u32,
    pub flags: u32,
    pub is_down: bool,
}

/// Something the hook must do in the foreground application or the tray.
#[derive(Debug, Clone, PartialEq, Eq)]
pub enum HookAction {
    /// Erase and type text.
    Replace(Replacement),
    /// Send one key event.
    RawKey { key: u16, is_down: bool },
    /// Tibetan input was switched on (`true`) or off.
    StateChanged(bool),
}

/// The mathematical value of a [`HookAction`].
pub enum ActionView {
    Replace { backspaces: nat, text: Seq<char> },
    RawKey { key: u16, is_down: bool },
    StateChanged(bool),
}

impl View for HookAction {
    type V = ActionView;

    open spec fn view(&self) -> ActionView {
        match self {
            HookAction::Replace(r) => ActionView::Replace { backspaces: r.backspaces as nat, text: r.text@ },
            HookAction::RawKey { key, is_down } => ActionView::RawKey { key: *key, is_down: *is_down },
            HookAction::StateChanged(b) => ActionView::StateChanged(*b),
        }
    }
}

/// A key whose meaning under the active layout is needed: translate
/// `virtual_key` with the key state `keys`. Without a scan code, the caller maps
/// the virtual key to one with the layout.
#[derive(Clone, Copy)]
pub struct TranslationRequest {
    pub virtual_key: u32,
    pub scan_code: Option<u32>,
    pub keys: [u8; 256],
}

pub struct RequestView {
    pub virtual_key: u32,
    pub scan_code: Option<u32>,
    pub keys: Seq<u8>,
}

impl View for TranslationRequest {
    type V = RequestView;

    open spec fn view(&self) -> RequestView {
        RequestView { virtual_key: self.virtual_key, scan_code: self.scan_code, keys: self.keys@ }
    }
}

/// What to do after a keyboard event: perform `actions` in order, then swallow
/// the physical event when `suppress` holds.
pub struct HookResponse {
    pub actions: Vec<HookAction>,
    pub suppress: bool,
}

/// The abstract state of a [`HookRuntime`].
pub struct HookState {
    pub composer: ComposerState,
    pub matcher: MatcherState,
    pub keys: Seq<u8>,
    /// Keys whose press was consumed, so that their release is swallowed too.
    pub consumed: Seq<bool>,
    pub enabled: bool,
}

impl HookState {
    pub open spec fn wf(self) -> bool {
        &&& self.composer.wf()
        &&& self.matcher.wf()
        &&& self.matcher.keys.len() > 0
        &&& self.keys.len() == 256
        &&& self.consumed.len() == 256
    }
}

pub open spec fn committed() -> ComposerState {
    ComposerState::empty()
}

/// The edit that typing `ch` into the span `c` produces.
pub open spec fn edit_for(c: ComposerState, ch: char) -> ActionView {
    ActionView::Replace { backspaces: c.rendered.len(), text: rendering(c.source.push(ch)) }
}

/// The span that `ch` is typed into: the live one, or a fresh one when the
/// converter could not take `ch` in the live span (its bound on bracketed and
/// escaped spans would be exceeded), so that the live span ends first.
pub open spec fn span_for_typing(c: ComposerState, ch: char) -> ComposerState {
    if c.accepts(ch) {
        c
    } else {
        committed()
    }
}

/// The composer after typing `ch` into the span `c`.
pub open spec fn typed_state(c: ComposerState, ch: char) -> ComposerState {
    span_for_typing(c, ch).after_push(ch)
}

/// The edit that typing `ch` into the span `c` produces.
pub open spec fn typed_edit(c: ComposerState, ch: char) -> ActionView {
    edit_for(span_for_typing(c, ch), ch)
}

/// A fresh span takes any one character.
proof fn lemma_fresh_span_accepts(ch: char)
    ensures
        committed().accepts(ch),
{
    let one = committed().source.push(ch);
    assert(one.drop_last() =~= Seq::<char>::empty());
    assert(bracket_scan(Seq::<char>::empty()).0 == 0);
    assert(escape_scan(Seq::<char>::empty()).0 == 0);
    assert(bracket_scan(one).0 <= 1);
    assert(escape_scan(one).0 <= 1);
}

pub open spec fn mark_consumed(consumed: Seq<bool>, key: u16) -> Seq<bool> {
    if key < 256 {
        consumed.update(key as int, true)
    } else {
        consumed
    }
}

/// A hotkey whose chord holds Ctrl, Alt or Win: its replayed keys are shortcuts.
pub open spec fn control_chord(m: Modifiers) -> bool {
    m.ctrl || m.alt || m.win
}

/// Replaying the swallowed prefix `keys` of an abandoned hotkey: with
/// `translate`, each key is typed as EWTS, swallowed, or (when it has no EWTS
/// meaning) sent as a key press after ending the span; otherwise every key is
/// sent as a press and release, ending the span first when input is enabled.
pub open spec fn replay_keys(
    c: ComposerState,
    enabled: bool,
    translate: bool,
    keys: Seq<u16>,
    t: Seq<KeyTranslation>,
) -> (ComposerState, Seq<ActionView>)
    decreases keys.len(),
{
    if keys.len() == 0 {
        (c, Seq::empty())
    } else {
        let (c1, a1) = replay_keys(c, enabled, translate, keys.drop_last(), t);
        let k = keys.last();
        let tr = if translate {
            t[keys.len() - 1]
        } else {
            KeyTranslation::Pass
        };
        match tr {
            KeyTranslation::Ewts(ch) => (typed_state(c1, ch), a1.push(typed_edit(c1, ch))),
            KeyTranslation::Suppress => (c1, a1),
            KeyTranslation::Pass => (
                if enabled {
                    committed()
                } else {
                    c1
                },
                a1 + seq![
                    ActionView::RawKey { key: k, is_down: true },
                    ActionView::RawKey { key: k, is_down: false },
                ],
            ),
        }
    }
}

/// Whether handling `ev` normally needs its meaning under the active layout.
pub open spec fn needs_translation(s: HookState, ev: KeyEvent) -> bool {
    let key = ev.virtual_key as u16;
    &&& ev.is_down
    &&& s.enabled
    &&& key != VK_BACK
    &&& !spec_is_modifier_key(key)
    &&& !spec_is_shortcut_chord(s.keys)
}

/// Normal processing of a key event that the hotkey did not claim: the next
/// state, the actions, and whether the event was handled (swallowed).
pub open spec fn process_key(s: HookState, ev: KeyEvent, tr: KeyTranslation) -> (
    HookState,
    Seq<ActionView>,
    bool,
) {
    let key = ev.virtual_key as u16;
    if !ev.is_down && key < 256 && s.consumed[key as int] {
        (HookState { consumed: s.consumed.update(key as int, false), ..s }, Seq::empty(), true)
    } else if !s.enabled {
        (s, Seq::empty(), false)
    } else if key == VK_BACK {
        if ev.is_down {
            if s.composer.source.len() > 0 {
                (
                    HookState { composer: s.composer.after_backspace(), ..s },
                    seq![
                        ActionView::Replace {
                            backspaces: s.composer.rendered.len(),
                            text: rendering(s.composer.source.drop_last()),
                        },
                    ],
                    true,
                )
            } else {
                (s, Seq::empty(), false)
            }
        } else {
            (s, Seq::empty(), s.composer.source.len() > 0)
        }
    } else if spec_is_modifier_key(key) {
        (
            if ev.is_down {
                HookState { composer: committed(), ..s }
            } else {
                s
            },
            Seq::empty(),
            false,
        )
    } else if ev.is_down && !spec_is_shortcut_chord(s.keys) {
        match tr {
            KeyTranslation::Ewts(ch) => (
                HookState {
                    composer: typed_state(s.composer, ch),
                    consumed: mark_consumed(s.consumed, key),
                    ..s
                },
                seq![typed_edit(s.composer, ch)],
                true,
            ),
            KeyTranslation::Suppress => (
                HookState { consumed: mark_consumed(s.consumed, key), ..s },
                Seq::empty(),
                true,
            ),
            KeyTranslation::Pass => (HookState { composer: committed(), ..s }, Seq::empty(), false),
        }
    } else if ev.is_down {
        (HookState { composer: committed(), ..s }, Seq::empty(), false)
    } else {
        (s, Seq::empty(), false)
    }
}

pub open spec fn translation_at(t: Seq<KeyTranslation>, i: int) -> KeyTranslation {
    if 0 <= i < t.len() {
        t[i]
    } else {
        KeyTranslation::Pass
    }
}

/// The state after the hotkey matcher and the key-state tracking have seen `ev`,
/// and the matcher's verdict.
pub open spec fn observe(s: HookState, ev: KeyEvent) -> (HookState, MatchOutcome) {
    let key = ev.virtual_key as u16;
    let (m2, outcome) = match_step(s.matcher, key, ev.is_down, modifiers_of(s.keys));
    let keys2 = state_after(
        s.keys,
        spec_normalized_state_key(key, ev.scan_code, ev.flags),
        ev.is_down,
    );
    (HookState { matcher: m2, keys: keys2, ..s }, outcome)
}

/// The keys a verdict hands back for replay.
pub open spec fn replayed(outcome: MatchOutcome) -> Seq<u16> {
    match outcome {
        MatchOutcome::CancelAndPass(r) => r,
        MatchOutcome::CancelAndReprocess(r) => r,
        _ => Seq::empty(),
    }
}

/// The translations that handling `ev` needs, in the order they are used.
pub open spec fn requests(s: HookState, ev: KeyEvent) -> Seq<RequestView> {
    let (s1, outcome) = observe(s, ev);
    let r = replayed(outcome);
    let translate = s.enabled && !control_chord(s.matcher.modifiers);
    let replay_keys_state = with_modifiers(s1.keys, s.matcher.modifiers);
    let replay_requests = if translate {
        Seq::new(
            r.len(),
            |i: int|
                RequestView {
                    virtual_key: r[i] as u32,
                    scan_code: None,
                    keys: replay_keys_state,
                },
        )
    } else {
        Seq::empty()
    };
    let process = outcome is Pass || outcome is CancelAndReprocess;
    if process && needs_translation(s1, ev) {
        replay_requests.push(
            RequestView { virtual_key: ev.virtual_key, scan_code: Some(ev.scan_code), keys: s1.keys },
        )
    } else {
        replay_requests
    }
}

/// One keyboard event: the next state, the actions to perform in order, and
/// whether to swallow the physical event. `t` holds the meaning of each key
/// that `requests` named, in the same order.
pub open spec fn hook_step(s: HookState, ev: KeyEvent, t: Seq<KeyTranslation>) -> (
    HookState,
    Seq<ActionView>,
    bool,
) {
    let key = ev.virtual_key as u16;
    let (s1, outcome) = observe(s, ev);
    let translate = s.enabled && !control_chord(s.matcher.modifiers);
    match outcome {
        MatchOutcome::Pass => process_key(s1, ev, translation_at(t, 0)),
        MatchOutcome::Suppress => (s1, Seq::empty(), true),
        MatchOutcome::Trigger => (
            HookState { composer: committed(), enabled: !s.enabled, ..s1 },
            seq![ActionView::StateChanged(!s.enabled)],
            true,
        ),
        MatchOutcome::CancelAndPass(r) => {
            let (c2, a) = replay_keys(s1.composer, s.enabled, translate, r, t);
            (
                HookState { composer: c2, ..s1 },
                a.push(ActionView::RawKey { key, is_down: false }),
                true,
            )
        },
        MatchOutcome::CancelAndReprocess(r) => {
            let (c2, a) = replay_keys(s1.composer, s.enabled, translate, r, t);
            let n = if translate {
                r.len() as int
            } else {
                0
            };
            let (s3, a2, handled) = process_key(
                HookState { composer: c2, ..s1 },
                ev,
                translation_at(t, n),
            );
            (
                s3,
                a + a2 + if handled {
                    Seq::empty()
                } else {
                    seq![ActionView::RawKey { key, is_down: ev.is_down }]
                },
                true,
            )
        },
    }
}

/// Every translation is printable ASCII when it is something to type.
pub open spec fn ascii_translations(t: Seq<KeyTranslation>) -> bool {
    forall|i: int| 0 <= i < t.len() ==> (#[trigger] t[i] matches KeyTranslation::Ewts(c) ==> (c as u32) < 128)
}

/// Each key sent as a press followed by its release, in order.
pub open spec fn presses_of(keys: Seq<u16>) -> Seq<ActionView>
    decreases keys.len(),
{
    if keys.len() == 0 {
        Seq::empty()
    } else {
        presses_of(keys.drop_last()) + seq![
            ActionView::RawKey { key: keys.last(), is_down: true },
            ActionView::RawKey { key: keys.last(), is_down: false },
        ]
    }
}

/// Without translation, a replay sends every swallowed key as a press and a
/// release, in the order they were typed; it ends the span when input is enabled.
pub proof fn lemma_untranslated_replay_sends_keys_in_order(
    c: ComposerState,
    enabled: bool,
    keys: Seq<u16>,
    t: Seq<KeyTranslation>,
)
    ensures
        replay_keys(c, enabled, false, keys, t).1 == presses_of(keys),
        replay_keys(c, enabled, false, keys, t).0 == if enabled && keys.len() > 0 {
            committed()
        } else {
            c
        },
    decreases keys.len(),
{
    if keys.len() > 0 {
        lemma_untranslated_replay_sends_keys_in_order(c, enabled, keys.drop_last(), t);
    }
}

proof fn lemma_presses_are_raw_keys(keys: Seq<u16>)
    ensures
        forall|i: int| 0 <= i < presses_of(keys).len() ==> #[trigger] presses_of(keys)[i] is RawKey,
    decreases keys.len(),
{
    if keys.len() > 0 {
        lemma_presses_are_raw_keys(keys.drop_last());
        let p = presses_of(keys.drop_last());
        assert forall|i: int| 0 <= i < presses_of(keys).len() implies #[trigger] presses_of(keys)[i] is RawKey by {
            if i < p.len() {
                assert(presses_of(keys)[i] == p[i]);
            }
        }
    }
}

/// While Tibetan input is disabled the hook types nothing: whatever the event
/// and whatever the layout says, no action erases or types text.
pub proof fn lemma_disabled_types_nothing(s: HookState, ev: KeyEvent, t: Seq<KeyTranslation>)
    requires
        s.wf(),
        !s.enabled,
    ensures
        forall|i: int|
            0 <= i < hook_step(s, ev, t).1.len() ==> !(#[trigger] hook_step(s, ev, t).1[i] is Replace),
{
    let (s1, outcome) = observe(s, ev);
    let key = ev.virtual_key as u16;
    match outcome {
        MatchOutcome::CancelAndPass(r) => {
            lemma_untranslated_replay_sends_keys_in_order(s1.composer, false, r, t);
            lemma_presses_are_raw_keys(r);
            let a = presses_of(r);
            assert forall|i: int| 0 <= i < hook_step(s, ev, t).1.len() implies !(#[trigger] hook_step(s, ev, t).1[i] is Replace) by {
                if i < a.len() {
                    assert(hook_step(s, ev, t).1[i] == a[i]);
                }
            }
        },
        MatchOutcome::CancelAndReprocess(r) => {
            lemma_untranslated_replay_sends_keys_in_order(s1.composer, false, r, t);
            lemma_presses_are_raw_keys(r);
            let a = presses_of(r);
            let (s3, a2, handled) = process_key(HookState { composer: s1.composer, ..s1 }, ev, translation_at(t, 0));
            assert(a2.len() == 0);
            assert forall|i: int| 0 <= i < hook_step(s, ev, t).1.len() implies !(#[trigger] hook_step(s, ev, t).1[i] is Replace) by {
                if i < a.len() {
                    assert(hook_step(s, ev, t).1[i] == a[i]);
                }
            }
        },
        _ => {},
    }
}

/// The hotkey toggles Tibetan input: the event is swallowed, the live span ends,
/// and the tray is told the new state.
pub proof fn lemma_trigger_toggles_input(s: HookState, ev: KeyEvent, t: Seq<KeyTranslation>)
    requires
        s.wf(),
        observe(s, ev).1 == MatchOutcome::Trigger,
    ensures
        hook_step(s, ev, t).0.enabled == !s.enabled,
        hook_step(s, ev, t).0.composer == ComposerState::empty(),
        hook_step(s, ev, t).1 == seq![ActionView::StateChanged(!s.enabled)],
        hook_step(s, ev, t).2,
{
}

/// A key press typed into the span is swallowed and remembered, so that its
/// release is swallowed too and the application never sees half a keystroke.
pub proof fn lemma_typed_press_and_release_are_swallowed(
    s: HookState,
    press: KeyEvent,
    release: KeyEvent,
    ch: char,
)
    requires
        s.wf(),
        press.is_down,
        (press.virtual_key as u16) < 256,
        observe(s, press).1 == MatchOutcome::Pass,
        needs_translation(observe(s, press).0, press),
        !release.is_down,
        release.virtual_key as u16 == press.virtual_key as u16,
        observe(hook_step(s, press, seq![KeyTranslation::Ewts(ch)]).0, release).1
            == MatchOutcome::Pass,
    ensures
        ({
            let (s2, typed, swallowed) = hook_step(s, press, seq![KeyTranslation::Ewts(ch)]);
            let (s3, after, swallowed_release) = hook_step(s2, release, Seq::empty());
            &&& swallowed
            &&& typed == seq![typed_edit(observe(s, press).0.composer, ch)]
            &&& s2.consumed[press.virtual_key as u16 as int]
            &&& swallowed_release
            &&& after.len() == 0
            &&& !s3.consumed[press.virtual_key as u16 as int]
        }),
{
}

/// A released key whose press was consumed is swallowed, and its mark cleared.
pub proof fn lemma_consumed_release_is_swallowed(s: HookState, ev: KeyEvent, t: Seq<KeyTranslation>)
    requires
        s.wf(),
        !ev.is_down,
        (ev.virtual_key as u16) < 256,
        s.consumed[ev.virtual_key as u16 as int],
        observe(s, ev).1 == MatchOutcome::Pass,
    ensures
        hook_step(s, ev, t).2,
        hook_step(s, ev, t).1.len() == 0,
        !hook_step(s, ev, t).0.consumed[ev.virtual_key as u16 as int],
        hook_step(s, ev, t).0.composer == s.composer,
{
}

/// An abandoned hotkey whose strokes have no EWTS meaning to type (input
/// disabled, or a Ctrl/Alt/Win chord) is replayed key by key, in order, before
/// the modifier release that cancelled it.
pub proof fn lemma_cancelled_hotkey_is_replayed_in_order(
    s: HookState,
    ev: KeyEvent,
    t: Seq<KeyTranslation>,
)
    requires
        s.wf(),
        !s.enabled || control_chord(s.matcher.modifiers),
        observe(s, ev).1 is CancelAndPass,
    ensures
        hook_step(s, ev, t).1 == presses_of(s.matcher.keys.take(s.matcher.progress as int)).push(
            ActionView::RawKey { key: ev.virtual_key as u16, is_down: false },
        ),
        hook_step(s, ev, t).2,
{
    let (s1, outcome) = observe(s, ev);
    crate::matcher::lemma_cancel_replays_swallowed_prefix(
        s.matcher,
        ev.virtual_key as u16,
        ev.is_down,
        modifiers_of(s.keys),
    );
    lemma_untranslated_replay_sends_keys_in_order(s1.composer, s.enabled, replayed(outcome), t);
}

/// While Tibetan input is on, a key press that the hook lets through to the
/// application ends the live span first: nothing is typed for it, and the
/// next typed character starts a new span (its edit erases nothing).
pub proof fn lemma_passed_press_ends_span(s: HookState, ev: KeyEvent, t: Seq<KeyTranslation>, ch: char)
    requires
        s.wf(),
        s.enabled,
        ev.is_down,
        !hook_step(s, ev, t).2,
    ensures
        hook_step(s, ev, t).0.composer == ComposerState::empty(),
        hook_step(s, ev, t).1.len() == 0,
        hook_step(s, ev, t).0.composer.after_push(ch).source == seq![ch] || spec_is_commit_character(ch),
        typed_edit(hook_step(s, ev, t).0.composer, ch) matches ActionView::Replace { backspaces, .. } && backspaces == 0,
{
    let (s1, outcome) = observe(s, ev);
    let key = ev.virtual_key as u16;
    assert(outcome is Pass);
    assert(s1.composer == s.composer);
    if key == VK_BACK && s.composer.source.len() == 0 {
        assert(s.composer.source =~= Seq::<char>::empty());
        assert(s.composer.rendered =~= Seq::<char>::empty());
    }
    assert(hook_step(s, ev, t).0.composer =~= ComposerState::empty());
    crate::composition::lemma_commit_characters_are_exactly(ComposerState::empty(), ch);
    lemma_fresh_span_accepts(ch);
    assert(Seq::<char>::empty().push(ch) =~= seq![ch]);
}

/// The keyboard hook's runtime state: the live composition, the hotkey matcher,
/// the tracked key state, and which key presses were consumed.
pub struct HookRuntime {
    composer: Composer,
    hotkey_matcher: HotkeyMatcher,
    keyboard_state: KeyboardState,
    consumed_keys: [bool; 256],
    enabled: bool,
}

impl View for HookRuntime {
    type V = HookState;

    closed spec fn view(&self) -> HookState {
        HookState {
            composer: self.composer@,
            matcher: self.hotkey_matcher@,
            keys: self.keyboard_state.keys@,
            consumed: self.consumed_keys@,
            enabled: self.enabled,
        }
    }
}

fn push_view(actions: &mut Vec<HookAction>, a: HookAction)
    ensures
        final(actions)@.map_values(|x: HookAction| x@) == old(actions)@.map_values(|x: HookAction| x@).push(a@),
{
    actions.push(a);
    assert(actions@.map_values(|x: HookAction| x@) =~= old(actions)@.map_values(|x: HookAction| x@).push(a@));
}

pub open spec fn views(actions: Seq<HookAction>) -> Seq<ActionView> {
    actions.map_values(|x: HookAction| x@)
}

impl HookRuntime {
    /// A runtime with nothing composed and nothing held but (possibly) Caps Lock.
    pub fn new(hotkey: Hotkey, caps_lock_on: bool, enabled: bool) -> (r: Self)
        requires
            hotkey.keys@.len() > 0,
        ensures
            r@.wf(),
            r@.composer.source.len() == 0,
            r@.matcher == MatcherState::fresh(hotkey.modifiers, hotkey.keys@),
            r@.enabled == enabled,
            forall|i: int| 0 <= i < 256 ==> !(#[trigger] r@.consumed[i]),
            r@.keys == initial_keys(caps_lock_on),
    {
        HookRuntime {
            composer: Composer::default(),
            hotkey_matcher: HotkeyMatcher::new(hotkey),
            keyboard_state: KeyboardState::with_caps_lock(caps_lock_on),
            consumed_keys: [false; 256],
            enabled,
        }
    }

    pub fn enabled(&self) -> (b: bool)
        ensures
            b == self@.enabled,
    {
        self.enabled
    }

    pub fn hotkey(&self) -> (h: &Hotkey)
        ensures
            h.modifiers == self@.matcher.modifiers,
            h.keys@ == self@.matcher.keys,
    {
        self.hotkey_matcher.hotkey()
    }

    /// Switch Tibetan input on or off, ending the live span; returns the new state.
    pub fn toggle(&mut self) -> (enabled: bool)
        requires
            old(self)@.wf(),
        ensures
            final(self)@.wf(),
            enabled == !old(self)@.enabled,
            final(self)@ == (HookState { composer: committed(), enabled, ..old(self)@ }),
    {
        self.composer.commit();
        self.enabled = !self.enabled;
        self.enabled
    }

    /// Start recognizing a new hotkey, ending the live span.
    pub fn set_hotkey(&mut self, hotkey: Hotkey)
        requires
            old(self)@.wf(),
            hotkey.keys@.len() > 0,
        ensures
            final(self)@.wf(),
            final(self)@ == (HookState {
                composer: committed(),
                matcher: MatcherState::fresh(hotkey.modifiers, hotkey.keys@),
                ..old(self)@
            }),
    {
        self.hotkey_matcher = HotkeyMatcher::new(hotkey);
        self.composer.commit();
    }

    /// A mouse button press can move the caret: it ends the live span.
    pub fn mouse_message(&mut self, message: usize)
        requires
            old(self)@.wf(),
        ensures
            final(self)@.wf(),
            final(self)@ == if spec_is_mouse_button_down(message) {
                HookState { composer: committed(), ..old(self)@ }
            } else {
                old(self)@
            },
    {
        if is_mouse_button_down(message) {
            self.composer.commit();
        }
    }

    /// The keys whose meaning under the active layout handling `event` needs,
    /// in the order `handle_key_event` uses them.
    pub fn translation_requests(&self, event: &KeyEvent) -> (r: Vec<TranslationRequest>)
        requires
            self@.wf(),
        ensures
            r@.map_values(|q: TranslationRequest| q@) == requests(self@, *event),
    {
        let key = event.virtual_key as u16;
        let mut matcher = self.hotkey_matcher.duplicate();
        let outcome = matcher.handle(key, event.is_down, self.keyboard_state.modifiers());
        let mut state = self.keyboard_state;
        state.update(normalized_state_key(key, event.scan_code, event.flags), event.is_down);
        let hotkey_modifiers = self.hotkey_matcher.hotkey().modifiers;
        let translate = self.enabled && !(hotkey_modifiers.ctrl || hotkey_modifiers.alt
            || hotkey_modifiers.win);
        let replay = replay_of(&outcome);
        let process = match &outcome {
            HotkeyMatch::Pass => true,
            HotkeyMatch::CancelAndReprocess(_) => true,
            _ => false,
        };
        let ghost s1 = observe(self@, *event).0;
        assert(state.keys@ == s1.keys);
        let mut reqs: Vec<TranslationRequest> = Vec::new();
        if translate {
            let replay_state = state.for_modifiers(hotkey_modifiers);
            let mut i: usize = 0;
            while i < replay.len()
                invariant
                    i <= replay.len(),
                    replay_state.keys@ == with_modifiers(s1.keys, self@.matcher.modifiers),
                    reqs@.map_values(|q: TranslationRequest| q@) =~= Seq::new(
                        i as nat,
                        |j: int|
                            RequestView {
                                virtual_key: replay@[j] as u32,
                                scan_code: None,
                                keys: replay_state.keys@,
                            },
                    ),
                decreases replay.len() - i,
            {
                let ghost before = reqs@;
                let q = TranslationRequest {
                    virtual_key: replay[i] as u32,
                    scan_code: None,
                    keys: replay_state.keys,
                };
                reqs.push(q);
                assert(reqs@ == before.push(q));
                assert(reqs@.map_values(|q: TranslationRequest| q@) =~= before.map_values(
                    |q: TranslationRequest| q@,
                ).push(q@));
                i = i + 1;
            }
        }
        if process && event.is_down && self.enabled && key != VK_BACK && !is_modifier_key(key)
            && !is_shortcut_chord(&state) {
            reqs.push(
                TranslationRequest {
                    virtual_key: event.virtual_key,
                    scan_code: Some(event.scan_code),
                    keys: state.keys,
                },
            );
        }
        assert(reqs@.map_values(|q: TranslationRequest| q@) =~= requests(self@, *event));
        reqs
    }

    /// Handle one keyboard event, given the meaning of each key that
    /// `translation_requests` named, in the same order.
    pub fn handle_key_event(&mut self, event: &KeyEvent, translations: &Vec<KeyTranslation>) -> (r:
        HookResponse)
        requires
            old(self)@.wf(),
            translations@.len() == requests(old(self)@, *event).len(),
            ascii_translations(translations@),
        ensures
            final(self)@.wf(),
            (final(self)@, views(r.actions@), r.suppress) == hook_step(
                old(self)@,
                *event,
                translations@,
            ),
    {
        let key = event.virtual_key as u16;
        let modifiers = self.keyboard_state.modifiers();
        let hotkey_match = self.hotkey_matcher.handle(key, event.is_down, modifiers);
        self.keyboard_state.update(
            normalized_state_key(key, event.scan_code, event.flags),
            event.is_down,
        );
        let hotkey_modifiers = self.hotkey_matcher.hotkey().modifiers;
        let translate = self.enabled && !(hotkey_modifiers.ctrl || hotkey_modifiers.alt
            || hotkey_modifiers.win);
        let mut actions: Vec<HookAction> = Vec::new();
        assert(views(actions@) =~= Seq::<ActionView>::empty());
        match hotkey_match {
            HotkeyMatch::Pass => {
                let handled = self.process_key(event, translation_at_exec(translations, 0), &mut actions);
                HookResponse { actions, suppress: handled }
            },
            HotkeyMatch::Suppress => HookResponse { actions, suppress: true },
            HotkeyMatch::Trigger => {
                self.composer.commit();
                self.enabled = !self.enabled;
                push_view(&mut actions, HookAction::StateChanged(self.enabled));
                assert(views(actions@) =~= seq![ActionView::StateChanged(self.enabled)]);
                HookResponse { actions, suppress: true }
            },
            HotkeyMatch::CancelAndPass(replay) => {
                self.replay(&replay, translate, translations, &mut actions);
                push_view(&mut actions, HookAction::RawKey { key, is_down: false });
                HookResponse { actions, suppress: true }
            },
            HotkeyMatch::CancelAndReprocess(replay) => {
                self.replay(&replay, translate, translations, &mut actions);
                let n: usize = if translate { replay.len() } else { 0 };
                let handled = self.process_key(event, translation_at_exec(translations, n), &mut actions);
                if !handled {
                    push_view(&mut actions, HookAction::RawKey { key, is_down: event.is_down });
                }
                HookResponse { actions, suppress: true }
            },
        }
    }

    /// Replay the swallowed prefix of an abandoned hotkey.
    fn replay(
        &mut self,
        keys: &Vec<u16>,
        translate: bool,
        t: &Vec<KeyTranslation>,
        actions: &mut Vec<HookAction>,
    )
        requires
            old(self)@.wf(),
            translate ==> t@.len() >= keys@.len(),
            translate ==> old(self)@.enabled,
            ascii_translations(t@),
        ensures
            final(self)@.wf(),
            final(self)@ == (HookState {
                composer: replay_keys(old(self)@.composer, old(self)@.enabled, translate, keys@, t@).0,
                ..old(self)@
            }),
            views(final(actions)@) == views(old(actions)@) + replay_keys(
                old(self)@.composer,
                old(self)@.enabled,
                translate,
                keys@,
                t@,
            ).1,
    {
        let mut i: usize = 0;
        let ghost c0 = old(self)@.composer;
        let ghost a0 = views(actions@);
        assert(keys@.take(0) =~= Seq::<u16>::empty());
        assert(a0 + Seq::<ActionView>::empty() =~= a0);
        while i < keys.len()
            invariant
                i <= keys.len(),
                self@.wf(),
                self@ == (HookState {
                    composer: replay_keys(c0, old(self)@.enabled, translate, keys@.take(i as int), t@).0,
                    ..old(self)@
                }),
                views(actions@) == a0 + replay_keys(c0, old(self)@.enabled, translate, keys@.take(i as int), t@).1,
                translate ==> t@.len() >= keys@.len(),
                translate ==> self@.enabled,
                c0 == old(self)@.composer,
                ascii_translations(t@),
            decreases keys.len() - i,
        {
            let k = keys[i];
            assert(keys@.take(i + 1).drop_last() =~= keys@.take(i as int));
            assert(keys@.take(i + 1).last() == k);
            let tr = if translate { t[i] } else { KeyTranslation::Pass };
            match tr {
                KeyTranslation::Ewts(ch) => {
                    assert(t@[i as int] matches KeyTranslation::Ewts(c) ==> (c as u32) < 128);
                    let edit = self.type_char(ch);
                    push_view(actions, HookAction::Replace(edit));
                },
                KeyTranslation::Suppress => {},
                KeyTranslation::Pass => {
                    if self.enabled {
                        self.composer.commit();
                    }
                    push_view(actions, HookAction::RawKey { key: k, is_down: true });
                    push_view(actions, HookAction::RawKey { key: k, is_down: false });
                },
            }
            i = i + 1;
            assert(views(actions@) =~= a0 + replay_keys(
                c0,
                old(self)@.enabled,
                translate,
                keys@.take(i as int),
                t@,
            ).1);
        }
        assert(keys@.take(keys.len() as int) =~= keys@);
    }

    /// Normal processing of a key event the hotkey did not claim; returns
    /// whether the event was handled.
    fn process_key(
        &mut self,
        event: &KeyEvent,
        tr: KeyTranslation,
        actions: &mut Vec<HookAction>,
    ) -> (handled: bool)
        requires
            old(self)@.wf(),
            tr matches KeyTranslation::Ewts(c) ==> (c as u32) < 128,
        ensures
            final(self)@.wf(),
            (final(self)@, views(final(actions)@), handled) == ({
                let (s2, a, h) = process_key(old(self)@, *event, tr);
                (s2, views(old(actions)@) + a, h)
            }),
    {
        let key = event.virtual_key as u16;
        let ghost a0 = views(actions@);
        assert(a0 + Seq::<ActionView>::empty() =~= a0);
        if !event.is_down && key < 256 && self.consumed_keys[key as usize] {
            self.consumed_keys[key as usize] = false;
            assert(self@.consumed =~= old(self)@.consumed.update(key as int, false));
            return true;
        }
        if !self.enabled {
            return false;
        }
        if key == VK_BACK {
            if event.is_down {
                match self.composer.backspace() {
                    Some(edit) => {
                        push_view(actions, HookAction::Replace(edit));
                        assert(views(actions@) =~= a0 + seq![HookAction::Replace(edit)@]);
                        return true;
                    },
                    None => {
                        return false;
                    },
                }
            } else {
                return !self.composer.is_empty();
            }
        }
        if is_modifier_key(key) {
            if event.is_down {
                self.composer.commit();
            }
            return false;
        }
        if event.is_down && !is_shortcut_chord(&self.keyboard_state) {
            match tr {
                KeyTranslation::Ewts(ch) => {
                    let edit = self.type_char(ch);
                    push_view(actions, HookAction::Replace(edit));
                    assert(views(actions@) =~= a0 + seq![HookAction::Replace(edit)@]);
                    self.mark_consumed(key);
                    return true;
                },
                KeyTranslation::Suppress => {
                    self.mark_consumed(key);
                    return true;
                },
                KeyTranslation::Pass => {
                    self.composer.commit();
                    return false;
                },
            }
        }
        if event.is_down {
            self.composer.commit();
        }
        false
    }

    /// Type `ch` into the live span, ending it first when the converter could
    /// not take `ch` there.
    fn type_char(&mut self, ch: char) -> (edit: Replacement)
        requires
            old(self)@.wf(),
            (ch as u32) < 128,
        ensures
            final(self)@.wf(),
            final(self)@ == (HookState { composer: typed_state(old(self)@.composer, ch), ..old(self)@ }),
            HookAction::Replace(edit)@ == typed_edit(old(self)@.composer, ch),
    {
        if !self.composer.accepts(ch) {
            self.composer.commit();
            proof {
                lemma_fresh_span_accepts(ch);
            }
        }
        self.composer.push(ch)
    }

    fn mark_consumed(&mut self, key: u16)
        ensures
            final(self)@ == (HookState { consumed: mark_consumed(old(self)@.consumed, key), ..old(self)@ }),
    {
        if key < 256 {
            self.consumed_keys[key as usize] = true;
            assert(self@.consumed =~= old(self)@.consumed.update(key as int, true));
        }
    }
}

/// The keys a verdict hands back for replay.
fn replay_of(outcome: &HotkeyMatch) -> (r: Vec<u16>)
    ensures
        r@ == replayed(outcome@),
{
    let source: &Vec<u16> = match outcome {
        HotkeyMatch::CancelAndPass(r) => r,
        HotkeyMatch::CancelAndReprocess(r) => r,
        _ => {
            return Vec::new();
        },
    };
    let mut copy: Vec<u16> = Vec::new();
    let mut i: usize = 0;
    while i < source.len()
        invariant
            i <= source.len(),
            copy@ == source@.take(i as int),
        decreases source.len() - i,
    {
        copy.push(source[i]);
        i = i + 1;
        assert(copy@ =~= source@.take(i as int));
    }
    assert(copy@ =~= source@);
    copy
}

fn translation_at_exec(t: &Vec<KeyTranslation>, i: usize) -> (tr: KeyTranslation)
    ensures
        tr == translation_at(t@, i as int),
        (t@.len() > 0 ==> forall|j: int| 0 <= j < t@.len() ==> (#[trigger] t@[j] matches KeyTranslation::Ewts(c) ==> (c as u32) < 128)) ==> (tr matches KeyTranslation::Ewts(c) ==> (c as u32) < 128),
{
    if i < t.len() {
        t[i]
    } else {
        KeyTranslation::Pass
    }
}

} // verus!
