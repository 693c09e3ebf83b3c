//! Stateful recognizer for single- and repeated-stroke hotkeys.

use vstd::prelude::*;

use crate::config::{Hotkey, Modifiers};

verus! {

/// What the hook should do with the key event that was just examined.
#[derive(Debug, Clone, PartialEq, Eq)]
pub enum HotkeyMatch {
    Pass,
    Suppress,
    Trigger,
    /// Replay the suppressed prefix, then pass the current key event through.
    CancelAndPass(Vec<u16>),
    /// Replay the suppressed prefix, then process the current key as normal.
    CancelAndReprocess(Vec<u16>),
}

/// The mathematical value of a [`HotkeyMatch`].
pub enum MatchOutcome {
    Pass,
    Suppress,
    Trigger,
    CancelAndPass(Seq<u16>),
    CancelAndReprocess(Seq<u16>),
}

impl View for HotkeyMatch {
    type V = MatchOutcome;

    open spec fn view(&self) -> MatchOutcome {
        match self {
            HotkeyMatch::Pass => MatchOutcome::Pass,
            HotkeyMatch::Suppress => MatchOutcome::Suppress,
            HotkeyMatch::Trigger => MatchOutcome::Trigger,
            HotkeyMatch::CancelAndPass(v) => MatchOutcome::CancelAndPass(v@),
            HotkeyMatch::CancelAndReprocess(v) => MatchOutcome::CancelAndReprocess(v@),
        }
    }
}

/// The abstract state of a [`HotkeyMatcher`].
pub struct MatcherState {
    pub modifiers: Modifiers,
    pub keys: Seq<u16>,
    /// Number of strokes of the hotkey already seen (and suppressed).
    pub progress: nat,
    /// The last accepted stroke has not been released yet.
    pub active_key_down: bool,
    /// A key whose next release must be swallowed.
    pub suppress_release: Option<u16>,
}

impl MatcherState {
    /// A matcher that has seen nothing of its hotkey.
    pub open spec fn fresh(modifiers: Modifiers, keys: Seq<u16>) -> MatcherState {
        MatcherState {
            modifiers,
            keys,
            progress: 0,
            active_key_down: false,
            suppress_release: None,
        }
    }

    /// The invariant every matcher keeps.
    pub open spec fn wf(self) -> bool {
        &&& self.progress == 0 || self.progress < self.keys.len()
        &&& self.progress == 0 ==> !self.active_key_down
        &&& self.keys.len() == 0 ==> self.suppress_release is None
    }
}

/// Whether `key` is a physical or generic key of a modifier that `modifiers` requires.
pub open spec fn spec_required_modifier_key(key: u16, modifiers: Modifiers) -> bool {
    if key == 0x10 || key == 0xA0 || key == 0xA1 {
        modifiers.shift
    } else if key == 0x11 || key == 0xA2 || key == 0xA3 {
        modifiers.ctrl
    } else if key == 0x12 || key == 0xA4 || key == 0xA5 {
        modifiers.alt
    } else if key == 0x5B || key == 0x5C {
        modifiers.win
    } else {
        false
    }
}

/// Abandon a partially entered hotkey: the suppressed prefix is handed back for replay.
pub open spec fn cancel_step(s: MatcherState, reprocess: bool) -> (MatcherState, MatchOutcome) {
    let replay = s.keys.take(s.progress as int);
    let next = MatcherState {
        modifiers: s.modifiers,
        keys: s.keys,
        progress: 0,
        active_key_down: false,
        suppress_release: if s.active_key_down {
            Some(s.keys[0])
        } else {
            s.suppress_release
        },
    };
    (
        next,
        if reprocess {
            MatchOutcome::CancelAndReprocess(replay)
        } else {
            MatchOutcome::CancelAndPass(replay)
        },
    )
}

/// One low-level key event examined by the matcher: the next state and the verdict.
pub open spec fn match_step(s: MatcherState, key: u16, is_down: bool, modifiers: Modifiers) -> (
    MatcherState,
    MatchOutcome,
) {
    if s.suppress_release == Some(key) {
        (
            if !is_down {
                MatcherState { suppress_release: None, ..s }
            } else {
                s
            },
            MatchOutcome::Suppress,
        )
    } else if s.progress > 0 {
        if !is_down && spec_required_modifier_key(key, s.modifiers) {
            cancel_step(s, false)
        } else if !is_down && key == s.keys[0] && s.active_key_down {
            (MatcherState { active_key_down: false, ..s }, MatchOutcome::Suppress)
        } else if is_down {
            if key == s.keys[0] && s.active_key_down {
                (s, MatchOutcome::Suppress)
            } else if key == s.keys[s.progress as int] && modifiers == s.modifiers {
                if s.progress + 1 == s.keys.len() {
                    (
                        MatcherState {
                            progress: 0,
                            active_key_down: false,
                            suppress_release: Some(key),
                            ..s
                        },
                        MatchOutcome::Trigger,
                    )
                } else {
                    (
                        MatcherState { progress: s.progress + 1, active_key_down: true, ..s },
                        MatchOutcome::Suppress,
                    )
                }
            } else {
                cancel_step(s, true)
            }
        } else {
            (s, MatchOutcome::Pass)
        }
    } else if is_down && key == s.keys[0] && modifiers == s.modifiers {
        if s.keys.len() == 1 {
            (MatcherState { suppress_release: Some(key), ..s }, MatchOutcome::Trigger)
        } else {
            (MatcherState { progress: 1, active_key_down: true, ..s }, MatchOutcome::Suppress)
        }
    } else {
        (s, MatchOutcome::Pass)
    }
}

/// Stateful recognizer for single- and repeated-stroke hotkeys.
#[derive(Debug, Clone)]
pub struct HotkeyMatcher {
    hotkey: Hotkey,
    progress: usize,
    active_key_down: bool,
    suppress_release: Option<u16>,
}

impl View for HotkeyMatcher {
    type V = MatcherState;

    closed spec fn view(&self) -> MatcherState {
        MatcherState {
            modifiers: self.hotkey.modifiers,
            keys: self.hotkey.keys@,
            progress: self.progress as nat,
            active_key_down: self.active_key_down,
            suppress_release: self.suppress_release,
        }
    }
}

impl HotkeyMatcher {
    pub fn new(hotkey: Hotkey) -> (m: Self)
        ensures
            m@ == MatcherState::fresh(hotkey.modifiers, hotkey.keys@),
            m@.wf(),
    {
        HotkeyMatcher { hotkey, progress: 0, active_key_down: false, suppress_release: None }
    }

    /// An independent matcher in the same state.
    pub fn duplicate(&self) -> (m: Self)
        ensures
            m@ == self@,
    {
        let mut keys: Vec<u16> = Vec::new();
        let mut i: usize = 0;
        while i < self.hotkey.keys.len()
            invariant
                i <= self.hotkey.keys.len(),
                keys@ == self.hotkey.keys@.take(i as int),
            decreases self.hotkey.keys.len() - i,
        {
            keys.push(self.hotkey.keys[i]);
            i = i + 1;
            assert(keys@ =~= self.hotkey.keys@.take(i as int));
        }
        assert(keys@ =~= self.hotkey.keys@);
        HotkeyMatcher {
            hotkey: Hotkey { modifiers: self.hotkey.modifiers, keys },
            progress: self.progress,
            active_key_down: self.active_key_down,
            suppress_release: self.suppress_release,
        }
    }

    pub fn hotkey(&self) -> (h: &Hotkey)
        ensures
            h.modifiers == self@.modifiers,
            h.keys@ == self@.keys,
    {
        &self.hotkey
    }

    /// Forget any partially entered hotkey and any pending release to swallow.
    pub fn reset(&mut self)
        ensures
            final(self)@ == MatcherState::fresh(old(self)@.modifiers, old(self)@.keys),
            final(self)@.wf(),
    {
        self.progress = 0;
        self.active_key_down = false;
        self.suppress_release = None;
    }

    fn is_pending_release(&self, key: u16) -> (b: bool)
        ensures
            b == (self@.suppress_release == Some(key)),
    {
        match self.suppress_release {
            Some(k) => k == key,
            None => false,
        }
    }

    /// Examine one low-level key event. `modifiers` is the modifier state just
    /// before the event, matching the semantics of `WH_KEYBOARD_LL`. A hotkey
    /// without strokes cannot examine a key press (it has no first stroke to
    /// compare with); every other event is answered.
    pub fn handle(&mut self, key: u16, is_down: bool, modifiers: Modifiers) -> (r: HotkeyMatch)
        requires
            old(self)@.wf(),
            old(self)@.keys.len() > 0 || !is_down,
        ensures
            final(self)@.wf(),
            (final(self)@, r@) == match_step(old(self)@, key, is_down, modifiers),
    {
        if self.is_pending_release(key) {
            if !is_down {
                self.suppress_release = None;
            }
            return HotkeyMatch::Suppress;
        }
        if self.progress > 0 {
            if !is_down && required_modifier_key(key, self.hotkey.modifiers) {
                return self.cancel(false);
            }
            let sequence_key = self.hotkey.keys[0];
            if !is_down && key == sequence_key && self.active_key_down {
                self.active_key_down = false;
                return HotkeyMatch::Suppress;
            }
            if is_down {
                if key == sequence_key && self.active_key_down {
                    // Key auto-repeat is not a second stroke. An actual key-up
                    // must separate activation strokes.
                    return HotkeyMatch::Suppress;
                }
                let expected = self.hotkey.keys[self.progress];
                if key == expected && modifiers == self.hotkey.modifiers {
                    let len = self.hotkey.keys.len();
                    assert(self.progress < len);
                    self.progress = self.progress + 1;
                    self.active_key_down = true;
                    if self.progress == self.hotkey.keys.len() {
                        self.progress = 0;
                        self.active_key_down = false;
                        self.suppress_release = Some(key);
                        return HotkeyMatch::Trigger;
                    }
                    return HotkeyMatch::Suppress;
                }
                return self.cancel(true);
            }
            return HotkeyMatch::Pass;
        }
        if is_down && key == self.hotkey.keys[0] && modifiers == self.hotkey.modifiers {
            if self.hotkey.keys.len() == 1 {
                self.suppress_release = Some(key);
                return HotkeyMatch::Trigger;
            }
            self.progress = 1;
            self.active_key_down = true;
            return HotkeyMatch::Suppress;
        }
        HotkeyMatch::Pass
    }

    fn cancel(&mut self, reprocess: bool) -> (r: HotkeyMatch)
        requires
            old(self)@.wf(),
            old(self)@.progress > 0,
        ensures
            final(self)@.wf(),
            (final(self)@, r@) == cancel_step(old(self)@, reprocess),
    {
        let mut replay: Vec<u16> = Vec::new();
        let mut i: usize = 0;
        while i < self.progress
            invariant
                self@.wf(),
                i <= self.progress,
                replay@ == self@.keys.take(i as int),
            decreases self.progress - i,
        {
            replay.push(self.hotkey.keys[i]);
            i = i + 1;
            assert(replay@ =~= self@.keys.take(i as int));
        }
        if self.active_key_down {
            self.suppress_release = Some(self.hotkey.keys[0]);
        }
        self.progress = 0;
        self.active_key_down = false;
        if reprocess {
            HotkeyMatch::CancelAndReprocess(replay)
        } else {
            HotkeyMatch::CancelAndPass(replay)
        }
    }
}

/// The state reached from `s` after `n` complete strokes (press, then release) of `key`.
pub open spec fn presses(s: MatcherState, key: u16, modifiers: Modifiers, n: nat) -> MatcherState
    decreases n,
{
    if n == 0 {
        s
    } else {
        let before = presses(s, key, modifiers, (n - 1) as nat);
        let pressed = match_step(before, key, true, modifiers).0;
        match_step(pressed, key, false, modifiers).0
    }
}

/// A hotkey whose strokes all repeat one key, which is not itself a required modifier.
pub open spec fn repeated_stroke_hotkey(modifiers: Modifiers, keys: Seq<u16>) -> bool {
    &&& 0 < keys.len()
    &&& forall|i: int| 0 <= i < keys.len() ==> #[trigger] keys[i] == keys[0]
    &&& !spec_required_modifier_key(keys[0], modifiers)
}

/// A repeated-stroke hotkey triggers only after distinct presses: starting fresh,
/// after `i` complete strokes (fewer than the hotkey has) the matcher has counted
/// exactly `i`; the next press is swallowed, or triggers when it is the last one;
/// and its release is swallowed too.
pub proof fn lemma_repeated_strokes_trigger_on_last_press(
    modifiers: Modifiers,
    keys: Seq<u16>,
    i: nat,
)
    requires
        repeated_stroke_hotkey(modifiers, keys),
        i < keys.len(),
    ensures
        presses(MatcherState::fresh(modifiers, keys), keys[0], modifiers, i) == (MatcherState {
            progress: i,
            ..MatcherState::fresh(modifiers, keys)
        }),
        match_step(
            presses(MatcherState::fresh(modifiers, keys), keys[0], modifiers, i),
            keys[0],
            true,
            modifiers,
        ).1 == (if i + 1 == keys.len() {
            MatchOutcome::Trigger
        } else {
            MatchOutcome::Suppress
        }),
        match_step(
            match_step(
                presses(MatcherState::fresh(modifiers, keys), keys[0], modifiers, i),
                keys[0],
                true,
                modifiers,
            ).0,
            keys[0],
            false,
            modifiers,
        ).1 == MatchOutcome::Suppress,
    decreases i,
{
    let k = keys[0];
    if i > 0 {
        lemma_repeated_strokes_trigger_on_last_press(modifiers, keys, (i - 1) as nat);
        assert(keys[(i - 1) as int] == k);
    }
    assert(keys[i as int] == k);
}

/// Key auto-repeat is not a second stroke: while the last accepted stroke is
/// still held, another press of that key is swallowed and changes nothing.
pub proof fn lemma_auto_repeat_is_not_a_stroke(s: MatcherState, modifiers: Modifiers)
    requires
        s.wf(),
        s.progress > 0,
        s.active_key_down,
        s.suppress_release != Some(s.keys[0]),
    ensures
        match_step(s, s.keys[0], true, modifiers) == (s, MatchOutcome::Suppress),
{
}

/// An interrupted hotkey hands back exactly the strokes it had swallowed, and the
/// next attempt starts from scratch.
pub proof fn lemma_cancel_replays_swallowed_prefix(
    s: MatcherState,
    key: u16,
    is_down: bool,
    modifiers: Modifiers,
)
    requires
        s.wf(),
    ensures
        ({
            let (next, outcome) = match_step(s, key, is_down, modifiers);
            (outcome is CancelAndPass || outcome is CancelAndReprocess) ==> {
                &&& s.progress > 0
                &&& next.progress == 0
                &&& !next.active_key_down
                &&& outcome matches MatchOutcome::CancelAndPass(r) ==> r == s.keys.take(
                    s.progress as int,
                )
                &&& outcome matches MatchOutcome::CancelAndReprocess(r) ==> r == s.keys.take(
                    s.progress as int,
                )
            }
        }),
{
}

/// A pressed key that cannot continue a partially entered hotkey cancels it and
/// is handed back for normal processing after the replayed prefix.
pub proof fn lemma_other_key_cancels_and_reprocesses(
    s: MatcherState,
    key: u16,
    modifiers: Modifiers,
)
    requires
        s.wf(),
        s.progress > 0,
        s.suppress_release != Some(key),
        key != s.keys[0],
        key != s.keys[s.progress as int],
    ensures
        match_step(s, key, true, modifiers) == cancel_step(s, true),
{
}

/// Events unrelated to the hotkey pass through and leave the matcher untouched.
pub proof fn lemma_pass_leaves_state(s: MatcherState, key: u16, is_down: bool, modifiers: Modifiers)
    ensures
        match_step(s, key, is_down, modifiers).1 == MatchOutcome::Pass ==> match_step(
            s,
            key,
            is_down,
            modifiers,
        ).0 == s,
{
}

/// The hotkey fires only on a press of its last stroke with exactly its modifiers,
/// and the release of that press is swallowed afterwards.
pub proof fn lemma_trigger_is_sound(s: MatcherState, key: u16, modifiers: Modifiers, later: Modifiers)
    requires
        s.wf(),
        match_step(s, key, true, modifiers).1 == MatchOutcome::Trigger,
    ensures
        modifiers == s.modifiers,
        key == s.keys[s.keys.len() - 1],
        s.progress == s.keys.len() - 1,
        match_step(match_step(s, key, true, modifiers).0, key, false, later) == (
            MatcherState::fresh(s.modifiers, s.keys),
            MatchOutcome::Suppress,
        ),
{
}

/// While the release of a key is waiting to be swallowed (the hotkey fired on
/// its press), further presses of that key (auto-repeat) are swallowed and
/// change nothing, whatever the modifiers; its release is swallowed and ends
/// the wait.
pub proof fn lemma_pending_release_swallows_repeats(s: MatcherState, key: u16, modifiers: Modifiers)
    requires
        s.suppress_release == Some(key),
    ensures
        match_step(s, key, true, modifiers) == (s, MatchOutcome::Suppress),
        match_step(s, key, false, modifiers).1 == MatchOutcome::Suppress,
        match_step(s, key, false, modifiers).0.suppress_release is None,
{
}

/// Holding the hotkey toggles once: after it fires, any number of further
/// presses of the same key before its release are swallowed, and none fires.
pub proof fn lemma_held_hotkey_fires_once(
    s: MatcherState,
    key: u16,
    modifiers: Modifiers,
    repeat_modifiers: Modifiers,
)
    requires
        match_step(s, key, true, modifiers).1 == MatchOutcome::Trigger,
    ensures
        ({
            let fired = match_step(s, key, true, modifiers).0;
            match_step(fired, key, true, repeat_modifiers) == (fired, MatchOutcome::Suppress)
        }),
{
}

/// Whether `key` is a generic or sided key of a modifier that `modifiers` requires.
pub fn required_modifier_key(key: u16, modifiers: Modifiers) -> (b: bool)
    ensures
        b == spec_required_modifier_key(key, modifiers),
{
    match key {
        0x10 | 0xA0 | 0xA1 => modifiers.shift,
        0x11 | 0xA2 | 0xA3 => modifiers.ctrl,
        0x12 | 0xA4 | 0xA5 => modifiers.alt,
        0x5B | 0x5C => modifiers.win,
        _ => false,
    }
}

} // verus!
