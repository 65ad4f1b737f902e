//! When the overlay should appear: Alt held down on its own.
//!
//! The keyboard events of all devices are fed, one at a time, to an
//! `AltTracker`.  It reports `Pressed` when an Alt key goes down, or another key
//! comes up, leaving only Alt held; it reports `Released` when the last Alt key
//! comes up, or another key goes down while Alt is held.

use std::collections::HashSet;
use vstd::prelude::*;

verus! {

broadcast use vstd::std_specs::hash::group_hash_axioms;

/// The state of the Alt modifier as the overlay sees it.
#[derive(Debug, Clone, Copy, PartialEq, Eq, Structural)]
pub enum AltState {
    /// Alt is held and no other key.
    Pressed,
    Released,
}

/// Whether a key went down or came up.
#[derive(Debug, Clone, Copy, PartialEq, Eq, Structural)]
pub enum KeyState {
    Pressed,
    Released,
}

/// The Linux input event code of the left Alt key.
pub const KEY_LEFTALT: u32 = 56;

/// The Linux input event code of the right Alt key.
pub const KEY_RIGHTALT: u32 = 100;

/// The keys held down, as the listener tracks them.
pub struct AltTracker {
    left_alt_pressed: bool,
    right_alt_pressed: bool,
    /// The keys other than Alt that are held.
    pressed_keys: HashSet<u32>,
}

/// The tracked keys as plain values.
pub struct AltTrackerView {
    pub left_alt_pressed: bool,
    pub right_alt_pressed: bool,
    pub pressed_keys: Set<u32>,
}

impl View for AltTracker {
    type V = AltTrackerView;

    closed spec fn view(&self) -> AltTrackerView {
        AltTrackerView {
            left_alt_pressed: self.left_alt_pressed,
            right_alt_pressed: self.right_alt_pressed,
            pressed_keys: self.pressed_keys@,
        }
    }
}

/// The tracked keys after one keyboard event, and what the event signals.
pub open spec fn alt_step(t: AltTrackerView, key: u32, state: KeyState) -> (
    AltTrackerView,
    Option<AltState>,
) {
    let is_left_alt = key == KEY_LEFTALT;
    let is_right_alt = key == KEY_RIGHTALT;
    let is_alt = is_left_alt || is_right_alt;
    let pressed = state == KeyState::Pressed;
    let released = state == KeyState::Released;
    let keys = if is_alt {
        t.pressed_keys
    } else if pressed {
        t.pressed_keys.insert(key)
    } else {
        t.pressed_keys.remove(key)
    };
    let left = if is_left_alt {
        pressed
    } else {
        t.left_alt_pressed
    };
    let right = if !is_left_alt && is_right_alt {
        pressed
    } else {
        t.right_alt_pressed
    };
    let any_alt = left || right;
    let only_alt = any_alt && keys.is_empty();
    let signal = if is_alt && pressed && only_alt {
        Some(AltState::Pressed)
    } else if is_alt && released && !any_alt {
        Some(AltState::Released)
    } else if !is_alt && pressed && any_alt {
        Some(AltState::Released)
    } else if !is_alt && released && only_alt {
        Some(AltState::Pressed)
    } else {
        None
    };
    (AltTrackerView { left_alt_pressed: left, right_alt_pressed: right, pressed_keys: keys }, signal)
}

impl AltTracker {
    /// No key held.
    pub fn new() -> (t: Self)
        ensures
            !t@.left_alt_pressed,
            !t@.right_alt_pressed,
            t@.pressed_keys == Set::<u32>::empty(),
    {
        AltTracker { left_alt_pressed: false, right_alt_pressed: false, pressed_keys: HashSet::new() }
    }

    /// Takes one keyboard event (the key's input event code and whether it
    /// went down or up) and returns the Alt state to report, if any.
    pub fn process_keyboard_event(&mut self, key: u32, state: KeyState) -> (r: Option<AltState>)
        ensures
            (final(self)@, r) == alt_step(old(self)@, key, state),
    {
        let is_left_alt = key == KEY_LEFTALT;
        let is_right_alt = key == KEY_RIGHTALT;
        let is_alt = is_left_alt || is_right_alt;
        let pressed = match state {
            KeyState::Pressed => true,
            KeyState::Released => false,
        };
        let released = !pressed;
        if !is_alt {
            if pressed {
                self.pressed_keys.insert(key);
            } else if released {
                self.pressed_keys.remove(&key);
            }
        }
        if is_left_alt {
            self.left_alt_pressed = pressed;
        } else if is_right_alt {
            self.right_alt_pressed = pressed;
        }
        let any_alt_pressed = self.left_alt_pressed || self.right_alt_pressed;
        let only_alt_pressed = any_alt_pressed && self.pressed_keys.is_empty();
        if is_alt && pressed && only_alt_pressed {
            Some(AltState::Pressed)
        } else if is_alt && released && !any_alt_pressed {
            Some(AltState::Released)
        } else if !is_alt && pressed && any_alt_pressed {
            Some(AltState::Released)
        } else if !is_alt && released && only_alt_pressed {
            Some(AltState::Pressed)
        } else {
            None
        }
    }
}

/// `Pressed` is reported only when an Alt key is held and no other key, and
/// `Released` only when no Alt key is held or another key is.
pub proof fn lemma_alt_signals_match_keys(t: AltTrackerView, key: u32, state: KeyState)
    ensures
        ({
            let (next, signal) = alt_step(t, key, state);
            &&& signal == Some(AltState::Pressed) ==> (next.left_alt_pressed
                || next.right_alt_pressed) && next.pressed_keys.is_empty()
            &&& signal == Some(AltState::Released) ==> !(next.left_alt_pressed
                || next.right_alt_pressed) || !next.pressed_keys.is_empty()
        }),
{
    let (next, signal) = alt_step(t, key, state);
    if key != KEY_LEFTALT && key != KEY_RIGHTALT && state == KeyState::Pressed {
        assert(next.pressed_keys.contains(key));
    }
}

/// A key other than Alt that goes down while Alt is held always reports
/// `Released`, so the overlay hides when Alt is used in a key combination.
pub proof fn lemma_combination_hides_overlay(t: AltTrackerView, key: u32)
    requires
        key != KEY_LEFTALT,
        key != KEY_RIGHTALT,
        t.left_alt_pressed || t.right_alt_pressed,
    ensures
        alt_step(t, key, KeyState::Pressed).1 == Some(AltState::Released),
{
}

/// How one event changes the held keys: a key other than Alt is added when
/// it goes down and removed, alone, when it comes up; an Alt key only sets
/// whether that Alt key is held.
pub proof fn lemma_events_track_held_keys(t: AltTrackerView, key: u32, state: KeyState)
    ensures
        ({
            let next = alt_step(t, key, state).0;
            &&& key != KEY_LEFTALT && key != KEY_RIGHTALT ==> {
                &&& next.pressed_keys == (if state == KeyState::Pressed {
                    t.pressed_keys.insert(key)
                } else {
                    t.pressed_keys.remove(key)
                })
                &&& next.left_alt_pressed == t.left_alt_pressed
                &&& next.right_alt_pressed == t.right_alt_pressed
            }
            &&& key == KEY_LEFTALT ==> next.pressed_keys == t.pressed_keys
                && next.left_alt_pressed == (state == KeyState::Pressed)
                && next.right_alt_pressed == t.right_alt_pressed
            &&& key == KEY_RIGHTALT ==> next.pressed_keys == t.pressed_keys
                && next.right_alt_pressed == (state == KeyState::Pressed)
                && next.left_alt_pressed == t.left_alt_pressed
        }),
{
}

/// A key other than Alt that is held stays held through events of other keys,
/// and while it is held no event reports `Pressed`: Alt is not alone.
pub proof fn lemma_held_key_blocks_pressed(t: AltTrackerView, held: u32, key: u32, state: KeyState)
    requires
        t.pressed_keys.contains(held),
        key != held,
    ensures
        alt_step(t, key, state).0.pressed_keys.contains(held),
        alt_step(t, key, state).1 != Some(AltState::Pressed),
{
    let next = alt_step(t, key, state).0;
    assert(next.pressed_keys.contains(held));
    assert(!next.pressed_keys.is_empty());
}

} // verus!
