use wl_shortcuts_overlay::input_listener::{AltState, AltTracker, KeyState, KEY_LEFTALT, KEY_RIGHTALT};

const KEY_TAB: u32 = 15;

#[test]
fn alt_alone_shows_then_hides() {
    let mut t = AltTracker::new();
    assert_eq!(t.process_keyboard_event(KEY_LEFTALT, KeyState::Pressed), Some(AltState::Pressed));
    assert_eq!(t.process_keyboard_event(KEY_LEFTALT, KeyState::Released), Some(AltState::Released));
}

#[test]
fn alt_tab_hides_and_release_of_tab_shows_again() {
    let mut t = AltTracker::new();
    assert_eq!(t.process_keyboard_event(KEY_LEFTALT, KeyState::Pressed), Some(AltState::Pressed));
    assert_eq!(t.process_keyboard_event(KEY_TAB, KeyState::Pressed), Some(AltState::Released));
    assert_eq!(t.process_keyboard_event(KEY_TAB, KeyState::Released), Some(AltState::Pressed));
    assert_eq!(t.process_keyboard_event(KEY_LEFTALT, KeyState::Released), Some(AltState::Released));
}

#[test]
fn alt_pressed_while_other_key_held_is_not_reported() {
    let mut t = AltTracker::new();
    assert_eq!(t.process_keyboard_event(KEY_TAB, KeyState::Pressed), None);
    assert_eq!(t.process_keyboard_event(KEY_RIGHTALT, KeyState::Pressed), None);
    assert_eq!(t.process_keyboard_event(KEY_TAB, KeyState::Released), Some(AltState::Pressed));
}

#[test]
fn both_alts_must_be_released() {
    let mut t = AltTracker::new();
    assert_eq!(t.process_keyboard_event(KEY_LEFTALT, KeyState::Pressed), Some(AltState::Pressed));
    assert_eq!(t.process_keyboard_event(KEY_RIGHTALT, KeyState::Pressed), Some(AltState::Pressed));
    assert_eq!(t.process_keyboard_event(KEY_LEFTALT, KeyState::Released), None);
    assert_eq!(t.process_keyboard_event(KEY_RIGHTALT, KeyState::Released), Some(AltState::Released));
}

#[test]
fn other_keys_alone_report_nothing() {
    let mut t = AltTracker::new();
    assert_eq!(t.process_keyboard_event(KEY_TAB, KeyState::Pressed), None);
    assert_eq!(t.process_keyboard_event(KEY_TAB, KeyState::Released), None);
    assert_eq!(t.process_keyboard_event(KEY_LEFTALT, KeyState::Released), Some(AltState::Released));
}
