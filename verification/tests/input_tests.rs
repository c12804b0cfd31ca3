use smitten::{InputState, Key, SmittenEvent};

#[test]
fn nothing_is_down_at_the_start() {
    let s = InputState::new();
    assert!(!s.is_key_down(Key::A));
    assert!(!s.is_scancode_down(30));
}

#[test]
fn keydown_inserts_and_keyup_removes() {
    let mut s = InputState::new();
    s.note_event(&SmittenEvent::Keydown { scancode: 30, key: Some(Key::A) });
    assert!(s.is_key_down(Key::A));
    assert!(s.is_scancode_down(30));
    assert!(!s.is_key_down(Key::B));
    s.note_event(&SmittenEvent::Keyup { scancode: 30, key: Some(Key::A) });
    assert!(!s.is_key_down(Key::A));
    assert!(!s.is_scancode_down(30));
}

#[test]
fn unnamed_keys_still_track_their_scancode() {
    let mut s = InputState::new();
    s.note_event(&SmittenEvent::Keydown { scancode: 99, key: None });
    assert!(s.is_scancode_down(99));
    assert!(!s.is_key_down(Key::Escape));
    s.note_event(&SmittenEvent::Keyup { scancode: 99, key: None });
    assert!(!s.is_scancode_down(99));
}

#[test]
fn resizes_do_not_touch_the_down_sets() {
    let mut s = InputState::new();
    s.note_event(&SmittenEvent::Keydown { scancode: 17, key: Some(Key::W) });
    s.note_event(&SmittenEvent::WindowResized { width: 320, height: 240 });
    assert!(s.is_key_down(Key::W));
    assert!(s.is_scancode_down(17));
}

#[test]
fn holding_several_keys_tracks_each() {
    let mut s = InputState::new();
    s.note_event(&SmittenEvent::Keydown { scancode: 17, key: Some(Key::W) });
    s.note_event(&SmittenEvent::Keydown { scancode: 30, key: Some(Key::A) });
    s.note_event(&SmittenEvent::Keydown { scancode: 1, key: Some(Key::Escape) });
    assert!(s.is_key_down(Key::W));
    assert!(s.is_key_down(Key::A));
    assert!(s.is_key_down(Key::Escape));
    s.note_event(&SmittenEvent::Keyup { scancode: 30, key: Some(Key::A) });
    assert!(s.is_key_down(Key::W));
    assert!(!s.is_key_down(Key::A));
}
