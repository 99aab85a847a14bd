use aetheria::input::{ButtonEvent, KeyEvent, Keyboard, Mouse};

#[test]
fn pressed_key_is_down_and_pressed() {
    let mut k = Keyboard::new();
    k.on_event(&KeyEvent::Pressed(5));
    assert!(k.is_key_down(5));
    assert!(k.is_key_pressed(5));
    assert!(!k.is_key_down(6));
}

#[test]
fn released_key_stays_pressed_until_frame_ends() {
    let mut k = Keyboard::new();
    k.on_event(&KeyEvent::Pressed(5));
    k.on_event(&KeyEvent::Released(5));
    assert!(!k.is_key_down(5));
    assert!(k.is_key_pressed(5));
    k.frame_finished();
    assert!(!k.is_key_pressed(5));
}

#[test]
fn held_key_stays_down_across_frames() {
    let mut k = Keyboard::new();
    k.on_event(&KeyEvent::Pressed(1));
    k.frame_finished();
    k.on_event(&KeyEvent::Other);
    assert!(k.is_key_down(1));
    assert!(!k.is_key_pressed(1));
}

#[test]
fn losing_focus_forgets_keys() {
    let mut k = Keyboard::new();
    k.on_event(&KeyEvent::Pressed(1));
    k.on_event(&KeyEvent::Pressed(2));
    k.on_event(&KeyEvent::FocusLost);
    assert!(!k.is_key_down(1));
    assert!(!k.is_key_pressed(2));
}

#[test]
fn mouse_buttons_follow_the_same_rules() {
    let mut m = Mouse::new();
    m.on_event(&ButtonEvent::Pressed(1));
    assert!(m.is_button_down(1));
    assert!(m.is_button_pressed(1));
    m.on_event(&ButtonEvent::Released(1));
    assert!(!m.is_button_down(1));
    assert!(m.is_button_pressed(1));
    m.frame_finished();
    assert!(!m.is_button_pressed(1));
    m.on_event(&ButtonEvent::Other);
    assert!(!m.is_button_down(1));
}

#[test]
fn held_keys_give_the_movement_direction() {
    const W: u32 = 1;
    const S: u32 = 2;
    const A: u32 = 3;
    const D: u32 = 4;
    let mut k = Keyboard::new();
    assert_eq!(k.movement_direction(W, S, A, D), (0, 0));
    k.on_event(&KeyEvent::Pressed(W));
    k.on_event(&KeyEvent::Pressed(D));
    assert_eq!(k.movement_direction(W, S, A, D), (1, -1));
    k.on_event(&KeyEvent::Pressed(A));
    k.on_event(&KeyEvent::Pressed(S));
    assert_eq!(k.movement_direction(W, S, A, D), (0, 0));
    k.on_event(&KeyEvent::Released(D));
    k.on_event(&KeyEvent::Released(W));
    assert_eq!(k.movement_direction(W, S, A, D), (-1, 1));
}
