use raph::tty::keyboard::{Key, KeyEvent, KeyboardState};

#[test]
fn every_scancode_names_the_key_that_has_it() {
    let mut known = 0;
    for code in 0..=255u8 {
        let key = Key::from_scancode(code);
        match key {
            Key::Unknown(kept) => assert_eq!(kept, code),
            _ => {
                assert_eq!(key.to_scancode(), Some(code));
                assert!(code < 128);
                known += 1;
            }
        }
    }
    assert_eq!(known, 81);
}

#[test]
fn some_scancodes_by_name() {
    assert_eq!(Key::from_scancode(0x01), Key::Escape);
    assert_eq!(Key::from_scancode(0x1e), Key::A);
    assert_eq!(Key::from_scancode(0x39), Key::Space);
    assert_eq!(Key::from_scancode(0x58), Key::F12);
    assert_eq!(Key::from_scancode(0x00), Key::Unknown(0x00));
    assert_eq!(Key::from_scancode(0x37), Key::Unknown(0x37));
    assert_eq!(Key::from_scancode(0x59), Key::Unknown(0x59));
    assert_eq!(Key::from_scancode(0xff), Key::Unknown(0xff));
    assert_eq!(Key::Q.to_scancode(), Some(0x10));
    assert_eq!(Key::Delete.to_scancode(), Some(0x53));
}

#[test]
fn some_keys_have_no_scancode() {
    for key in [Key::RightAlt, Key::RightCtrl, Key::PrintScreen, Key::Pause, Key::Unknown(0x1e)] {
        assert_eq!(key.to_scancode(), None);
    }
}

#[test]
fn letters_type_themselves() {
    let letters = [
        (Key::A, b'a'), (Key::B, b'b'), (Key::C, b'c'), (Key::D, b'd'), (Key::E, b'e'),
        (Key::F, b'f'), (Key::G, b'g'), (Key::H, b'h'), (Key::I, b'i'), (Key::J, b'j'),
        (Key::K, b'k'), (Key::L, b'l'), (Key::M, b'm'), (Key::N, b'n'), (Key::O, b'o'),
        (Key::P, b'p'), (Key::Q, b'q'), (Key::R, b'r'), (Key::S, b's'), (Key::T, b't'),
        (Key::U, b'u'), (Key::V, b'v'), (Key::W, b'w'), (Key::X, b'x'), (Key::Y, b'y'),
        (Key::Z, b'z'),
    ];
    for (key, lower) in letters {
        assert_eq!(key.to_ascii(false), Some(lower));
        assert_eq!(key.to_ascii(true), Some(lower.to_ascii_uppercase()));
    }
}

#[test]
fn digits_and_signs_type_what_is_printed_on_them() {
    let keys = [
        (Key::Num1, b'1', b'!'), (Key::Num2, b'2', b'@'), (Key::Num3, b'3', b'#'),
        (Key::Num4, b'4', b'$'), (Key::Num5, b'5', b'%'), (Key::Num6, b'6', b'^'),
        (Key::Num7, b'7', b'&'), (Key::Num8, b'8', b'*'), (Key::Num9, b'9', b'('),
        (Key::Num0, b'0', b')'), (Key::Minus, b'-', b'_'), (Key::Equals, b'=', b'+'),
        (Key::LeftBracket, b'[', b'{'), (Key::RightBracket, b']', b'}'),
        (Key::Backslash, b'\\', b'|'), (Key::Semicolon, b';', b':'), (Key::Quote, b'\'', b'"'),
        (Key::Backtick, b'`', b'~'), (Key::Comma, b',', b'<'), (Key::Dot, b'.', b'>'),
        (Key::Slash, b'/', b'?'),
    ];
    for (key, plain, shifted) in keys {
        assert_eq!(key.to_ascii(false), Some(plain));
        assert_eq!(key.to_ascii(true), Some(shifted));
    }
}

#[test]
fn space_enter_tab_and_backspace_ignore_shift() {
    for shift in [false, true] {
        assert_eq!(Key::Space.to_ascii(shift), Some(b' '));
        assert_eq!(Key::Enter.to_ascii(shift), Some(b'\n'));
        assert_eq!(Key::Tab.to_ascii(shift), Some(b'\t'));
        assert_eq!(Key::Backspace.to_ascii(shift), Some(0x08));
    }
}

#[test]
fn other_keys_type_nothing() {
    for key in [Key::Escape, Key::F1, Key::LeftShift, Key::Up, Key::Delete, Key::NumLock, Key::Unknown(0x1e)] {
        assert_eq!(key.to_ascii(false), None);
        assert_eq!(key.to_ascii(true), None);
    }
}

#[test]
fn the_highest_bit_of_a_scancode_says_released() {
    assert_eq!(KeyEvent::from_scancode(0x1e), KeyEvent::Pressed(Key::A));
    assert_eq!(KeyEvent::from_scancode(0x9e), KeyEvent::Released(Key::A));
    assert_eq!(KeyEvent::from_scancode(0x00), KeyEvent::Pressed(Key::Unknown(0)));
    assert_eq!(KeyEvent::from_scancode(0x80), KeyEvent::Released(Key::Unknown(0)));
    assert_eq!(KeyEvent::from_scancode(0x7f), KeyEvent::Pressed(Key::Unknown(0x7f)));
    assert_eq!(KeyEvent::from_scancode(0xff), KeyEvent::Released(Key::Unknown(0x7f)));
    for code in 0..128u8 {
        assert_eq!(KeyEvent::from_scancode(code), KeyEvent::Pressed(Key::from_scancode(code)));
        assert_eq!(KeyEvent::from_scancode(code + 128), KeyEvent::Released(Key::from_scancode(code)));
    }
}

#[test]
fn an_event_knows_its_key_and_its_direction() {
    let down = KeyEvent::Pressed(Key::Enter);
    let up = KeyEvent::Released(Key::Tab);
    assert_eq!(down.key(), Key::Enter);
    assert_eq!(up.key(), Key::Tab);
    assert!(down.is_pressed() && !down.is_released());
    assert!(up.is_released() && !up.is_pressed());
}

#[test]
fn a_new_state_holds_no_key() {
    let state = KeyboardState::new();
    for code in 0..=255u8 {
        assert!(!state.is_pressed(Key::from_scancode(code)));
    }
    assert!(!state.is_pressed(Key::RightCtrl));
}

#[test]
fn press_and_release_change_one_key() {
    let mut state = KeyboardState::new();
    state.press(0x1e);
    state.press(0x2a);
    assert!(state.is_pressed(Key::A));
    assert!(state.is_pressed(Key::LeftShift));
    assert!(!state.is_pressed(Key::S));
    state.press(0x1e);
    assert!(state.is_pressed(Key::A));
    state.release(0x1e);
    assert!(!state.is_pressed(Key::A));
    assert!(state.is_pressed(Key::LeftShift));
    state.release(0x1e);
    assert!(!state.is_pressed(Key::A));
    state.press(0x00);
    state.press(0x7f);
    state.press(0x58);
    assert!(state.is_pressed(Key::F12));
    state.release(0x7f);
    assert!(state.is_pressed(Key::F12));
}

#[test]
fn update_presses_below_128_and_releases_above() {
    let mut state = KeyboardState::new();
    state.update(0x10);
    state.update(0x39);
    assert!(state.is_pressed(Key::Q));
    assert!(state.is_pressed(Key::Space));
    state.update(0x90);
    assert!(!state.is_pressed(Key::Q));
    assert!(state.is_pressed(Key::Space));
    state.update(0xb9);
    assert!(!state.is_pressed(Key::Space));
    state.update(0x9e);
    assert!(!state.is_pressed(Key::A));
}

#[test]
fn a_key_without_a_scancode_is_never_held() {
    let mut state = KeyboardState::new();
    for code in 0..128u8 {
        state.press(code);
    }
    assert!(state.is_pressed(Key::A));
    assert!(state.is_pressed(Key::F12));
    assert!(!state.is_pressed(Key::RightAlt));
    assert!(!state.is_pressed(Key::Pause));
    assert!(!state.is_pressed(Key::Unknown(0x1e)));
}
