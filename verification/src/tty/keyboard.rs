//! Keys of a PC keyboard: the scancodes that stand for them, the characters
//! they type, and the set of keys held down.

use vstd::prelude::*;

verus! {

/// A key, or `Unknown` with a scancode that names none.
#[derive(Debug, Clone, Copy, PartialEq, Eq, Structural)]
pub enum Key {
    Escape,
    F1,
    F2,
    F3,
    F4,
    F5,
    F6,
    F7,
    F8,
    F9,
    F10,
    F11,
    F12,
    Backtick,
    Num1,
    Num2,
    Num3,
    Num4,
    Num5,
    Num6,
    Num7,
    Num8,
    Num9,
    Num0,
    Minus,
    Equals,
    Backspace,
    Tab,
    Q,
    W,
    E,
    R,
    T,
    Y,
    U,
    I,
    O,
    P,
    LeftBracket,
    RightBracket,
    Backslash,
    CapsLock,
    A,
    S,
    D,
    F,
    G,
    H,
    J,
    K,
    L,
    Semicolon,
    Quote,
    Enter,
    LeftShift,
    Z,
    X,
    C,
    V,
    B,
    N,
    M,
    Comma,
    Dot,
    Slash,
    RightShift,
    LeftCtrl,
    LeftAlt,
    Space,
    RightAlt,
    RightCtrl,
    PrintScreen,
    ScrollLock,
    Pause,
    Insert,
    Home,
    PageUp,
    Delete,
    End,
    PageDown,
    Up,
    Down,
    Left,
    Right,
    NumLock,
    Unknown(u8),
}

/// The scancode that stands for `key`, where it has one.
pub open spec fn scancode_of(key: Key) -> Option<u8> {
    match key {
        Key::Escape => Some(0x01),
        Key::Num1 => Some(0x02),
        Key::Num2 => Some(0x03),
        Key::Num3 => Some(0x04),
        Key::Num4 => Some(0x05),
        Key::Num5 => Some(0x06),
        Key::Num6 => Some(0x07),
        Key::Num7 => Some(0x08),
        Key::Num8 => Some(0x09),
        Key::Num9 => Some(0x0a),
        Key::Num0 => Some(0x0b),
        Key::Minus => Some(0x0c),
        Key::Equals => Some(0x0d),
        Key::Backspace => Some(0x0e),
        Key::Tab => Some(0x0f),
        Key::Q => Some(0x10),
        Key::W => Some(0x11),
        Key::E => Some(0x12),
        Key::R => Some(0x13),
        Key::T => Some(0x14),
        Key::Y => Some(0x15),
        Key::U => Some(0x16),
        Key::I => Some(0x17),
        Key::O => Some(0x18),
        Key::P => Some(0x19),
        Key::LeftBracket => Some(0x1a),
        Key::RightBracket => Some(0x1b),
        Key::Enter => Some(0x1c),
        Key::LeftCtrl => Some(0x1d),
        Key::A => Some(0x1e),
        Key::S => Some(0x1f),
        Key::D => Some(0x20),
        Key::F => Some(0x21),
        Key::G => Some(0x22),
        Key::H => Some(0x23),
        Key::J => Some(0x24),
        Key::K => Some(0x25),
        Key::L => Some(0x26),
        Key::Semicolon => Some(0x27),
        Key::Quote => Some(0x28),
        Key::Backtick => Some(0x29),
        Key::LeftShift => Some(0x2a),
        Key::Backslash => Some(0x2b),
        Key::Z => Some(0x2c),
        Key::X => Some(0x2d),
        Key::C => Some(0x2e),
        Key::V => Some(0x2f),
        Key::B => Some(0x30),
        Key::N => Some(0x31),
        Key::M => Some(0x32),
        Key::Comma => Some(0x33),
        Key::Dot => Some(0x34),
        Key::Slash => Some(0x35),
        Key::RightShift => Some(0x36),
        Key::LeftAlt => Some(0x38),
        Key::Space => Some(0x39),
        Key::CapsLock => Some(0x3a),
        Key::F1 => Some(0x3b),
        Key::F2 => Some(0x3c),
        Key::F3 => Some(0x3d),
        Key::F4 => Some(0x3e),
        Key::F5 => Some(0x3f),
        Key::F6 => Some(0x40),
        Key::F7 => Some(0x41),
        Key::F8 => Some(0x42),
        Key::F9 => Some(0x43),
        Key::F10 => Some(0x44),
        Key::NumLock => Some(0x45),
        Key::ScrollLock => Some(0x46),
        Key::Home => Some(0x47),
        Key::Up => Some(0x48),
        Key::PageUp => Some(0x49),
        Key::Left => Some(0x4b),
        Key::Right => Some(0x4d),
        Key::End => Some(0x4f),
        Key::Down => Some(0x50),
        Key::PageDown => Some(0x51),
        Key::Insert => Some(0x52),
        Key::Delete => Some(0x53),
        Key::F11 => Some(0x57),
        Key::F12 => Some(0x58),
        _ => None,
    }
}

/// The character that `key` types, with or without shift, where it types
/// one.
pub open spec fn ascii_of(key: Key, shift: bool) -> Option<u8> {
    match key {
        Key::A => Some(if shift { 0x41 } else { 0x61 }),
        Key::B => Some(if shift { 0x42 } else { 0x62 }),
        Key::C => Some(if shift { 0x43 } else { 0x63 }),
        Key::D => Some(if shift { 0x44 } else { 0x64 }),
        Key::E => Some(if shift { 0x45 } else { 0x65 }),
        Key::F => Some(if shift { 0x46 } else { 0x66 }),
        Key::G => Some(if shift { 0x47 } else { 0x67 }),
        Key::H => Some(if shift { 0x48 } else { 0x68 }),
        Key::I => Some(if shift { 0x49 } else { 0x69 }),
        Key::J => Some(if shift { 0x4a } else { 0x6a }),
        Key::K => Some(if shift { 0x4b } else { 0x6b }),
        Key::L => Some(if shift { 0x4c } else { 0x6c }),
        Key::M => Some(if shift { 0x4d } else { 0x6d }),
        Key::N => Some(if shift { 0x4e } else { 0x6e }),
        Key::O => Some(if shift { 0x4f } else { 0x6f }),
        Key::P => Some(if shift { 0x50 } else { 0x70 }),
        Key::Q => Some(if shift { 0x51 } else { 0x71 }),
        Key::R => Some(if shift { 0x52 } else { 0x72 }),
        Key::S => Some(if shift { 0x53 } else { 0x73 }),
        Key::T => Some(if shift { 0x54 } else { 0x74 }),
        Key::U => Some(if shift { 0x55 } else { 0x75 }),
        Key::V => Some(if shift { 0x56 } else { 0x76 }),
        Key::W => Some(if shift { 0x57 } else { 0x77 }),
        Key::X => Some(if shift { 0x58 } else { 0x78 }),
        Key::Y => Some(if shift { 0x59 } else { 0x79 }),
        Key::Z => Some(if shift { 0x5a } else { 0x7a }),
        Key::Num1 => Some(if shift { 0x21 } else { 0x31 }),
        Key::Num2 => Some(if shift { 0x40 } else { 0x32 }),
        Key::Num3 => Some(if shift { 0x23 } else { 0x33 }),
        Key::Num4 => Some(if shift { 0x24 } else { 0x34 }),
        Key::Num5 => Some(if shift { 0x25 } else { 0x35 }),
        Key::Num6 => Some(if shift { 0x5e } else { 0x36 }),
        Key::Num7 => Some(if shift { 0x26 } else { 0x37 }),
        Key::Num8 => Some(if shift { 0x2a } else { 0x38 }),
        Key::Num9 => Some(if shift { 0x28 } else { 0x39 }),
        Key::Num0 => Some(if shift { 0x29 } else { 0x30 }),
        Key::Minus => Some(if shift { 0x5f } else { 0x2d }),
        Key::Equals => Some(if shift { 0x2b } else { 0x3d }),
        Key::LeftBracket => Some(if shift { 0x7b } else { 0x5b }),
        Key::RightBracket => Some(if shift { 0x7d } else { 0x5d }),
        Key::Backslash => Some(if shift { 0x7c } else { 0x5c }),
        Key::Semicolon => Some(if shift { 0x3a } else { 0x3b }),
        Key::Quote => Some(if shift { 0x22 } else { 0x27 }),
        Key::Backtick => Some(if shift { 0x7e } else { 0x60 }),
        Key::Comma => Some(if shift { 0x3c } else { 0x2c }),
        Key::Dot => Some(if shift { 0x3e } else { 0x2e }),
        Key::Slash => Some(if shift { 0x3f } else { 0x2f }),
        Key::Space => Some(0x20),
        Key::Enter => Some(0x0a),
        Key::Tab => Some(0x09),
        Key::Backspace => Some(0x08),
        _ => None,
    }
}

/// The key that the scancode `code` stands for: the one key with that
/// scancode, or `Unknown(code)` where no key has it.
pub open spec fn key_of(code: u8) -> Key {
    if exists|key: Key| scancode_of(key) == Some(code) {
        choose|key: Key| scancode_of(key) == Some(code)
    } else {
        Key::Unknown(code)
    }
}

/// No two keys have the same scancode, and every scancode is below 128.
pub proof fn lemma_scancodes_differ(a: Key, b: Key)
    ensures
        scancode_of(a) is Some && scancode_of(a) == scancode_of(b) ==> a == b,
        scancode_of(a) matches Some(code) ==> 0 < code < 128,
{
}

/// A key with a scancode is the key of its scancode.
pub proof fn lemma_key_of_scancode(key: Key)
    requires
        scancode_of(key) is Some,
    ensures
        key_of(scancode_of(key)->Some_0) == key,
{
    let code = scancode_of(key)->Some_0;
    let found = key_of(code);
    lemma_scancodes_differ(found, key);
}

impl Key {
    /// The character that this key types, with shift held or not.
    pub fn to_ascii(&self, shift: bool) -> (typed: Option<u8>)
        ensures
            typed == ascii_of(*self, shift),
    {
        match self {
            Key::A => Some(if shift { 0x41 } else { 0x61 }),
            Key::B => Some(if shift { 0x42 } else { 0x62 }),
            Key::C => Some(if shift { 0x43 } else { 0x63 }),
            Key::D => Some(if shift { 0x44 } else { 0x64 }),
            Key::E => Some(if shift { 0x45 } else { 0x65 }),
            Key::F => Some(if shift { 0x46 } else { 0x66 }),
            Key::G => Some(if shift { 0x47 } else { 0x67 }),
            Key::H => Some(if shift { 0x48 } else { 0x68 }),
            Key::I => Some(if shift { 0x49 } else { 0x69 }),
            Key::J => Some(if shift { 0x4a } else { 0x6a }),
            Key::K => Some(if shift { 0x4b } else { 0x6b }),
            Key::L => Some(if shift { 0x4c } else { 0x6c }),
            Key::M => Some(if shift { 0x4d } else { 0x6d }),
            Key::N => Some(if shift { 0x4e } else { 0x6e }),
            Key::O => Some(if shift { 0x4f } else { 0x6f }),
            Key::P => Some(if shift { 0x50 } else { 0x70 }),
            Key::Q => Some(if shift { 0x51 } else { 0x71 }),
            Key::R => Some(if shift { 0x52 } else { 0x72 }),
            Key::S => Some(if shift { 0x53 } else { 0x73 }),
            Key::T => Some(if shift { 0x54 } else { 0x74 }),
            Key::U => Some(if shift { 0x55 } else { 0x75 }),
            Key::V => Some(if shift { 0x56 } else { 0x76 }),
            Key::W => Some(if shift { 0x57 } else { 0x77 }),
            Key::X => Some(if shift { 0x58 } else { 0x78 }),
            Key::Y => Some(if shift { 0x59 } else { 0x79 }),
            Key::Z => Some(if shift { 0x5a } else { 0x7a }),
            Key::Num1 => Some(if shift { 0x21 } else { 0x31 }),
            Key::Num2 => Some(if shift { 0x40 } else { 0x32 }),
            Key::Num3 => Some(if shift { 0x23 } else { 0x33 }),
            Key::Num4 => Some(if shift { 0x24 } else { 0x34 }),
            Key::Num5 => Some(if shift { 0x25 } else { 0x35 }),
            Key::Num6 => Some(if shift { 0x5e } else { 0x36 }),
            Key::Num7 => Some(if shift { 0x26 } else { 0x37 }),
            Key::Num8 => Some(if shift { 0x2a } else { 0x38 }),
            Key::Num9 => Some(if shift { 0x28 } else { 0x39 }),
            Key::Num0 => Some(if shift { 0x29 } else { 0x30 }),
            Key::Minus => Some(if shift { 0x5f } else { 0x2d }),
            Key::Equals => Some(if shift { 0x2b } else { 0x3d }),
            Key::LeftBracket => Some(if shift { 0x7b } else { 0x5b }),
            Key::RightBracket => Some(if shift { 0x7d } else { 0x5d }),
            Key::Backslash => Some(if shift { 0x7c } else { 0x5c }),
            Key::Semicolon => Some(if shift { 0x3a } else { 0x3b }),
            Key::Quote => Some(if shift { 0x22 } else { 0x27 }),
            Key::Backtick => Some(if shift { 0x7e } else { 0x60 }),
            Key::Comma => Some(if shift { 0x3c } else { 0x2c }),
            Key::Dot => Some(if shift { 0x3e } else { 0x2e }),
            Key::Slash => Some(if shift { 0x3f } else { 0x2f }),
            Key::Space => Some(0x20),
            Key::Enter => Some(0x0a),
            Key::Tab => Some(0x09),
            Key::Backspace => Some(0x08),
            _ => None,
        }
    }

    /// The key that the scancode `code` stands for.
    pub fn from_scancode(code: u8) -> (key: Key)
        ensures
            key == key_of(code),
            scancode_of(key) == Some(code) || key == Key::Unknown(code),
    {
        let key = match code {
            0x01 => Key::Escape,
            0x02 => Key::Num1,
            0x03 => Key::Num2,
            0x04 => Key::Num3,
            0x05 => Key::Num4,
            0x06 => Key::Num5,
            0x07 => Key::Num6,
            0x08 => Key::Num7,
            0x09 => Key::Num8,
            0x0a => Key::Num9,
            0x0b => Key::Num0,
            0x0c => Key::Minus,
            0x0d => Key::Equals,
            0x0e => Key::Backspace,
            0x0f => Key::Tab,
            0x10 => Key::Q,
            0x11 => Key::W,
            0x12 => Key::E,
            0x13 => Key::R,
            0x14 => Key::T,
            0x15 => Key::Y,
            0x16 => Key::U,
            0x17 => Key::I,
            0x18 => Key::O,
            0x19 => Key::P,
            0x1a => Key::LeftBracket,
            0x1b => Key::RightBracket,
            0x1c => Key::Enter,
            0x1d => Key::LeftCtrl,
            0x1e => Key::A,
            0x1f => Key::S,
            0x20 => Key::D,
            0x21 => Key::F,
            0x22 => Key::G,
            0x23 => Key::H,
            0x24 => Key::J,
            0x25 => Key::K,
            0x26 => Key::L,
            0x27 => Key::Semicolon,
            0x28 => Key::Quote,
            0x29 => Key::Backtick,
            0x2a => Key::LeftShift,
            0x2b => Key::Backslash,
            0x2c => Key::Z,
            0x2d => Key::X,
            0x2e => Key::C,
            0x2f => Key::V,
            0x30 => Key::B,
            0x31 => Key::N,
            0x32 => Key::M,
            0x33 => Key::Comma,
            0x34 => Key::Dot,
            0x35 => Key::Slash,
            0x36 => Key::RightShift,
            0x38 => Key::LeftAlt,
            0x39 => Key::Space,
            0x3a => Key::CapsLock,
            0x3b => Key::F1,
            0x3c => Key::F2,
            0x3d => Key::F3,
            0x3e => Key::F4,
            0x3f => Key::F5,
            0x40 => Key::F6,
            0x41 => Key::F7,
            0x42 => Key::F8,
            0x43 => Key::F9,
            0x44 => Key::F10,
            0x45 => Key::NumLock,
            0x46 => Key::ScrollLock,
            0x47 => Key::Home,
            0x48 => Key::Up,
            0x49 => Key::PageUp,
            0x4b => Key::Left,
            0x4d => Key::Right,
            0x4f => Key::End,
            0x50 => Key::Down,
            0x51 => Key::PageDown,
            0x52 => Key::Insert,
            0x53 => Key::Delete,
            0x57 => Key::F11,
            0x58 => Key::F12,
            _ => Key::Unknown(code),
        };
        proof {
            if scancode_of(key) == Some(code) {
                lemma_key_of_scancode(key);
            } else {
                assert forall|other: Key| scancode_of(other) != Some(code) by {}
            }
        }
        key
    }

    /// The scancode that stands for this key.
    pub fn to_scancode(&self) -> (code: Option<u8>)
        ensures
            code == scancode_of(*self),
    {
        match self {
            Key::Escape => Some(0x01),
            Key::Num1 => Some(0x02),
            Key::Num2 => Some(0x03),
            Key::Num3 => Some(0x04),
            Key::Num4 => Some(0x05),
            Key::Num5 => Some(0x06),
            Key::Num6 => Some(0x07),
            Key::Num7 => Some(0x08),
            Key::Num8 => Some(0x09),
            Key::Num9 => Some(0x0a),
            Key::Num0 => Some(0x0b),
            Key::Minus => Some(0x0c),
            Key::Equals => Some(0x0d),
            Key::Backspace => Some(0x0e),
            Key::Tab => Some(0x0f),
            Key::Q => Some(0x10),
            Key::W => Some(0x11),
            Key::E => Some(0x12),
            Key::R => Some(0x13),
            Key::T => Some(0x14),
            Key::Y => Some(0x15),
            Key::U => Some(0x16),
            Key::I => Some(0x17),
            Key::O => Some(0x18),
            Key::P => Some(0x19),
            Key::LeftBracket => Some(0x1a),
            Key::RightBracket => Some(0x1b),
            Key::Enter => Some(0x1c),
            Key::LeftCtrl => Some(0x1d),
            Key::A => Some(0x1e),
            Key::S => Some(0x1f),
            Key::D => Some(0x20),
            Key::F => Some(0x21),
            Key::G => Some(0x22),
            Key::H => Some(0x23),
            Key::J => Some(0x24),
            Key::K => Some(0x25),
            Key::L => Some(0x26),
            Key::Semicolon => Some(0x27),
            Key::Quote => Some(0x28),
            Key::Backtick => Some(0x29),
            Key::LeftShift => Some(0x2a),
            Key::Backslash => Some(0x2b),
            Key::Z => Some(0x2c),
            Key::X => Some(0x2d),
            Key::C => Some(0x2e),
            Key::V => Some(0x2f),
            Key::B => Some(0x30),
            Key::N => Some(0x31),
            Key::M => Some(0x32),
            Key::Comma => Some(0x33),
            Key::Dot => Some(0x34),
            Key::Slash => Some(0x35),
            Key::RightShift => Some(0x36),
            Key::LeftAlt => Some(0x38),
            Key::Space => Some(0x39),
            Key::CapsLock => Some(0x3a),
            Key::F1 => Some(0x3b),
            Key::F2 => Some(0x3c),
            Key::F3 => Some(0x3d),
            Key::F4 => Some(0x3e),
            Key::F5 => Some(0x3f),
            Key::F6 => Some(0x40),
            Key::F7 => Some(0x41),
            Key::F8 => Some(0x42),
            Key::F9 => Some(0x43),
            Key::F10 => Some(0x44),
            Key::NumLock => Some(0x45),
            Key::ScrollLock => Some(0x46),
            Key::Home => Some(0x47),
            Key::Up => Some(0x48),
            Key::PageUp => Some(0x49),
            Key::Left => Some(0x4b),
            Key::Right => Some(0x4d),
            Key::End => Some(0x4f),
            Key::Down => Some(0x50),
            Key::PageDown => Some(0x51),
            Key::Insert => Some(0x52),
            Key::Delete => Some(0x53),
            Key::F11 => Some(0x57),
            Key::F12 => Some(0x58),
            _ => None,
        }
    }
}

/// A key going down or coming up.
#[derive(Debug, Clone, Copy, PartialEq, Eq, Structural)]
pub enum KeyEvent {
    Pressed(Key),
    Released(Key),
}

/// The event that the byte `scancode` reports: its low seven bits name the
/// key, and its highest bit says that the key came up.
pub open spec fn event_of(scancode: u8) -> KeyEvent {
    if scancode >= 128 {
        KeyEvent::Released(key_of((scancode - 128) as u8))
    } else {
        KeyEvent::Pressed(key_of(scancode))
    }
}

impl KeyEvent {
    /// The key of this event.
    pub open spec fn spec_key(&self) -> Key {
        match self {
            KeyEvent::Pressed(key) => *key,
            KeyEvent::Released(key) => *key,
        }
    }

    /// The key that went down or came up.
    pub fn key(&self) -> (key: Key)
        ensures
            key == self.spec_key(),
    {
        match self {
            KeyEvent::Pressed(key) | KeyEvent::Released(key) => *key,
        }
    }

    /// Says whether the key went down.
    pub fn is_pressed(&self) -> (pressed: bool)
        ensures
            pressed == (self is Pressed),
    {
        matches!(self, KeyEvent::Pressed(_))
    }

    /// Says whether the key came up.
    pub fn is_released(&self) -> (released: bool)
        ensures
            released == (self is Released),
    {
        matches!(self, KeyEvent::Released(_))
    }

    /// The event that the byte `scancode` reports.
    pub fn from_scancode(scancode: u8) -> (event: Self)
        ensures
            event == event_of(scancode),
    {
        assert((scancode & 0x80 != 0) == (scancode >= 128)) by (bit_vector);
        assert(scancode >= 128 ==> scancode & 0x7f == (scancode - 128) as u8) by (bit_vector);
        if scancode & 0x80 != 0 {
            KeyEvent::Released(Key::from_scancode(scancode & 0x7f))
        } else {
            KeyEvent::Pressed(Key::from_scancode(scancode))
        }
    }
}

/// The bit of a keyboard state that stands for the scancode `scancode`.
pub open spec fn key_bit(scancode: u8) -> u128 {
    1u128 << scancode
}

/// Which keys are held down, one bit for each scancode below 128.
pub struct KeyboardState(u128);

impl View for KeyboardState {
    type V = Set<u8>;

    /// The scancodes of the keys that are held down.
    closed spec fn view(&self) -> Set<u8> {
        Set::new(|scancode: u8| scancode < 128 && self.0 & key_bit(scancode) != 0)
    }
}

impl KeyboardState {
    /// The state in which no key is held down.
    pub fn new() -> (state: Self)
        ensures
            state@ == Set::<u8>::empty(),
    {
        let state = Self(0);
        proof {
            assert forall|scancode: u8| !state@.contains(scancode) by {
                let b = key_bit(scancode);
                assert(0u128 & b == 0) by (bit_vector);
            }
            assert(state@ =~= Set::<u8>::empty());
        }
        state
    }

    /// Takes in one byte from the keyboard: a key below 128 went down, a
    /// key with 128 added to it came up.
    pub fn update(&mut self, scancode: u8)
        ensures
            final(self)@ == if scancode < 128 {
                old(self)@.insert(scancode)
            } else {
                old(self)@.remove((scancode - 128) as u8)
            },
    {
        assert((scancode & 0x80 == 0) == (scancode < 128)) by (bit_vector);
        assert(scancode & 0x7f < 128) by (bit_vector);
        assert(scancode < 128 ==> scancode & 0x7f == scancode) by (bit_vector);
        assert(scancode >= 128 ==> scancode & 0x7f == (scancode - 128) as u8) by (bit_vector);
        let key: u8 = scancode & 0x7f;
        if scancode & 0x80 == 0 {
            self.press(key);
        } else {
            self.release(key);
        }
    }

    /// Notes that the key with the scancode `scancode` went down.
    pub fn press(&mut self, scancode: u8)
        requires
            scancode < 128,
        ensures
            final(self)@ == old(self)@.insert(scancode),
    {
        let ghost before = self.0;
        self.0 |= 1u128 << scancode;
        proof {
            let after = self.0;
            assert forall|other: u8|
                final(self)@.contains(other) == old(self)@.insert(scancode).contains(other) by {
                assert(scancode < 128 && other < 128 ==> (((before | (1u128 << scancode)) & (1u128
                    << other) != 0) <==> (before & (1u128 << other) != 0 || scancode == other)))
                    by (bit_vector);
            }
            assert(self@ =~= old(self)@.insert(scancode));
        }
    }

    /// Notes that the key with the scancode `scancode` came up.
    pub fn release(&mut self, scancode: u8)
        requires
            scancode < 128,
        ensures
            final(self)@ == old(self)@.remove(scancode),
    {
        let ghost before = self.0;
        self.0 &= !(1u128 << scancode);
        proof {
            assert forall|other: u8|
                final(self)@.contains(other) == old(self)@.remove(scancode).contains(other) by {
                assert(scancode < 128 && other < 128 ==> (((before & !(1u128 << scancode)) & (1u128
                    << other) != 0) <==> (before & (1u128 << other) != 0 && scancode != other)))
                    by (bit_vector);
            }
            assert(self@ =~= old(self)@.remove(scancode));
        }
    }

    /// Says whether `key` is held down. A key without a scancode never is.
    pub fn is_pressed(&self, key: Key) -> (pressed: bool)
        ensures
            pressed == (scancode_of(key) matches Some(scancode) && self@.contains(scancode)),
    {
        proof {
            lemma_scancodes_differ(key, key);
        }
        if let Some(scancode) = key.to_scancode() {
            (self.0 & (1u128 << scancode)) != 0
        } else {
            false
        }
    }
}

} // verus!
