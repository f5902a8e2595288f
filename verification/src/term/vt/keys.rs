//! Key protocol tables shared by the input decoder (bytes from the outer
//! terminal) and the pty encoder (bytes to child programs), so that what is
//! understood and what is spoken stay symmetric.

use vstd::prelude::*;

use crate::term::key::{
    Key, KeyCode, KeyEventKind, KeyEventState, KeyMods, MediaKeyCode, ModKeyCode,
};

verus! {

/// The cursor keys with the letters that end their sequences.
pub open spec fn cursor_keys() -> Seq<(u8, KeyCode)> {
    seq![
        (65u8, KeyCode::Up),
        (66u8, KeyCode::Down),
        (67u8, KeyCode::Right),
        (68u8, KeyCode::Left),
        (70u8, KeyCode::End),
        (72u8, KeyCode::Home),
    ]
}

/// The function keys with the letters that end their SS3 sequences.
pub open spec fn function_finals() -> Seq<(u8, KeyCode)> {
    seq![
        (80u8, KeyCode::F(1)),
        (81u8, KeyCode::F(2)),
        (82u8, KeyCode::F(3)),
        (83u8, KeyCode::F(4)),
    ]
}

/// What a letter ends under SS3.
pub open spec fn ss3_final(b: u8) -> Option<KeyCode> {
    if cursor_keys().map_values(|e: (u8, KeyCode)| e.0).contains(b) {
        let i = choose|i: int| 0 <= i < cursor_keys().len() && (#[trigger] cursor_keys()[i]).0 == b;
        Some(cursor_keys()[i].1)
    } else if 80 <= b <= 83 {
        Some(function_finals()[b - 80].1)
    } else {
        None
    }
}

proof fn lemma_cursor_keys(b: u8)
    ensures
        ss3_final(b) == (if b == 65 {
            Some(KeyCode::Up)
        } else if b == 66 {
            Some(KeyCode::Down)
        } else if b == 67 {
            Some(KeyCode::Right)
        } else if b == 68 {
            Some(KeyCode::Left)
        } else if b == 70 {
            Some(KeyCode::End)
        } else if b == 72 {
            Some(KeyCode::Home)
        } else if 80 <= b <= 83 {
            Some(KeyCode::F((b - 79) as u8))
        } else {
            None::<KeyCode>
        }),
{
    let keys = cursor_keys();
    let finals = keys.map_values(|e: (u8, KeyCode)| e.0);
    assert(finals.len() == 6);
    assert(finals[0] == 65 && finals[1] == 66 && finals[2] == 67 && finals[3] == 68 && finals[4]
        == 70 && finals[5] == 72);
    if finals.contains(b) {
        let i = choose|i: int| 0 <= i < keys.len() && (#[trigger] keys[i]).0 == b;
        let k = choose|k: int| 0 <= k < finals.len() && finals[k] == b;
        assert(keys[k].0 == b);
        assert(i == 0 || i == 1 || i == 2 || i == 3 || i == 4 || i == 5);
    } else {
        assert(b != finals[0] && b != finals[1] && b != finals[2] && b != finals[3] && b
            != finals[4] && b != finals[5]);
    }
}

/// CSI/SS3 cursor-key finals. F3 is CSI R, which collides with the cursor
/// position report, so it is not among them.
pub fn final_key(final_: u8) -> (r: Option<KeyCode>)
    ensures
        r == if final_ == 82 {
            None
        } else {
            ss3_final(final_)
        },
{
    proof {
        lemma_cursor_keys(final_);
    }
    match final_ {
        65u8 => Some(KeyCode::Up),
        66u8 => Some(KeyCode::Down),
        67u8 => Some(KeyCode::Right),
        68u8 => Some(KeyCode::Left),
        70u8 => Some(KeyCode::End),
        72u8 => Some(KeyCode::Home),
        80u8 => Some(KeyCode::F(1)),
        81u8 => Some(KeyCode::F(2)),
        83u8 => Some(KeyCode::F(4)),
        _ => None,
    }
}

/// SS3 finals: like `final_key` plus F3.
pub fn ss3_key(final_: u8) -> (r: Option<KeyCode>)
    ensures
        r == ss3_final(final_),
{
    match final_ {
        82u8 => {
            proof {
                lemma_cursor_keys(82);
            }
            Some(KeyCode::F(3))
        },
        _ => final_key(final_),
    }
}

/// The letter that ends the sequence of a cursor key.
pub open spec fn cursor_final(code: KeyCode) -> Option<u8> {
    match code {
        KeyCode::Up => Some(65),
        KeyCode::Down => Some(66),
        KeyCode::Right => Some(67),
        KeyCode::Left => Some(68),
        KeyCode::End => Some(70),
        KeyCode::Home => Some(72),
        _ => None,
    }
}

/// The letter that ends the sequence of a cursor key.
pub fn cursor_key_final(code: KeyCode) -> (r: Option<u8>)
    ensures
        r == cursor_final(code),
{
    match code {
        KeyCode::Up => Some(65u8),
        KeyCode::Down => Some(66u8),
        KeyCode::Right => Some(67u8),
        KeyCode::Left => Some(68u8),
        KeyCode::End => Some(70u8),
        KeyCode::Home => Some(72u8),
        _ => None,
    }
}

/// The `CSI n ~` number of the function key `k`: xterm leaves gaps after F5,
/// F10, F14 and F16.
pub open spec fn function_number(k: int) -> int {
    k + 10 + (if k > 5 {
        1int
    } else {
        0
    }) + (if k > 10 {
        1int
    } else {
        0
    }) + (if k > 14 {
        1int
    } else {
        0
    }) + (if k > 16 {
        1int
    } else {
        0
    })
}

/// The `CSI n ~` number of a key.
pub open spec fn tilde_number(code: KeyCode) -> Option<u16> {
    match code {
        KeyCode::Insert => Some(2),
        KeyCode::Delete => Some(3),
        KeyCode::PageUp => Some(5),
        KeyCode::PageDown => Some(6),
        KeyCode::F(k) => if 1 <= k <= 20 {
            Some(function_number(k as int) as u16)
        } else {
            None
        },
        _ => None,
    }
}

/// The key of a `CSI n ~` number: the one that has it, and Home and End under
/// two numbers each.
pub open spec fn numbered_key(n: u16) -> Option<KeyCode> {
    if n == 1 || n == 7 {
        Some(KeyCode::Home)
    } else if n == 4 || n == 8 {
        Some(KeyCode::End)
    } else if exists|code: KeyCode| #[trigger] tilde_number(code) == Some(n) {
        Some(choose|code: KeyCode| #[trigger] tilde_number(code) == Some(n))
    } else {
        None
    }
}

proof fn lemma_tilde_injective(a: KeyCode, b: KeyCode)
    requires
        tilde_number(a) is Some,
        tilde_number(a) == tilde_number(b),
    ensures
        a == b,
{
}

proof fn lemma_numbered(n: u16, code: KeyCode)
    requires
        tilde_number(code) == Some(n),
    ensures
        numbered_key(n) == Some(code),
{
    assert(n != 1 && n != 7 && n != 4 && n != 8);
    let other = choose|c: KeyCode| #[trigger] tilde_number(c) == Some(n);
    lemma_tilde_injective(other, code);
}

/// `CSI n ~` key numbers (xterm assignments).
pub fn tilde_key(n: u16) -> (r: Option<KeyCode>)
    ensures
        r == numbered_key(n),
{
    let r = match n {
        1 | 7 => Some(KeyCode::Home),
        2 => Some(KeyCode::Insert),
        3 => Some(KeyCode::Delete),
        4 | 8 => Some(KeyCode::End),
        5 => Some(KeyCode::PageUp),
        6 => Some(KeyCode::PageDown),
        11..=15 => Some(KeyCode::F(n as u8 - 10)),
        17..=21 => Some(KeyCode::F(n as u8 - 11)),
        23..=26 => Some(KeyCode::F(n as u8 - 12)),
        28..=29 => Some(KeyCode::F(n as u8 - 13)),
        31..=34 => Some(KeyCode::F(n as u8 - 14)),
        _ => None,
    };
    proof {
        match r {
            Some(code) => {
                if code != KeyCode::Home && code != KeyCode::End {
                    lemma_numbered(n, code);
                }
            },
            None => {
                assert forall|code: KeyCode| #[trigger] tilde_number(code) != Some(n) by {
                    match code {
                        KeyCode::F(k) => {},
                        _ => {},
                    }
                }
            },
        }
    }
    r
}

/// The `CSI n ~` number of a key.
pub fn key_tilde(code: KeyCode) -> (r: Option<u16>)
    ensures
        r == tilde_number(code),
{
    match code {
        KeyCode::Insert => Some(2),
        KeyCode::Delete => Some(3),
        KeyCode::PageUp => Some(5),
        KeyCode::PageDown => Some(6),
        KeyCode::F(n) => match n {
            1..=5 => Some(n as u16 + 10),
            6..=10 => Some(n as u16 + 11),
            11..=14 => Some(n as u16 + 12),
            15..=16 => Some(n as u16 + 13),
            17..=20 => Some(n as u16 + 14),
            _ => None,
        },
        _ => None,
    }
}

/// The control character of `c`, by its number.
pub open spec fn control_number(c: char) -> Option<int> {
    if c == '@' || c == '`' || c == ' ' || c == '2' {
        Some(0)
    } else if 'A' <= c <= 'Z' {
        Some(c as int - 64)
    } else if 'a' <= c <= 'z' {
        Some(c as int - 96)
    } else if c == '[' || c == '3' || c == '{' {
        Some(27)
    } else if c == '\\' || c == '4' || c == '|' {
        Some(28)
    } else if c == ']' || c == '5' || c == '}' {
        Some(29)
    } else if c == '^' || c == '6' || c == '~' {
        Some(30)
    } else if c == '_' || c == '7' || c == '/' {
        Some(31)
    } else if c == '8' || c == '?' {
        Some(127)
    } else {
        None
    }
}

/// Map c to its Ctrl equivalent.
pub fn ctrl_char(c: char) -> (r: Option<char>)
    ensures
        match r {
            Some(d) => control_number(c) == Some(d as int),
            None => control_number(c) is None,
        },
{
    match c {
        '@' | '`' | ' ' | '2' => Some('\x00'),
        'A'..='Z' => Some((((c as u32) - 65 + 1) as u8) as char),
        'a'..='z' => Some((((c as u32) - 97 + 1) as u8) as char),
        '[' | '3' | '{' => Some('\x1b'),
        '\\' | '4' | '|' => Some('\x1c'),
        ']' | '5' | '}' => Some('\x1d'),
        '^' | '6' | '~' => Some('\x1e'),
        '_' | '7' | '/' => Some('\x1f'),
        '8' | '?' => Some('\x7f'),
        _ => None,
    }
}

/// The key press that a plain character or a control byte decodes to.
pub open spec fn char_press(c: char) -> Option<Key> {
    let n = c as int;
    if n == 13 || n == 10 {
        Some(Key::press(KeyCode::Enter, KeyMods::spec_none()))
    } else if n == 9 {
        Some(Key::press(KeyCode::Tab, KeyMods::spec_none()))
    } else if n == 127 {
        Some(Key::press(KeyCode::Backspace, KeyMods::spec_none()))
    } else if 1 <= n <= 26 {
        Some(Key::press(KeyCode::Char((n + 96) as char), KeyMods::spec_control()))
    } else if 28 <= n <= 31 {
        Some(Key::press(KeyCode::Char((n + 24) as char), KeyMods::spec_control()))
    } else if n == 0 {
        Some(Key::press(KeyCode::Char(' '), KeyMods::spec_control()))
    } else if n == 27 || n == 0x8d {
        None
    } else {
        Some(Key::press(KeyCode::Char(c), KeyMods::spec_none()))
    }
}

/// The key press a plain char or C0 byte decodes to.
pub fn char_key(c: char) -> (r: Option<Key>)
    ensures
        r == char_press(c),
{
    let n = c as u32;
    if n == 13 || n == 10 {
        Some(Key::new(KeyCode::Enter, KeyMods::none()))
    } else if n == 9 {
        Some(Key::new(KeyCode::Tab, KeyMods::none()))
    } else if n == 127 {
        Some(Key::new(KeyCode::Backspace, KeyMods::none()))
    } else if 1 <= n && n <= 26 {
        Some(Key::new(KeyCode::Char(((n + 96) as u8) as char), KeyMods::control()))
    } else if 28 <= n && n <= 31 {
        Some(Key::new(KeyCode::Char(((n + 24) as u8) as char), KeyMods::control()))
    } else if n == 0 {
        Some(Key::new(KeyCode::Char(' '), KeyMods::control()))
    } else if n < 0x20 || n == 0x8d {
        None
    } else {
        Some(Key::new(KeyCode::Char(c), KeyMods::none()))
    }
}

/// `n` if `on`.
pub open spec fn weight(on: bool, n: int) -> int {
    if on {
        n
    } else {
        0
    }
}

/// The bit of `mask` with the weight `w`.
pub open spec fn bit(mask: int, w: int) -> bool {
    (mask / w) % 2 == 1
}

/// xterm-style modifier mask (the wire value is this plus one).
pub fn mods_mask(mods: KeyMods) -> (r: u8)
    ensures
        r == weight(mods.shift, 1) + weight(mods.alt, 2) + weight(mods.control, 4),
        r == classic_mask(mods),
{
    let mut mask: u8 = 0;
    if mods.shift {
        mask += 1;
    }
    if mods.alt {
        mask += 2;
    }
    if mods.control {
        mask += 4;
    }
    mask
}

/// The mask that a wire value stands for: one less, but not below zero.
pub open spec fn wire_mask(wire: u8) -> int {
    if wire == 0 {
        0
    } else {
        wire - 1
    }
}

/// The modifiers of a wire value.
pub open spec fn wire_mods(wire: u8) -> KeyMods {
    let mask = wire_mask(wire);
    KeyMods {
        shift: bit(mask, 1),
        alt: bit(mask, 2),
        control: bit(mask, 4),
        sup: bit(mask, 8),
        hyper: bit(mask, 16),
        meta: bit(mask, 32),
    }
}

/// The modifiers of a wire value.
pub fn mask_mods(wire: u8) -> (r: KeyMods)
    ensures
        r == wire_mods(wire),
{
    let mask = wire.saturating_sub(1);
    KeyMods {
        shift: mask % 2 == 1,
        alt: (mask / 2) % 2 == 1,
        control: (mask / 4) % 2 == 1,
        sup: (mask / 8) % 2 == 1,
        hyper: (mask / 16) % 2 == 1,
        meta: (mask / 32) % 2 == 1,
    }
}

/// The locks of a wire value.
pub fn mask_state(wire: u8) -> (r: KeyEventState)
    ensures
        r == (KeyEventState {
            keypad: false,
            caps_lock: bit(wire_mask(wire), 64),
            num_lock: bit(wire_mask(wire), 128),
        }),
        r == wire_state(wire),
{
    let mask = wire.saturating_sub(1);
    KeyEventState {
        keypad: false,
        caps_lock: (mask / 64) % 2 == 1,
        num_lock: (mask / 128) % 2 == 1,
    }
}

/// The event kind of a wire value: a press unless it says otherwise.
pub fn event_kind(n: u8) -> (r: KeyEventKind)
    ensures
        r is Repeat <==> n == 2,
        r is Release <==> n == 3,
        r == wire_kind(n),
{
    match n {
        1 => KeyEventKind::Press,
        2 => KeyEventKind::Repeat,
        3 => KeyEventKind::Release,
        _ => KeyEventKind::Press,
    }
}

/// The keypad keys in the order of their codepoints.
pub open spec fn keypad_keys() -> Seq<KeyCode> {
    seq![
        KeyCode::Char('0'),
        KeyCode::Char('1'),
        KeyCode::Char('2'),
        KeyCode::Char('3'),
        KeyCode::Char('4'),
        KeyCode::Char('5'),
        KeyCode::Char('6'),
        KeyCode::Char('7'),
        KeyCode::Char('8'),
        KeyCode::Char('9'),
        KeyCode::Char('.'),
        KeyCode::Char('/'),
        KeyCode::Char('*'),
        KeyCode::Char('-'),
        KeyCode::Char('+'),
        KeyCode::Enter,
        KeyCode::Char('='),
        KeyCode::Char(','),
        KeyCode::Left,
        KeyCode::Right,
        KeyCode::Up,
        KeyCode::Down,
        KeyCode::PageUp,
        KeyCode::PageDown,
        KeyCode::Home,
        KeyCode::End,
        KeyCode::Insert,
        KeyCode::Delete,
        KeyCode::KeypadBegin,
    ]
}

/// The lock and system keys in the order of their codepoints.
pub open spec fn system_keys() -> Seq<KeyCode> {
    seq![
        KeyCode::CapsLock,
        KeyCode::ScrollLock,
        KeyCode::NumLock,
        KeyCode::PrintScreen,
        KeyCode::Pause,
        KeyCode::Menu,
    ]
}

/// The media keys in the order of their codepoints.
pub open spec fn media_keys() -> Seq<MediaKeyCode> {
    seq![
        MediaKeyCode::Play,
        MediaKeyCode::Pause,
        MediaKeyCode::PlayPause,
        MediaKeyCode::Reverse,
        MediaKeyCode::Stop,
        MediaKeyCode::FastForward,
        MediaKeyCode::Rewind,
        MediaKeyCode::Next,
        MediaKeyCode::Prev,
        MediaKeyCode::Record,
        MediaKeyCode::VolumeDown,
        MediaKeyCode::VolumeUp,
        MediaKeyCode::VolumeMute,
    ]
}

/// The modifier keys in the order of their codepoints.
pub open spec fn modifier_keys() -> Seq<ModKeyCode> {
    seq![
        ModKeyCode::LeftShift,
        ModKeyCode::LeftControl,
        ModKeyCode::LeftAlt,
        ModKeyCode::LeftSuper,
        ModKeyCode::LeftHyper,
        ModKeyCode::LeftMeta,
        ModKeyCode::RightShift,
        ModKeyCode::RightControl,
        ModKeyCode::RightAlt,
        ModKeyCode::RightSuper,
        ModKeyCode::RightHyper,
        ModKeyCode::RightMeta,
    ]
}

/// The key of a functional codepoint of the kitty keyboard protocol.
pub open spec fn functional(codepoint: u32) -> Option<(KeyCode, KeyEventState)> {
    let plain = KeyEventState::spec_empty();
    if 57399 <= codepoint <= 57427 {
        Some(
            (
                keypad_keys()[codepoint - 57399],
                KeyEventState { keypad: true, caps_lock: false, num_lock: false },
            ),
        )
    } else if 57358 <= codepoint <= 57363 {
        Some((system_keys()[codepoint - 57358], plain))
    } else if 57376 <= codepoint <= 57398 {
        Some((KeyCode::F((codepoint - 57363) as u8), plain))
    } else if 57428 <= codepoint <= 57440 {
        Some((KeyCode::Media(media_keys()[codepoint - 57428]), plain))
    } else if 57441 <= codepoint <= 57452 {
        Some((KeyCode::Modifier(modifier_keys()[codepoint - 57441]), plain))
    } else {
        None
    }
}

/// Kitty keyboard protocol functional key codepoints.
pub fn functional_key(codepoint: u32) -> (r: Option<(KeyCode, KeyEventState)>)
    ensures
        r == functional(codepoint),
{
    let keypad = match codepoint {
        57399 => Some(KeyCode::Char('0')),
        57400 => Some(KeyCode::Char('1')),
        57401 => Some(KeyCode::Char('2')),
        57402 => Some(KeyCode::Char('3')),
        57403 => Some(KeyCode::Char('4')),
        57404 => Some(KeyCode::Char('5')),
        57405 => Some(KeyCode::Char('6')),
        57406 => Some(KeyCode::Char('7')),
        57407 => Some(KeyCode::Char('8')),
        57408 => Some(KeyCode::Char('9')),
        57409 => Some(KeyCode::Char('.')),
        57410 => Some(KeyCode::Char('/')),
        57411 => Some(KeyCode::Char('*')),
        57412 => Some(KeyCode::Char('-')),
        57413 => Some(KeyCode::Char('+')),
        57414 => Some(KeyCode::Enter),
        57415 => Some(KeyCode::Char('=')),
        57416 => Some(KeyCode::Char(',')),
        57417 => Some(KeyCode::Left),
        57418 => Some(KeyCode::Right),
        57419 => Some(KeyCode::Up),
        57420 => Some(KeyCode::Down),
        57421 => Some(KeyCode::PageUp),
        57422 => Some(KeyCode::PageDown),
        57423 => Some(KeyCode::Home),
        57424 => Some(KeyCode::End),
        57425 => Some(KeyCode::Insert),
        57426 => Some(KeyCode::Delete),
        57427 => Some(KeyCode::KeypadBegin),
        _ => None,
    };
    if let Some(code) = keypad {
        return Some((code, KeyEventState { keypad: true, caps_lock: false, num_lock: false }));
    }
    let code = match codepoint {
        57358 => KeyCode::CapsLock,
        57359 => KeyCode::ScrollLock,
        57360 => KeyCode::NumLock,
        57361 => KeyCode::PrintScreen,
        57362 => KeyCode::Pause,
        57363 => KeyCode::Menu,
        57376..=57398 => KeyCode::F((codepoint - 57376 + 13) as u8),
        57428 => KeyCode::Media(MediaKeyCode::Play),
        57429 => KeyCode::Media(MediaKeyCode::Pause),
        57430 => KeyCode::Media(MediaKeyCode::PlayPause),
        57431 => KeyCode::Media(MediaKeyCode::Reverse),
        57432 => KeyCode::Media(MediaKeyCode::Stop),
        57433 => KeyCode::Media(MediaKeyCode::FastForward),
        57434 => KeyCode::Media(MediaKeyCode::Rewind),
        57435 => KeyCode::Media(MediaKeyCode::Next),
        57436 => KeyCode::Media(MediaKeyCode::Prev),
        57437 => KeyCode::Media(MediaKeyCode::Record),
        57438 => KeyCode::Media(MediaKeyCode::VolumeDown),
        57439 => KeyCode::Media(MediaKeyCode::VolumeUp),
        57440 => KeyCode::Media(MediaKeyCode::VolumeMute),
        57441 => KeyCode::Modifier(ModKeyCode::LeftShift),
        57442 => KeyCode::Modifier(ModKeyCode::LeftControl),
        57443 => KeyCode::Modifier(ModKeyCode::LeftAlt),
        57444 => KeyCode::Modifier(ModKeyCode::LeftSuper),
        57445 => KeyCode::Modifier(ModKeyCode::LeftHyper),
        57446 => KeyCode::Modifier(ModKeyCode::LeftMeta),
        57447 => KeyCode::Modifier(ModKeyCode::RightShift),
        57448 => KeyCode::Modifier(ModKeyCode::RightControl),
        57449 => KeyCode::Modifier(ModKeyCode::RightAlt),
        57450 => KeyCode::Modifier(ModKeyCode::RightSuper),
        57451 => KeyCode::Modifier(ModKeyCode::RightHyper),
        57452 => KeyCode::Modifier(ModKeyCode::RightMeta),
        _ => {
            return None;
        },
    };
    Some((code, KeyEventState::empty()))
}

/// Decoding the number that a key is written under gives the key back.
pub proof fn law_tilde_round_trip(code: KeyCode)
    requires
        tilde_number(code) is Some,
    ensures
        numbered_key(tilde_number(code)->Some_0) == Some(code),
{
    lemma_numbered(tilde_number(code)->Some_0, code);
}

/// Decoding the letter that a cursor key is written under gives the key back.
pub proof fn law_cursor_round_trip(code: KeyCode)
    requires
        cursor_final(code) is Some,
    ensures
        ss3_final(cursor_final(code)->Some_0) == Some(code),
        cursor_final(code)->Some_0 != 82,
{
    lemma_cursor_keys(cursor_final(code)->Some_0);
}

/// The three classic modifiers survive the way over the wire, alone or
/// together; the others are not sent.
pub proof fn law_mods_round_trip(mods: KeyMods, wire: u8)
    requires
        wire == 1 + weight(mods.shift, 1) + weight(mods.alt, 2) + weight(mods.control, 4),
    ensures
        wire_mods(wire) == (KeyMods { sup: false, hyper: false, meta: false, ..mods }),
{
}

/// A letter typed with Ctrl decodes to that letter with Ctrl, except for the
/// three that are Tab and Enter.
pub proof fn law_ctrl_letter_round_trip(c: char, d: char)
    requires
        'a' <= c <= 'z',
        c != 'i' && c != 'j' && c != 'm',
        control_number(c) == Some(d as int),
    ensures
        char_press(d) == Some(Key::press(KeyCode::Char(c), KeyMods::spec_control())),
{
}

/// The letters that end the sequences of keys.
pub proof fn law_letters_of_keys(b: u8)
    ensures
        ss3_final(65) == Some(KeyCode::Up),
        ss3_final(66) == Some(KeyCode::Down),
        ss3_final(67) == Some(KeyCode::Right),
        ss3_final(68) == Some(KeyCode::Left),
        ss3_final(70) == Some(KeyCode::End),
        ss3_final(72) == Some(KeyCode::Home),
        80 <= b <= 83 ==> ss3_final(b) == Some(KeyCode::F((b - 79) as u8)),
        ss3_final(b) is Some ==> 65 <= b <= 68 || b == 70 || b == 72 || 80 <= b <= 83,
{
    lemma_cursor_keys(65);
    lemma_cursor_keys(66);
    lemma_cursor_keys(67);
    lemma_cursor_keys(68);
    lemma_cursor_keys(70);
    lemma_cursor_keys(72);
    lemma_cursor_keys(b);
}

/// The letter of a key leads back to it, and only the cursor keys have one.
pub proof fn law_letters_lead_back(code: KeyCode, b: u8)
    ensures
        cursor_final(code) == Some(b) <==> ss3_final(b) == Some(code) && !(80 <= b <= 83),
{
    lemma_cursor_keys(b);
}

/// The numbers of keys: the editing keys have theirs, the function keys run on from
/// eleven with a gap after the fifth, the tenth, the fourteenth and the sixteenth.
pub proof fn law_numbers_of_keys(k: u8)
    ensures
        tilde_number(KeyCode::Insert) == Some(2u16),
        tilde_number(KeyCode::Delete) == Some(3u16),
        tilde_number(KeyCode::PageUp) == Some(5u16),
        tilde_number(KeyCode::PageDown) == Some(6u16),
        1 <= k <= 5 ==> tilde_number(KeyCode::F(k)) == Some((k + 10) as u16),
        6 <= k <= 10 ==> tilde_number(KeyCode::F(k)) == Some((k + 11) as u16),
        11 <= k <= 14 ==> tilde_number(KeyCode::F(k)) == Some((k + 12) as u16),
        15 <= k <= 16 ==> tilde_number(KeyCode::F(k)) == Some((k + 13) as u16),
        17 <= k <= 20 ==> tilde_number(KeyCode::F(k)) == Some((k + 14) as u16),
        k == 0 || k > 20 ==> tilde_number(KeyCode::F(k)) is None,
        numbered_key(1) == Some(KeyCode::Home),
        numbered_key(7) == Some(KeyCode::Home),
        numbered_key(4) == Some(KeyCode::End),
        numbered_key(8) == Some(KeyCode::End),
{
}

/// A number leads to a key if the key has it, or is one of those of Home and End.
pub proof fn law_numbers_lead_to_keys(n: u16)
    ensures
        numbered_key(n) matches Some(code) ==> tilde_number(code) == Some(n) || (code is Home && (n
            == 1 || n == 7)) || (code is End && (n == 4 || n == 8)),
{
}

/// The control characters: of letters their place in the alphabet, whatever their
/// case, and those of the few other characters that have one.
pub proof fn law_control_characters(c: char)
    ensures
        'a' <= c <= 'z' ==> control_number(c) == Some(c as int - 'a' as int + 1),
        'A' <= c <= 'Z' ==> control_number(c) == Some(c as int - 'A' as int + 1),
        c == ' ' || c == '@' || c == '`' || c == '2' ==> control_number(c) == Some(0int),
        c == '[' || c == '{' || c == '3' ==> control_number(c) == Some(27int),
        c == '\\' || c == '|' || c == '4' ==> control_number(c) == Some(28int),
        c == ']' || c == '}' || c == '5' ==> control_number(c) == Some(29int),
        c == '^' || c == '~' || c == '6' ==> control_number(c) == Some(30int),
        c == '_' || c == '/' || c == '7' ==> control_number(c) == Some(31int),
        c == '?' || c == '8' ==> control_number(c) == Some(127int),
        control_number(c) matches Some(n) ==> 0 <= n <= 31 || n == 127,
        c == '0' || c == '1' || c == '9' || c == '.' || c == '-' || c as int >= 127
            ==> control_number(c) is None,
{
}

/// What characters decode to: printable ones to themselves, return and newline to
/// enter, tab and backspace to theirs, the other control characters to a key with
/// control; escape and one more are no key of their own.
pub proof fn law_characters_as_keys(c: char)
    ensures
        32 <= c as int && c as int != 127 && c as int != 0x8d ==> char_press(c) == Some(
            Key::press(KeyCode::Char(c), KeyMods::spec_none()),
        ),
        c == '\r' || c == '\n' ==> char_press(c) == Some(
            Key::press(KeyCode::Enter, KeyMods::spec_none()),
        ),
        c == '\t' ==> char_press(c) == Some(Key::press(KeyCode::Tab, KeyMods::spec_none())),
        c as int == 127 ==> char_press(c) == Some(
            Key::press(KeyCode::Backspace, KeyMods::spec_none()),
        ),
        c as int == 27 || c as int == 0x8d ==> char_press(c) is None,
        c as int == 0 ==> char_press(c) == Some(
            Key::press(KeyCode::Char(' '), KeyMods::spec_control()),
        ),
        1 <= c as int <= 26 && c as int != 9 && c as int != 10 && c as int != 13 ==> char_press(c)
            == Some(
            Key::press(KeyCode::Char((c as int + 'a' as int - 1) as char), KeyMods::spec_control()),
        ),
        28 <= c as int <= 31 ==> char_press(c) == Some(
            Key::press(
                KeyCode::Char((c as int - 28 + '4' as int) as char),
                KeyMods::spec_control(),
            ),
        ),
        char_press(c) matches Some(key) ==> key.mods == KeyMods::spec_none() || (key.mods
            == KeyMods::spec_control() && key.code is Char && control_number(key.code->Char_0)
            == Some(c as int)),
{
}

/// What the bits of a wire value mean: one more than the sum of the weights of what
/// is held.
pub proof fn law_bits_of_modifiers(m: KeyMods, wire: u8)
    requires
        wire == 1 + weight(m.shift, 1) + weight(m.alt, 2) + weight(m.control, 4) + weight(m.sup, 8)
            + weight(m.hyper, 16) + weight(m.meta, 32),
    ensures
        wire_mods(wire) == m,
        wire_mods(0) == KeyMods::spec_none(),
        weight(true, 5) == 5,
        weight(false, 5) == 0,
{
}

/// A functional codepoint is that of a key on the keypad.
pub open spec fn on_keypad(codepoint: u32, code: KeyCode) -> bool {
    functional(codepoint) == Some(
        (code, KeyEventState { keypad: true, caps_lock: false, num_lock: false }),
    )
}

/// A functional codepoint is that of a key that is not on the keypad.
pub open spec fn by_itself(codepoint: u32, code: KeyCode) -> bool {
    functional(codepoint) == Some(
        (code, KeyEventState { keypad: false, caps_lock: false, num_lock: false }),
    )
}

/// The codepoints of the keypad.
pub proof fn law_codepoints_of_the_keypad()
    ensures
        ({
            &&& on_keypad(57399, KeyCode::Char('0'))
            &&& on_keypad(57400, KeyCode::Char('1'))
            &&& on_keypad(57401, KeyCode::Char('2'))
            &&& on_keypad(57402, KeyCode::Char('3'))
            &&& on_keypad(57403, KeyCode::Char('4'))
            &&& on_keypad(57404, KeyCode::Char('5'))
            &&& on_keypad(57405, KeyCode::Char('6'))
            &&& on_keypad(57406, KeyCode::Char('7'))
            &&& on_keypad(57407, KeyCode::Char('8'))
            &&& on_keypad(57408, KeyCode::Char('9'))
            &&& on_keypad(57409, KeyCode::Char('.'))
            &&& on_keypad(57410, KeyCode::Char('/'))
            &&& on_keypad(57411, KeyCode::Char('*'))
            &&& on_keypad(57412, KeyCode::Char('-'))
            &&& on_keypad(57413, KeyCode::Char('+'))
            &&& on_keypad(57414, KeyCode::Enter)
            &&& on_keypad(57415, KeyCode::Char('='))
            &&& on_keypad(57416, KeyCode::Char(','))
            &&& on_keypad(57417, KeyCode::Left)
            &&& on_keypad(57418, KeyCode::Right)
            &&& on_keypad(57419, KeyCode::Up)
            &&& on_keypad(57420, KeyCode::Down)
            &&& on_keypad(57421, KeyCode::PageUp)
            &&& on_keypad(57422, KeyCode::PageDown)
            &&& on_keypad(57423, KeyCode::Home)
            &&& on_keypad(57424, KeyCode::End)
            &&& on_keypad(57425, KeyCode::Insert)
            &&& on_keypad(57426, KeyCode::Delete)
            &&& on_keypad(57427, KeyCode::KeypadBegin)
        }),
{
}

/// The codepoints of the locks, the media keys, the modifiers and the higher
/// function keys, and that there are no others.
pub proof fn law_other_codepoints(codepoint: u32)
    ensures
        ({
            &&& by_itself(57358, KeyCode::CapsLock)
            &&& by_itself(57359, KeyCode::ScrollLock)
            &&& by_itself(57360, KeyCode::NumLock)
            &&& by_itself(57361, KeyCode::PrintScreen)
            &&& by_itself(57362, KeyCode::Pause)
            &&& by_itself(57363, KeyCode::Menu)
            &&& by_itself(57428, KeyCode::Media(MediaKeyCode::Play))
            &&& by_itself(57429, KeyCode::Media(MediaKeyCode::Pause))
            &&& by_itself(57430, KeyCode::Media(MediaKeyCode::PlayPause))
            &&& by_itself(57431, KeyCode::Media(MediaKeyCode::Reverse))
            &&& by_itself(57432, KeyCode::Media(MediaKeyCode::Stop))
            &&& by_itself(57433, KeyCode::Media(MediaKeyCode::FastForward))
            &&& by_itself(57434, KeyCode::Media(MediaKeyCode::Rewind))
            &&& by_itself(57435, KeyCode::Media(MediaKeyCode::Next))
            &&& by_itself(57436, KeyCode::Media(MediaKeyCode::Prev))
            &&& by_itself(57437, KeyCode::Media(MediaKeyCode::Record))
            &&& by_itself(57438, KeyCode::Media(MediaKeyCode::VolumeDown))
            &&& by_itself(57439, KeyCode::Media(MediaKeyCode::VolumeUp))
            &&& by_itself(57440, KeyCode::Media(MediaKeyCode::VolumeMute))
            &&& by_itself(57441, KeyCode::Modifier(ModKeyCode::LeftShift))
            &&& by_itself(57442, KeyCode::Modifier(ModKeyCode::LeftControl))
            &&& by_itself(57443, KeyCode::Modifier(ModKeyCode::LeftAlt))
            &&& by_itself(57444, KeyCode::Modifier(ModKeyCode::LeftSuper))
            &&& by_itself(57445, KeyCode::Modifier(ModKeyCode::LeftHyper))
            &&& by_itself(57446, KeyCode::Modifier(ModKeyCode::LeftMeta))
            &&& by_itself(57447, KeyCode::Modifier(ModKeyCode::RightShift))
            &&& by_itself(57448, KeyCode::Modifier(ModKeyCode::RightControl))
            &&& by_itself(57449, KeyCode::Modifier(ModKeyCode::RightAlt))
            &&& by_itself(57450, KeyCode::Modifier(ModKeyCode::RightSuper))
            &&& by_itself(57451, KeyCode::Modifier(ModKeyCode::RightHyper))
            &&& by_itself(57452, KeyCode::Modifier(ModKeyCode::RightMeta))
        }),
        57376 <= codepoint <= 57398 ==> by_itself(
            codepoint,
            KeyCode::F((codepoint - 57376 + 13) as u8),
        ),
        functional(codepoint) is Some ==> 57358 <= codepoint <= 57363 || 57376 <= codepoint
            <= 57452,
{
}

/// The mask of the classic modifiers.
pub open spec fn classic_mask(mods: KeyMods) -> int {
    weight(mods.control, 4) + weight(mods.alt, 2) + weight(mods.shift, 1)
}

/// The locks of a wire value.
pub open spec fn wire_state(wire: u8) -> KeyEventState {
    KeyEventState {
        keypad: false,
        caps_lock: bit(wire_mask(wire), 64),
        num_lock: bit(wire_mask(wire), 128),
    }
}

/// The event kind of a wire value.
pub open spec fn wire_kind(n: u8) -> KeyEventKind {
    if n == 2 {
        KeyEventKind::Repeat
    } else if n == 3 {
        KeyEventKind::Release
    } else {
        KeyEventKind::Press
    }
}

/// What is sent of modifiers is read again: one more than their mask stands for
/// them, with no lock, and no modifier has a mask of zero.
pub proof fn law_masks_are_read_again(mods: KeyMods, wire: u8)
    requires
        wire == classic_mask(mods) + 1,
    ensures
        wire_mods(wire).shift == mods.shift,
        wire_mods(wire).alt == mods.alt,
        wire_mods(wire).control == mods.control,
        wire_state(wire) == KeyEventState::spec_empty(),
        classic_mask(KeyMods::spec_none()) == 0,
{
}

/// The locks have the two highest weights; two is a repeat and three a release,
/// everything else a press.
pub proof fn law_locks_and_kinds(n: u8)
    ensures
        wire_state(65) == (KeyEventState { keypad: false, caps_lock: true, num_lock: false }),
        wire_state(129) == (KeyEventState { keypad: false, caps_lock: false, num_lock: true }),
        wire_state(193) == (KeyEventState { keypad: false, caps_lock: true, num_lock: true }),
        n <= 64 ==> wire_state(n) == KeyEventState::spec_empty(),
        wire_kind(2) == KeyEventKind::Repeat,
        wire_kind(3) == KeyEventKind::Release,
        n != 2 && n != 3 ==> wire_kind(n) == KeyEventKind::Press,
{
}

} // verus!
