//! Keys as numbers.

use vstd::prelude::*;

use crate::term::key::{Key, KeyCode, KeyEventKind, KeyEventState, KeyMods, MediaKeyCode, ModKeyCode};

verus! {

/// One if something holds.
pub open spec fn bit(on: bool) -> int {
    if on {
        1
    } else {
        0
    }
}

/// The modifiers as a number below 64.
pub open spec fn mods_number(m: KeyMods) -> int {
    bit(m.shift) + 2 * bit(m.alt) + 4 * bit(m.control) + 8 * bit(m.sup) + 16 * bit(m.hyper) + 32
        * bit(m.meta)
}

/// Lock keys and the keypad as a number below eight.
pub open spec fn state_number(s: KeyEventState) -> int {
    bit(s.keypad) + 2 * bit(s.caps_lock) + 4 * bit(s.num_lock)
}

/// What happened to a key as a number below four.
pub open spec fn kind_number(k: KeyEventKind) -> int {
    match k {
        KeyEventKind::Press => 0,
        KeyEventKind::Repeat => 1,
        KeyEventKind::Release => 2,
    }
}

/// A media key as a number below 16.
pub open spec fn media_number(m: MediaKeyCode) -> int {
    match m {
        MediaKeyCode::Play => 0,
        MediaKeyCode::Pause => 1,
        MediaKeyCode::PlayPause => 2,
        MediaKeyCode::Reverse => 3,
        MediaKeyCode::Stop => 4,
        MediaKeyCode::FastForward => 5,
        MediaKeyCode::Rewind => 6,
        MediaKeyCode::Next => 7,
        MediaKeyCode::Prev => 8,
        MediaKeyCode::Record => 9,
        MediaKeyCode::VolumeDown => 10,
        MediaKeyCode::VolumeUp => 11,
        MediaKeyCode::VolumeMute => 12,
    }
}

/// A modifier key as a number below 16.
pub open spec fn modifier_number(m: ModKeyCode) -> int {
    match m {
        ModKeyCode::LeftShift => 0,
        ModKeyCode::LeftControl => 1,
        ModKeyCode::LeftAlt => 2,
        ModKeyCode::LeftSuper => 3,
        ModKeyCode::LeftHyper => 4,
        ModKeyCode::LeftMeta => 5,
        ModKeyCode::RightShift => 6,
        ModKeyCode::RightControl => 7,
        ModKeyCode::RightAlt => 8,
        ModKeyCode::RightSuper => 9,
        ModKeyCode::RightHyper => 10,
        ModKeyCode::RightMeta => 11,
    }
}

/// A key code as a number: characters first, then the other keys.
pub open spec fn code_number(c: KeyCode) -> int {
    match c {
        KeyCode::Char(c) => c as u32 as int,
        KeyCode::F(n) => 0x20_0000 + n,
        KeyCode::Media(m) => 0x20_0100 + media_number(m),
        KeyCode::Modifier(m) => 0x20_0110 + modifier_number(m),
        KeyCode::Backspace => 0x20_0120,
        KeyCode::Enter => 0x20_0121,
        KeyCode::Left => 0x20_0122,
        KeyCode::Right => 0x20_0123,
        KeyCode::Up => 0x20_0124,
        KeyCode::Down => 0x20_0125,
        KeyCode::Home => 0x20_0126,
        KeyCode::End => 0x20_0127,
        KeyCode::PageUp => 0x20_0128,
        KeyCode::PageDown => 0x20_0129,
        KeyCode::Tab => 0x20_012a,
        KeyCode::Delete => 0x20_012b,
        KeyCode::Insert => 0x20_012c,
        KeyCode::Esc => 0x20_012d,
        KeyCode::CapsLock => 0x20_012e,
        KeyCode::ScrollLock => 0x20_012f,
        KeyCode::NumLock => 0x20_0130,
        KeyCode::PrintScreen => 0x20_0131,
        KeyCode::Pause => 0x20_0132,
        KeyCode::Menu => 0x20_0133,
        KeyCode::KeypadBegin => 0x20_0134,
    }
}

/// A key as a number.
pub open spec fn number_of(key: Key) -> int {
    ((code_number(key.code) * 64 + mods_number(key.mods)) * 4 + kind_number(key.kind)) * 8
        + state_number(key.state)
}

/// Different keys have different numbers.
pub proof fn law_keys_have_their_own_numbers(a: Key, b: Key)
    requires
        number_of(a) == number_of(b),
    ensures
        a == b,
{
    assert(state_number(a.state) == state_number(b.state));
    assert(kind_number(a.kind) == kind_number(b.kind));
    assert(mods_number(a.mods) == mods_number(b.mods));
    assert(code_number(a.code) == code_number(b.code));
    assert(a.state == b.state);
    assert(a.kind == b.kind);
    lemma_mods(a.mods, b.mods);
    lemma_codes(a.code, b.code);
}

proof fn lemma_mods(a: KeyMods, b: KeyMods)
    requires
        mods_number(a) == mods_number(b),
    ensures
        a == b,
{
}

proof fn lemma_codes(a: KeyCode, b: KeyCode)
    requires
        code_number(a) == code_number(b),
    ensures
        a == b,
{
}

fn flag(on: bool) -> (r: u64)
    ensures
        r == bit(on),
{
    if on {
        1
    } else {
        0
    }
}

fn media(m: MediaKeyCode) -> (r: u64)
    ensures
        r == media_number(m),
{
    match m {
        MediaKeyCode::Play => 0,
        MediaKeyCode::Pause => 1,
        MediaKeyCode::PlayPause => 2,
        MediaKeyCode::Reverse => 3,
        MediaKeyCode::Stop => 4,
        MediaKeyCode::FastForward => 5,
        MediaKeyCode::Rewind => 6,
        MediaKeyCode::Next => 7,
        MediaKeyCode::Prev => 8,
        MediaKeyCode::Record => 9,
        MediaKeyCode::VolumeDown => 10,
        MediaKeyCode::VolumeUp => 11,
        MediaKeyCode::VolumeMute => 12,
    }
}

fn modifier(m: ModKeyCode) -> (r: u64)
    ensures
        r == modifier_number(m),
{
    match m {
        ModKeyCode::LeftShift => 0,
        ModKeyCode::LeftControl => 1,
        ModKeyCode::LeftAlt => 2,
        ModKeyCode::LeftSuper => 3,
        ModKeyCode::LeftHyper => 4,
        ModKeyCode::LeftMeta => 5,
        ModKeyCode::RightShift => 6,
        ModKeyCode::RightControl => 7,
        ModKeyCode::RightAlt => 8,
        ModKeyCode::RightSuper => 9,
        ModKeyCode::RightHyper => 10,
        ModKeyCode::RightMeta => 11,
    }
}

fn code(c: KeyCode) -> (r: u64)
    ensures
        r == code_number(c),
        r < 0x20_0200,
{
    match c {
        KeyCode::Char(c) => c as u32 as u64,
        KeyCode::F(n) => 0x20_0000 + n as u64,
        KeyCode::Media(m) => 0x20_0100 + media(m),
        KeyCode::Modifier(m) => 0x20_0110 + modifier(m),
        KeyCode::Backspace => 0x20_0120,
        KeyCode::Enter => 0x20_0121,
        KeyCode::Left => 0x20_0122,
        KeyCode::Right => 0x20_0123,
        KeyCode::Up => 0x20_0124,
        KeyCode::Down => 0x20_0125,
        KeyCode::Home => 0x20_0126,
        KeyCode::End => 0x20_0127,
        KeyCode::PageUp => 0x20_0128,
        KeyCode::PageDown => 0x20_0129,
        KeyCode::Tab => 0x20_012a,
        KeyCode::Delete => 0x20_012b,
        KeyCode::Insert => 0x20_012c,
        KeyCode::Esc => 0x20_012d,
        KeyCode::CapsLock => 0x20_012e,
        KeyCode::ScrollLock => 0x20_012f,
        KeyCode::NumLock => 0x20_0130,
        KeyCode::PrintScreen => 0x20_0131,
        KeyCode::Pause => 0x20_0132,
        KeyCode::Menu => 0x20_0133,
        KeyCode::KeypadBegin => 0x20_0134,
    }
}

fn mods(m: KeyMods) -> (r: u64)
    ensures
        r == mods_number(m),
        r < 64,
{
    let low: u64 = flag(m.shift) + 2 * flag(m.alt) + 4 * flag(m.control);
    let high: u64 = flag(m.sup) + 2 * flag(m.hyper) + 4 * flag(m.meta);
    low + 8 * high
}

fn state(s: KeyEventState) -> (r: u64)
    ensures
        r == state_number(s),
        r < 8,
{
    flag(s.keypad) + 2 * flag(s.caps_lock) + 4 * flag(s.num_lock)
}

fn kind(k: KeyEventKind) -> (r: u64)
    ensures
        r == kind_number(k),
        r < 4,
{
    match k {
        KeyEventKind::Press => 0,
        KeyEventKind::Repeat => 1,
        KeyEventKind::Release => 2,
    }
}

/// The key as a number.
pub fn key_number(key: Key) -> (r: u64)
    ensures
        r == number_of(key),
{
    let code: u64 = code(key.code);
    let mods: u64 = mods(key.mods);
    let kind: u64 = kind(key.kind);
    let state: u64 = state(key.state);
    ((code * 64 + mods) * 4 + kind) * 8 + state
}

} // verus!
