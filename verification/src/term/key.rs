//! Key presses.

use vstd::prelude::*;

use crate::text::{decimal, push_decimal};

verus! {

/// A key of the keyboard.
#[derive(Clone, Copy, Debug, PartialEq, Eq, Structural)]
pub enum KeyCode {
    Backspace,
    Enter,
    Left,
    Right,
    Up,
    Down,
    Home,
    End,
    PageUp,
    PageDown,
    Tab,
    Delete,
    Insert,
    Esc,
    CapsLock,
    ScrollLock,
    NumLock,
    PrintScreen,
    Pause,
    Menu,
    KeypadBegin,
    F(u8),
    Char(char),
    Media(MediaKeyCode),
    Modifier(ModKeyCode),
}

/// A media key.
#[derive(Clone, Copy, Debug, PartialEq, Eq, Structural)]
pub enum MediaKeyCode {
    Play,
    Pause,
    PlayPause,
    Reverse,
    Stop,
    FastForward,
    Rewind,
    Next,
    Prev,
    Record,
    VolumeDown,
    VolumeUp,
    VolumeMute,
}

/// A modifier key pressed by itself.
#[derive(Clone, Copy, Debug, PartialEq, Eq, Structural)]
pub enum ModKeyCode {
    LeftShift,
    LeftControl,
    LeftAlt,
    LeftSuper,
    LeftHyper,
    LeftMeta,
    RightShift,
    RightControl,
    RightAlt,
    RightSuper,
    RightHyper,
    RightMeta,
}

/// The modifiers held during a key press.
#[derive(Clone, Copy, Debug, PartialEq, Eq, Structural)]
pub struct KeyMods {
    pub shift: bool,
    pub alt: bool,
    pub control: bool,
    pub sup: bool,
    pub hyper: bool,
    pub meta: bool,
}

/// Lock keys and the keypad.
#[derive(Clone, Copy, Debug, PartialEq, Eq, Structural)]
pub struct KeyEventState {
    pub keypad: bool,
    pub caps_lock: bool,
    pub num_lock: bool,
}

/// What happened to a key.
#[derive(Clone, Copy, Debug, PartialEq, Eq, Structural)]
pub enum KeyEventKind {
    Press,
    Repeat,
    Release,
}

/// A key event.
#[derive(Clone, Copy, Debug, PartialEq, Eq, Structural)]
pub struct Key {
    pub code: KeyCode,
    pub mods: KeyMods,
    pub kind: KeyEventKind,
    pub state: KeyEventState,
}

impl KeyMods {
    /// No modifier.
    pub open spec fn spec_none() -> KeyMods {
        KeyMods { shift: false, alt: false, control: false, sup: false, hyper: false, meta: false }
    }

    /// Control alone.
    pub open spec fn spec_control() -> KeyMods {
        KeyMods { control: true, ..KeyMods::spec_none() }
    }

    /// No modifier.
    pub fn none() -> (r: Self)
        ensures
            r == KeyMods::spec_none(),
    {
        KeyMods { shift: false, alt: false, control: false, sup: false, hyper: false, meta: false }
    }

    /// Shift alone.
    pub fn shift() -> (r: Self)
        ensures
            r == (KeyMods { shift: true, ..KeyMods::spec_none() }),
    {
        KeyMods { shift: true, alt: false, control: false, sup: false, hyper: false, meta: false }
    }

    /// Alt alone.
    pub fn alt() -> (r: Self)
        ensures
            r == (KeyMods { alt: true, ..KeyMods::spec_none() }),
    {
        KeyMods { shift: false, alt: true, control: false, sup: false, hyper: false, meta: false }
    }

    /// Control alone.
    pub fn control() -> (r: Self)
        ensures
            r == KeyMods::spec_control(),
    {
        KeyMods { shift: false, alt: false, control: true, sup: false, hyper: false, meta: false }
    }

    /// Meta alone.
    pub fn meta() -> (r: Self)
        ensures
            r == (KeyMods { meta: true, ..KeyMods::spec_none() }),
    {
        KeyMods { shift: false, alt: false, control: false, sup: false, hyper: false, meta: true }
    }

    /// Whether no modifier is held.
    pub fn is_empty(&self) -> (r: bool)
        ensures
            r == (*self == KeyMods::spec_none()),
    {
        *self == KeyMods::none()
    }
}

impl KeyEventState {
    /// No lock, not the keypad.
    pub open spec fn spec_empty() -> KeyEventState {
        KeyEventState { keypad: false, caps_lock: false, num_lock: false }
    }

    /// No lock, not the keypad.
    pub fn empty() -> (r: Self)
        ensures
            r == KeyEventState::spec_empty(),
    {
        KeyEventState { keypad: false, caps_lock: false, num_lock: false }
    }
}

impl Key {
    /// The press of a key with modifiers.
    pub open spec fn press(code: KeyCode, mods: KeyMods) -> Key {
        Key { code, mods, kind: KeyEventKind::Press, state: KeyEventState::spec_empty() }
    }

    /// The press of `code` with `mods` held.
    pub fn new(code: KeyCode, mods: KeyMods) -> (r: Self)
        ensures
            r == Key::press(code, mods),
    {
        Key { code, mods, kind: KeyEventKind::Press, state: KeyEventState::empty() }
    }

    /// The key as users write it, such as `<C-a>` or `q`.
    pub fn spec(&self) -> (r: String)
        ensures
            r@ == key_spec(*self),
    {
        let mut out = String::new();
        match self.code {
            KeyCode::Char(c) => {
                if self.mods.is_empty() {
                    out.push(c);
                    assert(out@ =~= seq![c]);
                } else {
                    out.push('<');
                    push_mods(&mut out, self.mods);
                    out.push(c);
                    out.push('>');
                    assert(out@ =~= seq!['<'] + mods_spec(self.mods) + seq![c, '>']);
                }
            },
            KeyCode::F(n) => {
                out.push('<');
                push_mods(&mut out, self.mods);
                out.push('F');
                push_decimal(&mut out, n as u64);
                out.push('>');
                assert(out@ =~= seq!['<'] + mods_spec(self.mods) + seq!['F'] + decimal(n as nat)
                    + seq!['>']);
            },
            code => {
                out.push('<');
                push_mods(&mut out, self.mods);
                out.append(code_name(code));
                out.push('>');
                assert(out@ =~= seq!['<'] + mods_spec(self.mods) + spec_code_name(code) + seq![
                    '>',
                ]);
            },
        }
        out
    }
}

fn push_when(out: &mut String, on: bool, text: &str)
    ensures
        final(out)@ == old(out)@ + when(on, text@),
{
    if on {
        out.append(text);
    } else {
        assert(out@ =~= old(out)@ + when(on, text@));
    }
}

fn push_mods(out: &mut String, m: KeyMods)
    ensures
        final(out)@ == old(out)@ + mods_spec(m),
{
    let mut mods = String::new();
    push_when(&mut mods, m.control, "C-");
    assert(mods@ =~= when(m.control, "C-"@));
    push_when(&mut mods, m.shift, "S-");
    push_when(&mut mods, m.alt, "A-");
    push_when(&mut mods, m.meta, "M-");
    push_when(&mut mods, m.sup, "D-");
    push_when(&mut mods, m.hyper, "H-");
    out.append(mods.as_str());
}

/// `text` if `on`.
pub open spec fn when(on: bool, text: Seq<char>) -> Seq<char> {
    if on {
        text
    } else {
        Seq::empty()
    }
}

/// The modifiers as users write them.
pub open spec fn mods_spec(m: KeyMods) -> Seq<char> {
    when(m.control, "C-"@) + when(m.shift, "S-"@) + when(m.alt, "A-"@) + when(m.meta, "M-"@) + when(
        m.sup,
        "D-"@,
    ) + when(m.hyper, "H-"@)
}

/// A key as users write it.
pub open spec fn key_spec(key: Key) -> Seq<char> {
    match key.code {
        KeyCode::Char(c) => if key.mods == KeyMods::spec_none() {
            seq![c]
        } else {
            seq!['<'] + mods_spec(key.mods) + seq![c, '>']
        },
        KeyCode::F(n) => seq!['<'] + mods_spec(key.mods) + seq!['F'] + decimal(n as nat) + seq![
            '>',
        ],
        code => seq!['<'] + mods_spec(key.mods) + spec_code_name(code) + seq!['>'],
    }
}

/// The name of a key that is neither a character nor a function key.
pub open spec fn spec_code_name(code: KeyCode) -> Seq<char> {
    match code {
        KeyCode::Backspace => "BS"@,
        KeyCode::Enter => "Enter"@,
        KeyCode::Left => "Left"@,
        KeyCode::Right => "Right"@,
        KeyCode::Up => "Up"@,
        KeyCode::Down => "Down"@,
        KeyCode::Home => "Home"@,
        KeyCode::End => "End"@,
        KeyCode::PageUp => "PageUp"@,
        KeyCode::PageDown => "PageDown"@,
        KeyCode::Tab => "Tab"@,
        KeyCode::Delete => "Del"@,
        KeyCode::Insert => "Insert"@,
        KeyCode::Esc => "Esc"@,
        KeyCode::CapsLock => "CapsLock"@,
        KeyCode::ScrollLock => "ScrollLock"@,
        KeyCode::NumLock => "NumLock"@,
        KeyCode::PrintScreen => "PrintScreen"@,
        KeyCode::Pause => "Pause"@,
        KeyCode::Menu => "Menu"@,
        KeyCode::KeypadBegin => "KeypadBegin"@,
        KeyCode::Media(_) => "Media"@,
        KeyCode::Modifier(_) => "Modifier"@,
        KeyCode::F(_) => "F"@,
        KeyCode::Char(_) => ""@,
    }
}

fn code_name(code: KeyCode) -> (r: &'static str)
    ensures
        r@ == spec_code_name(code),
{
    match code {
        KeyCode::Backspace => "BS",
        KeyCode::Enter => "Enter",
        KeyCode::Left => "Left",
        KeyCode::Right => "Right",
        KeyCode::Up => "Up",
        KeyCode::Down => "Down",
        KeyCode::Home => "Home",
        KeyCode::End => "End",
        KeyCode::PageUp => "PageUp",
        KeyCode::PageDown => "PageDown",
        KeyCode::Tab => "Tab",
        KeyCode::Delete => "Del",
        KeyCode::Insert => "Insert",
        KeyCode::Esc => "Esc",
        KeyCode::CapsLock => "CapsLock",
        KeyCode::ScrollLock => "ScrollLock",
        KeyCode::NumLock => "NumLock",
        KeyCode::PrintScreen => "PrintScreen",
        KeyCode::Pause => "Pause",
        KeyCode::Menu => "Menu",
        KeyCode::KeypadBegin => "KeypadBegin",
        KeyCode::Media(_) => "Media",
        KeyCode::Modifier(_) => "Modifier",
        KeyCode::F(_) => "F",
        KeyCode::Char(_) => "",
    }
}

/// How keys are written: a plain character as it is, every other key in angle
/// brackets, behind its modifiers, by its name.
pub proof fn law_keys_as_written(key: Key, c: char, n: u8)
    ensures
        key.mods == KeyMods::spec_none() ==> key_spec(Key { code: KeyCode::Char(c), ..key }) == seq![
            c,
        ],
        key.mods != KeyMods::spec_none() ==> key_spec(Key { code: KeyCode::Char(c), ..key }) == seq![
            '<',
        ] + mods_spec(key.mods) + seq![c, '>'],
        key_spec(Key { code: KeyCode::F(n), ..key }) == seq!['<'] + mods_spec(key.mods) + seq!['F']
            + decimal(n as nat) + seq!['>'],
        key_spec(Key { code: KeyCode::Backspace, ..key }) == seq!['<'] + mods_spec(key.mods) + "BS"@
            + seq!['>'],
        key_spec(Key { code: KeyCode::Enter, ..key }) == seq!['<'] + mods_spec(key.mods) + "Enter"@
            + seq!['>'],
        key_spec(Key { code: KeyCode::Left, ..key }) == seq!['<'] + mods_spec(key.mods) + "Left"@
            + seq!['>'],
        key_spec(Key { code: KeyCode::Right, ..key }) == seq!['<'] + mods_spec(key.mods) + "Right"@
            + seq!['>'],
        key_spec(Key { code: KeyCode::Up, ..key }) == seq!['<'] + mods_spec(key.mods) + "Up"@
            + seq!['>'],
        key_spec(Key { code: KeyCode::Down, ..key }) == seq!['<'] + mods_spec(key.mods) + "Down"@
            + seq!['>'],
        key_spec(Key { code: KeyCode::Home, ..key }) == seq!['<'] + mods_spec(key.mods) + "Home"@
            + seq!['>'],
        key_spec(Key { code: KeyCode::End, ..key }) == seq!['<'] + mods_spec(key.mods) + "End"@
            + seq!['>'],
        key_spec(Key { code: KeyCode::PageUp, ..key }) == seq!['<'] + mods_spec(key.mods) + "PageUp"@
            + seq!['>'],
        key_spec(Key { code: KeyCode::PageDown, ..key }) == seq!['<'] + mods_spec(key.mods) + "PageDown"@
            + seq!['>'],
        key_spec(Key { code: KeyCode::Tab, ..key }) == seq!['<'] + mods_spec(key.mods) + "Tab"@
            + seq!['>'],
        key_spec(Key { code: KeyCode::Delete, ..key }) == seq!['<'] + mods_spec(key.mods) + "Del"@
            + seq!['>'],
        key_spec(Key { code: KeyCode::Insert, ..key }) == seq!['<'] + mods_spec(key.mods) + "Insert"@
            + seq!['>'],
        key_spec(Key { code: KeyCode::Esc, ..key }) == seq!['<'] + mods_spec(key.mods) + "Esc"@
            + seq!['>'],
        key_spec(Key { code: KeyCode::CapsLock, ..key }) == seq!['<'] + mods_spec(key.mods) + "CapsLock"@
            + seq!['>'],
        key_spec(Key { code: KeyCode::ScrollLock, ..key }) == seq!['<'] + mods_spec(key.mods) + "ScrollLock"@
            + seq!['>'],
        key_spec(Key { code: KeyCode::NumLock, ..key }) == seq!['<'] + mods_spec(key.mods) + "NumLock"@
            + seq!['>'],
        key_spec(Key { code: KeyCode::PrintScreen, ..key }) == seq!['<'] + mods_spec(key.mods) + "PrintScreen"@
            + seq!['>'],
        key_spec(Key { code: KeyCode::Pause, ..key }) == seq!['<'] + mods_spec(key.mods) + "Pause"@
            + seq!['>'],
        key_spec(Key { code: KeyCode::Menu, ..key }) == seq!['<'] + mods_spec(key.mods) + "Menu"@
            + seq!['>'],
        key_spec(Key { code: KeyCode::KeypadBegin, ..key }) == seq!['<'] + mods_spec(key.mods) + "KeypadBegin"@
            + seq!['>'],
{
}

/// How modifiers are written: each by its letter and a dash, in their order.
pub proof fn law_mods_as_written(m: KeyMods)
    ensures
        mods_spec(m) == (if m.control {
            seq!['C', '-']
        } else {
            Seq::empty()
        }) + (if m.shift {
            seq!['S', '-']
        } else {
            Seq::empty()
        }) + (if m.alt {
            seq!['A', '-']
        } else {
            Seq::empty()
        }) + (if m.meta {
            seq!['M', '-']
        } else {
            Seq::empty()
        }) + (if m.sup {
            seq!['D', '-']
        } else {
            Seq::empty()
        }) + (if m.hyper {
            seq!['H', '-']
        } else {
            Seq::empty()
        }),
{
    reveal_strlit("C-");
    reveal_strlit("S-");
    reveal_strlit("A-");
    reveal_strlit("M-");
    reveal_strlit("D-");
    reveal_strlit("H-");
    assert("C-"@ =~= seq!['C', '-']);
    assert("S-"@ =~= seq!['S', '-']);
    assert("A-"@ =~= seq!['A', '-']);
    assert("M-"@ =~= seq!['M', '-']);
    assert("D-"@ =~= seq!['D', '-']);
    assert("H-"@ =~= seq!['H', '-']);
}

/// Nothing is held and nothing is locked with a plain press.
pub proof fn law_plain_presses(code: KeyCode, mods: KeyMods)
    ensures
        ({
            let none = KeyMods::spec_none();
            &&& !none.shift && !none.alt && !none.control && !none.sup && !none.hyper && !none.meta
        }),
        ({
            let control = KeyMods::spec_control();
            &&& control.control && !control.shift && !control.alt && !control.sup && !control.hyper
                && !control.meta
        }),
        Key::press(code, mods).code == code,
        Key::press(code, mods).mods == mods,
        Key::press(code, mods).kind == KeyEventKind::Press,
        !Key::press(code, mods).state.keypad,
        !Key::press(code, mods).state.caps_lock,
        !Key::press(code, mods).state.num_lock,
{
}

} // verus!
