use dekit::term::key::{Key, KeyCode, KeyEventKind, KeyEventState, KeyMods, MediaKeyCode, ModKeyCode};
use dekit::term::key_number::key_number;
use dekit::term::vt::keys::{
    char_key, ctrl_char, cursor_key_final, event_kind, final_key, functional_key, key_tilde,
    mask_mods, mask_state, mods_mask, ss3_key, tilde_key,
};

#[test]
fn tilde_round_trip() {
    for code in [
        KeyCode::Insert,
        KeyCode::Delete,
        KeyCode::PageUp,
        KeyCode::PageDown,
        KeyCode::F(1),
        KeyCode::F(5),
        KeyCode::F(6),
        KeyCode::F(12),
        KeyCode::F(20),
    ] {
        let n = key_tilde(code).unwrap();
        assert_eq!(tilde_key(n), Some(code), "tilde {n}");
    }
}

#[test]
fn ctrl_chars() {
    assert_eq!(ctrl_char('a'), Some('\x01'));
    assert_eq!(ctrl_char('Z'), Some('\x1a'));
    assert_eq!(ctrl_char(' '), Some('\x00'));
    assert_eq!(ctrl_char('['), Some('\x1b'));
    assert_eq!(ctrl_char('é'), None);
}

#[test]
fn cursor_keys() {
    for (byte, code) in [
        (b'A', KeyCode::Up),
        (b'B', KeyCode::Down),
        (b'C', KeyCode::Right),
        (b'D', KeyCode::Left),
        (b'F', KeyCode::End),
        (b'H', KeyCode::Home),
    ] {
        assert_eq!(final_key(byte), Some(code));
        assert_eq!(cursor_key_final(code), Some(byte));
    }
    assert_eq!(final_key(b'R'), None);
    assert_eq!(ss3_key(b'R'), Some(KeyCode::F(3)));
    assert_eq!(ss3_key(b'P'), Some(KeyCode::F(1)));
    assert_eq!(cursor_key_final(KeyCode::Tab), None);
}

#[test]
fn tilde_edges() {
    assert_eq!(tilde_key(7), Some(KeyCode::Home));
    assert_eq!(tilde_key(8), Some(KeyCode::End));
    assert_eq!(tilde_key(16), None);
    assert_eq!(tilde_key(34), Some(KeyCode::F(20)));
    assert_eq!(key_tilde(KeyCode::F(21)), None);
    assert_eq!(key_tilde(KeyCode::Enter), None);
}

#[test]
fn plain_bytes() {
    assert_eq!(char_key('\r').unwrap().code, KeyCode::Enter);
    assert_eq!(char_key('\x7f').unwrap().code, KeyCode::Backspace);
    assert_eq!(char_key('\x01').unwrap(), Key::new(KeyCode::Char('a'), KeyMods::control()));
    assert_eq!(char_key('\x1c').unwrap(), Key::new(KeyCode::Char('4'), KeyMods::control()));
    assert_eq!(char_key('\0').unwrap(), Key::new(KeyCode::Char(' '), KeyMods::control()));
    assert_eq!(char_key('\x1b'), None);
    assert_eq!(char_key('\u{8d}'), None);
    assert_eq!(char_key('x').unwrap(), Key::new(KeyCode::Char('x'), KeyMods::none()));
}

#[test]
fn modifier_masks() {
    assert_eq!(mods_mask(KeyMods::control()), 4);
    assert_eq!(mask_mods(5), KeyMods::control());
    assert_eq!(mask_mods(0), KeyMods::none());
    assert_eq!(mask_mods(33), KeyMods::meta());
    assert!(mask_state(65).caps_lock);
    assert!(mask_state(129).num_lock);
    assert_eq!(mask_state(1), KeyEventState::empty());
}

#[test]
fn kinds() {
    assert_eq!(event_kind(1), KeyEventKind::Press);
    assert_eq!(event_kind(2), KeyEventKind::Repeat);
    assert_eq!(event_kind(3), KeyEventKind::Release);
    assert_eq!(event_kind(9), KeyEventKind::Press);
}

#[test]
fn functional_keys() {
    let (code, state) = functional_key(57399).unwrap();
    assert_eq!(code, KeyCode::Char('0'));
    assert!(state.keypad);
    assert_eq!(functional_key(57376).unwrap().0, KeyCode::F(13));
    assert_eq!(functional_key(57440).unwrap().0, KeyCode::Media(MediaKeyCode::VolumeMute));
    assert_eq!(functional_key(57452).unwrap().0, KeyCode::Modifier(ModKeyCode::RightMeta));
    assert_eq!(functional_key(57453), None);
}

#[test]
fn keys_as_text() {
    assert_eq!(Key::new(KeyCode::Char('a'), KeyMods::control()).spec(), "<C-a>");
}

#[test]
fn numbers_of_keys() {
    let a = Key::new(KeyCode::Char('a'), KeyMods::none());
    assert_eq!(key_number(a), 97 * 2048);
    let f1 = Key::new(KeyCode::F(1), KeyMods::shift());
    assert_eq!(key_number(f1), (0x20_0001 * 64 + 1) * 32);
    assert_ne!(key_number(a), key_number(Key::new(KeyCode::Char('a'), KeyMods::alt())));
}
