use dekit::term::key::{Key, KeyCode, KeyMods};
use dekit::term::vt::emit::{dec_reset, dec_set, DecMode};
use dekit::term::TermEvent;
use dekit::term_driver::stdin::{after_poll, after_read, Poll, Read, ReaderStep};
use dekit::term_driver::{
    init_sequence, teardown_sequence, InputEvent, InputStep, InternalTermEvent, KeyboardMode,
    Platform, TermDriver,
};

fn text(bytes: Vec<u8>) -> String {
    String::from_utf8(bytes).unwrap()
}

fn written(step: InputStep) -> String {
    match step {
        InputStep::Wait { write } => text(write),
        other => panic!("{other:?}"),
    }
}

#[test]
fn setting_up() {
    let unix = text(init_sequence(Platform::Unix));
    assert!(unix.contains("\x1b[?1049h"));
    assert!(unix.contains("\x1b[?1000h\x1b[?1002h\x1b[?1003h\x1b[?1015h\x1b[?1006h\x1b[?2004h"));
    assert!(unix.contains("\x1b[?u"));
    assert!(unix.ends_with("\x1b[c"));
    assert!(!text(init_sequence(Platform::Windows)).contains("\x1b[?u"));
}

#[test]
fn leaving_takes_back_every_mode() {
    let init = text(init_sequence(Platform::Unix));
    let leave = text(teardown_sequence(KeyboardMode::Unknown));
    for mode in [
        DecMode::AltScreen,
        DecMode::MousePressRelease,
        DecMode::MouseButtonMotion,
        DecMode::MouseAnyMotion,
        DecMode::MouseRxvt,
        DecMode::MouseSgr,
        DecMode::BracketedPaste,
    ] {
        let mut set = Vec::new();
        dec_set(&mut set, mode);
        let mut reset = Vec::new();
        dec_reset(&mut reset, mode);
        assert!(init.contains(&text(set)));
        assert!(leave.contains(&text(reset)));
    }
    assert!(leave.contains("\x1b[?25h"));
    assert!(text(teardown_sequence(KeyboardMode::ModifyOtherKeys)).starts_with("\x1b[>4;0m"));
    assert!(text(teardown_sequence(KeyboardMode::Kitty)).starts_with("\x1b[<"));
    assert!(text(teardown_sequence(KeyboardMode::Win32)).starts_with("\x1b[?9001l"));
}

#[test]
fn the_keyboard_falls_back() {
    let mut driver = TermDriver::new(Platform::Unix);
    assert!(driver.is_waiting());
    assert_eq!(written(driver.input(InputEvent::Timeout)), "\x1b[>4;2m");
    assert!(!driver.is_waiting());
    assert_eq!(driver.keyboard(), KeyboardMode::ModifyOtherKeys);
    assert_eq!(
        written(driver.input(InputEvent::Event(InternalTermEvent::PrimaryDeviceAttributes))),
        ""
    );
    assert_eq!(
        written(driver.input(InputEvent::Event(InternalTermEvent::ReplyKittyKeyboard(0)))),
        "\x1b[>15u"
    );
    assert_eq!(driver.keyboard(), KeyboardMode::Kitty);
    assert!(text(driver.leave()).starts_with("\x1b[<"));
    let mut windows = TermDriver::new(Platform::Windows);
    assert_eq!(
        written(windows.input(InputEvent::Event(InternalTermEvent::PrimaryDeviceAttributes))),
        "\x1b[?9001h"
    );
    assert_eq!(windows.keyboard(), KeyboardMode::Win32);
}

#[test]
fn events_are_passed_on() {
    let mut driver = TermDriver::new(Platform::Unix);
    let key = Key::new(KeyCode::Enter, KeyMods::none());
    let returned = |driver: &mut TermDriver, event| match driver.input(event) {
        InputStep::Return(event) => event,
        other => panic!("{other:?}"),
    };
    assert_eq!(
        returned(&mut driver, InputEvent::Event(InternalTermEvent::Key(key))),
        Some(TermEvent::Key(key))
    );
    assert_eq!(
        returned(&mut driver, InputEvent::Event(InternalTermEvent::Paste("x".into()))),
        Some(TermEvent::Paste("x".into()))
    );
    assert_eq!(
        returned(&mut driver, InputEvent::Event(InternalTermEvent::FocusGained)),
        Some(TermEvent::FocusGained)
    );
    assert_eq!(
        returned(&mut driver, InputEvent::Resized(3, 4)),
        Some(TermEvent::Resize(3, 4))
    );
    assert_eq!(returned(&mut driver, InputEvent::Ended), None);
    assert!(matches!(driver.input(InputEvent::Failed), InputStep::Fail));
    assert_eq!(
        written(driver.input(InputEvent::Event(InternalTermEvent::CursorPos(1, 1)))),
        ""
    );
    assert_eq!(driver.handle_internal(InternalTermEvent::Resize(8, 9)).0, Some(TermEvent::Resize(8, 9)));
}

#[test]
fn reading_the_terminal() {
    assert_eq!(after_poll(Poll::Interrupted), ReaderStep::Poll);
    assert_eq!(after_poll(Poll::Failed), ReaderStep::Fail);
    assert_eq!(after_poll(Poll::Ready { input: true, wakeup: true }), ReaderStep::End);
    assert_eq!(after_poll(Poll::Ready { input: true, wakeup: false }), ReaderStep::Read);
    assert_eq!(after_poll(Poll::Ready { input: false, wakeup: false }), ReaderStep::Poll);
    assert_eq!(after_read(Read::Interrupted), ReaderStep::Poll);
    assert_eq!(after_read(Read::Failed), ReaderStep::Fail);
    assert_eq!(after_read(Read::Bytes(0)), ReaderStep::End);
    assert_eq!(after_read(Read::Bytes(5)), ReaderStep::Decode(5));
}

#[test]
fn only_terminals_are_taken_over() {
    assert_eq!(
        TermDriver::create(Platform::Unix, false).unwrap_err(),
        "Stdin is not a tty."
    );
    let (driver, write) = TermDriver::create(Platform::Unix, true).unwrap();
    assert!(driver.is_waiting());
    assert_eq!(write, init_sequence(Platform::Unix));
    assert!(TermDriver::create(Platform::Windows, false).is_ok());
}
