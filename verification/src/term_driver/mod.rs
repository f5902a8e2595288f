//! The local terminal: how it is set up, what it reports, and how it is left.

use vstd::prelude::*;

use crate::term::key::Key;
use crate::term::mouse::MouseEvent;
use crate::term::vt::emit::{
    self, clear_all_seq, da1_query_seq, kitty_pop_seq, kitty_push_seq, kitty_query_seq,
    modify_other_keys_seq, reset_seq, restore_cursor_seq, save_cursor_seq, set_seq, DecMode,
};
use crate::term::TermEvent;

pub mod stdin;

verus! {

/// How the terminal reports keys.
#[derive(Clone, Copy, Debug, PartialEq, Eq, Structural)]
pub enum KeyboardMode {
    Unknown,
    ModifyOtherKeys,
    Kitty,
    Win32,
}

/// What the terminal sends.
#[derive(Debug)]
pub enum InternalTermEvent {
    Key(Key),
    Mouse(MouseEvent),
    Paste(String),
    Resize(u16, u16),
    FocusGained,
    FocusLost,
    CursorPos(u16, u16),
    PrimaryDeviceAttributes,
    ReplyKittyKeyboard(u8),
}

/// The kind of system that the terminal runs on.
#[derive(Clone, Copy, Debug, PartialEq, Eq, Structural)]
pub enum Platform {
    Unix,
    Windows,
}

/// What happens while input is awaited.
#[derive(Debug)]
pub enum InputEvent {
    Event(InternalTermEvent),
    /// Reading has failed.
    Failed,
    /// There is no more input.
    Ended,
    /// The terminal has another size.
    Resized(u16, u16),
    /// The terminal has not answered in time.
    Timeout,
}

/// What input leads to.
#[derive(Debug)]
pub enum InputStep {
    Return(Option<TermEvent>),
    Fail,
    /// Input is awaited on, once these bytes are written.
    Wait { write: Vec<u8> },
}

/// What input leads to.
pub enum InputStepView {
    Return(Option<TermEvent>),
    Fail,
    Wait { write: Seq<u8> },
}

impl View for InputStep {
    type V = InputStepView;

    open spec fn view(&self) -> InputStepView {
        match self {
            InputStep::Return(event) => InputStepView::Return(*event),
            InputStep::Fail => InputStepView::Fail,
            InputStep::Wait { write } => InputStepView::Wait { write: write@ },
        }
    }
}

/// The modes that are on while the terminal is in use.
pub open spec fn used_modes() -> Seq<DecMode> {
    seq![
        DecMode::AltScreen,
        DecMode::MousePressRelease,
        DecMode::MouseButtonMotion,
        DecMode::MouseAnyMotion,
        DecMode::MouseRxvt,
        DecMode::MouseSgr,
        DecMode::BracketedPaste,
    ]
}

/// What sets up the terminal, part by part: the alternate screen, cleared;
/// mouse presses, releases, drags and moves, in the encodings that reach past
/// the first 223 columns; pastes in brackets; and the questions what keyboard
/// and what device this is.
pub open spec fn init_parts(platform: Platform) -> Seq<Seq<u8>> {
    seq![
        save_cursor_seq(),
        set_seq(DecMode::AltScreen),
        clear_all_seq(),
        set_seq(DecMode::MousePressRelease),
        set_seq(DecMode::MouseButtonMotion),
        set_seq(DecMode::MouseAnyMotion),
        set_seq(DecMode::MouseRxvt),
        set_seq(DecMode::MouseSgr),
        set_seq(DecMode::BracketedPaste),
        if platform is Unix {
            kitty_query_seq()
        } else {
            Seq::empty()
        },
        da1_query_seq(),
    ]
}

/// Parts joined end to end.
pub open spec fn joined(parts: Seq<Seq<u8>>) -> Seq<u8>
    decreases parts.len(),
{
    if parts.len() == 0 {
        Seq::empty()
    } else {
        joined(parts.drop_last()) + parts.last()
    }
}

/// What sets up the terminal.
pub open spec fn init_seq(platform: Platform) -> Seq<u8> {
    joined(init_parts(platform))
}

proof fn lemma_joined_next(parts: Seq<Seq<u8>>, n: int)
    requires
        0 <= n < parts.len(),
    ensures
        joined(parts.take(n + 1)) == joined(parts.take(n)) + parts[n],
{
    assert(parts.take(n + 1).drop_last() =~= parts.take(n));
}

/// What makes the keyboard report as it did before.
pub open spec fn keyboard_reset_seq(keyboard: KeyboardMode) -> Seq<u8> {
    match keyboard {
        KeyboardMode::Unknown => Seq::empty(),
        KeyboardMode::ModifyOtherKeys => modify_other_keys_seq(0),
        KeyboardMode::Kitty => kitty_pop_seq(),
        KeyboardMode::Win32 => reset_seq(DecMode::Win32Input),
    }
}

/// The modes of a list, taken back from the last to the first.
pub open spec fn resets(modes: Seq<DecMode>) -> Seq<u8>
    decreases modes.len(),
{
    if modes.len() == 0 {
        Seq::empty()
    } else {
        reset_seq(modes.last()) + resets(modes.drop_last())
    }
}

proof fn lemma_resets(modes: Seq<DecMode>, n: int)
    requires
        0 <= n < modes.len(),
    ensures
        resets(modes.take(n + 1)) == reset_seq(modes[n]) + resets(modes.take(n)),
{
    assert(modes.take(n + 1).drop_last() =~= modes.take(n));
}

/// What leaves the terminal as it was: the keyboard, then every mode that was
/// set, last one first, then the cursor.
pub open spec fn teardown_seq(keyboard: KeyboardMode) -> Seq<u8> {
    keyboard_reset_seq(keyboard) + resets(used_modes()) + set_seq(DecMode::ShowCursor)
        + restore_cursor_seq()
}

/// Writes what sets up the terminal.
pub fn init_sequence(platform: Platform) -> (r: Vec<u8>)
    ensures
        r@ == init_seq(platform),
{
    let mut seq: Vec<u8> = Vec::new();
    let ghost parts = init_parts(platform);
    proof {
        assert(parts.take(0) =~= Seq::empty());
        lemma_joined_next(parts, 0);
        lemma_joined_next(parts, 1);
        lemma_joined_next(parts, 2);
        lemma_joined_next(parts, 3);
        lemma_joined_next(parts, 4);
        lemma_joined_next(parts, 5);
        lemma_joined_next(parts, 6);
        lemma_joined_next(parts, 7);
        lemma_joined_next(parts, 8);
        lemma_joined_next(parts, 9);
        lemma_joined_next(parts, 10);
        assert(parts.take(11) =~= parts);
        assert(seq@ =~= joined(parts.take(0)));
    }
    emit::save_cursor(&mut seq);
    emit::dec_set(&mut seq, DecMode::AltScreen);
    emit::clear_all(&mut seq);
    emit::dec_set(&mut seq, DecMode::MousePressRelease);
    emit::dec_set(&mut seq, DecMode::MouseButtonMotion);
    emit::dec_set(&mut seq, DecMode::MouseAnyMotion);
    emit::dec_set(&mut seq, DecMode::MouseRxvt);
    emit::dec_set(&mut seq, DecMode::MouseSgr);
    emit::dec_set(&mut seq, DecMode::BracketedPaste);
    assert(seq@ == joined(parts.take(9)));
    match platform {
        Platform::Unix => emit::kitty_query(&mut seq),
        Platform::Windows => {
            assert(seq@ + Seq::<u8>::empty() =~= seq@);
        },
    }
    emit::da1_query(&mut seq);
    seq
}

/// Takes back the mode `modes[n]`: those before it are what is left.
fn take_back(seq: &mut Vec<u8>, mode: DecMode, Ghost(modes): Ghost<Seq<DecMode>>, Ghost(n): Ghost<int>)
    requires
        0 <= n < modes.len(),
        modes[n] == mode,
    ensures
        final(seq)@ + resets(modes.take(n)) == old(seq)@ + resets(modes.take(n + 1)),
{
    emit::dec_reset(seq, mode);
    proof {
        lemma_resets(modes, n);
    }
    assert(seq@ + resets(modes.take(n)) =~= old(seq)@ + (reset_seq(mode) + resets(modes.take(n))));
}

/// Writes what leaves the terminal as it was.
pub fn teardown_sequence(keyboard: KeyboardMode) -> (r: Vec<u8>)
    ensures
        r@ == teardown_seq(keyboard),
{
    let mut seq: Vec<u8> = Vec::new();
    match keyboard {
        KeyboardMode::Unknown => {},
        KeyboardMode::ModifyOtherKeys => emit::modify_other_keys(&mut seq, 0),
        KeyboardMode::Kitty => emit::kitty_pop(&mut seq),
        KeyboardMode::Win32 => emit::dec_reset(&mut seq, DecMode::Win32Input),
    }
    assert(seq@ =~= keyboard_reset_seq(keyboard));
    let ghost head = seq@;
    let ghost modes = used_modes();
    assert(modes.take(7) =~= modes);
    assert(seq@ + resets(modes.take(7)) == head + resets(modes));
    take_back(&mut seq, DecMode::BracketedPaste, Ghost(modes), Ghost(6));
    take_back(&mut seq, DecMode::MouseSgr, Ghost(modes), Ghost(5));
    take_back(&mut seq, DecMode::MouseRxvt, Ghost(modes), Ghost(4));
    take_back(&mut seq, DecMode::MouseAnyMotion, Ghost(modes), Ghost(3));
    take_back(&mut seq, DecMode::MouseButtonMotion, Ghost(modes), Ghost(2));
    take_back(&mut seq, DecMode::MousePressRelease, Ghost(modes), Ghost(1));
    take_back(&mut seq, DecMode::AltScreen, Ghost(modes), Ghost(0));
    assert(seq@ + resets(modes.take(0)) =~= seq@);
    emit::dec_set(&mut seq, DecMode::ShowCursor);
    emit::restore_cursor(&mut seq);
    assert(seq@ =~= teardown_seq(keyboard));
    seq
}

/// A terminal in use.
#[derive(Debug)]
pub struct TermDriver {
    platform: Platform,
    keyboard: KeyboardMode,
    /// The terminal has been asked what it is and has not answered yet.
    waiting: bool,
}

/// A terminal in use.
pub struct DriverView {
    pub platform: Platform,
    pub keyboard: KeyboardMode,
    pub waiting: bool,
}

impl View for TermDriver {
    type V = DriverView;

    closed spec fn view(&self) -> DriverView {
        DriverView { platform: self.platform, keyboard: self.keyboard, waiting: self.waiting }
    }
}

/// A terminal after something happened, and what is written to it.
pub struct DriverStep {
    pub driver: DriverView,
    pub write: Seq<u8>,
}

/// What a terminal without a better keyboard protocol is told.
pub open spec fn fallback(driver: DriverView) -> DriverStep {
    if driver.keyboard is Unknown {
        match driver.platform {
            Platform::Unix => DriverStep {
                driver: DriverView { keyboard: KeyboardMode::ModifyOtherKeys, ..driver },
                write: modify_other_keys_seq(2),
            },
            Platform::Windows => DriverStep {
                driver: DriverView { keyboard: KeyboardMode::Win32, ..driver },
                write: set_seq(DecMode::Win32Input),
            },
        }
    } else {
        DriverStep { driver, write: Seq::empty() }
    }
}

/// What an event of the terminal means to its user.
pub open spec fn reported(event: InternalTermEvent) -> Option<TermEvent> {
    match event {
        InternalTermEvent::Key(key) => Some(TermEvent::Key(key)),
        InternalTermEvent::Mouse(mouse) => Some(TermEvent::Mouse(mouse)),
        InternalTermEvent::Paste(text) => Some(TermEvent::Paste(text)),
        InternalTermEvent::Resize(cols, rows) => Some(TermEvent::Resize(cols, rows)),
        InternalTermEvent::FocusGained => Some(TermEvent::FocusGained),
        InternalTermEvent::FocusLost => Some(TermEvent::FocusLost),
        _ => None,
    }
}

/// What an event of the terminal does to the terminal.
pub open spec fn handled(driver: DriverView, event: InternalTermEvent) -> DriverStep {
    match event {
        InternalTermEvent::PrimaryDeviceAttributes => fallback(
            DriverView { waiting: false, ..driver },
        ),
        InternalTermEvent::ReplyKittyKeyboard(_) => DriverStep {
            driver: DriverView { keyboard: KeyboardMode::Kitty, ..driver },
            write: kitty_push_seq(15),
        },
        _ => DriverStep { driver, write: Seq::empty() },
    }
}

/// What input leads to.
pub open spec fn taken(driver: DriverView, input: InputEvent) -> (DriverView, InputStepView) {
    match input {
        InputEvent::Event(event) => match reported(event) {
            Some(event) => (driver, InputStepView::Return(Some(event))),
            None => (
                handled(driver, event).driver,
                InputStepView::Wait { write: handled(driver, event).write },
            ),
        },
        InputEvent::Failed => (driver, InputStepView::Fail),
        InputEvent::Ended => (driver, InputStepView::Return(None)),
        InputEvent::Resized(cols, rows) => (
            driver,
            InputStepView::Return(Some(TermEvent::Resize(cols, rows))),
        ),
        InputEvent::Timeout => {
            let step = fallback(DriverView { waiting: false, ..driver });
            (step.driver, InputStepView::Wait { write: step.write })
        },
    }
}

impl TermDriver {
    /// A terminal that has just been set up.
    pub fn new(platform: Platform) -> (r: Self)
        ensures
            r@ == (DriverView { platform, keyboard: KeyboardMode::Unknown, waiting: true }),
    {
        TermDriver { platform, keyboard: KeyboardMode::Unknown, waiting: true }
    }

    /// Takes a terminal over: what is written to set it up. On Unix, input that
    /// comes from no terminal is an error, and nothing is written.
    pub fn create(platform: Platform, tty: bool) -> (r: Result<(Self, Vec<u8>), String>)
        ensures
            match r {
                Ok((driver, write)) => (platform is Windows || tty) && driver@ == (DriverView {
                    platform,
                    keyboard: KeyboardMode::Unknown,
                    waiting: true,
                }) && write@ == init_seq(platform),
                Err(message) => platform is Unix && !tty && message@ == "Stdin is not a tty."@,
            },
    {
        match platform {
            Platform::Unix => {
                if !tty {
                    return Err("Stdin is not a tty.".to_string());
                }
            },
            Platform::Windows => {},
        }
        Ok((TermDriver::new(platform), init_sequence(platform)))
    }

    /// Whether the terminal may still answer what it is.
    pub fn is_waiting(&self) -> (r: bool)
        ensures
            r == self@.waiting,
    {
        self.waiting
    }

    /// How the terminal reports keys.
    pub fn keyboard(&self) -> (r: KeyboardMode)
        ensures
            r == self@.keyboard,
    {
        self.keyboard
    }

    fn activate_keyboard_fallback(&mut self) -> (r: Vec<u8>)
        ensures
            (DriverStep { driver: final(self)@, write: r@ }) == fallback(old(self)@),
    {
        let mut seq: Vec<u8> = Vec::new();
        match self.keyboard {
            KeyboardMode::Unknown => match self.platform {
                Platform::Unix => {
                    self.keyboard = KeyboardMode::ModifyOtherKeys;
                    emit::modify_other_keys(&mut seq, 2);
                },
                Platform::Windows => {
                    self.keyboard = KeyboardMode::Win32;
                    emit::dec_set(&mut seq, DecMode::Win32Input);
                },
            },
            _ => {},
        }
        assert(seq@ =~= fallback(old(self)@).write);
        seq
    }

    /// Takes an event of the terminal: what it means to the user, and what is
    /// written to the terminal.
    pub fn handle_internal(&mut self, event: InternalTermEvent) -> (r: (
        Option<TermEvent>,
        Vec<u8>,
    ))
        ensures
            r.0 == reported(event),
            (DriverStep { driver: final(self)@, write: r.1@ }) == handled(old(self)@, event),
    {
        let mut seq: Vec<u8> = Vec::new();
        let report = match event {
            InternalTermEvent::Key(key) => Some(TermEvent::Key(key)),
            InternalTermEvent::Mouse(mouse) => Some(TermEvent::Mouse(mouse)),
            InternalTermEvent::Paste(text) => Some(TermEvent::Paste(text)),
            InternalTermEvent::Resize(cols, rows) => Some(TermEvent::Resize(cols, rows)),
            InternalTermEvent::FocusGained => Some(TermEvent::FocusGained),
            InternalTermEvent::FocusLost => Some(TermEvent::FocusLost),
            InternalTermEvent::CursorPos(_, _) => None,
            InternalTermEvent::PrimaryDeviceAttributes => {
                self.waiting = false;
                seq = self.activate_keyboard_fallback();
                None
            },
            InternalTermEvent::ReplyKittyKeyboard(_) => {
                self.keyboard = KeyboardMode::Kitty;
                emit::kitty_push(&mut seq, 15);
                None
            },
        };
        assert(seq@ =~= handled(old(self)@, event).write);
        (report, seq)
    }

    /// Takes what happened while input was awaited.
    pub fn input(&mut self, input: InputEvent) -> (r: InputStep)
        ensures
            (final(self)@, r@) == taken(old(self)@, input),
    {
        match input {
            InputEvent::Event(event) => {
                let (report, write) = self.handle_internal(event);
                match report {
                    Some(event) => InputStep::Return(Some(event)),
                    None => InputStep::Wait { write },
                }
            },
            InputEvent::Failed => InputStep::Fail,
            InputEvent::Ended => InputStep::Return(None),
            InputEvent::Resized(cols, rows) => InputStep::Return(
                Some(TermEvent::Resize(cols, rows)),
            ),
            InputEvent::Timeout => {
                self.waiting = false;
                let write = self.activate_keyboard_fallback();
                InputStep::Wait { write }
            },
        }
    }

    /// Writes what leaves the terminal as it was.
    pub fn leave(&self) -> (r: Vec<u8>)
        ensures
            r@ == teardown_seq(self@.keyboard),
    {
        teardown_sequence(self.keyboard)
    }
}

/// Every mode that setting up turns on, leaving turns off.
pub proof fn law_leaving_undoes_setting_up(platform: Platform, keyboard: KeyboardMode, i: int)
    requires
        0 <= i < used_modes().len(),
    ensures
        holds(init_seq(platform), set_seq(used_modes()[i])),
        holds(teardown_seq(keyboard), reset_seq(used_modes()[i])),
{
    let k = if i == 0 {
        1
    } else {
        i + 2
    };
    assert(init_parts(platform)[k] == set_seq(used_modes()[i]));
    lemma_joined_holds(init_parts(platform), k);
    lemma_resets_hold(used_modes(), i);
    let all = resets(used_modes());
    let part = reset_seq(used_modes()[i]);
    let at = choose|at: int|
        0 <= at && at + part.len() <= all.len() && #[trigger] all.subrange(at, at + part.len())
            == part;
    lemma_inside(
        keyboard_reset_seq(keyboard),
        all,
        set_seq(DecMode::ShowCursor) + restore_cursor_seq(),
        part,
        at,
    );
    assert(keyboard_reset_seq(keyboard) + all + (set_seq(DecMode::ShowCursor)
        + restore_cursor_seq()) =~= teardown_seq(keyboard));
}

/// A sequence of bytes holds another.
pub open spec fn holds(all: Seq<u8>, part: Seq<u8>) -> bool {
    exists|at: int|
        0 <= at && at + part.len() <= all.len() && #[trigger] all.subrange(at, at + part.len())
            == part
}

proof fn lemma_inside(head: Seq<u8>, middle: Seq<u8>, tail: Seq<u8>, part: Seq<u8>, at: int)
    requires
        0 <= at && at + part.len() <= middle.len(),
        middle.subrange(at, at + part.len()) == part,
    ensures
        holds(head + middle + tail, part),
{
    let all = head + middle + tail;
    let n = head.len() + at;
    assert(all.subrange(n, n + part.len()) =~= middle.subrange(at, at + part.len()));
}

proof fn lemma_resets_hold(modes: Seq<DecMode>, i: int)
    requires
        0 <= i < modes.len(),
    ensures
        holds(resets(modes), reset_seq(modes[i])),
    decreases modes.len(),
{
    let first = reset_seq(modes.last());
    let rest = resets(modes.drop_last());
    let part = reset_seq(modes[i]);
    if i == modes.len() - 1 {
        assert((first + rest).subrange(0, 0int + part.len()) =~= part);
    } else {
        lemma_resets_hold(modes.drop_last(), i);
        let at = choose|at: int|
            0 <= at && at + part.len() <= rest.len() && #[trigger] rest.subrange(
                at,
                at + part.len(),
            ) == part;
        lemma_inside(first, rest, Seq::empty(), part, at);
        assert(first + rest + Seq::<u8>::empty() =~= first + rest);
    }
}

proof fn lemma_joined_holds(parts: Seq<Seq<u8>>, i: int)
    requires
        0 <= i < parts.len(),
    ensures
        holds(joined(parts), parts[i]),
    decreases parts.len(),
{
    let head = joined(parts.drop_last());
    let part = parts[i];
    if i == parts.len() - 1 {
        let n = head.len() as int;
        assert((head + part).subrange(n, n + part.len()) =~= part);
    } else {
        lemma_joined_holds(parts.drop_last(), i);
        let at = choose|at: int|
            0 <= at && at + part.len() <= head.len() && #[trigger] head.subrange(
                at,
                at + part.len(),
            ) == part;
        lemma_inside(Seq::empty(), head, parts.last(), part, at);
        assert(Seq::<u8>::empty() + head + parts.last() =~= head + parts.last());
    }
}

/// The keyboard protocol is chosen once: an answer of the terminal stays, and
/// what was chosen for want of an answer gives way to a later one.
pub proof fn law_keyboard_is_chosen(driver: DriverView, input: InputEvent)
    ensures
        ({
            let after = taken(driver, input).0;
            &&& driver.keyboard is Kitty ==> after.keyboard is Kitty
            &&& driver.keyboard !is Unknown ==> after.keyboard == driver.keyboard || after.keyboard
                is Kitty
            &&& input is Timeout ==> after.keyboard !is Unknown && !after.waiting
        }),
{
}

/// What sets up a terminal begins with the cursor and the alternate screen, which is
/// then cleared, and ends with the question what device it is; only on Unix it is
/// asked for its keyboard before that.
pub proof fn law_setting_up(platform: Platform)
    ensures
        ({
            let parts = init_parts(platform);
            &&& parts[0] == save_cursor_seq()
            &&& parts[1] == set_seq(DecMode::AltScreen)
            &&& parts[2] == clear_all_seq()
            &&& parts.last() == da1_query_seq()
            &&& platform is Unix ==> parts.contains(kitty_query_seq())
            &&& platform is Windows ==> parts[9].len() == 0
        }),
        init_seq(platform) == joined(init_parts(platform)),
        holds(init_seq(Platform::Unix), kitty_query_seq()),
        init_parts(platform).len() == 11,
{
    assert(init_parts(Platform::Unix)[9] == kitty_query_seq());
    lemma_joined_holds(init_parts(Platform::Unix), 9);
}

/// The modes that are on while the terminal is in use: the alternate screen, the
/// five that report the mouse, and pastes in brackets.
pub proof fn law_modes_in_use(mode: DecMode)
    ensures
        used_modes().contains(mode) <==> mode is AltScreen || mode is MousePressRelease || mode
            is MouseButtonMotion || mode is MouseAnyMotion || mode is MouseRxvt || mode is MouseSgr
            || mode is BracketedPaste,
{
    let modes = used_modes();
    assert(modes[0] is AltScreen && modes[1] is MousePressRelease && modes[2] is MouseButtonMotion
        && modes[3] is MouseAnyMotion && modes[4] is MouseRxvt && modes[5] is MouseSgr && modes[6]
        is BracketedPaste);
}

/// Leaving begins with the keyboard, each protocol by what takes it back, and ends
/// with the cursor shown and where it was; modes are taken back from the last to
/// the first.
pub proof fn law_leaving(keyboard: KeyboardMode, modes: Seq<DecMode>, mode: DecMode)
    ensures
        keyboard_reset_seq(KeyboardMode::Unknown).len() == 0,
        keyboard_reset_seq(KeyboardMode::Kitty) == kitty_pop_seq(),
        keyboard_reset_seq(KeyboardMode::ModifyOtherKeys) == modify_other_keys_seq(0),
        keyboard_reset_seq(KeyboardMode::Win32) == reset_seq(DecMode::Win32Input),
        teardown_seq(keyboard).take(keyboard_reset_seq(keyboard).len() as int)
            == keyboard_reset_seq(keyboard),
        ({
            let end = set_seq(DecMode::ShowCursor) + restore_cursor_seq();
            let all = teardown_seq(keyboard);
            all.len() >= end.len() && all.skip(all.len() - end.len()) == end
        }),
        resets(modes.push(mode)) == reset_seq(mode) + resets(modes),
        resets(Seq::empty()).len() == 0,
{
    let all = teardown_seq(keyboard);
    let head = keyboard_reset_seq(keyboard);
    let end = set_seq(DecMode::ShowCursor) + restore_cursor_seq();
    assert(all.take(head.len() as int) =~= head);
    assert(all.skip(all.len() - end.len()) =~= end);
    assert(modes.push(mode).drop_last() =~= modes);
}

/// What the terminal reports is passed on as it is; its answers about itself are
/// not.
pub proof fn law_what_is_reported(key: Key, mouse: MouseEvent, text: String, cols: u16, rows: u16, n: u8)
    ensures
        reported(InternalTermEvent::Key(key)) == Some(TermEvent::Key(key)),
        reported(InternalTermEvent::Mouse(mouse)) == Some(TermEvent::Mouse(mouse)),
        reported(InternalTermEvent::Paste(text)) == Some(TermEvent::Paste(text)),
        reported(InternalTermEvent::Resize(cols, rows)) == Some(TermEvent::Resize(cols, rows)),
        reported(InternalTermEvent::FocusGained) == Some(TermEvent::FocusGained),
        reported(InternalTermEvent::FocusLost) == Some(TermEvent::FocusLost),
        reported(InternalTermEvent::CursorPos(cols, rows)) is None,
        reported(InternalTermEvent::PrimaryDeviceAttributes) is None,
        reported(InternalTermEvent::ReplyKittyKeyboard(n)) is None,
{
}

/// A terminal that answers for its keyboard is told to report everything; one that
/// answers what it is, or does not answer in time, without having done that, is told
/// the next best protocol of its system. Everything else leaves it as it is.
pub proof fn law_answers_of_the_terminal(driver: DriverView, event: InternalTermEvent, n: u8)
    ensures
        handled(driver, InternalTermEvent::ReplyKittyKeyboard(n)) == (DriverStep {
            driver: DriverView { keyboard: KeyboardMode::Kitty, ..driver },
            write: kitty_push_seq(15),
        }),
        ({
            let step = handled(driver, InternalTermEvent::PrimaryDeviceAttributes);
            &&& !step.driver.waiting && step.driver.platform == driver.platform
            &&& driver.keyboard is Unknown && driver.platform is Unix ==> step.driver.keyboard
                is ModifyOtherKeys && step.write == modify_other_keys_seq(2)
            &&& driver.keyboard is Unknown && driver.platform is Windows ==> step.driver.keyboard
                is Win32 && step.write == set_seq(DecMode::Win32Input)
            &&& driver.keyboard !is Unknown ==> step.driver.keyboard == driver.keyboard
                && step.write.len() == 0
            &&& taken(driver, InputEvent::Timeout) == (
                step.driver,
                InputStepView::Wait { write: step.write },
            )
        }),
        event !is PrimaryDeviceAttributes && event !is ReplyKittyKeyboard ==> handled(driver, event)
            == (DriverStep { driver, write: Seq::empty() }),
{
}

/// What input leads to: what is reported is returned, what is not is handled and
/// waited on, a new size is returned, the end returns nothing and a failure fails.
pub proof fn law_what_input_leads_to(driver: DriverView, event: InternalTermEvent, cols: u16, rows: u16)
    ensures
        reported(event) is Some ==> taken(driver, InputEvent::Event(event)) == (
            driver,
            InputStepView::Return(reported(event)),
        ),
        reported(event) is None ==> taken(driver, InputEvent::Event(event)) == (
            handled(driver, event).driver,
            InputStepView::Wait { write: handled(driver, event).write },
        ),
        taken(driver, InputEvent::Failed) == (driver, InputStepView::Fail),
        taken(driver, InputEvent::Ended) == (driver, InputStepView::Return(None)),
        taken(driver, InputEvent::Resized(cols, rows)) == (
            driver,
            InputStepView::Return(Some(TermEvent::Resize(cols, rows))),
        ),
{
}

/// What input leads to is known by the same kinds, with the same values.
pub proof fn law_what_input_steps_are(event: Option<TermEvent>, write: Vec<u8>)
    ensures
        InputStep::Return(event)@ == InputStepView::Return(event),
        InputStep::Fail@ == InputStepView::Fail,
        (InputStep::Wait { write })@ == (InputStepView::Wait { write: write@ }),
{
}

} // verus!
