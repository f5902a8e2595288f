//! The escape sequences that are written to a terminal.

use vstd::prelude::*;

use crate::term::attrs::{Attrs, Color};

verus! {

/// A private terminal mode.
#[derive(Clone, Copy, Debug, PartialEq, Eq, Structural)]
pub enum DecMode {
    ShowCursor,
    MousePressRelease,
    MouseButtonMotion,
    MouseAnyMotion,
    MouseSgr,
    MouseRxvt,
    AltScreen,
    BracketedPaste,
    Win32Input,
}

impl DecMode {
    /// The number of the mode.
    pub open spec fn number(self) -> u16 {
        match self {
            DecMode::ShowCursor => 25,
            DecMode::MousePressRelease => 1000,
            DecMode::MouseButtonMotion => 1002,
            DecMode::MouseAnyMotion => 1003,
            DecMode::MouseSgr => 1006,
            DecMode::MouseRxvt => 1015,
            DecMode::AltScreen => 1049,
            DecMode::BracketedPaste => 2004,
            DecMode::Win32Input => 9001,
        }
    }

    fn code(self) -> (r: u16)
        ensures
            r == self.number(),
    {
        match self {
            DecMode::ShowCursor => 25,
            DecMode::MousePressRelease => 1000,
            DecMode::MouseButtonMotion => 1002,
            DecMode::MouseAnyMotion => 1003,
            DecMode::MouseSgr => 1006,
            DecMode::MouseRxvt => 1015,
            DecMode::AltScreen => 1049,
            DecMode::BracketedPaste => 2004,
            DecMode::Win32Input => 9001,
        }
    }
}

/// `n` in decimal digits.
pub open spec fn digits(n: nat) -> Seq<u8>
    decreases n,
{
    if n < 10 {
        seq![(48 + n) as u8]
    } else {
        digits(n / 10).push((48 + n % 10) as u8)
    }
}

/// Appends `n` in decimal digits.
pub fn push_digits(out: &mut Vec<u8>, n: u16)
    ensures
        final(out)@ == old(out)@ + digits(n as nat),
    decreases n,
{
    if n >= 10 {
        push_digits(out, n / 10);
    }
    out.push((n % 10) as u8 + 48);
    assert(out@ =~= old(out)@ + digits(n as nat));
}

/// `ESC [ ? n h`: turns a mode on.
pub open spec fn set_seq(mode: DecMode) -> Seq<u8> {
    seq![27u8, 91, 63] + digits(mode.number() as nat) + seq![104u8]
}

/// `ESC [ ? n l`: turns a mode off.
pub open spec fn reset_seq(mode: DecMode) -> Seq<u8> {
    seq![27u8, 91, 63] + digits(mode.number() as nat) + seq![108u8]
}

/// `ESC 7`.
pub open spec fn save_cursor_seq() -> Seq<u8> {
    seq![27u8, 55]
}

/// `ESC 8`.
pub open spec fn restore_cursor_seq() -> Seq<u8> {
    seq![27u8, 56]
}

/// `ESC [ 2 J`.
pub open spec fn clear_all_seq() -> Seq<u8> {
    seq![27u8, 91, 50, 74]
}

/// `ESC [ ? u`: asks whether the terminal speaks the kitty keyboard protocol.
pub open spec fn kitty_query_seq() -> Seq<u8> {
    seq![27u8, 91, 63, 117]
}

/// `ESC [ > n u`: pushes kitty keyboard flags.
pub open spec fn kitty_push_seq(flags: u16) -> Seq<u8> {
    seq![27u8, 91, 62] + digits(flags as nat) + seq![117u8]
}

/// `ESC [ < u`: pops kitty keyboard flags.
pub open spec fn kitty_pop_seq() -> Seq<u8> {
    seq![27u8, 91, 60, 117]
}

/// `ESC [ c`: asks for the primary device attributes.
pub open spec fn da1_query_seq() -> Seq<u8> {
    seq![27u8, 91, 99]
}

/// `ESC [ > 4 ; n m`: sets the level of the modify-other-keys protocol.
pub open spec fn modify_other_keys_seq(level: u16) -> Seq<u8> {
    seq![27u8, 91, 62, 52, 59] + digits(level as nat) + seq![109u8]
}

/// `ESC [ 0 m`.
pub open spec fn sgr_reset_seq() -> Seq<u8> {
    seq![27u8, 91, 48, 109]
}

/// Appends bytes.
pub fn push_bytes(out: &mut Vec<u8>, bytes: &[u8])
    ensures
        final(out)@ == old(out)@ + bytes@,
{
    for i in 0..bytes.len()
        invariant
            out@ == old(out)@ + bytes@.take(i as int),
    {
        out.push(bytes[i]);
        assert(bytes@.take(i + 1) =~= bytes@.take(i as int).push(bytes@[i as int]));
    }
    assert(bytes@.take(bytes@.len() as int) =~= bytes@);
}

/// Turns a mode on.
pub fn dec_set(out: &mut Vec<u8>, mode: DecMode)
    ensures
        final(out)@ == old(out)@ + set_seq(mode),
{
    push_bytes(out, &[27, 91, 63]);
    push_digits(out, mode.code());
    out.push(104);
    assert(out@ =~= old(out)@ + set_seq(mode));
}

/// Turns a mode off.
pub fn dec_reset(out: &mut Vec<u8>, mode: DecMode)
    ensures
        final(out)@ == old(out)@ + reset_seq(mode),
{
    push_bytes(out, &[27, 91, 63]);
    push_digits(out, mode.code());
    out.push(108);
    assert(out@ =~= old(out)@ + reset_seq(mode));
}

/// Saves the cursor position.
pub fn save_cursor(out: &mut Vec<u8>)
    ensures
        final(out)@ == old(out)@ + save_cursor_seq(),
{
    push_bytes(out, &[27, 55]);
    assert(out@ =~= old(out)@ + save_cursor_seq());
}

/// Restores the cursor position.
pub fn restore_cursor(out: &mut Vec<u8>)
    ensures
        final(out)@ == old(out)@ + restore_cursor_seq(),
{
    push_bytes(out, &[27, 56]);
    assert(out@ =~= old(out)@ + restore_cursor_seq());
}

/// Clears the screen.
pub fn clear_all(out: &mut Vec<u8>)
    ensures
        final(out)@ == old(out)@ + clear_all_seq(),
{
    push_bytes(out, &[27, 91, 50, 74]);
    assert(out@ =~= old(out)@ + clear_all_seq());
}

/// Asks whether the terminal speaks the kitty keyboard protocol.
pub fn kitty_query(out: &mut Vec<u8>)
    ensures
        final(out)@ == old(out)@ + kitty_query_seq(),
{
    push_bytes(out, &[27, 91, 63, 117]);
    assert(out@ =~= old(out)@ + kitty_query_seq());
}

/// Asks for the primary device attributes.
pub fn da1_query(out: &mut Vec<u8>)
    ensures
        final(out)@ == old(out)@ + da1_query_seq(),
{
    push_bytes(out, &[27, 91, 99]);
    assert(out@ =~= old(out)@ + da1_query_seq());
}

/// Pushes kitty keyboard flags.
pub fn kitty_push(out: &mut Vec<u8>, flags: u16)
    ensures
        final(out)@ == old(out)@ + kitty_push_seq(flags),
{
    push_bytes(out, &[27, 91, 62]);
    push_digits(out, flags);
    out.push(117);
    assert(out@ =~= old(out)@ + kitty_push_seq(flags));
}

/// Pops kitty keyboard flags.
pub fn kitty_pop(out: &mut Vec<u8>)
    ensures
        final(out)@ == old(out)@ + kitty_pop_seq(),
{
    push_bytes(out, &[27, 91, 60, 117]);
    assert(out@ =~= old(out)@ + kitty_pop_seq());
}

/// Sets the level of the modify-other-keys protocol.
pub fn modify_other_keys(out: &mut Vec<u8>, level: u16)
    ensures
        final(out)@ == old(out)@ + modify_other_keys_seq(level),
{
    push_bytes(out, &[27, 91, 62, 52, 59]);
    push_digits(out, level);
    out.push(109);
    assert(out@ =~= old(out)@ + modify_other_keys_seq(level));
}

/// `; n` for each parameter.
pub open spec fn param(n: nat) -> Seq<u8> {
    seq![59u8] + digits(n)
}

/// The parameters that choose a color; `base` is 38 or 48.
pub open spec fn color_params(color: Color, base: nat) -> Seq<u8> {
    match color {
        Color::Default => Seq::empty(),
        Color::Idx(n) => param(base) + param(5) + param(n as nat),
        Color::Rgb(r, g, b) => param(base) + param(2) + param(r as nat) + param(g as nat) + param(
            b as nat,
        ),
    }
}

/// The parameter of an attribute that is set.
pub open spec fn flag_param(on: bool, n: nat) -> Seq<u8> {
    if on {
        param(n)
    } else {
        Seq::empty()
    }
}

/// What changes the brush from one look to another: nothing if they are the
/// same, else a reset followed by everything that is set.
pub open spec fn sgr_seq(from: Attrs, to: Attrs) -> Seq<u8> {
    if from == to {
        Seq::empty()
    } else {
        seq![27u8, 91, 48] + flag_param(to.bold, 1) + flag_param(to.italic, 3) + flag_param(
            to.underline,
            4,
        ) + flag_param(to.inverse, 7) + color_params(to.fg, 38) + color_params(to.bg, 48) + seq![
            109u8,
        ]
    }
}

fn push_param(out: &mut Vec<u8>, n: u16)
    ensures
        final(out)@ == old(out)@ + param(n as nat),
{
    out.push(59);
    push_digits(out, n);
    assert(out@ =~= old(out)@ + param(n as nat));
}

fn push_flag(out: &mut Vec<u8>, on: bool, n: u16)
    ensures
        final(out)@ == old(out)@ + flag_param(on, n as nat),
{
    if on {
        push_param(out, n);
    } else {
        assert(out@ =~= old(out)@ + flag_param(on, n as nat));
    }
}

fn push_color(out: &mut Vec<u8>, color: Color, base: u16)
    ensures
        final(out)@ == old(out)@ + color_params(color, base as nat),
{
    match color {
        Color::Default => {
            assert(out@ =~= old(out)@ + color_params(color, base as nat));
        },
        Color::Idx(n) => {
            push_param(out, base);
            push_param(out, 5);
            push_param(out, n as u16);
            assert(out@ =~= old(out)@ + color_params(color, base as nat));
        },
        Color::Rgb(r, g, b) => {
            push_param(out, base);
            push_param(out, 2);
            push_param(out, r as u16);
            push_param(out, g as u16);
            push_param(out, b as u16);
            assert(out@ =~= old(out)@ + color_params(color, base as nat));
        },
    }
}

/// Changes the brush from one look to another.
pub fn sgr(out: &mut Vec<u8>, from: Attrs, to: Attrs)
    ensures
        final(out)@ == old(out)@ + sgr_seq(from, to),
{
    if from == to {
        assert(out@ =~= old(out)@ + sgr_seq(from, to));
        return;
    }
    let mut seq: Vec<u8> = Vec::new();
    push_bytes(&mut seq, &[27, 91, 48]);
    assert(seq@ =~= seq![27u8, 91, 48]);
    push_flag(&mut seq, to.bold, 1);
    push_flag(&mut seq, to.italic, 3);
    push_flag(&mut seq, to.underline, 4);
    push_flag(&mut seq, to.inverse, 7);
    push_color(&mut seq, to.fg, 38);
    push_color(&mut seq, to.bg, 48);
    seq.push(109);
    assert(seq@ =~= sgr_seq(from, to));
    push_bytes(out, seq.as_slice());
}

/// The number that decimal digits stand for.
pub open spec fn digits_value(s: Seq<u8>) -> int
    decreases s.len(),
{
    if s.len() == 0 {
        0
    } else {
        digits_value(s.drop_last()) * 10 + (s.last() - 48)
    }
}

/// A number is written in decimal digits that stand for it, without a zero in front
/// of others.
pub proof fn law_digits_stand_for_the_number(n: nat)
    ensures
        digits_value(digits(n)) == n,
        digits(n).len() > 0,
        forall|i: int| 0 <= i < digits(n).len() ==> 48 <= #[trigger] digits(n)[i] <= 57,
        digits(n).len() > 1 ==> digits(n)[0] != 48,
    decreases n,
{
    reveal_with_fuel(digits_value, 2);
    if n < 10 {
        assert(digits(n).drop_last() =~= Seq::<u8>::empty());
    } else {
        law_digits_stand_for_the_number(n / 10);
        let before = digits(n / 10);
        assert(digits(n).drop_last() =~= before);
        assert(digits(n)[0] == before[0]);
        if before.len() == 1 {
            assert(before[0] == digits_value(before) + 48) by {
                assert(before.drop_last() =~= Seq::<u8>::empty());
            }
        }
    }
}

/// The numbers of the modes.
pub proof fn law_numbers_of_modes()
    ensures
        DecMode::ShowCursor.number() == 25,
        DecMode::MousePressRelease.number() == 1000,
        DecMode::MouseButtonMotion.number() == 1002,
        DecMode::MouseAnyMotion.number() == 1003,
        DecMode::MouseSgr.number() == 1006,
        DecMode::MouseRxvt.number() == 1015,
        DecMode::AltScreen.number() == 1049,
        DecMode::BracketedPaste.number() == 2004,
        DecMode::Win32Input.number() == 9001,
{
}

/// A mode is turned on and off by its number between `ESC [ ?` and an `h` or an
/// `l`; the two differ in nothing else.
pub proof fn law_modes_on_and_off(mode: DecMode)
    ensures
        ({
            let (on, off) = (set_seq(mode), reset_seq(mode));
            &&& on.len() == off.len()
            &&& on.drop_last() == off.drop_last()
            &&& on.last() == 'h' as u8 && off.last() == 'l' as u8
            &&& on.take(3) == seq![27u8, '[' as u8, '?' as u8]
            &&& digits_value(on.subrange(3, on.len() - 1)) == mode.number()
        }),
{
    let n = mode.number() as nat;
    law_digits_stand_for_the_number(n);
    let (on, off) = (set_seq(mode), reset_seq(mode));
    assert(on.drop_last() =~= seq![27u8, 91, 63] + digits(n));
    assert(off.drop_last() =~= seq![27u8, 91, 63] + digits(n));
    assert(on.take(3) =~= seq![27u8, 91, 63]);
    assert(on.subrange(3, on.len() - 1) =~= digits(n));
}

/// The sequences without a choice, byte by byte.
pub proof fn law_fixed_sequences()
    ensures
        save_cursor_seq() == seq![27u8, '7' as u8],
        restore_cursor_seq() == seq![27u8, '8' as u8],
        clear_all_seq() == seq![27u8, '[' as u8, '2' as u8, 'J' as u8],
        kitty_query_seq() == seq![27u8, '[' as u8, '?' as u8, 'u' as u8],
        kitty_pop_seq() == seq![27u8, '[' as u8, '<' as u8, 'u' as u8],
        da1_query_seq() == seq![27u8, '[' as u8, 'c' as u8],
        sgr_reset_seq() == seq![27u8, '[' as u8, '0' as u8, 'm' as u8],
{
}

/// The sequences with a number hold it in decimal between what begins and ends them.
pub proof fn law_numbered_sequences(n: u16)
    ensures
        kitty_push_seq(n) == seq![27u8, '[' as u8, '>' as u8] + digits(n as nat) + seq!['u' as u8],
        modify_other_keys_seq(n) == seq![27u8, '[' as u8, '>' as u8, '4' as u8, ';' as u8] + digits(
            n as nat,
        ) + seq!['m' as u8],
{
}

/// A look that stays is not written again; another is written in full, so that it
/// does not matter which look was there before.
pub proof fn law_looks_do_not_mix(a: Attrs, b: Attrs, to: Attrs)
    ensures
        sgr_seq(to, to).len() == 0,
        a != to && b != to ==> sgr_seq(a, to) == sgr_seq(b, to),
{
}

/// How a look is written: a reset, then what is set, each behind a semicolon, then
/// the two colors.
#[verifier::rlimit(40)]
pub proof fn law_looks_as_written(from: Attrs, to: Attrs)
    requires
        from != to,
    ensures
        sgr_seq(from, to) == seq![27u8, '[' as u8, '0' as u8] + (if to.bold {
            seq![';' as u8, '1' as u8]
        } else {
            Seq::empty()
        }) + (if to.italic {
            seq![';' as u8, '3' as u8]
        } else {
            Seq::empty()
        }) + (if to.underline {
            seq![';' as u8, '4' as u8]
        } else {
            Seq::empty()
        }) + (if to.inverse {
            seq![';' as u8, '7' as u8]
        } else {
            Seq::empty()
        }) + color_params(to.fg, 38) + color_params(to.bg, 48) + seq!['m' as u8],
{
    assert(param(1) =~= seq![59u8, 49]);
    assert(param(3) =~= seq![59u8, 51]);
    assert(param(4) =~= seq![59u8, 52]);
    assert(param(7) =~= seq![59u8, 55]);
}

/// How a color is written: the default one not at all, one of the palette by its
/// number, any other by its parts.
pub proof fn law_colors_as_written(n: u8, r: u8, g: u8, b: u8, base: nat)
    requires
        base == 38 || base == 48,
    ensures
        color_params(Color::Default, base).len() == 0,
        color_params(Color::Idx(n), base) == seq![
            ';' as u8,
            if base == 38 {
                '3' as u8
            } else {
                '4' as u8
            },
            '8' as u8,
            ';' as u8,
            '5' as u8,
            ';' as u8,
        ] + digits(n as nat),
        color_params(Color::Rgb(r, g, b), base) == seq![
            ';' as u8,
            if base == 38 {
                '3' as u8
            } else {
                '4' as u8
            },
            '8' as u8,
            ';' as u8,
            '2' as u8,
            ';' as u8,
        ] + digits(r as nat) + seq![';' as u8] + digits(g as nat) + seq![';' as u8] + digits(
            b as nat,
        ),
{
    reveal_with_fuel(digits, 2);
    let first = if base == 38 {
        51u8
    } else {
        52u8
    };
    assert(digits(base) =~= seq![first, 56u8]);
    assert(param(base) =~= seq![59u8, first, 56u8]);
    assert(param(5) =~= seq![59u8, 53]);
    assert(param(2) =~= seq![59u8, 50]);
    assert(color_params(Color::Idx(n), base) =~= seq![59u8, first, 56, 59, 53, 59] + digits(
        n as nat,
    ));
    assert(color_params(Color::Rgb(r, g, b), base) =~= seq![59u8, first, 56, 59, 50, 59] + digits(
        r as nat,
    ) + seq![59u8] + digits(g as nat) + seq![59u8] + digits(b as nat));
}

} // verus!
