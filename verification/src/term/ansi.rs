//! Screens as text with escape sequences.

use vstd::prelude::*;

use crate::term::attrs::Attrs;
use crate::term::screen::Screen;
use crate::term::vt::emit;
use crate::text::{chars_of, string_of};

verus! {

/// Bytes below 128 as characters.
pub open spec fn as_chars(bytes: Seq<u8>) -> Seq<char> {
    bytes.map_values(|b: u8| b as char)
}

/// A row under construction, with the brush that it ends with.
pub struct Line {
    pub text: Seq<char>,
    pub brush: Attrs,
}

/// The first `cols` cells of a row: each sets the brush and then shows what it
/// holds, or a space if it is the second half of a wide character.
pub open spec fn row_line(screen: Screen, row: int, cols: int, brush: Attrs) -> Line
    decreases cols,
{
    if cols <= 0 {
        Line { text: Seq::empty(), brush }
    } else {
        let before = row_line(screen, row, cols - 1, brush);
        match screen.at(row, cols - 1) {
            None => before,
            Some(cell) => Line {
                text: before.text + as_chars(emit::sgr_seq(before.brush, cell.attrs)) + (
                if cell.width > 0 {
                    cell.contents
                } else {
                    seq![' ']
                }),
                brush: cell.attrs,
            },
        }
    }
}

/// A text without the spaces at its end.
pub open spec fn trimmed(s: Seq<char>) -> Seq<char>
    decreases s.len(),
{
    if s.len() > 0 && s.last() == ' ' {
        trimmed(s.drop_last())
    } else {
        s
    }
}

/// The first `rows` rows, one line each.
pub open spec fn rows_text(screen: Screen, rows: int) -> Line
    decreases rows,
{
    if rows <= 0 {
        Line { text: Seq::empty(), brush: Attrs::plain() }
    } else {
        let before = rows_text(screen, rows - 1);
        let line = row_line(screen, rows - 1, screen.size.width as int, before.brush);
        Line {
            text: before.text + (if rows > 1 {
                seq!['\r', '\n']
            } else {
                Seq::empty()
            }) + trimmed(line.text),
            brush: line.brush,
        }
    }
}

/// A screen as text.
pub open spec fn screen_text(screen: Screen) -> Seq<char> {
    let all = rows_text(screen, screen.size.height as int);
    all.text + (if all.brush != Attrs::plain() {
        as_chars(emit::sgr_reset_seq())
    } else {
        Seq::empty()
    })
}

fn push_ascii(out: &mut Vec<char>, bytes: &[u8])
    ensures
        final(out)@ == old(out)@ + as_chars(bytes@),
{
    for i in 0..bytes.len()
        invariant
            out@ == old(out)@ + as_chars(bytes@.take(i as int)),
    {
        out.push(bytes[i] as char);
        assert(as_chars(bytes@.take(i + 1)) =~= as_chars(bytes@.take(i as int)).push(
            bytes@[i as int] as char,
        ));
    }
    assert(bytes@.take(bytes@.len() as int) =~= bytes@);
}

fn push_chars(out: &mut Vec<char>, chars: &[char])
    ensures
        final(out)@ == old(out)@ + chars@,
{
    for i in 0..chars.len()
        invariant
            out@ == old(out)@ + chars@.take(i as int),
    {
        out.push(chars[i]);
        assert(chars@.take(i + 1) =~= chars@.take(i as int).push(chars@[i as int]));
    }
    assert(chars@.take(chars@.len() as int) =~= chars@);
}

/// Render the screen contents as ANSI-styled text, one line per row, trailing
/// spaces trimmed.
pub fn render_screen_ansi(screen: &Screen) -> (r: String)
    ensures
        r@ == screen_text(*screen),
{
    let size = screen.size;
    let mut out: Vec<char> = Vec::new();
    let mut brush = Attrs::default();
    for row in 0..size.height
        invariant
            size == screen.size,
            out@ == rows_text(*screen, row as int).text,
            brush == rows_text(*screen, row as int).brush,
    {
        if row > 0 {
            out.push('\r');
            out.push('\n');
        }
        let ghost start = out@;
        assert(start =~= rows_text(*screen, row as int).text + (if row > 0 {
            seq!['\r', '\n']
        } else {
            Seq::empty()
        }));
        let mut line: Vec<char> = Vec::new();
        let mut line_brush = brush;
        for col in 0..size.width
            invariant
                size == screen.size,
                line@ == row_line(*screen, row as int, col as int, brush).text,
                line_brush == row_line(*screen, row as int, col as int, brush).brush,
        {
            if let Some(cell) = screen.cell(row, col) {
                let mut seq: Vec<u8> = Vec::new();
                emit::sgr(&mut seq, line_brush, cell.attrs);
                assert(seq@ =~= emit::sgr_seq(line_brush, cell.attrs));
                push_ascii(&mut line, seq.as_slice());
                line_brush = cell.attrs;
                if cell.width > 0 {
                    let contents = chars_of(cell.contents.as_str());
                    push_chars(&mut line, contents.as_slice());
                } else {
                    line.push(' ');
                }
                assert(line@ =~= row_line(*screen, row as int, col + 1, brush).text);
            }
        }
        let ghost full = line@;
        while line.len() > 0 && line[line.len() - 1] == ' '
            invariant
                trimmed(line@) == trimmed(full),
            decreases line@.len(),
        {
            line.pop();
        }
        assert(line@ =~= trimmed(full));
        push_chars(&mut out, line.as_slice());
        brush = line_brush;
        assert(out@ =~= rows_text(*screen, row + 1).text);
    }
    if brush != Attrs::default() {
        push_ascii(&mut out, &[27, 91, 48, 109]);
        assert(out@ =~= screen_text(*screen));
    } else {
        assert(out@ =~= screen_text(*screen));
    }
    string_of(out.as_slice())
}

/// A line never ends with a space.
pub proof fn law_trimmed_lines_end_visibly(s: Seq<char>)
    ensures
        trimmed(s).len() == 0 || trimmed(s).last() != ' ',
        trimmed(s).is_prefix_of(s),
        forall|i: int| trimmed(s).len() <= i < s.len() ==> s[i] == ' ',
    decreases s.len(),
{
    if s.len() > 0 && s.last() == ' ' {
        law_trimmed_lines_end_visibly(s.drop_last());
        assert forall|i: int| trimmed(s).len() <= i < s.len() implies s[i] == ' ' by {
            if i < s.len() - 1 {
                assert(s.drop_last()[i] == s[i]);
            }
        }
        let t = trimmed(s.drop_last());
        assert(s.drop_last().subrange(0, t.len() as int) =~= s.subrange(0, t.len() as int));
    } else {
        assert(s.subrange(0, s.len() as int) =~= s);
    }
}

/// A further cell of a row is written behind the others: what changes the look, if
/// it changes, and then what the cell holds, or a space if it is the second half of
/// a wide character. A cell that is not there writes nothing.
pub proof fn law_a_further_cell(screen: Screen, row: int, col: int, brush: Attrs)
    requires
        0 <= col,
    ensures
        ({
            let before = row_line(screen, row, col, brush);
            let after = row_line(screen, row, col + 1, brush);
            &&& screen.at(row, col) is None ==> after == before
            &&& screen.at(row, col) matches Some(cell) ==> {
                let look = as_chars(emit::sgr_seq(before.brush, cell.attrs));
                let held = if cell.width == 0 {
                    seq![' ']
                } else {
                    cell.contents
                };
                &&& after.brush == cell.attrs
                &&& before.brush == cell.attrs ==> after.text == before.text + held
                &&& before.brush != cell.attrs ==> after.text == before.text + look + held
            }
        }),
        row_line(screen, row, 0, brush).text.len() == 0,
        row_line(screen, row, 0, brush).brush == brush,
{
    let before = row_line(screen, row, col, brush);
    if let Some(cell) = screen.at(row, col) {
        if before.brush == cell.attrs {
            assert(as_chars(emit::sgr_seq(before.brush, cell.attrs)) =~= Seq::empty());
            assert(before.text + Seq::<char>::empty() =~= before.text);
        }
    }
}

/// Rows stand one under the other, each without the spaces at its end and in the
/// look that the one before ended with; the first begins plain.
pub proof fn law_a_further_row(screen: Screen, row: int)
    requires
        0 <= row,
    ensures
        ({
            let before = rows_text(screen, row);
            let after = rows_text(screen, row + 1);
            let line = row_line(screen, row, screen.size.width as int, before.brush);
            &&& row > 0 ==> after.text == before.text + seq!['\r', '\n'] + trimmed(line.text)
            &&& row == 0 ==> after.text == trimmed(line.text)
            &&& after.brush == line.brush
        }),
        rows_text(screen, 0).brush == Attrs::plain(),
        rows_text(screen, 0).text.len() == 0,
{
    let before = rows_text(screen, row);
    let line = row_line(screen, row, screen.size.width as int, before.brush);
    if row == 0 {
        assert(before.text + Seq::<char>::empty() + trimmed(line.text) =~= trimmed(line.text));
    }
}

/// A screen as text is all its rows, and ends plain: with a reset if its last cell
/// is not.
pub proof fn law_whole_screens(screen: Screen)
    ensures
        ({
            let all = rows_text(screen, screen.size.height as int);
            &&& all.brush == Attrs::plain() ==> screen_text(screen) == all.text
            &&& all.brush != Attrs::plain() ==> screen_text(screen) == all.text + seq![
                27u8 as char,
                '[',
                '0',
                'm',
            ]
        }),
{
    let all = rows_text(screen, screen.size.height as int);
    assert(all.text + Seq::<char>::empty() =~= all.text);
    assert(as_chars(emit::sgr_reset_seq()) =~= seq![27u8 as char, '[', '0', 'm']);
}

/// Trimming takes the spaces at the end and nothing else: what is left, with spaces
/// behind it, trims to the same.
pub proof fn law_trimming(s: Seq<char>)
    ensures
        trimmed(s.push(' ')) == trimmed(s),
        s.len() > 0 && s.last() != ' ' ==> trimmed(s) == s,
        trimmed(Seq::empty()) == Seq::<char>::empty(),
{
    assert(s.push(' ').drop_last() =~= s);
}

} // verus!
