//! A one-line text field.

use tui_input::InputRequest as TuiRequest;
use unicode_segmentation::UnicodeSegmentation;
use vstd::prelude::*;

use crate::console::widgets::list::smaller;
use crate::term::attrs::Attrs;
use crate::term::grid::{Grid, Pos, Rect};
use crate::term::key::{Key, KeyCode, KeyMods};

verus! {

/// A text with a cursor, which is counted in characters.
#[derive(Debug)]
pub struct Input {
    value: String,
    cursor: usize,
}

/// What a text field holds.
pub struct InputView {
    pub value: Seq<char>,
    pub cursor: nat,
}

/// An edit of a text field.
#[derive(Clone, Copy, Debug, PartialEq, Eq, Structural)]
pub enum InputRequest {
    InsertChar(char),
    GoToPrevChar,
    GoToNextChar,
    GoToPrevWord,
    GoToNextWord,
    GoToStart,
    GoToEnd,
    DeletePrevChar,
    DeleteNextChar,
    DeletePrevWord,
    DeleteNextWord,
    DeleteLine,
    DeleteTillEnd,
}

/// One step to the left, by a character as users see it.
pub open spec fn prev_char() -> int {
    0
}

/// One step to the right, by a character as users see it.
pub open spec fn next_char() -> int {
    1
}

/// One step to the left, by a word.
pub open spec fn prev_word() -> int {
    2
}

/// One step to the right, by a word.
pub open spec fn next_word() -> int {
    3
}

/// Where `tui_input::Input::handle` finds the character or word boundary that
/// is one step from a cursor.
pub uninterp spec fn boundary(value: Seq<char>, cursor: nat, step: int) -> nat;

/// `tui_input::Input::handle`, on an input with the given value and cursor.
///
/// Trusted: inserting puts the character at the cursor and moves past it; the
/// start and the end are zero and the length; deleting the line or its rest
/// leaves nothing or what is before the cursor. The steps by characters and
/// words go to the boundary that the crate finds, which lies on the right side
/// of the cursor and within the text, and the deletions by characters and
/// words take out what lies between the cursor and that boundary.
#[verifier::external_body]
fn tui_edit(value: &str, cursor: usize, request: InputRequest) -> (r: (String, usize))
    requires
        cursor <= value@.len(),
    ensures
        match request {
            InputRequest::InsertChar(c) => r.0@ == value@.take(cursor as int).push(c) + value@.skip(
                cursor as int,
            ) && r.1 == cursor + 1,
            InputRequest::GoToStart => r.0@ == value@ && r.1 == 0,
            InputRequest::GoToEnd => r.0@ == value@ && r.1 == value@.len(),
            InputRequest::DeleteLine => r.0@ == Seq::<char>::empty() && r.1 == 0,
            InputRequest::DeleteTillEnd => r.0@ == value@.take(cursor as int) && r.1 == cursor,
            InputRequest::GoToPrevChar => r.0@ == value@ && r.1 <= cursor && r.1 == boundary(
                value@,
                cursor as nat,
                prev_char(),
            ),
            InputRequest::GoToPrevWord => r.0@ == value@ && r.1 <= cursor && r.1 == boundary(
                value@,
                cursor as nat,
                prev_word(),
            ),
            InputRequest::GoToNextChar => r.0@ == value@ && cursor <= r.1 <= value@.len() && r.1
                == boundary(value@, cursor as nat, next_char()),
            InputRequest::GoToNextWord => r.0@ == value@ && cursor <= r.1 <= value@.len() && r.1
                == boundary(value@, cursor as nat, next_word()),
            InputRequest::DeletePrevChar => r.1 <= cursor && r.1 == boundary(
                value@,
                cursor as nat,
                prev_char(),
            ) && r.0@ == value@.take(r.1 as int) + value@.skip(cursor as int),
            InputRequest::DeletePrevWord => r.1 <= cursor && r.1 == boundary(
                value@,
                cursor as nat,
                prev_word(),
            ) && r.0@ == value@.take(r.1 as int) + value@.skip(cursor as int),
            InputRequest::DeleteNextChar => r.1 == cursor && cursor <= boundary(
                value@,
                cursor as nat,
                next_char(),
            ) <= value@.len() && r.0@ == value@.take(cursor as int) + value@.skip(
                boundary(value@, cursor as nat, next_char()) as int,
            ),
            InputRequest::DeleteNextWord => r.1 == cursor && cursor <= boundary(
                value@,
                cursor as nat,
                next_word(),
            ) <= value@.len() && r.0@ == value@.take(cursor as int) + value@.skip(
                boundary(value@, cursor as nat, next_word()) as int,
            ),
        },
{
    let mut input = tui_input::Input::new(value.to_string()).with_cursor(cursor);
    input.handle(match request {
        InputRequest::InsertChar(c) => TuiRequest::InsertChar(c),
        InputRequest::GoToPrevChar => TuiRequest::GoToPrevChar,
        InputRequest::GoToNextChar => TuiRequest::GoToNextChar,
        InputRequest::GoToPrevWord => TuiRequest::GoToPrevWord,
        InputRequest::GoToNextWord => TuiRequest::GoToNextWord,
        InputRequest::GoToStart => TuiRequest::GoToStart, InputRequest::GoToEnd => TuiRequest::GoToEnd,
        InputRequest::DeletePrevChar => TuiRequest::DeletePrevChar,
        InputRequest::DeleteNextChar => TuiRequest::DeleteNextChar,
        InputRequest::DeletePrevWord => TuiRequest::DeletePrevWord,
        InputRequest::DeleteNextWord => TuiRequest::DeleteNextWord,
        InputRequest::DeleteLine => TuiRequest::DeleteLine, InputRequest::DeleteTillEnd => TuiRequest::DeleteTillEnd,
    });
    (input.value().to_string(), input.cursor())
}

/// A text field after an edit.
pub open spec fn edited(input: InputView, request: InputRequest) -> InputView {
    let v = input.value;
    let c = input.cursor as int;
    match request {
        InputRequest::InsertChar(x) => InputView {
            value: v.take(c).push(x) + v.skip(c),
            cursor: input.cursor + 1,
        },
        InputRequest::GoToStart => InputView { value: v, cursor: 0 },
        InputRequest::GoToEnd => InputView { value: v, cursor: v.len() },
        InputRequest::DeleteLine => InputView { value: Seq::empty(), cursor: 0 },
        InputRequest::DeleteTillEnd => InputView { value: v.take(c), cursor: input.cursor },
        InputRequest::GoToPrevChar => InputView {
            value: v,
            cursor: boundary(v, input.cursor, prev_char()),
        },
        InputRequest::GoToPrevWord => InputView {
            value: v,
            cursor: boundary(v, input.cursor, prev_word()),
        },
        InputRequest::GoToNextChar => InputView {
            value: v,
            cursor: boundary(v, input.cursor, next_char()),
        },
        InputRequest::GoToNextWord => InputView {
            value: v,
            cursor: boundary(v, input.cursor, next_word()),
        },
        InputRequest::DeletePrevChar => cut_before(input, boundary(v, input.cursor, prev_char())),
        InputRequest::DeletePrevWord => cut_before(input, boundary(v, input.cursor, prev_word())),
        InputRequest::DeleteNextChar => cut_behind(input, boundary(v, input.cursor, next_char())),
        InputRequest::DeleteNextWord => cut_behind(input, boundary(v, input.cursor, next_word())),
    }
}

/// A text field without what lies between a boundary and the cursor.
pub open spec fn cut_before(input: InputView, at: nat) -> InputView {
    InputView {
        value: input.value.take(at as int) + input.value.skip(input.cursor as int),
        cursor: at,
    }
}

/// A text field without what lies between the cursor and a boundary.
pub open spec fn cut_behind(input: InputView, at: nat) -> InputView {
    InputView {
        value: input.value.take(input.cursor as int) + input.value.skip(at as int),
        cursor: input.cursor,
    }
}

impl View for Input {
    type V = InputView;

    closed spec fn view(&self) -> InputView {
        InputView { value: self.value@, cursor: self.cursor as nat }
    }
}

impl Default for Input {
    fn default() -> (r: Self)
        ensures
            r@ == (InputView { value: Seq::empty(), cursor: 0 }),
            r.wf(),
    {
        Input { value: String::new(), cursor: 0 }
    }
}

impl Input {
    /// The cursor is within the text or at its end.
    pub open spec fn wf(&self) -> bool {
        self@.cursor <= self@.value.len()
    }

    /// A field that holds `value`, with the cursor at its end.
    pub fn new(value: &str) -> (r: Self)
        ensures
            r@ == (InputView { value: value@, cursor: value@.len() }),
            r.wf(),
    {
        Input { value: value.to_string(), cursor: value.unicode_len() }
    }

    /// The text.
    pub fn value(&self) -> (r: &str)
        ensures
            r@ == self@.value,
    {
        self.value.as_str()
    }

    /// The position of the cursor.
    pub fn cursor(&self) -> (r: usize)
        ensures
            r == self@.cursor,
    {
        self.cursor
    }

    /// Edits the field.
    pub fn handle(&mut self, request: InputRequest)
        requires
            old(self).wf(),
        ensures
            final(self).wf(),
            final(self)@ == edited(old(self)@, request),
    {
        let (value, cursor) = tui_edit(self.value.as_str(), self.cursor, request);
        self.value = value;
        self.cursor = cursor;
    }
}

/// The texts of a list of strings.
pub open spec fn texts(v: Seq<String>) -> Seq<Seq<char>> {
    v.map_values(|s: String| s@)
}

/// Texts joined end to end.
pub open spec fn joined(parts: Seq<Seq<char>>) -> Seq<char>
    decreases parts.len(),
{
    if parts.len() == 0 {
        Seq::empty()
    } else {
        joined(parts.drop_last()) + parts.last()
    }
}

/// The extended grapheme clusters of a text, as
/// `unicode_segmentation::UnicodeSegmentation::grapheme_indices` finds them.
pub uninterp spec fn grapheme_list(value: Seq<char>) -> Seq<Seq<char>>;

/// `unicode_segmentation::UnicodeSegmentation::grapheme_indices` with extended
/// clusters.
///
/// Trusted: the clusters depend on the text alone, and joined end to end they
/// are the text.
#[verifier::external_body]
fn graphemes(value: &str) -> (r: Vec<String>)
    ensures
        texts(r@) == grapheme_list(value@),
        joined(texts(r@)) == value@,
{
    UnicodeSegmentation::grapheme_indices(value, true).map(|(_, g)| g.to_string()).collect()
}

/// The parts from `skip` on, joined.
pub fn tail_text(parts: &Vec<String>, skip: usize) -> (r: String)
    ensures
        r@ == (if skip <= parts@.len() {
            joined(texts(parts@).skip(skip as int))
        } else {
            Seq::empty()
        }),
{
    let mut out = String::new();
    if skip >= parts.len() {
        assert(skip == parts@.len() ==> texts(parts@).skip(skip as int) =~= Seq::empty());
        return out;
    }
    let ghost rest = texts(parts@).skip(skip as int);
    assert(rest.take(0) =~= Seq::empty());
    for i in skip..parts.len()
        invariant
            rest == texts(parts@).skip(skip as int),
            out@ == joined(rest.take(i - skip)),
    {
        proof {
            let next = rest.take(i + 1 - skip);
            assert(next.drop_last() =~= rest.take(i - skip));
            assert(next.last() == parts@[i as int]@);
        }
        out.append(parts[i].as_str());
    }
    assert(rest.take(rest.len() as int) =~= rest);
    out
}

/// The part of a field's text that is shown: if the cursor is past the width of
/// the field, as many clusters are cut off in front.
pub open spec fn shown(input: InputView, clusters: Seq<Seq<char>>, width: int) -> Seq<char> {
    let trim = input.cursor - width;
    if trim <= 0 {
        input.value
    } else if trim <= clusters.len() {
        joined(clusters.skip(trim))
    } else {
        Seq::empty()
    }
}

/// Draws the text of an input whose clusters are known.
pub fn draw_input(input: &Input, clusters: &Vec<String>, area: Rect, grid: &mut Grid) -> (r: Pos)
    requires
        old(grid).wf(),
        area.x + smaller(input@.cursor as int, area.width as int) <= 65535,
    ensures
        final(grid).wf(),
        final(grid)@ == old(grid)@.filled(area, ' ', Attrs::plain()).written(
            area,
            shown(input@, texts(clusters@), area.width as int),
            Attrs::plain(),
        ),
        r == (Pos {
            col: (area.x + smaller(input@.cursor as int, area.width as int)) as u16,
            row: area.y,
        }),
{
    let width = area.width as usize;
    grid.fill_area(area, ' ', Attrs::default());
    let column = if input.cursor > width {
        let text = tail_text(clusters, input.cursor - width);
        grid.draw_text(area, text.as_str(), Attrs::default());
        area.width
    } else {
        grid.draw_text(area, input.value.as_str(), Attrs::default());
        input.cursor as u16
    };
    Pos { col: area.x + column, row: area.y }
}

/// Draws the input and returns the cursor position.
pub fn render_text_input(input: &Input, area: Rect, grid: &mut Grid) -> (r: Pos)
    requires
        old(grid).wf(),
        area.x + smaller(input@.cursor as int, area.width as int) <= 65535,
    ensures
        final(grid).wf(),
        final(grid)@ == old(grid)@.filled(area, ' ', Attrs::plain()).written(
            area,
            shown(input@, grapheme_list(input@.value), area.width as int),
            Attrs::plain(),
        ),
        r == (Pos {
            col: (area.x + smaller(input@.cursor as int, area.width as int)) as u16,
            row: area.y,
        }),
{
    let clusters = graphemes(input.value.as_str());
    draw_input(input, &clusters, area, grid)
}

/// The edit that a key with modifiers asks for.
pub open spec fn request_of(code: KeyCode, mods: KeyMods) -> Option<InputRequest> {
    let none = mods == KeyMods::spec_none();
    let control = mods == KeyMods::spec_control();
    let meta = mods == (KeyMods { meta: true, ..KeyMods::spec_none() });
    let alt = mods == (KeyMods { alt: true, ..KeyMods::spec_none() });
    let shift = mods == (KeyMods { shift: true, ..KeyMods::spec_none() });
    match code {
        KeyCode::Backspace => if none {
            Some(InputRequest::DeletePrevChar)
        } else if meta || alt {
            Some(InputRequest::DeletePrevWord)
        } else {
            None
        },
        KeyCode::Delete => if none {
            Some(InputRequest::DeleteNextChar)
        } else if control {
            Some(InputRequest::DeleteNextWord)
        } else {
            None
        },
        KeyCode::Left => if none {
            Some(InputRequest::GoToPrevChar)
        } else if control {
            Some(InputRequest::GoToPrevWord)
        } else {
            None
        },
        KeyCode::Right => if none {
            Some(InputRequest::GoToNextChar)
        } else if control {
            Some(InputRequest::GoToNextWord)
        } else {
            None
        },
        KeyCode::Home => if none {
            Some(InputRequest::GoToStart)
        } else {
            None
        },
        KeyCode::End => if none {
            Some(InputRequest::GoToEnd)
        } else {
            None
        },
        KeyCode::Char(c) => if none || shift {
            Some(InputRequest::InsertChar(c))
        } else if control {
            control_request(c)
        } else if meta {
            meta_request(c)
        } else {
            None
        },
        _ => None,
    }
}

/// The edit that a character with Ctrl asks for.
pub open spec fn control_request(c: char) -> Option<InputRequest> {
    if c == 'h' {
        Some(InputRequest::DeletePrevChar)
    } else if c == 'b' {
        Some(InputRequest::GoToPrevChar)
    } else if c == 'f' {
        Some(InputRequest::GoToNextChar)
    } else if c == 'u' {
        Some(InputRequest::DeleteLine)
    } else if c == 'w' {
        Some(InputRequest::DeletePrevWord)
    } else if c == 'k' {
        Some(InputRequest::DeleteTillEnd)
    } else if c == 'a' {
        Some(InputRequest::GoToStart)
    } else if c == 'e' {
        Some(InputRequest::GoToEnd)
    } else {
        None
    }
}

/// The edit that a character with Meta asks for.
pub open spec fn meta_request(c: char) -> Option<InputRequest> {
    if c == 'b' {
        Some(InputRequest::GoToPrevWord)
    } else if c == 'f' {
        Some(InputRequest::GoToNextWord)
    } else if c == 'd' {
        Some(InputRequest::DeletePrevWord)
    } else {
        None
    }
}

/// The edit that a key asks for.
pub fn to_input_request(key: &Key) -> (r: Option<InputRequest>)
    ensures
        r == request_of(key.code, key.mods),
{
    let none = key.mods == KeyMods::none();
    let control = key.mods == KeyMods::control();
    let meta = key.mods == KeyMods::meta();
    let alt = key.mods == KeyMods::alt();
    let shift = key.mods == KeyMods::shift();
    match key.code {
        KeyCode::Backspace if none => Some(InputRequest::DeletePrevChar),
        KeyCode::Char('h') if control => Some(InputRequest::DeletePrevChar),
        KeyCode::Delete if none => Some(InputRequest::DeleteNextChar),
        KeyCode::Left if none => Some(InputRequest::GoToPrevChar),
        KeyCode::Char('b') if control => Some(InputRequest::GoToPrevChar),
        KeyCode::Left if control => Some(InputRequest::GoToPrevWord),
        KeyCode::Char('b') if meta => Some(InputRequest::GoToPrevWord),
        KeyCode::Right if none => Some(InputRequest::GoToNextChar),
        KeyCode::Char('f') if control => Some(InputRequest::GoToNextChar),
        KeyCode::Right if control => Some(InputRequest::GoToNextWord),
        KeyCode::Char('f') if meta => Some(InputRequest::GoToNextWord),
        KeyCode::Char('u') if control => Some(InputRequest::DeleteLine),
        KeyCode::Char('w') if control => Some(InputRequest::DeletePrevWord),
        KeyCode::Char('d') if meta => Some(InputRequest::DeletePrevWord),
        KeyCode::Backspace if meta || alt => Some(InputRequest::DeletePrevWord),
        KeyCode::Delete if control => Some(InputRequest::DeleteNextWord),
        KeyCode::Char('k') if control => Some(InputRequest::DeleteTillEnd),
        KeyCode::Char('a') if control => Some(InputRequest::GoToStart),
        KeyCode::Home if none => Some(InputRequest::GoToStart),
        KeyCode::Char('e') if control => Some(InputRequest::GoToEnd),
        KeyCode::End if none => Some(InputRequest::GoToEnd),
        KeyCode::Char(c) if none || shift => Some(InputRequest::InsertChar(c)),
        _ => None,
    }
}

/// What is shown of a field ends as its text does.
pub proof fn law_shown_text_is_a_suffix(input: InputView, clusters: Seq<Seq<char>>, width: int)
    requires
        joined(clusters) == input.value,
    ensures
        shown(input, clusters, width).is_suffix_of(input.value),
{
    let trim = input.cursor - width;
    if trim <= 0 {
        assert(input.value.subrange(0, input.value.len() as int) =~= input.value);
    } else if trim <= clusters.len() {
        lemma_joined_split(clusters, trim);
        let head = joined(clusters.take(trim));
        let tail = joined(clusters.skip(trim));
        assert(input.value.subrange(input.value.len() - tail.len(), input.value.len() as int)
            =~= tail);
    } else {
        let n = input.value.len() as int;
        assert(input.value.subrange(n, n) =~= Seq::empty());
    }
}

proof fn lemma_joined_split(parts: Seq<Seq<char>>, n: int)
    requires
        0 <= n <= parts.len(),
    ensures
        joined(parts) == joined(parts.take(n)) + joined(parts.skip(n)),
    decreases parts.len(),
{
    if n == parts.len() {
        assert(parts.take(n) =~= parts);
        assert(parts.skip(n) =~= Seq::empty());
        assert(joined(parts) + Seq::<char>::empty() =~= joined(parts));
    } else {
        let init = parts.drop_last();
        lemma_joined_split(init, n);
        assert(init.take(n) =~= parts.take(n));
        assert(parts.skip(n).drop_last() =~= init.skip(n));
        assert(parts.skip(n).last() == parts.last());
        assert(joined(parts) =~= joined(parts.take(n)) + joined(parts.skip(n)));
    }
}

/// A character that is typed and then taken back one step to the left, where
/// the boundary before the cursor is the place of that character, leaves the
/// text as it was.
pub proof fn law_backspace_undoes_typing(input: InputView, c: char)
    requires
        input.cursor <= input.value.len(),
        boundary(
            edited(input, InputRequest::InsertChar(c)).value,
            input.cursor + 1,
            prev_char(),
        ) == input.cursor,
    ensures
        edited(edited(input, InputRequest::InsertChar(c)), InputRequest::DeletePrevChar) == input,
{
    let typed = edited(input, InputRequest::InsertChar(c));
    let back = edited(typed, InputRequest::DeletePrevChar);
    assert(back.value =~= input.value);
}

/// Typing puts the character at the cursor and the cursor behind it; what was
/// before and behind the cursor stays.
pub proof fn law_typing(input: InputView, c: char, i: int)
    requires
        input.cursor <= input.value.len(),
    ensures
        ({
            let after = edited(input, InputRequest::InsertChar(c));
            &&& after.cursor == input.cursor + 1
            &&& after.value.len() == input.value.len() + 1
            &&& after.value[input.cursor as int] == c
            &&& 0 <= i < input.cursor ==> after.value[i] == input.value[i]
            &&& input.cursor <= i < input.value.len() ==> after.value[i + 1] == input.value[i]
        }),
{
}

/// Moving the cursor leaves the text, and brings the cursor to the start, to the
/// end or to a boundary.
pub proof fn law_moving(input: InputView)
    ensures
        edited(input, InputRequest::GoToStart) == (InputView { value: input.value, cursor: 0 }),
        edited(input, InputRequest::GoToEnd) == (InputView {
            value: input.value,
            cursor: input.value.len(),
        }),
        edited(input, InputRequest::GoToPrevChar) == (InputView {
            value: input.value,
            cursor: boundary(input.value, input.cursor, 0),
        }),
        edited(input, InputRequest::GoToNextChar) == (InputView {
            value: input.value,
            cursor: boundary(input.value, input.cursor, 1),
        }),
        edited(input, InputRequest::GoToPrevWord) == (InputView {
            value: input.value,
            cursor: boundary(input.value, input.cursor, 2),
        }),
        edited(input, InputRequest::GoToNextWord) == (InputView {
            value: input.value,
            cursor: boundary(input.value, input.cursor, 3),
        }),
{
}

/// Deleting takes out what lies between the cursor and where the cursor would have
/// gone by the same step, and nothing else; the cursor ends where that began.
pub proof fn law_deleting(input: InputView)
    requires
        input.cursor <= input.value.len(),
    ensures
        ({
            let to = edited(input, InputRequest::GoToPrevChar).cursor;
            let after = edited(input, InputRequest::DeletePrevChar);
            to <= input.cursor ==> after.cursor == to && after.value == input.value.subrange(
                0,
                to as int,
            ) + input.value.subrange(input.cursor as int, input.value.len() as int)
        }),
        ({
            let to = edited(input, InputRequest::GoToPrevWord).cursor;
            let after = edited(input, InputRequest::DeletePrevWord);
            to <= input.cursor ==> after.cursor == to && after.value == input.value.subrange(
                0,
                to as int,
            ) + input.value.subrange(input.cursor as int, input.value.len() as int)
        }),
        ({
            let to = edited(input, InputRequest::GoToNextChar).cursor;
            let after = edited(input, InputRequest::DeleteNextChar);
            input.cursor <= to <= input.value.len() ==> after.cursor == input.cursor && after.value
                == input.value.subrange(0, input.cursor as int) + input.value.subrange(
                to as int,
                input.value.len() as int,
            )
        }),
        ({
            let to = edited(input, InputRequest::GoToNextWord).cursor;
            let after = edited(input, InputRequest::DeleteNextWord);
            input.cursor <= to <= input.value.len() ==> after.cursor == input.cursor && after.value
                == input.value.subrange(0, input.cursor as int) + input.value.subrange(
                to as int,
                input.value.len() as int,
            )
        }),
        edited(input, InputRequest::DeleteLine) == (InputView { value: Seq::empty(), cursor: 0 }),
        edited(input, InputRequest::DeleteTillEnd) == (InputView {
            value: input.value.subrange(0, input.cursor as int),
            cursor: input.cursor,
        }),
{
    assert(input.value.take(input.cursor as int) =~= input.value.subrange(
        0,
        input.cursor as int,
    ));
}

/// Modifiers of which just one is held.
pub open spec fn just(mods: KeyMods, shift: bool, alt: bool, control: bool, meta: bool) -> bool {
    mods == (KeyMods { shift, alt, control, sup: false, hyper: false, meta })
}

/// What plain keys ask for: characters are typed, also with shift, the arrows and
/// the keys for the ends move, backspace and delete take out a character.
pub proof fn law_plain_keys_of_a_field(mods: KeyMods, c: char)
    ensures
        just(mods, false, false, false, false) ==> {
            &&& request_of(KeyCode::Char(c), mods) == Some(InputRequest::InsertChar(c))
            &&& request_of(KeyCode::Backspace, mods) == Some(InputRequest::DeletePrevChar)
            &&& request_of(KeyCode::Delete, mods) == Some(InputRequest::DeleteNextChar)
            &&& request_of(KeyCode::Left, mods) == Some(InputRequest::GoToPrevChar)
            &&& request_of(KeyCode::Right, mods) == Some(InputRequest::GoToNextChar)
            &&& request_of(KeyCode::Home, mods) == Some(InputRequest::GoToStart)
            &&& request_of(KeyCode::End, mods) == Some(InputRequest::GoToEnd)
        },
        just(mods, true, false, false, false) ==> {
            &&& request_of(KeyCode::Char(c), mods) == Some(InputRequest::InsertChar(c))
            &&& request_of(KeyCode::Backspace, mods) is None
            &&& request_of(KeyCode::Delete, mods) is None
            &&& request_of(KeyCode::Left, mods) is None
            &&& request_of(KeyCode::Right, mods) is None
            &&& request_of(KeyCode::Home, mods) is None
            &&& request_of(KeyCode::End, mods) is None
        },
{
}

/// What keys with control, meta or alt ask for.
pub proof fn law_other_keys_of_a_field(mods: KeyMods, c: char)
    ensures
        just(mods, false, false, true, false) ==> {
            &&& request_of(KeyCode::Char('h'), mods) == Some(InputRequest::DeletePrevChar)
            &&& request_of(KeyCode::Char('b'), mods) == Some(InputRequest::GoToPrevChar)
            &&& request_of(KeyCode::Char('f'), mods) == Some(InputRequest::GoToNextChar)
            &&& request_of(KeyCode::Char('u'), mods) == Some(InputRequest::DeleteLine)
            &&& request_of(KeyCode::Char('w'), mods) == Some(InputRequest::DeletePrevWord)
            &&& request_of(KeyCode::Char('k'), mods) == Some(InputRequest::DeleteTillEnd)
            &&& request_of(KeyCode::Char('a'), mods) == Some(InputRequest::GoToStart)
            &&& request_of(KeyCode::Char('e'), mods) == Some(InputRequest::GoToEnd)
            &&& request_of(KeyCode::Left, mods) == Some(InputRequest::GoToPrevWord)
            &&& request_of(KeyCode::Right, mods) == Some(InputRequest::GoToNextWord)
            &&& request_of(KeyCode::Delete, mods) == Some(InputRequest::DeleteNextWord)
            &&& request_of(KeyCode::Backspace, mods) is None
            &&& request_of(KeyCode::Char(c), mods) is Some ==> c == 'h' || c == 'b' || c == 'f' || c
                == 'u' || c == 'w' || c == 'k' || c == 'a' || c == 'e'
        },
        just(mods, false, false, false, true) ==> {
            &&& request_of(KeyCode::Char('b'), mods) == Some(InputRequest::GoToPrevWord)
            &&& request_of(KeyCode::Char('f'), mods) == Some(InputRequest::GoToNextWord)
            &&& request_of(KeyCode::Char('d'), mods) == Some(InputRequest::DeletePrevWord)
            &&& request_of(KeyCode::Backspace, mods) == Some(InputRequest::DeletePrevWord)
            &&& request_of(KeyCode::Char(c), mods) is Some ==> c == 'b' || c == 'f' || c == 'd'
        },
        just(mods, false, true, false, false) ==> {
            &&& request_of(KeyCode::Backspace, mods) == Some(InputRequest::DeletePrevWord)
            &&& request_of(KeyCode::Char(c), mods) is None
        },
        !just(mods, false, false, false, false) && !just(mods, true, false, false, false) && !just(
            mods,
            false,
            false,
            true,
            false,
        ) && !just(mods, false, false, false, true) && !just(mods, false, true, false, false) ==> (
        forall|code: KeyCode| #[trigger] request_of(code, mods) is None),
        request_of(KeyCode::Enter, mods) is None,
        request_of(KeyCode::Esc, mods) is None,
        request_of(KeyCode::Tab, mods) is None,
{
}

/// A text that the cursor does not leave is shown as it is; else as many clusters
/// are cut off in front as the cursor is past the width.
pub proof fn law_what_a_field_shows(input: InputView, clusters: Seq<Seq<char>>, width: int)
    requires
        joined(clusters) == input.value,
    ensures
        input.cursor <= width ==> shown(input, clusters, width) == input.value,
        0 <= width < input.cursor <= clusters.len() + width ==> input.value == joined(
            clusters.take(input.cursor - width),
        ) + shown(input, clusters, width),
{
    if 0 <= width < input.cursor <= clusters.len() + width {
        lemma_joined_split(clusters, input.cursor - width);
    }
}

} // verus!
