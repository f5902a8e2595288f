//! Commands to the screen that a client is attached to.
//!
//! Scrolling and copy mode act on the attached screen as a whole: every
//! observer sees the same view. Keys are input events.

use vstd::prelude::*;

use crate::config::node::{field, ConfigError, FaultView, Node};
use crate::text::same_str;
use crate::wire::{bare, is_bare, is_text, part, part_of, tag, tag_of};

verus! {

/// A command to the attached screen.
#[derive(Clone, Copy, Debug, PartialEq, Eq, Structural)]
pub enum ScreenCommand {
    /// Positive `delta` scrolls up into history.
    Scroll { delta: i32, unit: ScrollUnit },
    CopyEnter,
    CopyLeave,
    CopyMove { dir: CopyMove },
    /// Anchor the selection at the cursor and start extending it.
    CopySelect,
    /// Copy the selection and leave copy mode.
    CopyYank,
}

/// How far one step of scrolling goes.
#[derive(Clone, Copy, Debug, PartialEq, Eq, Structural)]
pub enum ScrollUnit {
    Line,
    HalfScreen,
    Screen,
}

/// Where the copy-mode cursor goes.
#[derive(Clone, Copy, Debug, PartialEq, Eq, Structural)]
pub enum CopyMove {
    Up,
    Down,
    Left,
    Right,
}

/// The word for a unit.
pub open spec fn unit_word(unit: ScrollUnit) -> Seq<char> {
    match unit {
        ScrollUnit::Line => "line"@,
        ScrollUnit::HalfScreen => "half-screen"@,
        ScrollUnit::Screen => "screen"@,
    }
}

/// The word for a move.
pub open spec fn move_word(dir: CopyMove) -> Seq<char> {
    match dir {
        CopyMove::Up => "up"@,
        CopyMove::Down => "down"@,
        CopyMove::Left => "left"@,
        CopyMove::Right => "right"@,
    }
}

/// The word for a command.
pub open spec fn screen_word(c: ScreenCommand) -> Seq<char> {
    match c {
        ScreenCommand::Scroll { .. } => "scroll"@,
        ScreenCommand::CopyEnter => "copy-enter"@,
        ScreenCommand::CopyLeave => "copy-leave"@,
        ScreenCommand::CopyMove { .. } => "copy-move"@,
        ScreenCommand::CopySelect => "copy-select"@,
        ScreenCommand::CopyYank => "copy-yank"@,
    }
}

/// A node is how a screen command is written: its word first, then what it is
/// about.
pub open spec fn screen_written(node: Node, c: ScreenCommand) -> bool {
    match node {
        Node::Obj(fields) => {
            &&& fields@.len() > 0
            &&& fields@[0].0@ == "command"@
            &&& is_text(fields@[0].1, screen_word(c))
            &&& match c {
                ScreenCommand::Scroll { delta, unit } => fields@.len() == 3 && fields@[1].0@
                    == "delta"@ && fields@[1].1 == Node::Int(delta as i128) && fields@[2].0@
                    == "unit"@ && is_text(fields@[2].1, unit_word(unit)),
                ScreenCommand::CopyMove { dir } => fields@.len() == 2 && fields@[1].0@ == "dir"@
                    && is_text(fields@[1].1, move_word(dir)),
                _ => fields@.len() == 1,
            }
        },
        _ => false,
    }
}

/// The word in a node: a text, or the one key of an object that has nothing
/// behind it.
pub open spec fn word_in(node: Option<Node>) -> Option<Seq<char>> {
    match node {
        Some(Node::Text(s)) => Some(s@),
        Some(Node::Obj(fields)) => if fields@.len() == 1 && is_nothing(fields@[0].1) {
            Some(fields@[0].0@)
        } else {
            None
        },
        _ => None,
    }
}

/// A node holds nothing.
pub open spec fn is_nothing(node: Node) -> bool {
    node is Null || (node matches Node::Obj(fields) && fields@.len() == 0)
}

/// A node reads as a screen command: an object or a list whose word names it.
pub open spec fn screen_read(node: Node, c: ScreenCommand) -> bool {
    &&& tag_of(node) matches Some(tag) && is_text(tag, screen_word(c))
    &&& match c {
        ScreenCommand::Scroll { delta, unit } => part_of(node, "delta"@, 0, 2) == Some(
            Node::Int(delta as i128),
        ) && word_in(part_of(node, "unit"@, 1, 2)) == Some(unit_word(unit)),
        ScreenCommand::CopyMove { dir } => word_in(part_of(node, "dir"@, 0, 1)) == Some(
            move_word(dir),
        ),
        _ => is_bare(node),
    }
}

impl ScrollUnit {
    /// The word for the unit.
    pub fn as_str(&self) -> (r: &'static str)
        ensures
            r@ == unit_word(*self),
    {
        match self {
            ScrollUnit::Line => "line",
            ScrollUnit::HalfScreen => "half-screen",
            ScrollUnit::Screen => "screen",
        }
    }

    /// The unit that a word names.
    pub fn from_word(word: &str) -> (r: Option<Self>)
        ensures
            match r {
                Some(unit) => unit_word(unit) == word@,
                None => forall|unit: ScrollUnit| #[trigger] unit_word(unit) != word@,
            },
    {
        if same_str(word, "line") {
            Some(ScrollUnit::Line)
        } else if same_str(word, "half-screen") {
            Some(ScrollUnit::HalfScreen)
        } else if same_str(word, "screen") {
            Some(ScrollUnit::Screen)
        } else {
            None
        }
    }
}

impl CopyMove {
    /// The word for the move.
    pub fn as_str(&self) -> (r: &'static str)
        ensures
            r@ == move_word(*self),
    {
        match self {
            CopyMove::Up => "up",
            CopyMove::Down => "down",
            CopyMove::Left => "left",
            CopyMove::Right => "right",
        }
    }

    /// The move that a word names.
    pub fn from_word(word: &str) -> (r: Option<Self>)
        ensures
            match r {
                Some(dir) => move_word(dir) == word@,
                None => forall|dir: CopyMove| #[trigger] move_word(dir) != word@,
            },
    {
        if same_str(word, "up") {
            Some(CopyMove::Up)
        } else if same_str(word, "down") {
            Some(CopyMove::Down)
        } else if same_str(word, "left") {
            Some(CopyMove::Left)
        } else if same_str(word, "right") {
            Some(CopyMove::Right)
        } else {
            None
        }
    }
}

fn word<'a>(node: Option<&'a Node>) -> (r: Option<&'a str>)
    ensures
        match r {
            Some(s) => node is Some && word_in(Some(*node->Some_0)) == Some(s@),
            None => node matches Some(n) ==> word_in(Some(*n)) is None,
        },
{
    match node {
        Some(Node::Text(s)) => Some(s.as_str()),
        Some(Node::Obj(fields)) => {
            if fields.len() != 1 {
                return None;
            }
            let nothing = match &fields[0].1 {
                Node::Null => true,
                Node::Obj(inner) => inner.len() == 0,
                _ => false,
            };
            if nothing {
                Some(fields[0].0.as_str())
            } else {
                None
            }
        },
        _ => None,
    }
}

fn read_scroll(node: &Node) -> (r: Option<ScreenCommand>)
    ensures
        match r {
            Some(c) => c matches ScreenCommand::Scroll { delta, unit } && part_of(
                *node,
                "delta"@,
                0,
                2,
            ) == Some(Node::Int(delta as i128)) && word_in(part_of(*node, "unit"@, 1, 2)) == Some(
                unit_word(unit),
            ),
            None => forall|delta: i32, unit: ScrollUnit|
                part_of(*node, "delta"@, 0, 2) == Some(Node::Int(delta as i128)) ==> word_in(
                    part_of(*node, "unit"@, 1, 2),
                ) != Some(#[trigger] scroll_words(delta, unit).1),
        },
{
    let delta: i32 = match part(node, "delta", 0, 2) {
        Some(Node::Int(n)) => if *n >= i32::MIN as i128 && *n <= i32::MAX as i128 {
            *n as i32
        } else {
            return None;
        },
        _ => {
            return None;
        },
    };
    match word(part(node, "unit", 1, 2)) {
        Some(word) => match ScrollUnit::from_word(word) {
            Some(unit) => Some(ScreenCommand::Scroll { delta, unit }),
            None => None,
        },
        None => None,
    }
}

/// What is written of a scroll: how far, and in which unit.
pub open spec fn scroll_words(delta: i32, unit: ScrollUnit) -> (i32, Seq<char>) {
    (delta, unit_word(unit))
}

fn read_move(node: &Node) -> (r: Option<ScreenCommand>)
    ensures
        match r {
            Some(c) => c matches ScreenCommand::CopyMove { dir } && word_in(
                part_of(*node, "dir"@, 0, 1),
            ) == Some(move_word(dir)),
            None => forall|dir: CopyMove|
                word_in(part_of(*node, "dir"@, 0, 1)) != Some(#[trigger] move_word(dir)),
        },
{
    match word(part(node, "dir", 0, 1)) {
        Some(word) => match CopyMove::from_word(word) {
            Some(dir) => Some(ScreenCommand::CopyMove { dir }),
            None => None,
        },
        None => None,
    }
}

fn read_bare(node: &Node, c: ScreenCommand) -> (r: Option<ScreenCommand>)
    ensures
        r == (if is_bare(*node) {
            Some(c)
        } else {
            None
        }),
{
    if bare(node) {
        Some(c)
    } else {
        None
    }
}

proof fn lemma_screen_literals()
    ensures
        "scroll"@[0] == 's',
        "copy-enter"@[0] == 'c' && "copy-enter"@[5] == 'e',
        "copy-leave"@[0] == 'c' && "copy-leave"@[5] == 'l',
        "copy-move"@[0] == 'c' && "copy-move"@[5] == 'm',
        "copy-select"@[0] == 'c' && "copy-select"@[5] == 's',
        "copy-yank"@[0] == 'c' && "copy-yank"@[5] == 'y',
{
    reveal_strlit("scroll");
    reveal_strlit("copy-enter");
    reveal_strlit("copy-leave");
    reveal_strlit("copy-move");
    reveal_strlit("copy-select");
    reveal_strlit("copy-yank");
}

proof fn lemma_screen_words(a: ScreenCommand, b: ScreenCommand)
    requires
        screen_word(a) == screen_word(b),
    ensures
        a is Scroll == b is Scroll,
        a is CopyEnter == b is CopyEnter,
        a is CopyLeave == b is CopyLeave,
        a is CopyMove == b is CopyMove,
        a is CopySelect == b is CopySelect,
        a is CopyYank == b is CopyYank,
{
    lemma_screen_literals();
}

impl ScreenCommand {
    /// The word for the command.
    pub fn as_str(&self) -> (r: &'static str)
        ensures
            r@ == screen_word(*self),
    {
        match self {
            ScreenCommand::Scroll { .. } => "scroll",
            ScreenCommand::CopyEnter => "copy-enter",
            ScreenCommand::CopyLeave => "copy-leave",
            ScreenCommand::CopyMove { .. } => "copy-move",
            ScreenCommand::CopySelect => "copy-select",
            ScreenCommand::CopyYank => "copy-yank",
        }
    }

    /// The command as it is written in an event.
    pub fn to_node(&self) -> (r: Node)
        ensures
            screen_written(r, *self),
    {
        let mut fields: Vec<(String, Node)> = Vec::new();
        fields.push(("command".to_string(), Node::Text(self.as_str().to_string())));
        match self {
            ScreenCommand::Scroll { delta, unit } => {
                fields.push(("delta".to_string(), Node::Int(*delta as i128)));
                fields.push(("unit".to_string(), Node::Text(unit.as_str().to_string())));
            },
            ScreenCommand::CopyMove { dir } => {
                fields.push(("dir".to_string(), Node::Text(dir.as_str().to_string())));
            },
            _ => {},
        }
        Node::Obj(fields)
    }

    /// The command that is written in an event.
    pub fn from_node(node: &Node) -> (r: Result<Self, ConfigError>)
        ensures
            match r {
                Ok(c) => screen_read(*node, c),
                Err(err) => err@ == FaultView::Invalid("not a screen command"@) && forall|
                    c: ScreenCommand,
                |
                    !#[trigger] screen_read(*node, c),
            },
    {
        let word = match tag(node) {
            Some(Node::Text(word)) => word.as_str(),
            _ => {
                return Err(ConfigError::Invalid("not a screen command".to_string()));
            },
        };
        let found = if same_str(word, "scroll") {
            read_scroll(node)
        } else if same_str(word, "copy-enter") {
            read_bare(node, ScreenCommand::CopyEnter)
        } else if same_str(word, "copy-leave") {
            read_bare(node, ScreenCommand::CopyLeave)
        } else if same_str(word, "copy-move") {
            read_move(node)
        } else if same_str(word, "copy-select") {
            read_bare(node, ScreenCommand::CopySelect)
        } else if same_str(word, "copy-yank") {
            read_bare(node, ScreenCommand::CopyYank)
        } else {
            None
        };
        match found {
            Some(command) => Ok(command),
            None => {
                proof {
                    assert forall|c: ScreenCommand| !#[trigger] screen_read(*node, c) by {
                        if screen_read(*node, c) {
                            assert(word@ == screen_word(c));
                            lemma_screen_literals();
                            if let ScreenCommand::Scroll { delta, unit } = c {
                                assert(scroll_words(delta, unit).1 == unit_word(unit));
                            }
                        }
                    }
                }
                Err(ConfigError::Invalid("not a screen command".to_string()))
            },
        }
    }
}

/// A screen command that is written down reads as itself, and as nothing else.
pub proof fn law_written_screen_commands_are_read(node: Node, c: ScreenCommand, d: ScreenCommand)
    requires
        screen_written(node, c),
    ensures
        screen_read(node, c),
        screen_read(node, d) ==> d == c,
{
    reveal_with_fuel(field, 4);
    reveal_strlit("command");
    reveal_strlit("delta");
    reveal_strlit("unit");
    reveal_strlit("dir");
    assert("command"@.len() == 7 && "delta"@.len() == 5 && "unit"@.len() == 4 && "dir"@.len()
        == 3);
    match node {
        Node::Obj(fields) => {
            if fields@.len() > 1 {
                assert(fields@.skip(1)[0] == fields@[1]);
            }
            if fields@.len() > 2 {
                assert(fields@.skip(1).skip(1)[0] == fields@[2]);
            }
            if screen_read(node, d) {
                lemma_screen_words(c, d);
                lemma_words_apart();
            }
        },
        _ => {},
    }
}

proof fn lemma_words_apart()
    ensures
        forall|a: ScrollUnit, b: ScrollUnit|
            #[trigger] unit_word(a) == #[trigger] unit_word(b) ==> a == b,
        forall|a: CopyMove, b: CopyMove|
            #[trigger] move_word(a) == #[trigger] move_word(b) ==> a == b,
{
    reveal_strlit("line");
    reveal_strlit("half-screen");
    reveal_strlit("screen");
    reveal_strlit("up");
    reveal_strlit("down");
    reveal_strlit("left");
    reveal_strlit("right");
    assert("line"@[0] == 'l' && "half-screen"@[0] == 'h' && "screen"@[0] == 's');
    assert("up"@[0] == 'u' && "down"@[0] == 'd' && "left"@[0] == 'l' && "right"@[0] == 'r');
}

/// The words of the commands, the units and the moves.
pub proof fn law_words_of_screen_commands(delta: i32, unit: ScrollUnit, dir: CopyMove)
    ensures
        screen_word(ScreenCommand::Scroll { delta, unit }) == "scroll"@,
        screen_word(ScreenCommand::CopyEnter) == "copy-enter"@,
        screen_word(ScreenCommand::CopyLeave) == "copy-leave"@,
        screen_word(ScreenCommand::CopyMove { dir }) == "copy-move"@,
        screen_word(ScreenCommand::CopySelect) == "copy-select"@,
        screen_word(ScreenCommand::CopyYank) == "copy-yank"@,
        unit_word(ScrollUnit::Line) == "line"@,
        unit_word(ScrollUnit::HalfScreen) == "half-screen"@,
        unit_word(ScrollUnit::Screen) == "screen"@,
        move_word(CopyMove::Up) == "up"@,
        move_word(CopyMove::Down) == "down"@,
        move_word(CopyMove::Left) == "left"@,
        move_word(CopyMove::Right) == "right"@,
{
}

/// How screen commands are read: by their word under `command` or first in a list,
/// scrolling with its number and its unit, moves with their direction, and the
/// others without anything.
pub proof fn law_screen_commands_as_read(fields: Vec<(String, Node)>, delta: i32, unit: ScrollUnit, dir: CopyMove)
    requires
        field(fields@, "command"@) is Some,
    ensures
        ({
            let node = Node::Obj(fields);
            let word = field(fields@, "command"@)->Some_0;
            &&& screen_read(node, ScreenCommand::Scroll { delta, unit }) <==> is_text(
                word,
                "scroll"@,
            ) && field(fields@, "delta"@) == Some(Node::Int(delta as i128)) && word_in(
                field(fields@, "unit"@),
            ) == Some(unit_word(unit))
            &&& screen_read(node, ScreenCommand::CopyMove { dir }) <==> is_text(word, "copy-move"@)
                && word_in(field(fields@, "dir"@)) == Some(move_word(dir))
            &&& screen_read(node, ScreenCommand::CopyEnter) <==> is_text(word, "copy-enter"@)
            &&& screen_read(node, ScreenCommand::CopyLeave) <==> is_text(word, "copy-leave"@)
            &&& screen_read(node, ScreenCommand::CopySelect) <==> is_text(word, "copy-select"@)
            &&& screen_read(node, ScreenCommand::CopyYank) <==> is_text(word, "copy-yank"@)
        }),
{
}

/// A word may stand by itself, or as the one key of an object with nothing behind
/// it, and in no other form.
pub proof fn law_words_in_nodes(s: String, node: Node, word: Seq<char>)
    ensures
        word_in(Some(Node::Text(s))) == Some(s@),
        word_in(None) is None,
        word_in(Some(node)) == Some(word) && node !is Text ==> node is Obj && node->Obj_0@.len()
            == 1 && node->Obj_0@[0].0@ == word && (node->Obj_0@[0].1 is Null || (
        node->Obj_0@[0].1 is Obj && node->Obj_0@[0].1->Obj_0@.len() == 0)),
        node is Obj && node->Obj_0@.len() == 1 && node->Obj_0@[0].1 is Null ==> word_in(Some(node))
            == Some(node->Obj_0@[0].0@),
{
}

} // verus!
