//! How commands and targets are written in documents.

use vstd::prelude::*;

use crate::command::{Command, Target as CommandTarget};
use crate::config::node::{field, get, ConfigError, FaultView, Node};
use crate::kernel::task::TaskId;
use crate::kernel::task_key::TaskSpaceId;
use crate::target::{target_of, target_text, Target, TargetView};
use crate::text::same_str;

verus! {

/// A text node with a given text.
pub open spec fn is_text(node: Node, text: Seq<char>) -> bool {
    node matches Node::Text(s) && s@ == text
}

/// The text in a field.
pub open spec fn text_at(fields: Seq<(String, Node)>, key: Seq<char>) -> Option<Seq<char>> {
    match field(fields, key) {
        Some(Node::Text(s)) => Some(s@),
        _ => None,
    }
}

/// The id in a field.
pub open spec fn id_at(fields: Seq<(String, Node)>, key: Seq<char>) -> Option<TaskId> {
    match field(fields, key) {
        Some(Node::Int(n)) => if 0 <= n <= usize::MAX {
            Some(TaskId(n as usize))
        } else {
            None
        },
        _ => None,
    }
}

/// The word for a command.
pub open spec fn command_word(c: Command) -> Seq<char> {
    match c {
        Command::Batch { .. } => "batch"@,
        Command::Quit => "quit"@,
        Command::Start { .. } => "start"@,
        Command::Stop { .. } => "stop"@,
        Command::Down { .. } => "down"@,
        Command::Kill { .. } => "kill"@,
        Command::Veto { .. } => "veto"@,
        Command::Restart { .. } => "restart"@,
        Command::ForceRestart { .. } => "force-restart"@,
    }
}

/// A node reads as the target of a command: a text is a selector, an object
/// with an id is that task, an object with a space is all its tasks.
pub open spec fn target_read(node: Node, t: CommandTarget) -> bool {
    match node {
        Node::Text(s) => t matches CommandTarget::Selector(text) && text@ == s@,
        Node::Obj(fields) => match id_at(fields@, "id"@) {
            Some(id) => t == (CommandTarget::Id { id }),
            None => match text_at(fields@, "all"@) {
                Some(space) => t matches CommandTarget::All { all } && all@ == space,
                None => false,
            },
        },
        _ => false,
    }
}

/// A node is how the target of a command is written.
pub open spec fn target_written(node: Node, t: CommandTarget) -> bool {
    match t {
        CommandTarget::Selector(text) => is_text(node, text@),
        CommandTarget::Id { id } => node matches Node::Obj(fields) && fields@.len() == 1
            && fields@[0].0@ == "id"@ && fields@[0].1 == Node::Int(id.0 as i128),
        CommandTarget::All { all } => node matches Node::Obj(fields) && fields@.len() == 1
            && fields@[0].0@ == "all"@ && is_text(fields@[0].1, all@),
    }
}

/// What names a node by a word: in an object the field `command`, in a list the
/// first item.
pub open spec fn tag_of(node: Node) -> Option<Node> {
    match node {
        Node::Obj(fields) => field(fields@, "command"@),
        Node::List(items) => if items@.len() > 0 {
            Some(items@[0])
        } else {
            None
        },
        _ => None,
    }
}

/// One of the `count` parts of a node that is named by a word: in an object the
/// field `key`, in a list the item in the place `at` behind the word. A list
/// holds nothing else.
pub open spec fn part_of(node: Node, key: Seq<char>, at: int, count: int) -> Option<Node> {
    match node {
        Node::Obj(fields) => field(fields@, key),
        Node::List(items) => if items@.len() == count + 1 && 0 <= at < count {
            Some(items@[at + 1])
        } else {
            None
        },
        _ => None,
    }
}

/// A node holds nothing but its word, or is an object, whose other fields do not
/// matter.
pub open spec fn is_bare(node: Node) -> bool {
    match node {
        Node::Obj(_) => true,
        Node::List(items) => items@.len() == 1,
        _ => false,
    }
}

/// The number of a command, in the order of the words.
pub open spec fn command_number(c: Command) -> int {
    match c {
        Command::Batch { .. } => 0,
        Command::Quit => 1,
        Command::Start { .. } => 2,
        Command::Stop { .. } => 3,
        Command::Down { .. } => 4,
        Command::Kill { .. } => 5,
        Command::Veto { .. } => 6,
        Command::Restart { .. } => 7,
        Command::ForceRestart { .. } => 8,
    }
}

/// A node names a command: by its word, and within a batch also by its number.
pub open spec fn names_command(tag: Node, c: Command, nested: bool) -> bool {
    match tag {
        Node::Text(s) => s@ == command_word(c),
        Node::Int(n) => nested && n == command_number(c),
        _ => false,
    }
}

/// The target that a node holds reads as a target.
pub open spec fn target_in(node: Node, t: CommandTarget) -> bool {
    part_of(node, "target"@, 0, 1) matches Some(part) && target_read(part, t)
}

/// A node reads as a command, by itself or within a batch.
pub open spec fn reads_as(node: Node, c: Command, nested: bool) -> bool
    decreases c,
{
    &&& tag_of(node) matches Some(tag) && names_command(tag, c, nested)
    &&& match c {
        Command::Quit => is_bare(node),
        Command::Batch { commands } => part_of(node, "commands"@, 0, 1) matches Some(
            Node::List(list),
        ) && commands_read(list@, commands@),
        Command::Start { target } => target_in(node, target),
        Command::Stop { target } => target_in(node, target),
        Command::Down { target } => target_in(node, target),
        Command::Kill { target } => target_in(node, target),
        Command::Veto { target } => target_in(node, target),
        Command::Restart { target } => target_in(node, target),
        Command::ForceRestart { target } => target_in(node, target),
    }
}

/// Nodes read as the commands of a batch, one by one.
pub open spec fn commands_read(nodes: Seq<Node>, commands: Seq<Command>) -> bool
    decreases commands,
{
    nodes.len() == commands.len() && (commands.len() == 0 || (commands_read(
        nodes.drop_last(),
        commands.drop_last(),
    ) && reads_as(nodes.last(), commands.last(), true)))
}

/// A node reads as a command: an object or a list whose word names it.
pub open spec fn command_read(node: Node, c: Command) -> bool {
    reads_as(node, c, false)
}

/// The fields are a word and the target.
pub open spec fn with_target(fields: Seq<(String, Node)>, t: CommandTarget) -> bool {
    fields.len() == 2 && fields[1].0@ == "target"@ && target_written(fields[1].1, t)
}

/// A node is how a command is written: its word first, then what it is about.
pub open spec fn command_written(node: Node, c: Command) -> bool
    decreases c,
{
    match node {
        Node::Obj(fields) => {
            &&& fields@.len() > 0
            &&& fields@[0].0@ == "command"@
            &&& is_text(fields@[0].1, command_word(c))
            &&& match c {
                Command::Quit => fields@.len() == 1,
                Command::Batch { commands } => fields@.len() == 2 && fields@[1].0@ == "commands"@
                    && (fields@[1].1 matches Node::List(list) && commands_written(
                    list@,
                    commands@,
                )),
                Command::Start { target } => with_target(fields@, target),
                Command::Stop { target } => with_target(fields@, target),
                Command::Down { target } => with_target(fields@, target),
                Command::Kill { target } => with_target(fields@, target),
                Command::Veto { target } => with_target(fields@, target),
                Command::Restart { target } => with_target(fields@, target),
                Command::ForceRestart { target } => with_target(fields@, target),
            }
        },
        _ => false,
    }
}

/// Nodes are how commands are written, one by one.
pub open spec fn commands_written(nodes: Seq<Node>, commands: Seq<Command>) -> bool
    decreases commands,
{
    nodes.len() == commands.len() && (commands.len() == 0 || (commands_written(
        nodes.drop_last(),
        commands.drop_last(),
    ) && command_written(nodes.last(), commands.last())))
}

fn obj(key: &str, node: Node) -> (r: Node)
    ensures
        r matches Node::Obj(fields) && fields@.len() == 1 && fields@[0].0@ == key@ && fields@[0].1
            == node,
{
    let mut fields: Vec<(String, Node)> = Vec::new();
    fields.push((key.to_string(), node));
    Node::Obj(fields)
}

/// The text in the field `key`.
pub fn text_in<'a>(fields: &'a Vec<(String, Node)>, key: &str) -> (r: Option<&'a str>)
    ensures
        match r {
            Some(s) => text_at(fields@, key@) == Some(s@),
            None => text_at(fields@, key@) is None,
        },
{
    match get(fields, key) {
        Some(Node::Text(s)) => Some(s.as_str()),
        _ => None,
    }
}

fn id_in(fields: &Vec<(String, Node)>, key: &str) -> (r: Option<TaskId>)
    ensures
        r == id_at(fields@, key@),
{
    match get(fields, key) {
        Some(Node::Int(n)) => if *n >= 0 && *n <= usize::MAX as i128 {
            Some(TaskId(*n as usize))
        } else {
            None
        },
        _ => None,
    }
}

impl CommandTarget {
    /// The target as it is written in a document.
    pub fn to_node(&self) -> (r: Node)
        ensures
            target_written(r, *self),
    {
        match self {
            CommandTarget::Selector(text) => Node::Text(text.clone()),
            CommandTarget::Id { id } => obj("id", Node::Int(id.0 as i128)),
            CommandTarget::All { all } => obj("all", Node::Text(all.as_str().to_string())),
        }
    }

    /// The target that is written in a document.
    pub fn from_node(node: &Node) -> (r: Result<Self, ConfigError>)
        ensures
            match r {
                Ok(t) => target_read(*node, t),
                Err(err) => err@ == FaultView::Invalid("not a target"@) && forall|t: CommandTarget|
                    !#[trigger] target_read(*node, t),
            },
    {
        match node {
            Node::Text(s) => Ok(CommandTarget::Selector(s.clone())),
            Node::Obj(fields) => match id_in(fields, "id") {
                Some(id) => Ok(CommandTarget::Id { id }),
                None => match text_in(fields, "all") {
                    Some(space) => Ok(CommandTarget::All { all: TaskSpaceId::of_text(space) }),
                    None => Err(ConfigError::Invalid("not a target".to_string())),
                },
            },
            _ => Err(ConfigError::Invalid("not a target".to_string())),
        }
    }
}

fn worded(word: &str, key: &str, node: Node) -> (r: Node)
    ensures
        r matches Node::Obj(fields) && fields@.len() == 2 && fields@[0].0@ == "command"@
            && is_text(fields@[0].1, word@) && fields@[1].0@ == key@ && fields@[1].1 == node,
{
    let mut fields: Vec<(String, Node)> = Vec::new();
    fields.push(("command".to_string(), Node::Text(word.to_string())));
    fields.push((key.to_string(), node));
    Node::Obj(fields)
}

/// What names `node` by a word.
pub fn tag<'a>(node: &'a Node) -> (r: Option<&'a Node>)
    ensures
        match r {
            Some(t) => tag_of(*node) == Some(*t),
            None => tag_of(*node) is None,
        },
{
    match node {
        Node::Obj(fields) => get(fields, "command"),
        Node::List(items) => if items.len() > 0 {
            Some(&items[0])
        } else {
            None
        },
        _ => None,
    }
}

/// One of the `count` parts of `node`.
pub fn part<'a>(node: &'a Node, key: &str, at: usize, count: usize) -> (r: Option<&'a Node>)
    ensures
        match r {
            Some(p) => part_of(*node, key@, at as int, count as int) == Some(*p),
            None => part_of(*node, key@, at as int, count as int) is None,
        },
{
    match node {
        Node::Obj(fields) => get(fields, key),
        Node::List(items) => if items.len() > 0 && items.len() - 1 == count && at < count {
            Some(&items[at + 1])
        } else {
            None
        },
        _ => None,
    }
}

/// Whether `node` holds nothing but its word, or is an object.
pub fn bare(node: &Node) -> (r: bool)
    ensures
        r == is_bare(*node),
{
    match node {
        Node::Obj(_) => true,
        Node::List(items) => items.len() == 1,
        _ => false,
    }
}

fn target_part(node: &Node) -> (r: Option<CommandTarget>)
    ensures
        match r {
            Some(t) => target_in(*node, t),
            None => forall|t: CommandTarget| !#[trigger] target_in(*node, t),
        },
{
    match part(node, "target", 0, 1) {
        Some(part) => match CommandTarget::from_node(part) {
            Ok(target) => Some(target),
            Err(_) => None,
        },
        None => None,
    }
}

fn number_of_word(word: &str) -> (r: Option<u8>)
    ensures
        match r {
            Some(n) => n <= 8 && forall|c: Command| #[trigger]
                command_word(c) == word@ <==> command_number(c) == n,
            None => forall|c: Command| #[trigger] command_word(c) != word@,
        },
{
    proof {
        lemma_words_differ();
    }
    if same_str(word, "batch") {
        Some(0)
    } else if same_str(word, "quit") {
        Some(1)
    } else if same_str(word, "start") {
        Some(2)
    } else if same_str(word, "stop") {
        Some(3)
    } else if same_str(word, "down") {
        Some(4)
    } else if same_str(word, "kill") {
        Some(5)
    } else if same_str(word, "veto") {
        Some(6)
    } else if same_str(word, "restart") {
        Some(7)
    } else if same_str(word, "force-restart") {
        Some(8)
    } else {
        None
    }
}

fn command_named(tag: &Node, nested: bool) -> (r: Option<u8>)
    ensures
        match r {
            Some(n) => n <= 8 && forall|c: Command| #[trigger]
                names_command(*tag, c, nested) <==> command_number(c) == n,
            None => forall|c: Command| !#[trigger] names_command(*tag, c, nested),
        },
{
    match tag {
        Node::Text(word) => number_of_word(word.as_str()),
        Node::Int(n) => if nested && *n >= 0 && *n <= 8 {
            Some(*n as u8)
        } else {
            None
        },
        _ => None,
    }
}

/// The command with a number other than that of a batch and of quitting.
fn command_of(number: u8, target: CommandTarget) -> (r: Command)
    requires
        2 <= number <= 8,
    ensures
        command_number(r) == number,
        crate::command::act_of(r) is Some,
        crate::command::act_of(r)->Some_0.1 == target,
{
    match number {
        2 => Command::Start { target },
        3 => Command::Stop { target },
        4 => Command::Down { target },
        5 => Command::Kill { target },
        6 => Command::Veto { target },
        7 => Command::Restart { target },
        _ => Command::ForceRestart { target },
    }
}

proof fn lemma_words_differ()
    ensures
        forall|a: Command, b: Command|
            #[trigger] command_word(a) == #[trigger] command_word(b) ==> command_number(a)
                == command_number(b),
        forall|c: Command| #[trigger] command_word(c) == "batch"@ <==> command_number(c) == 0,
        forall|c: Command| #[trigger] command_word(c) == "quit"@ <==> command_number(c) == 1,
        forall|c: Command| #[trigger] command_word(c) == "start"@ <==> command_number(c) == 2,
        forall|c: Command| #[trigger] command_word(c) == "stop"@ <==> command_number(c) == 3,
        forall|c: Command| #[trigger] command_word(c) == "down"@ <==> command_number(c) == 4,
        forall|c: Command| #[trigger] command_word(c) == "kill"@ <==> command_number(c) == 5,
        forall|c: Command| #[trigger] command_word(c) == "veto"@ <==> command_number(c) == 6,
        forall|c: Command| #[trigger] command_word(c) == "restart"@ <==> command_number(c) == 7,
        forall|c: Command| #[trigger]
            command_word(c) == "force-restart"@ <==> command_number(c) == 8,
{
    reveal_strlit("batch");
    reveal_strlit("quit");
    reveal_strlit("start");
    reveal_strlit("stop");
    reveal_strlit("down");
    reveal_strlit("kill");
    reveal_strlit("veto");
    reveal_strlit("restart");
    reveal_strlit("force-restart");
    assert("batch"@[0] == 'b');
    assert("quit"@[0] == 'q');
    assert("start"@[0] == 's' && "start"@.len() == 5);
    assert("stop"@[0] == 's' && "stop"@.len() == 4);
    assert("down"@[0] == 'd');
    assert("kill"@[0] == 'k');
    assert("veto"@[0] == 'v');
    assert("restart"@[0] == 'r');
    assert("force-restart"@[0] == 'f');
}

impl Command {
    /// The command as it is written in a document.
    pub fn to_node(&self) -> (r: Node)
        ensures
            command_written(r, *self),
        decreases self,
    {
        match self {
            Command::Quit => obj("command", Node::Text("quit".to_string())),
            Command::Batch { commands } => {
                let mut list: Vec<Node> = Vec::new();
                assert(commands_written(list@, commands@.take(0)));
                for i in 0..commands.len()
                    invariant
                        *self == (Command::Batch { commands: *commands }),
                        commands_written(list@, commands@.take(i as int)),
                {
                    proof {
                        assert(self->commands@ == commands@);
                        assert(decreases_to!(*self => self->commands@[i as int]));
                    }
                    let ghost before = list@;
                    list.push(commands[i].to_node());
                    assert(list@.drop_last() =~= before);
                    assert(commands@.take(i + 1).drop_last() =~= commands@.take(i as int));
                }
                assert(commands@.take(commands@.len() as int) =~= commands@);
                worded("batch", "commands", Node::List(list))
            },
            Command::Start { target } => worded("start", "target", target.to_node()),
            Command::Stop { target } => worded("stop", "target", target.to_node()),
            Command::Down { target } => worded("down", "target", target.to_node()),
            Command::Kill { target } => worded("kill", "target", target.to_node()),
            Command::Veto { target } => worded("veto", "target", target.to_node()),
            Command::Restart { target } => worded("restart", "target", target.to_node()),
            Command::ForceRestart { target } => worded(
                "force-restart",
                "target",
                target.to_node(),
            ),
        }
    }

    /// The command that is written in a document.
    pub fn from_node(node: &Node) -> (r: Result<Self, ConfigError>)
        ensures
            match r {
                Ok(c) => command_read(*node, c),
                Err(err) => err@ == FaultView::Invalid("not a command"@) && forall|c: Command|
                    !#[trigger] command_read(*node, c),
            },
    {
        match Command::read(node, false) {
            Some(command) => Ok(command),
            None => Err(ConfigError::Invalid("not a command".to_string())),
        }
    }

    fn read(node: &Node, nested: bool) -> (r: Option<Self>)
        ensures
            match r {
                Some(c) => reads_as(*node, c, nested),
                None => forall|c: Command| !#[trigger] reads_as(*node, c, nested),
            },
        decreases node, 1int,
    {
        let number = match tag(node) {
            Some(tag) => match command_named(tag, nested) {
                Some(number) => number,
                None => {
                    return None;
                },
            },
            None => {
                return None;
            },
        };
        let ghost word = tag_of(*node)->Some_0;
        assert(forall|c: Command| #[trigger]
            reads_as(*node, c, nested) ==> names_command(word, c, nested));
        if number == 1 {
            assert(names_command(word, Command::Quit, nested));
            if bare(node) {
                return Some(Command::Quit);
            }
            assert forall|c: Command| !#[trigger] reads_as(*node, c, nested) by {
                if reads_as(*node, c, nested) {
                    assert(names_command(word, c, nested));
                }
            }
            return None;
        }
        if number == 0 {
            return Command::read_batch(node, nested);
        }
        match target_part(node) {
            Some(target) => {
                let command = command_of(number, target);
                assert(names_command(word, command, nested));
                Some(command)
            },
            None => {
                assert forall|c: Command| !#[trigger] reads_as(*node, c, nested) by {
                    if reads_as(*node, c, nested) {
                        assert(names_command(word, c, nested));
                        assert(target_in(*node, crate::command::act_of(c)->Some_0.1));
                    }
                }
                None
            },
        }
    }

    fn read_batch(node: &Node, nested: bool) -> (r: Option<Self>)
        requires
            tag_of(*node) is Some,
            forall|c: Command| #[trigger]
                names_command(tag_of(*node)->Some_0, c, nested) <==> command_number(c) == 0,
        ensures
            match r {
                Some(c) => reads_as(*node, c, nested),
                None => forall|c: Command| !#[trigger] reads_as(*node, c, nested),
            },
        decreases node, 0int,
    {
        let ghost word = tag_of(*node)->Some_0;
        let list = match part(node, "commands", 0, 1) {
            Some(Node::List(list)) => list,
            _ => {
                assert forall|c: Command| !#[trigger] reads_as(*node, c, nested) by {
                    if reads_as(*node, c, nested) {
                        assert(names_command(word, c, nested));
                    }
                }
                return None;
            },
        };
        let mut commands: Vec<Command> = Vec::new();
        assert(commands_read(list@.take(0), commands@));
        for i in 0..list.len()
            invariant
                part_of(*node, "commands"@, 0, 1) == Some(Node::List(*list)),
                tag_of(*node) == Some(word),
                commands_read(list@.take(i as int), commands@),
                forall|c: Command| #[trigger]
                    names_command(word, c, nested) <==> command_number(c) == 0,
        {
            proof {
                lemma_node_decreases(*node, *list, i as int);
            }
            match Command::read(&list[i], true) {
                Some(command) => {
                    let ghost before = commands@;
                    commands.push(command);
                    assert(commands@.drop_last() =~= before);
                    assert(list@.take(i + 1).drop_last() =~= list@.take(i as int));
                },
                None => {
                    proof {
                        assert forall|c: Command| !#[trigger] reads_as(*node, c, nested) by {
                            if reads_as(*node, c, nested) {
                                assert(names_command(word, c, nested));
                                lemma_read_at(list@, c->commands@, i as int);
                            }
                        }
                    }
                    return None;
                },
            }
        }
        assert(list@.take(list@.len() as int) =~= list@);
        let batch = Command::Batch { commands };
        assert(names_command(word, batch, nested));
        Some(batch)
    }
}

proof fn lemma_read_at(nodes: Seq<Node>, commands: Seq<Command>, i: int)
    requires
        commands_read(nodes, commands),
        0 <= i < nodes.len(),
    ensures
        reads_as(nodes[i], commands[i], true),
    decreases commands.len(),
{
    if i < nodes.len() - 1 {
        lemma_read_at(nodes.drop_last(), commands.drop_last(), i);
    }
}

proof fn lemma_field_at(fields: Seq<(String, Node)>, key: Seq<char>) -> (i: int)
    requires
        field(fields, key) is Some,
    ensures
        0 <= i < fields.len(),
        fields[i].1 == field(fields, key)->Some_0,
    decreases fields.len(),
{
    if fields[0].0@ == key {
        0
    } else {
        let i = lemma_field_at(fields.skip(1), key);
        i + 1
    }
}

proof fn lemma_node_decreases(node: Node, list: Vec<Node>, i: int)
    requires
        part_of(node, "commands"@, 0, 1) == Some(Node::List(list)),
        0 <= i < list@.len(),
    ensures
        decreases_to!(node => list@[i]),
{
    let inner = Node::List(list);
    match node {
        Node::Obj(fields) => {
            let at = lemma_field_at(fields@, "commands"@);
            assert(decreases_to!(node => node->Obj_0@[at]));
            assert(decreases_to!(node->Obj_0@[at] => node->Obj_0@[at].1));
            assert(node->Obj_0@[at].1 == inner);
        },
        Node::List(items) => {
            assert(decreases_to!(node => node->List_0@[1]));
            assert(node->List_0@[1] == inner);
        },
        _ => {},
    }
    assert(decreases_to!(inner => inner->List_0@[i]));
}

proof fn lemma_first_field(fields: Seq<(String, Node)>, key: Seq<char>)
    requires
        fields.len() > 0,
    ensures
        fields[0].0@ == key ==> field(fields, key) == Some(fields[0].1),
        fields[0].0@ != key && fields.len() > 1 && fields[1].0@ == key ==> field(fields, key)
            == Some(fields[1].1),
        fields[0].0@ != key && fields.len() == 1 ==> field(fields, key) is None,
{
    reveal_with_fuel(field, 3);
    if fields.len() > 1 {
        assert(fields.skip(1)[0] == fields[1]);
    }
}

proof fn lemma_keys_differ()
    ensures
        "command"@ != "commands"@,
        "command"@ != "target"@,
        "id"@ != "all"@,
{
    reveal_strlit("command");
    reveal_strlit("commands");
    reveal_strlit("target");
    reveal_strlit("id");
    reveal_strlit("all");
    assert("command"@.len() != "commands"@.len());
    assert("command"@.len() != "target"@.len());
    assert("id"@.len() != "all"@.len());
}

proof fn lemma_target_round_trip(node: Node, t: CommandTarget)
    requires
        target_written(node, t),
    ensures
        target_read(node, t),
{
    lemma_keys_differ();
    match node {
        Node::Obj(fields) => {
            lemma_first_field(fields@, "id"@);
            lemma_first_field(fields@, "all"@);
        },
        _ => {},
    }
}

/// A command that is written down reads as itself.
pub proof fn law_written_commands_are_read(node: Node, c: Command)
    requires
        command_written(node, c),
    ensures
        command_read(node, c),
{
    lemma_written_reads(node, c, false);
}

proof fn lemma_written_reads(node: Node, c: Command, nested: bool)
    requires
        command_written(node, c),
    ensures
        reads_as(node, c, nested),
    decreases c,
{
    lemma_keys_differ();
    match node {
        Node::Obj(fields) => {
            lemma_first_field(fields@, "command"@);
            lemma_first_field(fields@, "target"@);
            lemma_first_field(fields@, "commands"@);
            match c {
                Command::Batch { commands } => match fields@[1].1 {
                    Node::List(list) => lemma_all_written(list@, commands@),
                    _ => {},
                },
                Command::Quit => {},
                _ => {
                    let t = crate::command::act_of(c)->Some_0.1;
                    lemma_target_round_trip(fields@[1].1, t);
                },
            }
        },
        _ => {},
    }
}

proof fn lemma_all_written(nodes: Seq<Node>, commands: Seq<Command>)
    requires
        commands_written(nodes, commands),
    ensures
        commands_read(nodes, commands),
    decreases commands,
{
    if commands.len() > 0 {
        lemma_all_written(nodes.drop_last(), commands.drop_last());
        lemma_written_reads(nodes.last(), commands.last(), true);
    }
}

/// A node reads as a target: a text is parsed, an object holds an id.
pub open spec fn reference_read(node: Node, t: TargetView) -> bool {
    match node {
        Node::Text(s) => target_of(s@) == Ok::<TargetView, Seq<char>>(t),
        Node::Obj(fields) => match id_at(fields@, "id"@) {
            Some(id) => t == TargetView::Id(id),
            None => false,
        },
        _ => false,
    }
}

/// Why a node reads as no target.
pub open spec fn reference_fault(node: Node) -> Seq<char> {
    match node {
        Node::Text(s) => match target_of(s@) {
            Err(message) => "invalid target: "@ + message,
            Ok(_) => Seq::empty(),
        },
        _ => "not a target"@,
    }
}

/// A node is how a target is written: an id as an object, anything else as
/// text.
pub open spec fn reference_written(node: Node, t: TargetView) -> bool {
    match t {
        TargetView::Id(id) => node matches Node::Obj(fields) && fields@.len() == 1
            && fields@[0].0@ == "id"@ && fields@[0].1 == Node::Int(id.0 as i128),
        TargetView::Select { .. } => is_text(node, target_text(t)),
    }
}

impl Target {
    /// The target as it is written in a document.
    pub fn to_node(&self) -> (r: Node)
        ensures
            reference_written(r, self@),
    {
        match self {
            Target::Id(id) => obj("id", Node::Int(id.0 as i128)),
            Target::Select { .. } => Node::Text(self.to_string()),
        }
    }

    /// The target that is written in a document.
    pub fn from_node(node: &Node) -> (r: Result<Self, ConfigError>)
        ensures
            match r {
                Ok(t) => reference_read(*node, t@),
                Err(err) => err@ == FaultView::Invalid(reference_fault(*node)) && forall|
                    t: TargetView,
                |
                    !#[trigger] reference_read(*node, t),
            },
    {
        match node {
            Node::Text(s) => match Target::parse(s.as_str()) {
                Ok(t) => Ok(t),
                Err(err) => Err(ConfigError::Invalid(err.to_string())),
            },
            Node::Obj(fields) => match id_in(fields, "id") {
                Some(id) => Ok(Target::Id(id)),
                None => Err(ConfigError::Invalid("not a target".to_string())),
            },
            _ => Err(ConfigError::Invalid("not a target".to_string())),
        }
    }
}

/// A parsed target that is written down reads as itself.
pub proof fn law_written_targets_are_read(node: Node, t: TargetView)
    requires
        t is Id || crate::target::is_parsed(t),
        reference_written(node, t),
    ensures
        reference_read(node, t),
{
    match t {
        TargetView::Id(_) => match node {
            Node::Obj(fields) => lemma_first_field(fields@, "id"@),
            _ => {},
        },
        TargetView::Select { .. } => crate::target::law_write_then_parse(t),
    }
}

/// A node with the word of a command and with a target reads as that command.
pub proof fn law_words_of_commands(node: Node, t: CommandTarget)
    ensures
        tag_of(node) is Some && is_text(tag_of(node)->Some_0, "start"@) && target_in(node, t)
            ==> command_read(node, Command::Start { target: t }),
        tag_of(node) is Some && is_text(tag_of(node)->Some_0, "stop"@) && target_in(node, t)
            ==> command_read(node, Command::Stop { target: t }),
        tag_of(node) is Some && is_text(tag_of(node)->Some_0, "down"@) && target_in(node, t)
            ==> command_read(node, Command::Down { target: t }),
        tag_of(node) is Some && is_text(tag_of(node)->Some_0, "kill"@) && target_in(node, t)
            ==> command_read(node, Command::Kill { target: t }),
        tag_of(node) is Some && is_text(tag_of(node)->Some_0, "veto"@) && target_in(node, t)
            ==> command_read(node, Command::Veto { target: t }),
        tag_of(node) is Some && is_text(tag_of(node)->Some_0, "restart"@) && target_in(node, t)
            ==> command_read(node, Command::Restart { target: t }),
        tag_of(node) is Some && is_text(tag_of(node)->Some_0, "force-restart"@) && target_in(node, t)
            ==> command_read(node, Command::ForceRestart { target: t }),
        tag_of(node) is Some && is_text(tag_of(node)->Some_0, "quit"@) && (node is Obj || (node
            matches Node::List(items) && items@.len() == 1)) ==> command_read(node, Command::Quit),
{
}

/// Where the word of a command stands, and where what it is about: in an object
/// under their names, in a list in their order, and nowhere else.
pub proof fn law_places_of_words(fields: Vec<(String, Node)>, items: Vec<Node>, t: CommandTarget)
    ensures
        tag_of(Node::Obj(fields)) == field(fields@, "command"@),
        items@.len() > 0 ==> tag_of(Node::List(items)) == Some(items@[0]),
        items@.len() == 0 ==> tag_of(Node::List(items)) is None,
        target_in(Node::Obj(fields), t) <==> (field(fields@, "target"@) matches Some(part)
            && target_read(part, t)),
        target_in(Node::List(items), t) <==> items@.len() == 2 && target_read(items@[1], t),
{
}

/// How targets of commands are read: a text as a selector, an object with an id as
/// that task, an object with a space as all its tasks.
pub proof fn law_targets_as_read(node: Node, t: CommandTarget)
    requires
        target_read(node, t),
    ensures
        node is Text ==> t is Selector && t->Selector_0@ == node->Text_0@,
        node is Obj ==> t is Id || t is All,
        t is Id ==> node is Obj && field(node->Obj_0@, "id"@) == Some(
            Node::Int(t->id.0 as i128),
        ),
        t is All ==> node is Obj && (field(node->Obj_0@, "all"@) matches Some(Node::Text(s)) && s@
            == t->all@),
        t is Selector ==> node is Text,
{
}

/// What is written of a command: its word under `command`, and its target under
/// `target`.
pub proof fn law_commands_as_written(node: Node, t: CommandTarget)
    ensures
        command_written(node, Command::Start { target: t }) ==> (field(node->Obj_0@, "command"@)
            matches Some(tag) && is_text(tag, "start"@)) && (field(node->Obj_0@, "target"@)
            matches Some(part) && target_written(part, t)),
        command_written(node, Command::Stop { target: t }) ==> (field(node->Obj_0@, "command"@)
            matches Some(tag) && is_text(tag, "stop"@)) && (field(node->Obj_0@, "target"@)
            matches Some(part) && target_written(part, t)),
        command_written(node, Command::Down { target: t }) ==> (field(node->Obj_0@, "command"@)
            matches Some(tag) && is_text(tag, "down"@)) && (field(node->Obj_0@, "target"@)
            matches Some(part) && target_written(part, t)),
        command_written(node, Command::Kill { target: t }) ==> (field(node->Obj_0@, "command"@)
            matches Some(tag) && is_text(tag, "kill"@)) && (field(node->Obj_0@, "target"@)
            matches Some(part) && target_written(part, t)),
        command_written(node, Command::Veto { target: t }) ==> (field(node->Obj_0@, "command"@)
            matches Some(tag) && is_text(tag, "veto"@)) && (field(node->Obj_0@, "target"@)
            matches Some(part) && target_written(part, t)),
        command_written(node, Command::Restart { target: t }) ==> (field(node->Obj_0@, "command"@)
            matches Some(tag) && is_text(tag, "restart"@)) && (field(node->Obj_0@, "target"@)
            matches Some(part) && target_written(part, t)),
        command_written(node, Command::ForceRestart { target: t }) ==> (field(node->Obj_0@, "command"@)
            matches Some(tag) && is_text(tag, "force-restart"@)) && (field(node->Obj_0@, "target"@)
            matches Some(part) && target_written(part, t)),
        command_written(node, Command::Quit) ==> (field(node->Obj_0@, "command"@) matches Some(tag)
            && is_text(tag, "quit"@)),
{
    lemma_keys_differ();
    if let Node::Obj(fields) = node {
        if fields@.len() > 0 {
            lemma_first_field(fields@, "command"@);
            lemma_first_field(fields@, "target"@);
        }
    }
}

/// A node reads as one command at most: whatever it reads as asks the kernel for
/// the same.
pub proof fn law_nodes_read_as_one_command(node: Node, a: Command, b: Command, nested: bool, ack: bool)
    requires
        reads_as(node, a, nested),
        reads_as(node, b, nested),
    ensures
        crate::command::dispatch_of(a, ack) == crate::command::dispatch_of(b, ack),
    decreases a,
{
    lemma_words_differ();
    assert(command_number(a) == command_number(b));
    match (a, b) {
        (Command::Batch { commands: x }, Command::Batch { commands: y }) => {
            lemma_lists_read_as_one(
                part_of(node, "commands"@, 0, 1)->Some_0->List_0@,
                x@,
                y@,
                ack,
            );
        },
        _ => {},
    }
}

proof fn lemma_lists_read_as_one(nodes: Seq<Node>, a: Seq<Command>, b: Seq<Command>, ack: bool)
    requires
        commands_read(nodes, a),
        commands_read(nodes, b),
    ensures
        crate::command::dispatch_all(a, ack) == crate::command::dispatch_all(b, ack),
    decreases a,
{
    if a.len() > 0 {
        lemma_lists_read_as_one(nodes.drop_last(), a.drop_last(), b.drop_last(), ack);
        law_nodes_read_as_one_command(nodes.last(), a.last(), b.last(), true, ack);
    }
}

/// A batch is read command by command, in its order; within a batch a command may
/// also be named by its number.
pub proof fn law_batches_are_read_in_order(nodes: Seq<Node>, commands: Seq<Command>, node: Node, c: Command)
    ensures
        commands_read(nodes.push(node), commands.push(c)) <==> commands_read(nodes, commands)
            && reads_as(node, c, true),
        command_read(node, c) ==> reads_as(node, c, true),
        command_read(node, c) ==> tag_of(node)->Some_0 is Text,
{
    assert(nodes.push(node).drop_last() =~= nodes);
    assert(commands.push(c).drop_last() =~= commands);
}

/// The numbers of commands within a batch.
pub proof fn law_numbers_of_commands(n: i128, c: Command)
    ensures
        names_command(Node::Int(n), c, true) <==> {
            ||| n == 0 && c is Batch
            ||| n == 1 && c is Quit
            ||| n == 2 && c is Start
            ||| n == 3 && c is Stop
            ||| n == 4 && c is Down
            ||| n == 5 && c is Kill
            ||| n == 6 && c is Veto
            ||| n == 7 && c is Restart
            ||| n == 8 && c is ForceRestart
        },
        !names_command(Node::Int(n), c, false),
{
}

/// A text reads as the target that it parses as, and an object with an id as that
/// task; nothing else reads as a target.
pub proof fn law_references_as_read(node: Node, t: TargetView)
    ensures
        reference_read(node, t) <==> {
            ||| node is Text && target_of(node->Text_0@) == Ok::<TargetView, Seq<char>>(t)
            ||| node is Obj && t is Id && field(node->Obj_0@, "id"@) == Some(
                Node::Int(t->Id_0.0 as i128),
            )
        },
        node is Text && target_of(node->Text_0@) is Err ==> reference_fault(node)
            == "invalid target: "@ + target_of(node->Text_0@)->Err_0,
        node !is Text ==> reference_fault(node) == "not a target"@,
{
}

} // verus!
