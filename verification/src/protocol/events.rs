//! The events that a client sends.

use vstd::prelude::*;

use crate::text::same_str;

verus! {

/// What an event is about.
#[derive(Clone, Copy, Debug, PartialEq, Eq, Structural)]
pub enum EventKind {
    Input,
    Screen,
    Other,
}

/// What an event of a given name is about.
pub open spec fn kind_of(name: Seq<char>) -> EventKind {
    if name == "input"@ {
        EventKind::Input
    } else if name == "screen"@ {
        EventKind::Screen
    } else {
        EventKind::Other
    }
}

/// What the event `name` is about.
pub fn event_kind(name: &str) -> (r: EventKind)
    ensures
        r == kind_of(name@),
{
    if same_str(name, "input") {
        EventKind::Input
    } else if same_str(name, "screen") {
        EventKind::Screen
    } else {
        EventKind::Other
    }
}

/// The names of the events that mean something; every other name means nothing.
pub proof fn law_names_of_events(name: Seq<char>)
    ensures
        kind_of("input"@) == EventKind::Input,
        kind_of("screen"@) == EventKind::Screen,
        name != "input"@ && name != "screen"@ ==> kind_of(name) == EventKind::Other,
{
    reveal_strlit("input");
    reveal_strlit("screen");
    assert("input"@.len() == 5);
    assert("screen"@.len() == 6);
}

} // verus!
