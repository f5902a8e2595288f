//! The codes of errors and farewells.

use vstd::prelude::*;

use crate::text::same_str;

verus! {

/// Why a request failed or a connection ends.
#[derive(Clone, Copy, Debug, PartialEq, Eq, Structural)]
pub enum Code {
    BadTarget,
    InvalidParams,
    NoMatch,
    Ambiguous,
    NoScreen,
    PathTaken,
    Internal,
    Quit,
    TaskExited,
}

impl Code {
    /// The word for a code.
    pub open spec fn word(self) -> Seq<char> {
        match self {
            Code::BadTarget => "bad_target"@,
            Code::InvalidParams => "invalid_params"@,
            Code::NoMatch => "no_match"@,
            Code::Ambiguous => "ambiguous"@,
            Code::NoScreen => "no_screen"@,
            Code::PathTaken => "path_taken"@,
            Code::Internal => "internal"@,
            Code::Quit => "quit"@,
            Code::TaskExited => "task_exited"@,
        }
    }

    /// The word for the code.
    pub fn as_str(&self) -> (r: &'static str)
        ensures
            r@ == self.word(),
    {
        match self {
            Code::BadTarget => "bad_target",
            Code::InvalidParams => "invalid_params",
            Code::NoMatch => "no_match",
            Code::Ambiguous => "ambiguous",
            Code::NoScreen => "no_screen",
            Code::PathTaken => "path_taken",
            Code::Internal => "internal",
            Code::Quit => "quit",
            Code::TaskExited => "task_exited",
        }
    }

    /// The code that a word names.
    pub fn from_word(word: &str) -> (r: Option<Code>)
        ensures
            match r {
                Some(code) => code.word() == word@,
                None => forall|code: Code| #[trigger] code.word() != word@,
            },
    {
        if same_str(word, "bad_target") {
            Some(Code::BadTarget)
        } else if same_str(word, "invalid_params") {
            Some(Code::InvalidParams)
        } else if same_str(word, "no_match") {
            Some(Code::NoMatch)
        } else if same_str(word, "ambiguous") {
            Some(Code::Ambiguous)
        } else if same_str(word, "no_screen") {
            Some(Code::NoScreen)
        } else if same_str(word, "path_taken") {
            Some(Code::PathTaken)
        } else if same_str(word, "internal") {
            Some(Code::Internal)
        } else if same_str(word, "quit") {
            Some(Code::Quit)
        } else if same_str(word, "task_exited") {
            Some(Code::TaskExited)
        } else {
            None
        }
    }
}

/// Different codes have different words.
pub proof fn law_codes_are_told_apart(a: Code, b: Code)
    requires
        a.word() == b.word(),
    ensures
        a == b,
{
    reveal_strlit("bad_target");
    reveal_strlit("invalid_params");
    reveal_strlit("no_match");
    reveal_strlit("ambiguous");
    reveal_strlit("no_screen");
    reveal_strlit("path_taken");
    reveal_strlit("internal");
    reveal_strlit("quit");
    reveal_strlit("task_exited");
    assert("bad_target"@[0] == 'b');
    assert("invalid_params"@[2] == 'v');
    assert("no_match"@[3] == 'm');
    assert("ambiguous"@[0] == 'a');
    assert("no_screen"@[3] == 's');
    assert("path_taken"@[0] == 'p');
    assert("internal"@[2] == 't');
    assert("quit"@[0] == 'q');
    assert("task_exited"@[0] == 't');
    assert("invalid_params"@[0] == 'i' && "internal"@[0] == 'i');
    assert("no_match"@[0] == 'n' && "no_screen"@[0] == 'n');
}

/// The words of the codes.
pub proof fn law_words_of_codes()
    ensures
        Code::BadTarget.word() == "bad_target"@,
        Code::InvalidParams.word() == "invalid_params"@,
        Code::NoMatch.word() == "no_match"@,
        Code::Ambiguous.word() == "ambiguous"@,
        Code::NoScreen.word() == "no_screen"@,
        Code::PathTaken.word() == "path_taken"@,
        Code::Internal.word() == "internal"@,
        Code::Quit.word() == "quit"@,
        Code::TaskExited.word() == "task_exited"@,
{
}

} // verus!
