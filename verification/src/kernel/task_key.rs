//! Task spaces, and keys that name one task across spaces.

use vstd::prelude::*;

use crate::kernel::task_path::TaskPath;
use crate::text::{alnum, chars_of, is_alnum, same_str, string_of};

verus! {

/// A space holds tasks under their paths. The default space has no name.
#[derive(Debug)]
pub struct TaskSpaceId(String);

/// A character that a space name may hold.
pub open spec fn valid_space_char(c: char) -> bool {
    is_alnum(c) || c == '-' || c == '_' || c == '.'
}

/// `name` is the name of a space other than the default one.
pub open spec fn is_space_name(name: Seq<char>) -> bool {
    name.len() > 0 && forall|i: int| 0 <= i < name.len() ==> valid_space_char(#[trigger] name[i])
}

/// The name of the runner's own space.
pub open spec fn dekit_space() -> Seq<char> {
    seq!['d', 'e', 'k', 'i', 't']
}

/// Why `name` names no space.
pub open spec fn space_fault(name: Seq<char>) -> Seq<char> {
    if name.len() == 0 {
        "space name is empty"@
    } else {
        "space name contains an invalid character"@
    }
}

impl View for TaskSpaceId {
    type V = Seq<char>;

    closed spec fn view(&self) -> Seq<char> {
        self.0@
    }
}

impl TaskSpaceId {
    /// The space with a name that was written down before.
    pub fn of_text(name: &str) -> (r: Self)
        ensures
            r@ == name@,
    {
        TaskSpaceId(name.to_string())
    }
}

impl Clone for TaskSpaceId {
    fn clone(&self) -> (r: Self)
        ensures
            r == *self,
    {
        TaskSpaceId(self.0.clone())
    }
}

impl PartialEq for TaskSpaceId {
    fn eq(&self, other: &Self) -> (r: bool) {
        self.0 == other.0
    }
}

impl vstd::std_specs::cmp::PartialEqSpecImpl for TaskSpaceId {
    open spec fn obeys_eq_spec() -> bool {
        true
    }

    open spec fn eq_spec(&self, other: &Self) -> bool {
        self@ == other@
    }
}

impl Eq for TaskSpaceId {

}

impl TaskSpaceId {
    /// The name is empty or a space name.
    pub open spec fn wf(&self) -> bool {
        self@.len() == 0 || is_space_name(self@)
    }

    /// The default space.
    pub fn default_space() -> (r: Self)
        ensures
            r@ == Seq::<char>::empty(),
            r.wf(),
    {
        TaskSpaceId(String::new())
    }

    /// The runner's own space.
    pub fn dekit() -> (r: Self)
        ensures
            r@ == dekit_space(),
            r.wf(),
    {
        proof {
            reveal_strlit("dekit");
            assert("dekit"@ =~= dekit_space());
        }
        TaskSpaceId("dekit".to_string())
    }

    /// The space with the given name.
    pub fn new(name: &str) -> (r: Result<Self, String>)
        ensures
            match r {
                Ok(space) => is_space_name(name@) && space@ == name@ && space.wf(),
                Err(message) => !is_space_name(name@) && message@ == space_fault(name@),
            },
    {
        let chars = chars_of(name);
        if chars.len() == 0 {
            return Err("space name is empty".to_string());
        }
        for i in 0..chars.len()
            invariant
                chars@ == name@,
                chars@.len() > 0,
                forall|j: int| 0 <= j < i ==> valid_space_char(#[trigger] chars@[j]),
        {
            let c = chars[i];
            if !(alnum(c) || c == '-' || c == '_' || c == '.') {
                return Err("space name contains an invalid character".to_string());
            }
        }
        Ok(TaskSpaceId(string_of(chars.as_slice())))
    }

    /// Whether this is the default space.
    pub fn is_default(&self) -> (r: bool)
        ensures
            r == (self@.len() == 0),
    {
        self.0.as_str().is_empty()
    }

    /// Whether this is the runner's own space.
    pub fn is_reserved(&self) -> (r: bool)
        ensures
            r == (self@ == dekit_space()),
    {
        *self == Self::dekit()
    }

    /// The name of the space.
    pub fn as_str(&self) -> (r: &str)
        ensures
            r@ == self@,
    {
        self.0.as_str()
    }

    /// The name of the space.
    pub fn to_string(&self) -> (r: String)
        ensures
            r@ == self@,
    {
        self.0.clone()
    }
}

impl Default for TaskSpaceId {
    fn default() -> (r: Self)
        ensures
            r@ == Seq::<char>::empty(),
    {
        Self::default_space()
    }
}

/// Names one task: a path inside a space.
#[derive(Debug)]
pub struct TaskKey {
    pub space: TaskSpaceId,
    pub path: TaskPath,
}

/// A key as text: the bare path in the default space, else `@space/path`.
pub open spec fn key_text(space: Seq<char>, path: Seq<char>) -> Seq<char> {
    if space.len() == 0 {
        path
    } else {
        seq!['@'] + space + seq!['/'] + path
    }
}

impl View for TaskKey {
    type V = (Seq<char>, Seq<char>);

    open spec fn view(&self) -> (Seq<char>, Seq<char>) {
        (self.space@, self.path@)
    }
}

impl Clone for TaskKey {
    fn clone(&self) -> (r: Self)
        ensures
            r == *self,
    {
        TaskKey { space: self.space.clone(), path: self.path.clone() }
    }
}

impl PartialEq for TaskKey {
    fn eq(&self, other: &Self) -> (r: bool) {
        self.space == other.space && same_str(self.path.as_str(), other.path.as_str())
    }
}

impl vstd::std_specs::cmp::PartialEqSpecImpl for TaskKey {
    open spec fn obeys_eq_spec() -> bool {
        true
    }

    open spec fn eq_spec(&self, other: &Self) -> bool {
        self@ == other@
    }
}

impl Eq for TaskKey {

}

impl TaskKey {
    /// The key of `path` in `space`.
    pub fn new(space: TaskSpaceId, path: TaskPath) -> (r: Self)
        ensures
            r.space == space,
            r.path == path,
    {
        TaskKey { space, path }
    }

    /// The key of `path` in the default space.
    pub fn default_space(path: TaskPath) -> (r: Self)
        ensures
            r.space@ == Seq::<char>::empty(),
            r.path == path,
    {
        Self::new(TaskSpaceId::default_space(), path)
    }

    /// The key as text.
    pub fn to_string(&self) -> (r: String)
        ensures
            r@ == key_text(self.space@, self.path@),
    {
        if self.space.is_default() {
            self.path.to_string()
        } else {
            let mut out = String::new();
            out.push('@');
            out.append(self.space.as_str());
            out.push('/');
            out.append(self.path.as_str());
            assert(out@ =~= key_text(self.space@, self.path@));
            out
        }
    }
}

/// A space is named by ASCII letters, digits, `-`, `_` and `.`, and by nothing
/// else; the runner's own space is one of those names.
pub proof fn law_space_names(name: Seq<char>)
    ensures
        is_space_name(name) <==> name.len() > 0 && forall|i: int|
            0 <= i < name.len() ==> {
                let c = #[trigger] name[i];
                ('a' <= c <= 'z') || ('A' <= c <= 'Z') || ('0' <= c <= '9') || c == '-' || c == '_'
                    || c == '.'
            },
        is_space_name(dekit_space()),
        dekit_space() == "dekit"@,
{
    reveal_strlit("dekit");
    assert("dekit"@ =~= dekit_space());
}

/// Different keys have different texts, as long as no path begins with `@` and no
/// space name holds a slash.
pub proof fn law_keys_have_their_own_texts(
    a: (Seq<char>, Seq<char>),
    b: (Seq<char>, Seq<char>),
)
    requires
        a.0.len() == 0 || is_space_name(a.0),
        b.0.len() == 0 || is_space_name(b.0),
        a.1.len() == 0 || a.1[0] != '@',
        b.1.len() == 0 || b.1[0] != '@',
        key_text(a.0, a.1) == key_text(b.0, b.1),
    ensures
        a == b,
{
    let (s, t) = (key_text(a.0, a.1), key_text(b.0, b.1));
    if a.0.len() == 0 || b.0.len() == 0 {
        if a.0.len() > 0 {
            assert(s[0] == '@');
        }
        if b.0.len() > 0 {
            assert(t[0] == '@');
        }
        assert(a.0 =~= b.0);
        assert(a.1 == b.1);
    } else {
        let (m, n) = (a.0.len() as int, b.0.len() as int);
        assert(s[m + 1] == '/' && t[n + 1] == '/');
        if m < n {
            assert(t[m + 1] == b.0[m]);
            assert(valid_space_char(b.0[m]));
        }
        if n < m {
            assert(s[n + 1] == a.0[n]);
            assert(valid_space_char(a.0[n]));
        }
        assert(a.0 =~= b.0) by {
            assert forall|i: int| 0 <= i < m implies a.0[i] == b.0[i] by {
                assert(s[i + 1] == a.0[i] && t[i + 1] == b.0[i]);
            }
        }
        assert(a.1 =~= b.1) by {
            assert(s.len() == m + 2 + a.1.len());
            assert forall|i: int| 0 <= i < a.1.len() implies a.1[i] == b.1[i] by {
                assert(s[i + m + 2] == a.1[i] && t[i + m + 2] == b.1[i]);
            }
        }
    }
}

/// The text of a key ends in its path. In the default space it is the path; in
/// another it begins with `@`, the name of the space and a slash.
pub proof fn law_key_texts(space: Seq<char>, path: Seq<char>)
    ensures
        key_text(Seq::empty(), path) == path,
        space.len() > 0 ==> key_text(space, path).len() == space.len() + path.len() + 2
            && key_text(space, path)[0] == '@' && key_text(space, path).subrange(
            1,
            space.len() as int + 1,
        ) == space && key_text(space, path)[space.len() as int + 1] == '/' && key_text(
            space,
            path,
        ).skip(space.len() as int + 2) == path,
{
    if space.len() > 0 {
        let s = key_text(space, path);
        assert(s.subrange(1, space.len() as int + 1) =~= space);
        assert(s.skip(space.len() as int + 2) =~= path);
    }
}

} // verus!
