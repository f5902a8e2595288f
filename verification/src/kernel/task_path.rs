//! Task paths such as `web/api`, and the globs that select them.

use vstd::prelude::*;

use crate::text::{alnum, chars_of, is_alnum, same, string_of};

verus! {

/// A path names one task inside a space. The root path is empty.
#[derive(Debug)]
pub struct TaskPath(String);

/// Why a text is not a path or a glob.
#[derive(Clone, Copy, Debug, PartialEq, Eq, Structural)]
pub enum InvalidPath {
    Empty,
    EmptyComponent,
    BadCharacter,
}

/// A character that a path component may hold.
pub open spec fn valid_component_char(c: char) -> bool {
    is_alnum(c) || c == '-' || c == '_' || c == '.'
}

/// Whether a path component may hold `c`.
pub fn is_valid_component_char(c: char) -> (r: bool)
    ensures
        r == valid_component_char(c),
{
    alnum(c) || c == '-' || c == '_' || c == '.'
}

/// Every character of `s` may stand in a path component.
pub open spec fn all_component_chars(s: Seq<char>) -> bool {
    forall|i: int| 0 <= i < s.len() ==> valid_component_char(#[trigger] s[i])
}

/// Whether every character of `s` may stand in a path component.
pub fn only_component_chars(s: &[char]) -> (r: bool)
    ensures
        r == all_component_chars(s@),
{
    for i in 0..s.len()
        invariant
            forall|j: int| 0 <= j < i ==> valid_component_char(#[trigger] s@[j]),
    {
        if !is_valid_component_char(s[i]) {
            return false;
        }
    }
    true
}

/// The pieces of `s` between slashes: one more than there are slashes.
pub open spec fn pieces(s: Seq<char>) -> Seq<Seq<char>>
    decreases s.len(),
{
    if s.len() == 0 {
        seq![Seq::<char>::empty()]
    } else {
        let before = pieces(s.drop_last());
        if s.last() == '/' {
            before.push(Seq::<char>::empty())
        } else {
            before.drop_last().push(before.last().push(s.last()))
        }
    }
}

/// The components of a path or a glob: the root has none.
pub open spec fn components(s: Seq<char>) -> Seq<Seq<char>> {
    if s.len() == 0 {
        Seq::empty()
    } else {
        pieces(s)
    }
}

/// The views of a list of pieces.
pub open spec fn piece_views(v: Seq<Vec<char>>) -> Seq<Seq<char>> {
    v.map_values(|p: Vec<char>| p@)
}

/// Splits a path or a glob into its components.
pub fn split_components(s: &[char]) -> (r: Vec<Vec<char>>)
    ensures
        piece_views(r@) == components(s@),
{
    let mut done: Vec<Vec<char>> = Vec::new();
    let mut cur: Vec<char> = Vec::new();
    if s.len() == 0 {
        assert(piece_views(done@) =~= components(s@));
        return done;
    }
    assert(s@.take(0) =~= Seq::<char>::empty());
    assert(piece_views(done@).push(cur@) =~= pieces(s@.take(0)));
    for i in 0..s.len()
        invariant
            piece_views(done@).push(cur@) == pieces(s@.take(i as int)),
    {
        let c = s[i];
        let ghost before = piece_views(done@);
        let ghost word = cur@;
        proof {
            let t = s@.take(i + 1);
            assert(t.drop_last() =~= s@.take(i as int));
            assert(t.last() == c);
            assert(before.push(word).drop_last() =~= before);
            assert(before.push(word).last() == word);
        }
        if c == '/' {
            let ghost old_done = done@;
            done.push(cur);
            cur = Vec::new();
            assert(piece_views(done@) =~= before.push(word));
        } else {
            cur.push(c);
        }
    }
    assert(s@.take(s@.len() as int) =~= s@);
    let ghost before = piece_views(done@);
    let ghost word = cur@;
    done.push(cur);
    assert(piece_views(done@) =~= before.push(word));
    done
}

/// The one-component and the any-depth wildcard.
pub open spec fn is_wildcard(p: Seq<char>) -> bool {
    p == seq!['*'] || p == seq!['*', '*']
}

/// What is wrong with one component, where `glob` lets it be a wildcard.
pub open spec fn component_fault(p: Seq<char>, glob: bool) -> Option<InvalidPath> {
    if glob && is_wildcard(p) {
        None
    } else if p.len() == 0 {
        Some(InvalidPath::EmptyComponent)
    } else if !all_component_chars(p) {
        Some(InvalidPath::BadCharacter)
    } else {
        None
    }
}

/// The fault of the first bad component from `from` on.
pub open spec fn first_fault(parts: Seq<Seq<char>>, glob: bool, from: int) -> Option<InvalidPath>
    decreases parts.len() - from,
{
    if from < 0 || from >= parts.len() {
        None
    } else if component_fault(parts[from], glob) is Some {
        component_fault(parts[from], glob)
    } else {
        first_fault(parts, glob, from + 1)
    }
}

/// What is wrong with `s` as a path, or as a glob.
pub open spec fn path_fault(s: Seq<char>, glob: bool) -> Option<InvalidPath> {
    if s.len() == 0 {
        Some(InvalidPath::Empty)
    } else {
        first_fault(components(s), glob, 0)
    }
}

/// `s` is the text of a path that is not the root.
pub open spec fn is_path(s: Seq<char>) -> bool {
    path_fault(s, false) is None
}

/// `s` is the text of a glob.
pub open spec fn is_glob(s: Seq<char>) -> bool {
    path_fault(s, true) is None
}

fn fault_of_component(p: &[char], glob: bool) -> (r: Option<InvalidPath>)
    ensures
        r == component_fault(p@, glob),
{
    if glob {
        if p.len() == 1 && p[0] == '*' {
            assert(p@ =~= seq!['*']);
            return None;
        }
        if p.len() == 2 && p[0] == '*' && p[1] == '*' {
            assert(p@ =~= seq!['*', '*']);
            return None;
        }
    }
    if p.len() == 0 {
        Some(InvalidPath::EmptyComponent)
    } else if !only_component_chars(p) {
        Some(InvalidPath::BadCharacter)
    } else {
        None
    }
}

fn fault_of(s: &[char], glob: bool) -> (r: Option<InvalidPath>)
    ensures
        r == path_fault(s@, glob),
{
    if s.len() == 0 {
        return Some(InvalidPath::Empty);
    }
    let parts = split_components(s);
    for i in 0..parts.len()
        invariant
            piece_views(parts@) == components(s@),
            path_fault(s@, glob) == first_fault(components(s@), glob, i as int),
    {
        let ghost views = piece_views(parts@);
        assert(views[i as int] == parts@[i as int]@);
        let fault = fault_of_component(parts[i].as_slice(), glob);
        if fault.is_some() {
            return fault;
        }
    }
    None
}

/// A path matches a glob: `*` stands for one component and `**` for any number.
pub open spec fn glob_matches(glob: Seq<Seq<char>>, path: Seq<Seq<char>>) -> bool
    decreases glob.len() + path.len(),
{
    if glob.len() == 0 {
        path.len() == 0
    } else if glob[0] == seq!['*', '*'] {
        glob_matches(glob.skip(1), path) || (path.len() > 0 && glob_matches(glob, path.skip(1)))
    } else {
        path.len() > 0 && (glob[0] == seq!['*'] || glob[0] == path[0]) && glob_matches(
            glob.skip(1),
            path.skip(1),
        )
    }
}

/// Whether the components from `j` of `path` match those from `i` of `glob`.
pub fn matches_from(glob: &Vec<Vec<char>>, path: &Vec<Vec<char>>, i: usize, j: usize) -> (r: bool)
    requires
        i <= glob.len(),
        j <= path.len(),
    ensures
        r == glob_matches(piece_views(glob@).skip(i as int), piece_views(path@).skip(j as int)),
    decreases glob.len() - i + path.len() - j,
{
    let ghost g = piece_views(glob@).skip(i as int);
    let ghost p = piece_views(path@).skip(j as int);
    if i == glob.len() {
        return j == path.len();
    }
    proof {
        assert(g[0] == glob@[i as int]@);
        assert(g.skip(1) =~= piece_views(glob@).skip(i + 1));
        if j < path.len() {
            assert(p[0] == path@[j as int]@);
            assert(p.skip(1) =~= piece_views(path@).skip(j + 1));
        }
    }
    let head = &glob[i];
    let deep = head.len() == 2 && head[0] == '*' && head[1] == '*';
    let any = head.len() == 1 && head[0] == '*';
    proof {
        if deep {
            assert(head@ =~= seq!['*', '*']);
        }
        if any {
            assert(head@ =~= seq!['*']);
        }
    }
    if deep {
        matches_from(glob, path, i + 1, j) || (j < path.len() && matches_from(glob, path, i, j + 1))
    } else {
        j < path.len() && (any || same(head.as_slice(), path[j].as_slice())) && matches_from(
            glob,
            path,
            i + 1,
            j + 1,
        )
    }
}

/// `below` names something under `above`.
pub open spec fn is_below(below: Seq<char>, above: Seq<char>) -> bool {
    if above.len() == 0 {
        below.len() > 0
    } else {
        above.len() < below.len() && above == below.take(above.len() as int)
            && below[above.len() as int] == '/'
    }
}

impl View for TaskPath {
    type V = Seq<char>;

    closed spec fn view(&self) -> Seq<char> {
        self.0@
    }
}

impl Clone for TaskPath {
    fn clone(&self) -> (r: Self)
        ensures
            r == *self,
    {
        TaskPath(self.0.clone())
    }
}

impl TaskPath {
    /// The text is empty or the text of a path.
    pub open spec fn wf(&self) -> bool {
        self@.len() == 0 || is_path(self@)
    }

    /// The root path.
    pub fn root() -> (r: Self)
        ensures
            r@ == Seq::<char>::empty(),
            r.wf(),
    {
        TaskPath(String::new())
    }

    /// The path with the given text.
    pub fn new(text: &str) -> (r: Result<Self, InvalidPath>)
        ensures
            match r {
                Ok(path) => is_path(text@) && path@ == text@ && path.wf(),
                Err(fault) => path_fault(text@, false) == Some(fault),
            },
    {
        let chars = chars_of(text);
        match fault_of(chars.as_slice(), false) {
            Some(fault) => Err(fault),
            None => Ok(TaskPath(string_of(chars.as_slice()))),
        }
    }

    /// Whether `text` is a glob.
    pub fn check_glob(text: &str) -> (r: Result<(), InvalidPath>)
        ensures
            match r {
                Ok(()) => is_glob(text@),
                Err(fault) => path_fault(text@, true) == Some(fault),
            },
    {
        let chars = chars_of(text);
        match fault_of(chars.as_slice(), true) {
            Some(fault) => Err(fault),
            None => Ok(()),
        }
    }

    /// The text of the path.
    pub fn as_str(&self) -> (r: &str)
        ensures
            r@ == self@,
    {
        self.0.as_str()
    }

    /// The text of the path.
    pub fn to_string(&self) -> (r: String)
        ensures
            r@ == self@,
    {
        self.0.clone()
    }

    /// The last component; empty for the root.
    pub fn name(&self) -> (r: String)
        ensures
            r@ == pieces(self@).last(),
    {
        let chars = chars_of(self.0.as_str());
        let parts = split_components(chars.as_slice());
        if parts.len() == 0 {
            proof {
                lemma_pieces_nonempty(self@);
            }
            return String::new();
        }
        proof {
            let views = piece_views(parts@);
            assert(views.last() == parts@[parts@.len() - 1]@);
        }
        string_of(parts[parts.len() - 1].as_slice())
    }

    /// Whether the path matches `glob`.
    pub fn matches(&self, glob: &str) -> (r: bool)
        ensures
            r == glob_matches(components(glob@), components(self@)),
    {
        let g = chars_of(glob);
        let p = chars_of(self.0.as_str());
        let glob_parts = split_components(g.as_slice());
        let path_parts = split_components(p.as_slice());
        proof {
            assert(piece_views(glob_parts@).skip(0) =~= piece_views(glob_parts@));
            assert(piece_views(path_parts@).skip(0) =~= piece_views(path_parts@));
        }
        matches_from(&glob_parts, &path_parts, 0, 0)
    }

    /// Whether the path lies under `above`.
    pub fn is_under(&self, above: &TaskPath) -> (r: bool)
        ensures
            r == is_below(self@, above@),
    {
        let a = chars_of(above.0.as_str());
        let b = chars_of(self.0.as_str());
        if a.len() == 0 {
            return b.len() > 0;
        }
        if a.len() >= b.len() || b[a.len()] != '/' {
            return false;
        }
        assert(b@.subrange(0, a@.len() as int) =~= b@.take(a@.len() as int));
        same(a.as_slice(), vstd::slice::slice_subrange(b.as_slice(), 0, a.len()))
    }
}

impl InvalidPath {
    /// The message for a fault.
    pub open spec fn message(self) -> Seq<char> {
        match self {
            InvalidPath::Empty => "path is empty"@,
            InvalidPath::EmptyComponent => "path component is empty"@,
            InvalidPath::BadCharacter => "path contains an invalid character"@,
        }
    }

    /// The message for the fault.
    pub fn to_string(&self) -> (r: String)
        ensures
            r@ == self.message(),
    {
        match self {
            InvalidPath::Empty => "path is empty".to_string(),
            InvalidPath::EmptyComponent => "path component is empty".to_string(),
            InvalidPath::BadCharacter => "path contains an invalid character".to_string(),
        }
    }
}

pub proof fn lemma_pieces_nonempty(s: Seq<char>)
    ensures
        pieces(s).len() > 0,
    decreases s.len(),
{
    if s.len() > 0 {
        lemma_pieces_nonempty(s.drop_last());
    }
}

/// A `**` stands for any number of components: what follows it matches some rest
/// of the path, the whole path and the empty rest among them.
pub proof fn law_deep_wildcard(rest: Seq<Seq<char>>, path: Seq<Seq<char>>)
    ensures
        glob_matches(seq![seq!['*', '*']] + rest, path) <==> exists|k: int|
            0 <= k <= path.len() && glob_matches(rest, #[trigger] path.skip(k)),
    decreases path.len(),
{
    let glob = seq![seq!['*', '*']] + rest;
    assert(glob.skip(1) =~= rest);
    assert(path.skip(0) =~= path);
    if path.len() > 0 {
        let tail = path.skip(1);
        law_deep_wildcard(rest, tail);
        assert forall|k: int| 0 <= k <= tail.len() implies #[trigger] tail.skip(k) == path.skip(
            k + 1,
        ) by {
            assert(tail.skip(k) =~= path.skip(k + 1));
        }
        if glob_matches(glob, tail) {
            let k = choose|k: int|
                0 <= k <= tail.len() && glob_matches(rest, #[trigger] tail.skip(k));
            assert(glob_matches(rest, path.skip(k + 1)));
        }
        assert forall|k: int|
            0 <= k <= path.len() && glob_matches(
                rest,
                #[trigger] path.skip(k),
            ) implies glob_matches(glob, path) by {
            if k > 0 {
                assert(tail.skip(k - 1) == path.skip(k));
            }
        }
    } else {
        assert forall|k: int| 0 <= k <= path.len() implies #[trigger] path.skip(k) == path by {
            assert(path.skip(k) =~= path);
        }
    }
}

/// A glob without `**` matches the paths of its length whose components are those
/// of the glob, but for where the glob has a `*`. Without any wildcard it matches
/// the path that it spells and no other.
pub proof fn law_shallow_glob(glob: Seq<Seq<char>>, path: Seq<Seq<char>>)
    requires
        forall|i: int| 0 <= i < glob.len() ==> #[trigger] glob[i] != seq!['*', '*'],
    ensures
        glob_matches(glob, path) <==> glob.len() == path.len() && forall|i: int|
            0 <= i < glob.len() ==> #[trigger] glob[i] == seq!['*'] || glob[i] == path[i],
        (forall|i: int| 0 <= i < glob.len() ==> #[trigger] glob[i] != seq!['*']) ==> (glob_matches(
            glob,
            path,
        ) <==> glob == path),
    decreases glob.len(),
{
    if glob.len() > 0 && path.len() > 0 {
        let (g, p) = (glob.skip(1), path.skip(1));
        assert forall|i: int| 0 <= i < g.len() implies #[trigger] g[i] != seq!['*', '*'] by {
            assert(g[i] == glob[i + 1]);
        }
        law_shallow_glob(g, p);
        if glob_matches(glob, path) {
            assert forall|i: int| 0 <= i < glob.len() implies #[trigger] glob[i] == seq!['*']
                || glob[i] == path[i] by {
                if i > 0 {
                    assert(g[i - 1] == glob[i] && p[i - 1] == path[i]);
                }
            }
        } else if glob.len() == path.len() && (forall|i: int|
            0 <= i < glob.len() ==> #[trigger] glob[i] == seq!['*'] || glob[i] == path[i]) {
            assert forall|i: int| 0 <= i < g.len() implies #[trigger] g[i] == seq!['*'] || g[i]
                == p[i] by {
                assert(glob[i + 1] == seq!['*'] || glob[i + 1] == path[i + 1]);
            }
            assert(glob[0] == seq!['*'] || glob[0] == path[0]);
        }
    }
    if (forall|i: int| 0 <= i < glob.len() ==> #[trigger] glob[i] != seq!['*']) {
        if glob_matches(glob, path) {
            assert(glob =~= path);
        }
    }
}

/// A path matches two globs in a row if and only if it falls into a part that
/// matches the one and a rest that matches the other.
pub proof fn law_globs_in_a_row(a: Seq<Seq<char>>, b: Seq<Seq<char>>, path: Seq<Seq<char>>)
    ensures
        glob_matches(a + b, path) <==> exists|k: int|
            0 <= k <= path.len() && glob_matches(a, #[trigger] path.take(k)) && glob_matches(
                b,
                path.skip(k),
            ),
    decreases a.len() + path.len(),
{
    if a.len() == 0 {
        assert(a + b =~= b);
        assert(path.take(0) =~= Seq::<Seq<char>>::empty());
        assert(path.skip(0) =~= path);
        assert forall|k: int|
            0 <= k <= path.len() && glob_matches(a, #[trigger] path.take(k)) implies k == 0 by {}
        if glob_matches(b, path) {
            assert(glob_matches(a, path.take(0)));
        }
    } else {
        let glob = a + b;
        let more = a.skip(1);
        assert(glob[0] == a[0]);
        assert(glob.skip(1) =~= more + b);
        let deep = a[0] == seq!['*', '*'];
        law_globs_in_a_row(more, b, path);
        if path.len() > 0 {
            let tail = path.skip(1);
            law_globs_in_a_row(a, b, tail);
            law_globs_in_a_row(more, b, tail);
            assert forall|k: int| 0 <= k <= tail.len() implies #[trigger] tail.take(k) == path.take(
                k + 1,
            ).skip(1) && tail.skip(k) == path.skip(k + 1) && path.take(k + 1)[0] == path[0] by {
                assert(tail.take(k) =~= path.take(k + 1).skip(1));
                assert(tail.skip(k) =~= path.skip(k + 1));
            }
            if glob_matches(glob, path) {
                if deep && glob_matches(more + b, path) {
                    let k = choose|k: int|
                        0 <= k <= path.len() && glob_matches(more, #[trigger] path.take(k))
                            && glob_matches(b, path.skip(k));
                    assert(glob_matches(a, path.take(k)));
                } else if deep {
                    let k = choose|k: int|
                        0 <= k <= tail.len() && glob_matches(a, #[trigger] tail.take(k))
                            && glob_matches(b, tail.skip(k));
                    assert(glob_matches(a, path.take(k + 1)));
                } else {
                    let k = choose|k: int|
                        0 <= k <= tail.len() && glob_matches(more, #[trigger] tail.take(k))
                            && glob_matches(b, tail.skip(k));
                    assert(glob_matches(a, path.take(k + 1)));
                }
            }
            assert forall|k: int|
                0 <= k <= path.len() && glob_matches(a, #[trigger] path.take(k)) && glob_matches(
                    b,
                    path.skip(k),
                ) implies glob_matches(glob, path) by {
                let head = path.take(k);
                if deep && glob_matches(more, head) {
                    assert(glob_matches(more + b, path));
                } else {
                    assert(k > 0);
                    assert(tail.take(k - 1) == head.skip(1));
                    assert(tail.skip(k - 1) == path.skip(k));
                }
            }
        } else {
            assert forall|k: int| 0 <= k <= path.len() implies #[trigger] path.take(k) == path
                && path.skip(k) == path by {
                assert(path.take(k) =~= path);
                assert(path.skip(k) =~= path);
            }
            if glob_matches(glob, path) {
                let k = choose|k: int|
                    0 <= k <= path.len() && glob_matches(more, #[trigger] path.take(k))
                        && glob_matches(b, path.skip(k));
                assert(glob_matches(a, path.take(k)));
            }
        }
    }
}

/// A `**` before a plain name matches exactly the paths with that last component.
pub proof fn law_deep_then_name(name: Seq<char>, path: Seq<Seq<char>>)
    requires
        name != seq!['*'],
        name != seq!['*', '*'],
    ensures
        glob_matches(seq![seq!['*', '*'], name], path) <==> path.len() > 0 && path.last() == name,
{
    let rest = seq![name];
    assert(seq![seq!['*', '*']] + rest =~= seq![seq!['*', '*'], name]);
    law_deep_wildcard(rest, path);
    assert forall|k: int| 0 <= k <= path.len() implies (glob_matches(rest, #[trigger] path.skip(k))
        <==> k == path.len() - 1 && path.last() == name) by {
        law_shallow_glob(rest, path.skip(k));
        if rest == path.skip(k) {
            assert(path.skip(k)[0] == path.last());
        }
        if k == path.len() - 1 && path.last() == name {
            assert(path.skip(k) =~= rest);
        }
    }
    if path.len() > 0 {
        let k = path.len() - 1;
        assert(glob_matches(rest, path.skip(k)) <==> path.last() == name);
    }
}

/// A `**` after a plain name matches exactly the paths with that first component.
pub proof fn law_name_then_deep(name: Seq<char>, path: Seq<Seq<char>>)
    requires
        name != seq!['*'],
        name != seq!['*', '*'],
    ensures
        glob_matches(seq![name, seq!['*', '*']], path) <==> path.len() > 0 && path[0] == name,
        glob_matches(seq![seq!['*', '*']], path),
{
    let glob = seq![name, seq!['*', '*']];
    let none = Seq::<Seq<char>>::empty();
    assert(seq![seq!['*', '*']] + none =~= seq![seq!['*', '*']]);
    assert(glob.skip(1) =~= seq![seq!['*', '*']]);
    law_deep_wildcard(none, path);
    assert(glob_matches(none, path.skip(path.len() as int)));
    if path.len() > 0 {
        law_deep_wildcard(none, path.skip(1));
        let tail = path.skip(1);
        assert(glob_matches(none, tail.skip(tail.len() as int)));
    }
}

/// Pieces put together with a slash between each two of them.
pub open spec fn joined(parts: Seq<Seq<char>>) -> Seq<char>
    decreases parts.len(),
{
    if parts.len() == 0 {
        Seq::empty()
    } else if parts.len() == 1 {
        parts[0]
    } else {
        joined(parts.drop_last()) + seq!['/'] + parts.last()
    }
}

/// The pieces of a text hold no slash, and with slashes between them they are the
/// text again.
pub proof fn law_pieces_make_the_text(s: Seq<char>)
    ensures
        pieces(s).len() > 0,
        forall|k: int| 0 <= k < pieces(s).len() ==> !(#[trigger] pieces(s)[k]).contains('/'),
        joined(pieces(s)) == s,
    decreases s.len(),
{
    if s.len() > 0 {
        let init = s.drop_last();
        let before = pieces(init);
        let parts = pieces(s);
        law_pieces_make_the_text(init);
        if s.last() == '/' {
            assert(parts.drop_last() =~= before);
            assert(joined(parts) =~= s);
        } else {
            let word = before.last();
            assert forall|k: int| 0 <= k < parts.len() implies !(#[trigger] parts[k]).contains(
                '/',
            ) by {
                if k < before.len() - 1 {
                    assert(parts[k] == before[k]);
                } else {
                    assert(!before[k].contains('/'));
                    assert forall|j: int| 0 <= j < parts[k].len() implies parts[k][j] != '/' by {
                        if j < word.len() {
                            assert(word[j] == parts[k][j]);
                            assert(word.contains(word[j]));
                        }
                    }
                }
            }
            assert(parts.drop_last() =~= before.drop_last());
            assert(parts.last() =~= word.push(s.last()));
            assert(joined(before) == init);
            assert(joined(parts) =~= init.push(s.last()));
            assert(init.push(s.last()) =~= s);
        }
    }
}

/// Pieces without a slash, put together with slashes, are the pieces of the text
/// that they make.
pub proof fn law_text_falls_into_its_pieces(parts: Seq<Seq<char>>)
    requires
        parts.len() > 0,
        forall|k: int| 0 <= k < parts.len() ==> !(#[trigger] parts[k]).contains('/'),
    ensures
        pieces(joined(parts)) == parts,
    decreases parts.len(), parts.last().len(),
{
    let word = parts.last();
    let s = joined(parts);
    let init = parts.drop_last();
    if word.len() > 0 {
        let shorter = init.push(word.drop_last());
        assert forall|k: int| 0 <= k < shorter.len() implies !(#[trigger] shorter[k]).contains(
            '/',
        ) by {
            if k < init.len() {
                assert(shorter[k] == parts[k]);
            } else {
                assert(!parts[k].contains('/'));
                assert forall|j: int| 0 <= j < shorter[k].len() implies shorter[k][j] != '/' by {
                    assert(word[j] == shorter[k][j]);
                    assert(word.contains(word[j]));
                }
            }
        }
        law_text_falls_into_its_pieces(shorter);
        assert(shorter.drop_last() =~= init);
        assert(joined(shorter) =~= s.drop_last());
        assert(s.last() == word.last());
        assert(!parts[parts.len() - 1].contains('/'));
        assert(word.contains(word[word.len() - 1]));
        assert(s.last() != '/');
        assert(pieces(s) =~= parts) by {
            assert(word.drop_last().push(word.last()) =~= word);
        }
    } else if parts.len() == 1 {
        assert(s =~= Seq::<char>::empty());
        assert(pieces(s) =~= parts);
    } else {
        assert forall|k: int| 0 <= k < init.len() implies !(#[trigger] init[k]).contains('/') by {
            assert(init[k] == parts[k]);
        }
        law_text_falls_into_its_pieces(init);
        assert(s.drop_last() =~= joined(init));
        assert(s.last() == '/');
        assert(pieces(s) =~= parts) by {
            assert(word =~= Seq::<char>::empty());
        }
    }
}

/// The texts of paths: components of ASCII letters, digits, `-`, `_` and `.`, none
/// of them empty, with slashes between them.
pub proof fn law_path_texts(parts: Seq<Seq<char>>)
    requires
        parts.len() > 0,
        forall|k: int| 0 <= k < parts.len() ==> !(#[trigger] parts[k]).contains('/'),
    ensures
        is_path(joined(parts)) <==> forall|k: int|
            0 <= k < parts.len() ==> (#[trigger] parts[k]).len() > 0 && forall|j: int|
                0 <= j < parts[k].len() ==> {
                    let c = #[trigger] parts[k][j];
                    ('a' <= c <= 'z') || ('A' <= c <= 'Z') || ('0' <= c <= '9') || c == '-' || c
                        == '_' || c == '.'
                },
{
    law_text_falls_into_its_pieces(parts);
    lemma_first_fault(parts, false, 0);
    lemma_joined_empty(parts);
    let s = joined(parts);
    if is_path(s) {
        assert forall|k: int| 0 <= k < parts.len() implies (#[trigger] parts[k]).len() > 0
            && forall|j: int|
            0 <= j < parts[k].len() ==> {
                let c = #[trigger] parts[k][j];
                ('a' <= c <= 'z') || ('A' <= c <= 'Z') || ('0' <= c <= '9') || c == '-' || c == '_'
                    || c == '.'
            } by {
            assert(component_fault(parts[k], false) is None);
        }
    } else if s.len() > 0 {
        let i = choose|i: int|
            0 <= i < parts.len() && component_fault(#[trigger] parts[i], false) == first_fault(
                parts,
                false,
                0,
            ) && forall|j: int| 0 <= j < i ==> component_fault(#[trigger] parts[j], false) is None;
        assert(component_fault(parts[i], false) is Some);
    } else {
        assert(parts[0].len() == 0);
    }
}

/// The texts of globs: as those of paths, but a component may also be `*` or `**`.
pub proof fn law_glob_texts(parts: Seq<Seq<char>>)
    requires
        parts.len() > 0,
        forall|k: int| 0 <= k < parts.len() ==> !(#[trigger] parts[k]).contains('/'),
    ensures
        is_glob(joined(parts)) <==> forall|k: int|
            0 <= k < parts.len() ==> (#[trigger] parts[k] == seq!['*'] || parts[k] == seq!['*', '*']
                || (parts[k].len() > 0 && forall|j: int|
                0 <= j < parts[k].len() ==> {
                    let c = #[trigger] parts[k][j];
                    ('a' <= c <= 'z') || ('A' <= c <= 'Z') || ('0' <= c <= '9') || c == '-' || c
                        == '_' || c == '.'
                })),
{
    law_text_falls_into_its_pieces(parts);
    lemma_first_fault(parts, true, 0);
    lemma_joined_empty(parts);
    let s = joined(parts);
    if is_glob(s) {
        assert forall|k: int| 0 <= k < parts.len() implies (#[trigger] parts[k] == seq!['*']
            || parts[k] == seq!['*', '*'] || (parts[k].len() > 0 && forall|j: int|
            0 <= j < parts[k].len() ==> {
                let c = #[trigger] parts[k][j];
                ('a' <= c <= 'z') || ('A' <= c <= 'Z') || ('0' <= c <= '9') || c == '-' || c == '_'
                    || c == '.'
            })) by {
            assert(component_fault(parts[k], true) is None);
        }
    } else if s.len() > 0 {
        let i = choose|i: int|
            0 <= i < parts.len() && component_fault(#[trigger] parts[i], true) == first_fault(
                parts,
                true,
                0,
            ) && forall|j: int| 0 <= j < i ==> component_fault(#[trigger] parts[j], true) is None;
        assert(component_fault(parts[i], true) is Some);
    } else {
        assert(parts[0].len() == 0);
    }
}

/// Every path is a glob, and as a glob it matches itself and no other path.
pub proof fn law_a_path_matches_itself(a: Seq<char>, b: Seq<char>)
    requires
        is_path(a),
    ensures
        is_glob(a),
        glob_matches(components(a), components(b)) <==> a == b,
{
    let (g, p) = (components(a), components(b));
    law_pieces_make_the_text(a);
    law_pieces_make_the_text(b);
    law_path_texts(g);
    law_glob_texts(g);
    assert forall|i: int| 0 <= i < g.len() implies #[trigger] g[i] != seq!['*', '*'] && g[i]
        != seq!['*'] by {
        let c = g[i][0];
        assert(c != '*');
    }
    law_shallow_glob(g, p);
}

/// What is wrong with a text is what is wrong with its first bad component: that
/// it is empty, or that it holds a character that it must not. The empty text is
/// wrong in its own way.
pub proof fn law_first_bad_component_decides(before: Seq<Seq<char>>, bad: Seq<char>, after: Seq<Seq<char>>)
    requires
        forall|k: int| 0 <= k < before.len() ==> !(#[trigger] before[k]).contains('/'),
        !bad.contains('/'),
        forall|k: int| 0 <= k < after.len() ==> !(#[trigger] after[k]).contains('/'),
        before.len() > 0 ==> is_path(joined(before)),
        before.len() + after.len() > 0,
    ensures
        bad.len() == 0 ==> path_fault(joined(before + seq![bad] + after), false) == Some(
            InvalidPath::EmptyComponent,
        ),
        bad.len() > 0 && !is_path(bad) ==> path_fault(joined(before + seq![bad] + after), false)
            == Some(InvalidPath::BadCharacter),
        path_fault(Seq::empty(), false) == Some(InvalidPath::Empty),
        path_fault(Seq::empty(), true) == Some(InvalidPath::Empty),
{
    let parts = before + seq![bad] + after;
    let n = before.len() as int;
    assert forall|k: int| 0 <= k < parts.len() implies !(#[trigger] parts[k]).contains('/') by {
        if k < n {
            assert(parts[k] == before[k]);
        } else if k > n {
            assert(parts[k] == after[k - n - 1]);
        }
    }
    law_text_falls_into_its_pieces(parts);
    lemma_first_fault(parts, false, 0);
    lemma_joined_empty(parts);
    if before.len() > 0 {
        law_path_texts(before);
    }
    assert forall|k: int| 0 <= k < n implies component_fault(#[trigger] parts[k], false) is None by {
        assert(parts[k] == before[k]);
    }
    assert(parts[n] == bad);
    if bad.len() > 0 {
        assert(joined(seq![bad]) == bad);
        law_path_texts(seq![bad]);
        if !is_path(bad) {
            assert(!all_component_chars(bad)) by {
                assert(seq![bad][0] == bad);
            }
        }
    }
    assert(component_fault(parts[n], false) is Some ==> first_fault(parts, false, 0)
        == component_fault(parts[n], false));
}

proof fn lemma_first_fault(parts: Seq<Seq<char>>, glob: bool, from: int)
    requires
        0 <= from,
    ensures
        match first_fault(parts, glob, from) {
            Some(fault) => exists|i: int|
                from <= i < parts.len() && component_fault(#[trigger] parts[i], glob)
                    == first_fault(parts, glob, from) && forall|j: int|
                    from <= j < i ==> component_fault(#[trigger] parts[j], glob) is None,
            None => forall|i: int|
                from <= i < parts.len() ==> component_fault(#[trigger] parts[i], glob) is None,
        },
    decreases parts.len() - from,
{
    if from < parts.len() {
        if component_fault(parts[from], glob) is None {
            lemma_first_fault(parts, glob, from + 1);
            if first_fault(parts, glob, from + 1) is Some {
                let i = choose|i: int|
                    from + 1 <= i < parts.len() && component_fault(#[trigger] parts[i], glob)
                        == first_fault(parts, glob, from + 1) && forall|j: int|
                        from + 1 <= j < i ==> component_fault(#[trigger] parts[j], glob) is None;
                assert(component_fault(parts[i], glob) == first_fault(parts, glob, from));
            }
        } else {
            assert(component_fault(parts[from], glob) == first_fault(parts, glob, from));
        }
    }
}

proof fn lemma_joined_empty(parts: Seq<Seq<char>>)
    requires
        parts.len() > 0,
    ensures
        joined(parts).len() == 0 <==> parts.len() == 1 && parts[0].len() == 0,
{
}

/// Under a path stands what goes on behind it with a slash; under the root stands
/// everything else.
pub proof fn law_below(below: Seq<char>, above: Seq<char>)
    ensures
        above.len() > 0 ==> (is_below(below, above) <==> exists|rest: Seq<char>|
            below == #[trigger] (above + seq!['/'] + rest)),
        above.len() == 0 ==> (is_below(below, above) <==> below.len() > 0),
{
    if above.len() > 0 {
        let n = above.len() as int;
        if is_below(below, above) {
            assert(below =~= above + seq!['/'] + below.skip(n + 1));
        }
        assert forall|rest: Seq<char>|
            below == #[trigger] (above + seq!['/'] + rest) implies is_below(below, above) by {
            assert(below.take(n) =~= above);
        }
    }
}

/// What stands under a thing that stands under another stands under that too, and
/// nothing stands under itself.
pub proof fn law_below_is_an_order(a: Seq<char>, b: Seq<char>, c: Seq<char>)
    ensures
        is_below(a, b) && is_below(b, c) ==> is_below(a, c),
        !is_below(a, a),
{
    if is_below(a, b) && is_below(b, c) && c.len() > 0 {
        assert(a.take(c.len() as int) =~= c) by {
            assert(b.take(c.len() as int) == c);
            assert(a.take(b.len() as int) == b);
            assert forall|i: int| 0 <= i < c.len() implies a[i] == c[i] by {
                assert(b.take(c.len() as int)[i] == b[i]);
                assert(a.take(b.len() as int)[i] == a[i]);
            }
        }
        assert(a[c.len() as int] == a.take(b.len() as int)[c.len() as int]);
    }
}

/// The name of a path is what stands behind its last slash, or all of it.
pub proof fn law_name_is_the_last_component(dir: Seq<char>, name: Seq<char>)
    requires
        !name.contains('/'),
    ensures
        pieces(dir + seq!['/'] + name).last() == name,
        pieces(name).last() == name,
{
    let parts = pieces(dir).push(name);
    law_pieces_make_the_text(dir);
    assert forall|k: int| 0 <= k < parts.len() implies !(#[trigger] parts[k]).contains('/') by {
        if k < parts.len() - 1 {
            assert(parts[k] == pieces(dir)[k]);
        }
    }
    law_text_falls_into_its_pieces(parts);
    assert(parts.drop_last() =~= pieces(dir));
    assert(joined(parts) =~= dir + seq!['/'] + name);
    law_text_falls_into_its_pieces(seq![name]);
    assert(joined(seq![name]) == name);
}

/// What the faults of paths say.
pub proof fn law_messages_of_faults()
    ensures
        InvalidPath::Empty.message() == "path is empty"@,
        InvalidPath::EmptyComponent.message() == "path component is empty"@,
        InvalidPath::BadCharacter.message() == "path contains an invalid character"@,
{
}

} // verus!
