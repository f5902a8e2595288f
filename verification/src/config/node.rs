//! A parsed configuration document.

use vstd::prelude::*;

use crate::text::same_str;

verus! {

/// A value of a document. The fields of an object stand in the order of the
/// document.
#[derive(Debug)]
pub enum Node {
    Null,
    Bool(bool),
    Int(i128),
    Text(String),
    List(Vec<Node>),
    Obj(Vec<(String, Node)>),
    /// A value that no configuration knows: a number with a fraction, or a value
    /// under a tag.
    Other,
}

/// What a value of a document says.
#[verifier::ext_equal]
pub enum NodeView {
    Null,
    Bool(bool),
    Int(i128),
    Text(Seq<char>),
    List(Seq<NodeView>),
    Obj(Seq<(Seq<char>, NodeView)>),
    Other,
}

/// What a value of a document says.
pub open spec fn node_view(node: Node) -> NodeView
    decreases node,
{
    match node {
        Node::Null => NodeView::Null,
        Node::Bool(b) => NodeView::Bool(b),
        Node::Int(n) => NodeView::Int(n),
        Node::Text(s) => NodeView::Text(s@),
        Node::List(items) => NodeView::List(node_views(items@)),
        Node::Obj(fields) => NodeView::Obj(field_views(fields@)),
        Node::Other => NodeView::Other,
    }
}

/// What the items of a list say.
pub open spec fn node_views(items: Seq<Node>) -> Seq<NodeView>
    decreases items,
{
    if items.len() == 0 {
        Seq::empty()
    } else {
        node_views(items.drop_last()).push(node_view(items.last()))
    }
}

/// What the fields of an object say.
pub open spec fn field_views(fields: Seq<(String, Node)>) -> Seq<(Seq<char>, NodeView)>
    decreases fields,
{
    if fields.len() == 0 {
        Seq::empty()
    } else {
        field_views(fields.drop_last()).push((fields.last().0@, node_view(fields.last().1)))
    }
}

impl View for Node {
    type V = NodeView;

    open spec fn view(&self) -> NodeView {
        node_view(*self)
    }
}

/// The fields of an object say what they say one by one.
pub proof fn lemma_field_views(fields: Seq<(String, Node)>)
    ensures
        field_views(fields).len() == fields.len(),
        forall|i: int|
            0 <= i < fields.len() ==> #[trigger] field_views(fields)[i] == (
                fields[i].0@,
                node_view(fields[i].1),
            ),
    decreases fields.len(),
{
    if fields.len() > 0 {
        lemma_field_views(fields.drop_last());
        assert forall|i: int| 0 <= i < fields.len() implies #[trigger] field_views(fields)[i] == (
            fields[i].0@,
            node_view(fields[i].1),
        ) by {
            if i < fields.len() - 1 {
                assert(field_views(fields.drop_last())[i] == (
                    fields.drop_last()[i].0@,
                    node_view(fields.drop_last()[i].1),
                ));
            }
        }
    }
}

/// Two lists of fields say the same, one by one.
pub open spec fn same_fields(a: Seq<(String, Node)>, b: Seq<(String, Node)>) -> bool {
    a.len() == b.len() && forall|i: int|
        #![trigger a[i]]
        #![trigger b[i]]
        0 <= i < a.len() ==> a[i].0@ == b[i].0@ && node_view(a[i].1) == node_view(b[i].1)
}

/// Objects that say the same have fields that say the same.
pub proof fn lemma_same_fields(a: Seq<(String, Node)>, b: Seq<(String, Node)>)
    requires
        field_views(a) == field_views(b),
    ensures
        same_fields(a, b),
{
    lemma_field_views(a);
    lemma_field_views(b);
    assert forall|i: int|
        #![trigger a[i]]
        #![trigger b[i]]
        0 <= i < a.len() implies a[i].0@ == b[i].0@ && node_view(a[i].1) == node_view(b[i].1) by {
        assert(field_views(a)[i] == field_views(b)[i]);
    }
}

/// In fields that say the same, what stands under a key says the same.
pub proof fn lemma_same_field(a: Seq<(String, Node)>, b: Seq<(String, Node)>, key: Seq<char>)
    requires
        same_fields(a, b),
    ensures
        field(a, key) is Some == field(b, key) is Some,
        field(a, key) is Some ==> node_view(field(a, key)->Some_0) == node_view(
            field(b, key)->Some_0,
        ),
    decreases a.len(),
{
    if a.len() > 0 {
        assert(a[0].0@ == b[0].0@);
        assert forall|i: int|
            #![trigger a.skip(1)[i]]
            #![trigger b.skip(1)[i]]
            0 <= i < a.skip(1).len() implies a.skip(1)[i].0@ == b.skip(1)[i].0@ && node_view(
            a.skip(1)[i].1,
        ) == node_view(b.skip(1)[i].1) by {
            assert(a[i + 1].0@ == b[i + 1].0@);
        }
        lemma_same_field(a.skip(1), b.skip(1), key);
    }
}

/// Why a document is not a configuration.
#[derive(Debug, PartialEq, Eq)]
pub enum ConfigError {
    NotAnObject,
    UnknownKey(String),
    WrongType(String),
    NotAllowed(String),
    Invalid(String),
}

/// Why a document is not a configuration.
pub enum FaultView {
    NotAnObject,
    UnknownKey(Seq<char>),
    WrongType(Seq<char>),
    NotAllowed(Seq<char>),
    Invalid(Seq<char>),
}

impl View for ConfigError {
    type V = FaultView;

    open spec fn view(&self) -> FaultView {
        match self {
            ConfigError::NotAnObject => FaultView::NotAnObject,
            ConfigError::UnknownKey(key) => FaultView::UnknownKey(key@),
            ConfigError::WrongType(key) => FaultView::WrongType(key@),
            ConfigError::NotAllowed(message) => FaultView::NotAllowed(message@),
            ConfigError::Invalid(message) => FaultView::Invalid(message@),
        }
    }
}

/// The outcome of a step that may fail.
pub open spec fn fault_of(r: Result<(), ConfigError>) -> Option<FaultView> {
    match r {
        Ok(()) => None,
        Err(err) => Some(err@),
    }
}

/// The first field with a key.
pub open spec fn field(fields: Seq<(String, Node)>, key: Seq<char>) -> Option<Node>
    decreases fields.len(),
{
    if fields.len() == 0 {
        None
    } else if fields[0].0@ == key {
        Some(fields[0].1)
    } else {
        field(fields.skip(1), key)
    }
}

/// The first key that is not allowed.
pub open spec fn unknown_key(fields: Seq<(String, Node)>, known: Seq<Seq<char>>) -> Option<Seq<char>>
    decreases fields.len(),
{
    if fields.len() == 0 {
        None
    } else if !known.contains(fields[0].0@) {
        Some(fields[0].0@)
    } else {
        unknown_key(fields.skip(1), known)
    }
}

/// The texts of a list of words.
pub open spec fn words(v: Seq<&str>) -> Seq<Seq<char>> {
    v.map_values(|s: &str| s@)
}

/// The field with the key `key`.
pub fn get<'a>(fields: &'a Vec<(String, Node)>, key: &str) -> (r: Option<&'a Node>)
    ensures
        match r {
            Some(node) => field(fields@, key@) == Some(*node),
            None => field(fields@, key@) is None,
        },
{
    assert(fields@.skip(0) =~= fields@);
    for i in 0..fields.len()
        invariant
            field(fields@, key@) == field(fields@.skip(i as int), key@),
    {
        assert(fields@.skip(i as int).skip(1) =~= fields@.skip(i + 1));
        if same_str(fields[i].0.as_str(), key) {
            return Some(&fields[i].1);
        }
    }
    None
}

/// Whether `word` is one of `known`.
pub fn is_known(word: &str, known: &[&str]) -> (r: bool)
    ensures
        r == words(known@).contains(word@),
{
    for i in 0..known.len()
        invariant
            forall|j: int| 0 <= j < i ==> (#[trigger] known@[j])@ != word@,
    {
        if same_str(known[i], word) {
            assert(words(known@)[i as int] == word@);
            return true;
        }
    }
    proof {
        if words(known@).contains(word@) {
            let j = choose|j: int|
                0 <= j < words(known@).len() && #[trigger] words(known@)[j] == word@;
            assert(known@[j]@ == word@);
        }
    }
    false
}

/// Fails on the first key that is not among `known`.
pub fn known_keys(fields: &Vec<(String, Node)>, known: &[&str]) -> (r: Result<(), ConfigError>)
    ensures
        fault_of(r) == (match unknown_key(fields@, words(known@)) {
            Some(key) => Some(FaultView::UnknownKey(key)),
            None => None,
        }),
{
    assert(fields@.skip(0) =~= fields@);
    for i in 0..fields.len()
        invariant
            unknown_key(fields@, words(known@)) == unknown_key(
                fields@.skip(i as int),
                words(known@),
            ),
    {
        assert(fields@.skip(i as int).skip(1) =~= fields@.skip(i + 1));
        if !is_known(fields[i].0.as_str(), known) {
            return Err(ConfigError::UnknownKey(fields[i].0.clone()));
        }
    }
    Ok(())
}

impl Node {
    /// The fields of an object.
    pub fn as_obj(&self) -> (r: Result<&Vec<(String, Node)>, ConfigError>)
        ensures
            match r {
                Ok(fields) => *self == Node::Obj(*fields),
                Err(err) => self !is Obj && err@ == FaultView::NotAnObject,
            },
    {
        match self {
            Node::Obj(fields) => Ok(fields),
            _ => Err(ConfigError::NotAnObject),
        }
    }
}

/// The truth value of a field, the default where it is missing.
pub open spec fn bool_field(
    fields: Seq<(String, Node)>,
    key: Seq<char>,
    default: bool,
) -> Result<bool, FaultView> {
    match field(fields, key) {
        None => Ok(default),
        Some(Node::Bool(b)) => Ok(b),
        Some(_) => Err(FaultView::WrongType(key)),
    }
}

/// The size that a field gives, the default where it is missing.
pub open spec fn size_field(
    fields: Seq<(String, Node)>,
    key: Seq<char>,
    default: usize,
) -> Result<usize, FaultView> {
    match field(fields, key) {
        None => Ok(default),
        Some(Node::Int(n)) => if 0 <= n <= usize::MAX {
            Ok(n as usize)
        } else {
            Err(FaultView::WrongType(key))
        },
        Some(_) => Err(FaultView::WrongType(key)),
    }
}

/// The text of a field, the default where it is missing.
pub open spec fn text_field(
    fields: Seq<(String, Node)>,
    key: Seq<char>,
    default: Seq<char>,
) -> Result<Seq<char>, FaultView> {
    match field(fields, key) {
        None => Ok(default),
        Some(Node::Text(s)) => Ok(s@),
        Some(_) => Err(FaultView::WrongType(key)),
    }
}

/// The truth value of the field `key`, or `default`.
pub fn default_bool(fields: &Vec<(String, Node)>, key: &str, default: bool) -> (r: Result<
    bool,
    ConfigError,
>)
    ensures
        match r {
            Ok(b) => bool_field(fields@, key@, default) == Ok::<bool, FaultView>(b),
            Err(err) => bool_field(fields@, key@, default) == Err::<bool, FaultView>(err@),
        },
{
    match get(fields, key) {
        None => Ok(default),
        Some(Node::Bool(b)) => Ok(*b),
        Some(_) => Err(ConfigError::WrongType(key.to_string())),
    }
}

/// The size in the field `key`, or `default`.
pub fn default_size(fields: &Vec<(String, Node)>, key: &str, default: usize) -> (r: Result<
    usize,
    ConfigError,
>)
    ensures
        match r {
            Ok(n) => size_field(fields@, key@, default) == Ok::<usize, FaultView>(n),
            Err(err) => size_field(fields@, key@, default) == Err::<usize, FaultView>(err@),
        },
{
    match get(fields, key) {
        None => Ok(default),
        Some(Node::Int(n)) => if *n >= 0 && *n <= usize::MAX as i128 {
            Ok(*n as usize)
        } else {
            Err(ConfigError::WrongType(key.to_string()))
        },
        Some(_) => Err(ConfigError::WrongType(key.to_string())),
    }
}

/// The text in the field `key`, or `default`.
pub fn default_text(fields: &Vec<(String, Node)>, key: &str, default: &str) -> (r: Result<
    String,
    ConfigError,
>)
    ensures
        match r {
            Ok(s) => text_field(fields@, key@, default@) == Ok::<Seq<char>, FaultView>(s@),
            Err(err) => text_field(fields@, key@, default@) == Err::<Seq<char>, FaultView>(err@),
        },
{
    match get(fields, key) {
        None => Ok(default.to_string()),
        Some(Node::Text(s)) => Ok(s.clone()),
        Some(_) => Err(ConfigError::WrongType(key.to_string())),
    }
}

/// What stands under a key is what the first field with that key holds.
pub proof fn law_first_field_counts(fields: Seq<(String, Node)>, key: Seq<char>, i: int)
    ensures
        field(fields, key) is None <==> forall|j: int|
            0 <= j < fields.len() ==> (#[trigger] fields[j]).0@ != key,
        0 <= i < fields.len() && fields[i].0@ == key && (forall|j: int|
            0 <= j < i ==> (#[trigger] fields[j]).0@ != key) ==> field(fields, key) == Some(
            fields[i].1,
        ),
    decreases fields.len(),
{
    if fields.len() > 0 {
        let rest = fields.skip(1);
        law_first_field_counts(rest, key, i - 1);
        if fields[0].0@ != key {
            if field(fields, key) is None {
                assert forall|j: int| 0 <= j < fields.len() implies (#[trigger] fields[j]).0@
                    != key by {
                    if j > 0 {
                        assert(rest[j - 1] == fields[j]);
                    }
                }
            } else {
                let j = choose|j: int| 0 <= j < rest.len() && (#[trigger] rest[j]).0@ == key;
                assert(fields[j + 1].0@ == key);
            }
            if 0 < i < fields.len() && fields[i].0@ == key && (forall|j: int|
                0 <= j < i ==> (#[trigger] fields[j]).0@ != key) {
                assert(rest[i - 1] == fields[i]);
                assert forall|j: int| 0 <= j < i - 1 implies (#[trigger] rest[j]).0@ != key by {
                    assert(rest[j] == fields[j + 1]);
                }
            }
        }
    }
}

/// A key is unknown exactly if it is not among the known ones, and of several such
/// keys the first is named.
pub proof fn law_first_unknown_key(fields: Seq<(String, Node)>, known: Seq<Seq<char>>, i: int)
    ensures
        unknown_key(fields, known) is None <==> forall|j: int|
            0 <= j < fields.len() ==> known.contains((#[trigger] fields[j]).0@),
        0 <= i < fields.len() && !known.contains(fields[i].0@) && (forall|j: int|
            0 <= j < i ==> known.contains((#[trigger] fields[j]).0@)) ==> unknown_key(
            fields,
            known,
        ) == Some(fields[i].0@),
    decreases fields.len(),
{
    if fields.len() > 0 {
        let rest = fields.skip(1);
        law_first_unknown_key(rest, known, i - 1);
        if known.contains(fields[0].0@) {
            if unknown_key(fields, known) is None {
                assert forall|j: int| 0 <= j < fields.len() implies known.contains(
                    (#[trigger] fields[j]).0@,
                ) by {
                    if j > 0 {
                        assert(rest[j - 1] == fields[j]);
                    }
                }
            } else {
                let j = choose|j: int|
                    0 <= j < rest.len() && !known.contains((#[trigger] rest[j]).0@);
                assert(!known.contains(fields[j + 1].0@));
            }
            if 0 < i < fields.len() && !known.contains(fields[i].0@) && (forall|j: int|
                0 <= j < i ==> known.contains((#[trigger] fields[j]).0@)) {
                assert(rest[i - 1] == fields[i]);
                assert forall|j: int| 0 <= j < i - 1 implies known.contains(
                    (#[trigger] rest[j]).0@,
                ) by {
                    assert(rest[j] == fields[j + 1]);
                }
            }
        }
    }
}

/// A value that is written down is read as it was written; where none is written
/// the default stands, whatever it is; and a value of another type is a fault of
/// its key.
pub proof fn law_values_are_read_as_written(
    fields: Seq<(String, Node)>,
    key: Seq<char>,
    b: bool,
    n: usize,
    s: Seq<char>,
)
    ensures
        field(fields, key) is None ==> bool_field(fields, key, b) == Ok::<bool, FaultView>(b)
            && size_field(fields, key, n) == Ok::<usize, FaultView>(n) && text_field(
            fields,
            key,
            s,
        ) == Ok::<Seq<char>, FaultView>(s),
        field(fields, key) is Some ==> {
            let node = field(fields, key)->Some_0;
            &&& node is Bool ==> bool_field(fields, key, b) == Ok::<bool, FaultView>(
                node->Bool_0,
            )
            &&& node is Text ==> text_field(fields, key, s) == Ok::<Seq<char>, FaultView>(
                node->Text_0@,
            )
            &&& node is Int && node->Int_0 == n ==> forall|default: usize| #[trigger]
                size_field(fields, key, default) == Ok::<usize, FaultView>(n)
            &&& node !is Bool ==> bool_field(fields, key, b) == Err::<bool, FaultView>(
                FaultView::WrongType(key),
            )
            &&& node !is Text ==> text_field(fields, key, s) == Err::<Seq<char>, FaultView>(
                FaultView::WrongType(key),
            )
            &&& node !is Int || node->Int_0 < 0 || node->Int_0 > usize::MAX ==> size_field(
                fields,
                key,
                n,
            ) == Err::<usize, FaultView>(FaultView::WrongType(key))
        },
{
}

/// What faults are known by: the same kinds, with the same texts; a step that goes
/// well has none.
pub proof fn law_what_faults_are(s: String, err: ConfigError)
    ensures
        ConfigError::NotAnObject@ == FaultView::NotAnObject,
        ConfigError::UnknownKey(s)@ == FaultView::UnknownKey(s@),
        ConfigError::WrongType(s)@ == FaultView::WrongType(s@),
        ConfigError::NotAllowed(s)@ == FaultView::NotAllowed(s@),
        ConfigError::Invalid(s)@ == FaultView::Invalid(s@),
        fault_of(Ok(())) is None,
        fault_of(Err(err)) == Some(err@),
{
}

/// What documents say: their values as they are, lists and objects one by one, in
/// their order.
pub proof fn law_what_documents_say(
    b: bool,
    n: i128,
    s: String,
    items: Vec<Node>,
    fields: Vec<(String, Node)>,
    i: int,
)
    ensures
        Node::Null@ == NodeView::Null,
        Node::Bool(b)@ == NodeView::Bool(b),
        Node::Int(n)@ == NodeView::Int(n),
        Node::Text(s)@ == NodeView::Text(s@),
        Node::Other@ == NodeView::Other,
        Node::List(items)@ == NodeView::List(node_views(items@)),
        Node::Obj(fields)@ == NodeView::Obj(field_views(fields@)),
        node_views(items@).len() == items@.len(),
        0 <= i < items@.len() ==> node_views(items@)[i] == items@[i]@,
        field_views(fields@).len() == fields@.len(),
        0 <= i < fields@.len() ==> field_views(fields@)[i] == (fields@[i].0@, fields@[i].1@),
{
    lemma_node_views(items@);
    lemma_field_views(fields@);
}

proof fn lemma_node_views(items: Seq<Node>)
    ensures
        node_views(items).len() == items.len(),
        forall|i: int| 0 <= i < items.len() ==> #[trigger] node_views(items)[i] == node_view(items[i]),
    decreases items.len(),
{
    if items.len() > 0 {
        let init = items.drop_last();
        lemma_node_views(init);
        assert forall|i: int| 0 <= i < items.len() implies #[trigger] node_views(items)[i]
            == node_view(items[i]) by {
            if i < init.len() {
                assert(node_views(init)[i] == node_view(init[i]));
            }
        }
    }
}

} // verus!
