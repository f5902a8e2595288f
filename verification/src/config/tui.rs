//! How the console looks.

use vstd::prelude::*;

use crate::config::node::{
    bool_field, default_bool, default_size, default_text, fault_of, field, get, known_keys,
    size_field, text_field, unknown_key, words, ConfigError, FaultView, Node,
};

verus! {

/// How the console looks.
#[derive(Debug)]
pub struct TuiConfig {
    pub sidebar: SidebarConfig,
    pub tips: TipsConfig,
    pub zoom_tip: bool,
}

/// How the list of tasks looks.
#[derive(Debug)]
pub struct SidebarConfig {
    pub title: String,
    pub width: usize,
}

/// Which hints are shown.
#[derive(Debug)]
pub struct TipsConfig {
    pub show: bool,
}

/// How the console looks.
pub struct TuiView {
    pub title: Seq<char>,
    pub width: usize,
    pub tips: bool,
    pub zoom_tip: bool,
}

impl View for TuiConfig {
    type V = TuiView;

    open spec fn view(&self) -> TuiView {
        TuiView {
            title: self.sidebar.title@,
            width: self.sidebar.width,
            tips: self.tips.show,
            zoom_tip: self.zoom_tip,
        }
    }
}

impl Clone for TuiConfig {
    fn clone(&self) -> (r: Self)
        ensures
            r == *self,
    {
        TuiConfig {
            sidebar: SidebarConfig {
                title: self.sidebar.title.clone(),
                width: self.sidebar.width,
            },
            tips: TipsConfig { show: self.tips.show },
            zoom_tip: self.zoom_tip,
        }
    }
}

/// A configuration and what went wrong after it was reached.
pub struct Merged {
    pub tui: TuiView,
    pub fault: Option<FaultView>,
}

/// The look without any configuration.
pub open spec fn builtin_tui() -> TuiView {
    TuiView { title: "Tasks"@, width: 30, tips: true, zoom_tip: true }
}

/// The fault of an unknown key, if there is one.
pub open spec fn key_fault(fields: Seq<(String, Node)>, known: Seq<Seq<char>>) -> Option<FaultView> {
    match unknown_key(fields, known) {
        Some(key) => Some(FaultView::UnknownKey(key)),
        None => None,
    }
}

/// The look after the settings of the sidebar.
pub open spec fn merged_sidebar(tui: TuiView, node: Option<Node>) -> Merged {
    match node {
        None => Merged { tui, fault: None },
        Some(Node::Obj(fields)) => {
            let bad = key_fault(fields@, seq!["title"@, "width"@]);
            if bad is Some {
                Merged { tui, fault: bad }
            } else {
                match text_field(fields@, "title"@, tui.title) {
                    Err(fault) => Merged { tui, fault: Some(fault) },
                    Ok(title) => match size_field(fields@, "width"@, tui.width) {
                        Err(fault) => Merged {
                            tui: TuiView { title, ..tui },
                            fault: Some(fault),
                        },
                        Ok(width) => Merged { tui: TuiView { title, width, ..tui }, fault: None },
                    },
                }
            }
        },
        Some(_) => Merged { tui, fault: Some(FaultView::NotAnObject) },
    }
}

/// The look after the settings of the hints.
pub open spec fn merged_tips(tui: TuiView, node: Option<Node>) -> Merged {
    match node {
        None => Merged { tui, fault: None },
        Some(Node::Obj(fields)) => {
            let bad = key_fault(fields@, seq!["show"@]);
            if bad is Some {
                Merged { tui, fault: bad }
            } else {
                match bool_field(fields@, "show"@, tui.tips) {
                    Err(fault) => Merged { tui, fault: Some(fault) },
                    Ok(tips) => Merged { tui: TuiView { tips, ..tui }, fault: None },
                }
            }
        },
        Some(_) => Merged { tui, fault: Some(FaultView::NotAnObject) },
    }
}

/// The look after the settings of the zoom.
pub open spec fn merged_zoom(tui: TuiView, fields: Seq<(String, Node)>) -> Merged {
    match bool_field(fields, "zoom_tip"@, tui.zoom_tip) {
        Err(fault) => Merged { tui, fault: Some(fault) },
        Ok(zoom_tip) => Merged { tui: TuiView { zoom_tip, ..tui }, fault: None },
    }
}

/// The look after a document: its settings take effect one by one up to the
/// first that is wrong.
pub open spec fn merged_tui(tui: TuiView, doc: Seq<(String, Node)>) -> Merged {
    match field(doc, "tui"@) {
        None => Merged { tui, fault: None },
        Some(Node::Obj(fields)) => {
            let bad = key_fault(fields@, seq!["sidebar"@, "tips"@, "zoom_tip"@]);
            let sidebar = merged_sidebar(tui, field(fields@, "sidebar"@));
            let tips = merged_tips(sidebar.tui, field(fields@, "tips"@));
            if bad is Some {
                Merged { tui, fault: bad }
            } else if sidebar.fault is Some {
                sidebar
            } else if tips.fault is Some {
                tips
            } else {
                merged_zoom(tips.tui, fields@)
            }
        },
        Some(_) => Merged { tui, fault: Some(FaultView::NotAnObject) },
    }
}

impl TuiConfig {
    /// The look without any configuration.
    pub fn builtin() -> (r: Self)
        ensures
            r@ == builtin_tui(),
    {
        TuiConfig {
            sidebar: SidebarConfig { title: "Tasks".to_string(), width: 30 },
            tips: TipsConfig { show: true },
            zoom_tip: true,
        }
    }

    fn merge_sidebar(&mut self, node: Option<&Node>) -> (r: Result<(), ConfigError>)
        ensures
            (Merged { tui: final(self)@, fault: fault_of(r) }) == merged_sidebar(
                old(self)@,
                (match node {
                    Some(node) => Some(*node),
                    None => None,
                }),
            ),
    {
        let node = match node {
            Some(node) => node,
            None => {
                return Ok(());
            },
        };
        let fields = match node.as_obj() {
            Ok(fields) => fields,
            Err(err) => {
                return Err(err);
            },
        };
        let known = ["title", "width"];
        assert(words(known@) =~= seq!["title"@, "width"@]);
        match known_keys(fields, known.as_slice()) {
            Ok(()) => {},
            Err(err) => {
                return Err(err);
            },
        }
        match default_text(fields, "title", self.sidebar.title.as_str()) {
            Ok(title) => {
                self.sidebar.title = title;
            },
            Err(err) => {
                return Err(err);
            },
        }
        match default_size(fields, "width", self.sidebar.width) {
            Ok(width) => {
                self.sidebar.width = width;
            },
            Err(err) => {
                return Err(err);
            },
        }
        Ok(())
    }

    fn merge_tips(&mut self, node: Option<&Node>) -> (r: Result<(), ConfigError>)
        ensures
            (Merged { tui: final(self)@, fault: fault_of(r) }) == merged_tips(
                old(self)@,
                (match node {
                    Some(node) => Some(*node),
                    None => None,
                }),
            ),
    {
        let node = match node {
            Some(node) => node,
            None => {
                return Ok(());
            },
        };
        let fields = match node.as_obj() {
            Ok(fields) => fields,
            Err(err) => {
                return Err(err);
            },
        };
        let known = ["show"];
        assert(words(known@) =~= seq!["show"@]);
        match known_keys(fields, known.as_slice()) {
            Ok(()) => {},
            Err(err) => {
                return Err(err);
            },
        }
        match default_bool(fields, "show", self.tips.show) {
            Ok(show) => {
                self.tips.show = show;
                Ok(())
            },
            Err(err) => Err(err),
        }
    }

    /// Takes over what a document says of the look.
    pub fn merge(&mut self, doc: &Vec<(String, Node)>) -> (r: Result<(), ConfigError>)
        ensures
            (Merged { tui: final(self)@, fault: fault_of(r) }) == merged_tui(old(self)@, doc@),
    {
        let node = match get(doc, "tui") {
            Some(node) => node,
            None => {
                return Ok(());
            },
        };
        let fields = match node.as_obj() {
            Ok(fields) => fields,
            Err(err) => {
                return Err(err);
            },
        };
        let known = ["sidebar", "tips", "zoom_tip"];
        assert(words(known@) =~= seq!["sidebar"@, "tips"@, "zoom_tip"@]);
        match known_keys(fields, known.as_slice()) {
            Ok(()) => {},
            Err(err) => {
                return Err(err);
            },
        }
        match self.merge_sidebar(get(fields, "sidebar")) {
            Ok(()) => {},
            Err(err) => {
                return Err(err);
            },
        }
        match self.merge_tips(get(fields, "tips")) {
            Ok(()) => {},
            Err(err) => {
                return Err(err);
            },
        }
        match default_bool(fields, "zoom_tip", self.zoom_tip) {
            Ok(zoom_tip) => {
                self.zoom_tip = zoom_tip;
                Ok(())
            },
            Err(err) => Err(err),
        }
    }
}

/// A document that says nothing of the look leaves it as it is.
pub proof fn law_silent_document_changes_nothing(tui: TuiView, doc: Seq<(String, Node)>)
    requires
        field(doc, "tui"@) is None,
    ensures
        merged_tui(tui, doc) == (Merged { tui, fault: None }),
{
}

/// What a document without a fault says of the look is what the look is after it,
/// part by part; a part of which it says nothing stays as it was.
pub proof fn law_look_follows_the_document(
    tui: TuiView,
    doc: Seq<(String, Node)>,
    fields: Vec<(String, Node)>,
)
    requires
        field(doc, "tui"@) == Some(Node::Obj(fields)),
        merged_tui(tui, doc).fault is None,
    ensures
        ({
            let after = merged_tui(tui, doc).tui;
            let zoom = field(fields@, "zoom_tip"@);
            let tips = field(fields@, "tips"@);
            let sidebar = field(fields@, "sidebar"@);
            &&& zoom is None ==> after.zoom_tip == tui.zoom_tip
            &&& zoom is Some ==> zoom == Some(Node::Bool(after.zoom_tip))
            &&& tips is None ==> after.tips == tui.tips
            &&& tips is Some ==> tips->Some_0 is Obj
            &&& tips matches Some(Node::Obj(f)) ==> {
                let show = field(f@, "show"@);
                &&& show is None ==> after.tips == tui.tips
                &&& show is Some ==> show == Some(Node::Bool(after.tips))
            }
            &&& sidebar is None ==> after.title == tui.title && after.width == tui.width
            &&& sidebar is Some ==> sidebar->Some_0 is Obj
            &&& sidebar matches Some(Node::Obj(f)) ==> {
                let title = field(f@, "title"@);
                let width = field(f@, "width"@);
                &&& title is None ==> after.title == tui.title
                &&& title is Some ==> title->Some_0 is Text && title->Some_0->Text_0@
                    == after.title
                &&& width is None ==> after.width == tui.width
                &&& width is Some ==> width->Some_0 is Int && width->Some_0->Int_0 == after.width
            }
        }),
{
}

/// A document whose settings of the look are known and of the right type has no
/// fault in them, and one with a setting that is not has one.
pub proof fn law_faults_of_the_look(
    tui: TuiView,
    doc: Seq<(String, Node)>,
    fields: Vec<(String, Node)>,
)
    requires
        field(doc, "tui"@) == Some(Node::Obj(fields)),
    ensures
        merged_tui(tui, doc).fault is None <==> {
            let zoom = field(fields@, "zoom_tip"@);
            let tips = field(fields@, "tips"@);
            let sidebar = field(fields@, "sidebar"@);
            &&& forall|i: int|
                0 <= i < fields@.len() ==> (#[trigger] fields@[i]).0@ == "sidebar"@
                    || fields@[i].0@ == "tips"@ || fields@[i].0@ == "zoom_tip"@
            &&& zoom is None || zoom->Some_0 is Bool
            &&& tips is None || (tips->Some_0 is Obj && {
                let f = tips->Some_0->Obj_0@;
                let show = field(f, "show"@);
                &&& forall|i: int| 0 <= i < f.len() ==> (#[trigger] f[i]).0@ == "show"@
                &&& show is None || show->Some_0 is Bool
            })
            &&& sidebar is None || (sidebar->Some_0 is Obj && {
                let f = sidebar->Some_0->Obj_0@;
                let title = field(f, "title"@);
                let width = field(f, "width"@);
                &&& forall|i: int|
                    0 <= i < f.len() ==> (#[trigger] f[i]).0@ == "title"@ || f[i].0@ == "width"@
                &&& title is None || title->Some_0 is Text
                &&& width is None || (width->Some_0 is Int && 0 <= width->Some_0->Int_0
                    <= usize::MAX)
            })
        },
{
    let top = seq!["sidebar"@, "tips"@, "zoom_tip"@];
    crate::config::node::law_first_unknown_key(fields@, top, 0);
    assert forall|w: Seq<char>| #[trigger] top.contains(w) <==> w == "sidebar"@ || w == "tips"@ || w
        == "zoom_tip"@ by {
        assert(top[0] == "sidebar"@ && top[1] == "tips"@ && top[2] == "zoom_tip"@);
    }
    if let Some(Node::Obj(f)) = field(fields@, "tips"@) {
        let known = seq!["show"@];
        crate::config::node::law_first_unknown_key(f@, known, 0);
        assert forall|w: Seq<char>| #[trigger] known.contains(w) <==> w == "show"@ by {
            assert(known[0] == "show"@);
        }
    }
    if let Some(Node::Obj(f)) = field(fields@, "sidebar"@) {
        let known = seq!["title"@, "width"@];
        crate::config::node::law_first_unknown_key(f@, known, 0);
        assert forall|w: Seq<char>| #[trigger] known.contains(w) <==> w == "title"@ || w
            == "width"@ by {
            assert(known[0] == "title"@ && known[1] == "width"@);
        }
    }
}

/// Without any configuration the list is called `Tasks`, is thirty wide, and all
/// hints are shown.
pub proof fn law_builtin_look(tui: TuiConfig)
    requires
        tui@ == builtin_tui(),
    ensures
        tui.sidebar.title@ == "Tasks"@,
        tui.sidebar.width == 30,
        tui.tips.show,
        tui.zoom_tip,
{
}

/// A part of the look with a fault is the end of it: what came before counts, what
/// comes behind does not. An unknown key counts before everything, and so does
/// something that is no object.
pub proof fn law_first_fault_of_the_look(tui: TuiView, doc: Seq<(String, Node)>)
    ensures
        field(doc, "tui"@) is Some && field(doc, "tui"@)->Some_0 !is Obj ==> merged_tui(tui, doc)
            == (Merged { tui, fault: Some(FaultView::NotAnObject) }),
        field(doc, "tui"@) matches Some(Node::Obj(fields)) ==> {
            let r = merged_tui(tui, doc);
            let unknown = unknown_key(fields@, seq!["sidebar"@, "tips"@, "zoom_tip"@]);
            let sidebar = merged_sidebar(tui, field(fields@, "sidebar"@));
            let tips = merged_tips(sidebar.tui, field(fields@, "tips"@));
            &&& unknown is Some ==> r.tui == tui && r.fault == Some(
                FaultView::UnknownKey(unknown->Some_0),
            )
            &&& unknown is None && sidebar.fault is Some ==> r == sidebar
            &&& unknown is None && sidebar.fault is None && tips.fault is Some ==> r == tips
            &&& sidebar.tui.tips == tui.tips && sidebar.tui.zoom_tip == tui.zoom_tip
            &&& tips.tui.zoom_tip == tui.zoom_tip && tips.tui.title == sidebar.tui.title
                && tips.tui.width == sidebar.tui.width
            &&& unknown is None && sidebar.fault is None && tips.fault is None && r.fault is Some
                ==> r.fault == Some(FaultView::WrongType("zoom_tip"@)) && r.tui == tips.tui
        },
{
}

/// In the list of tasks the title comes before the width, and one that is of another
/// type is a fault under its name.
pub proof fn law_first_fault_of_the_sidebar(tui: TuiView, fields: Vec<(String, Node)>)
    requires
        unknown_key(fields@, seq!["title"@, "width"@]) is None,
    ensures
        ({
            let r = merged_sidebar(tui, Some(Node::Obj(fields)));
            let title = field(fields@, "title"@);
            let width = field(fields@, "width"@);
            &&& title is Some && title->Some_0 !is Text ==> r.tui == tui && r.fault == Some(
                FaultView::WrongType("title"@),
            )
            &&& (title is None || title->Some_0 is Text) && width is Some && !(width->Some_0 is Int
                && 0 <= width->Some_0->Int_0 <= usize::MAX) ==> r.fault == Some(
                FaultView::WrongType("width"@),
            ) && r.tui.width == tui.width
        }),
        merged_sidebar(tui, None) == (Merged { tui, fault: None }),
        merged_tips(tui, None) == (Merged { tui, fault: None }),
{
}

/// What a look is known by.
pub proof fn law_what_a_look_is(tui: TuiConfig)
    ensures
        tui@.title == tui.sidebar.title@,
        tui@.width == tui.sidebar.width,
        tui@.tips == tui.tips.show,
        tui@.zoom_tip == tui.zoom_tip,
{
}

} // verus!
