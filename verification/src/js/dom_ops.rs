//! The commands by which page scripts read and change the document.

use vstd::prelude::*;
use vstd::string::*;

use crate::assoc;
use crate::js::dom::{DataView, DomTree, DomView, NodeData};
use crate::js::state::{ObscuraState, StateView};
use crate::json::{Json, JsonView};
use crate::json;
use crate::text;

verus! {

/// What the tree itself has to do for a command.
pub enum DomCall {
    GetElementById(String),
    QuerySelector(String),
    QuerySelectorAll(String),
    QuerySelectorFrom(u32, String),
    QuerySelectorAllFrom(u32, String),
    TextContent(u32),
    SetAttribute { node: u32, name: String, value: String },
    SetId { node: u32, old_id: Option<String>, value: String },
    InnerHtml(u32),
    OuterHtml(u32),
    AppendChild { parent: u32, child: u32 },
    RemoveChild(u32),
    InsertBefore { reference: u32, new_node: u32 },
    KeepAttributes { node: u32, places: Vec<usize> },
    ReplaceChildren { node: u32, detach: Vec<u32>, html: Option<String> },
    SetCharacterData { node: u32, data: String },
    CreateDocumentFragment,
    CreateElement(String),
    CreateTextNode(String),
    CreateComment(String),
    CreateProcessingInstruction { target: String, data: String },
    CreateDoctype { name: String, public_id: String },
    Descendants { node: u32, wanted: u32 },
}

/// What the tree itself has to do for a command, as plain data.
pub enum CallView {
    GetElementById(Seq<char>),
    QuerySelector(Seq<char>),
    QuerySelectorAll(Seq<char>),
    QuerySelectorFrom(u32, Seq<char>),
    QuerySelectorAllFrom(u32, Seq<char>),
    TextContent(u32),
    SetAttribute { node: u32, name: Seq<char>, value: Seq<char> },
    SetId { node: u32, old_id: Option<Seq<char>>, value: Seq<char> },
    InnerHtml(u32),
    OuterHtml(u32),
    AppendChild { parent: u32, child: u32 },
    RemoveChild(u32),
    InsertBefore { reference: u32, new_node: u32 },
    KeepAttributes { node: u32, places: Seq<usize> },
    ReplaceChildren { node: u32, detach: Seq<u32>, html: Option<Seq<char>> },
    SetCharacterData { node: u32, data: Seq<char> },
    CreateDocumentFragment,
    CreateElement(Seq<char>),
    CreateTextNode(Seq<char>),
    CreateComment(Seq<char>),
    CreateProcessingInstruction { target: Seq<char>, data: Seq<char> },
    CreateDoctype { name: Seq<char>, public_id: Seq<char> },
    Descendants { node: u32, wanted: u32 },
}

impl View for DomCall {
    type V = CallView;

    open spec fn view(&self) -> CallView {
        match self {
            DomCall::GetElementById(s) => CallView::GetElementById(s@),
            DomCall::QuerySelector(s) => CallView::QuerySelector(s@),
            DomCall::QuerySelectorAll(s) => CallView::QuerySelectorAll(s@),
            DomCall::QuerySelectorFrom(n, s) => CallView::QuerySelectorFrom(*n, s@),
            DomCall::QuerySelectorAllFrom(n, s) => CallView::QuerySelectorAllFrom(*n, s@),
            DomCall::TextContent(n) => CallView::TextContent(*n),
            DomCall::SetAttribute { node, name, value } => CallView::SetAttribute {
                node: *node,
                name: name@,
                value: value@,
            },
            DomCall::SetId { node, old_id, value } => CallView::SetId {
                node: *node,
                old_id: text::opt(*old_id),
                value: value@,
            },
            DomCall::InnerHtml(n) => CallView::InnerHtml(*n),
            DomCall::OuterHtml(n) => CallView::OuterHtml(*n),
            DomCall::AppendChild { parent, child } => CallView::AppendChild {
                parent: *parent,
                child: *child,
            },
            DomCall::RemoveChild(n) => CallView::RemoveChild(*n),
            DomCall::InsertBefore { reference, new_node } => CallView::InsertBefore {
                reference: *reference,
                new_node: *new_node,
            },
            DomCall::KeepAttributes { node, places } => CallView::KeepAttributes {
                node: *node,
                places: places@,
            },
            DomCall::ReplaceChildren { node, detach, html } => CallView::ReplaceChildren {
                node: *node,
                detach: detach@,
                html: text::opt(*html),
            },
            DomCall::SetCharacterData { node, data } => CallView::SetCharacterData {
                node: *node,
                data: data@,
            },
            DomCall::CreateDocumentFragment => CallView::CreateDocumentFragment,
            DomCall::CreateElement(s) => CallView::CreateElement(s@),
            DomCall::CreateTextNode(s) => CallView::CreateTextNode(s@),
            DomCall::CreateComment(s) => CallView::CreateComment(s@),
            DomCall::CreateProcessingInstruction { target, data } => {
                CallView::CreateProcessingInstruction { target: target@, data: data@ }
            },
            DomCall::CreateDoctype { name, public_id } => CallView::CreateDoctype {
                name: name@,
                public_id: public_id@,
            },
            DomCall::Descendants { node, wanted } => CallView::Descendants {
                node: *node,
                wanted: *wanted,
            },
        }
    }
}

/// What becomes of a command: a reply at once, or something that the tree has to do.
pub enum DomOutcome {
    Reply(String),
    Call(DomCall),
}

/// What becomes of a command, as plain data.
pub enum OutcomeView {
    Reply(Seq<char>),
    Call(CallView),
}

impl View for DomOutcome {
    type V = OutcomeView;

    open spec fn view(&self) -> OutcomeView {
        match self {
            DomOutcome::Reply(s) => OutcomeView::Reply(s@),
            DomOutcome::Call(c) => OutcomeView::Call(c@),
        }
    }
}

/// What the tree found or made: a node, a list of nodes, or a text, as the call asks.
pub struct DomAnswer {
    pub node: Option<u32>,
    pub nodes: Vec<u32>,
    pub text: String,
}

/// The number of a node that an argument names; an argument that is no number names
/// node zero.
pub open spec fn id_of(arg: Seq<char>) -> u32 {
    match text::parsed_uint(arg, 0xffff_ffff) {
        Some(n) => n as u32,
        None => 0,
    }
}

/// A text as a JSON string.
pub open spec fn quoted(s: Seq<char>) -> Seq<char> {
    json::json_text(JsonView::Str(s))
}

/// A node's number as a signed 32-bit number in JSON.
pub open spec fn id_json(n: u32) -> JsonView {
    if n < 0x8000_0000 {
        JsonView::UInt(n as u64)
    } else {
        JsonView::Int((n - 0x1_0000_0000) as i64)
    }
}

/// A list of nodes as a JSON array.
pub open spec fn ids_text(ids: Seq<u32>) -> Seq<char> {
    json::json_text(JsonView::Array(ids.map_values(|n: u32| id_json(n))))
}

/// The reply that names a node, or minus one for none.
pub open spec fn node_text(n: Option<u32>) -> Seq<char> {
    match n {
        Some(i) => text::decimal_text(i as nat),
        None => "-1"@,
    }
}

/// The reply for a truth value.
pub open spec fn bool_text(b: bool) -> Seq<char> {
    if b {
        "true"@
    } else {
        "false"@
    }
}

/// The value of the first attribute with a name.
pub open spec fn first_attr(attrs: Seq<(Seq<char>, Seq<char>)>, name: Seq<char>) -> Option<
    Seq<char>,
>
    decreases attrs.len(),
{
    if attrs.len() == 0 {
        None
    } else if attrs[0].0 == name {
        Some(attrs[0].1)
    } else {
        first_attr(attrs.skip(1), name)
    }
}

/// The places of the attributes that do not have a name.
pub open spec fn places_but(attrs: Seq<(Seq<char>, Seq<char>)>, name: Seq<char>) -> Seq<usize>
    decreases attrs.len(),
{
    if attrs.len() == 0 {
        Seq::empty()
    } else if attrs.last().0 != name {
        places_but(attrs.drop_last(), name).push((attrs.len() - 1) as usize)
    } else {
        places_but(attrs.drop_last(), name)
    }
}

impl DataView {
    /// The number by which the DOM tells kinds of nodes apart.
    pub open spec fn type_code(self) -> Seq<char> {
        match self {
            DataView::Document => "9"@,
            DataView::Element { .. } => "1"@,
            DataView::Text { .. } => "3"@,
            DataView::Comment { .. } => "8"@,
            DataView::Doctype { .. } => "10"@,
            DataView::ProcessingInstruction { .. } => "7"@,
        }
    }

    /// The name of a node.
    pub open spec fn node_name(self) -> Seq<char> {
        match self {
            DataView::Document => "#document"@,
            DataView::Element { name, .. } => text::upper_text(name),
            DataView::Text { .. } => "#text"@,
            DataView::Comment { .. } => "#comment"@,
            DataView::Doctype { name, .. } => name,
            DataView::ProcessingInstruction { target, .. } => target,
        }
    }

    /// The tag of an element.
    pub open spec fn tag_name(self) -> Seq<char> {
        match self {
            DataView::Element { name, .. } => text::upper_text(name),
            _ => Seq::empty(),
        }
    }

    /// The value of an attribute of an element.
    pub open spec fn attribute(self, name: Seq<char>) -> Option<Seq<char>> {
        match self {
            DataView::Element { attrs, .. } => first_attr(attrs, name),
            _ => None,
        }
    }

    /// The names of the attributes of an element.
    pub open spec fn attribute_names(self) -> Seq<Seq<char>> {
        match self {
            DataView::Element { attrs, .. } => attrs.map_values(
                |a: (Seq<char>, Seq<char>)| a.0,
            ),
            _ => Seq::empty(),
        }
    }

    /// The target of a processing instruction.
    pub open spec fn pi_target(self) -> Seq<char> {
        match self {
            DataView::ProcessingInstruction { target, .. } => target,
            _ => Seq::empty(),
        }
    }

    /// The name of a doctype.
    pub open spec fn doctype_name(self) -> Seq<char> {
        match self {
            DataView::Doctype { name, .. } => name,
            _ => Seq::empty(),
        }
    }

    /// The public identifier of a doctype.
    pub open spec fn doctype_public_id(self) -> Seq<char> {
        match self {
            DataView::Doctype { public_id, .. } => public_id,
            _ => Seq::empty(),
        }
    }

    /// Whether the node holds character data.
    pub open spec fn is_character_data(self) -> bool {
        self is Text || self is Comment || self is ProcessingInstruction
    }

    /// Whether the node is an element with that name.
    pub open spec fn is_named(self, wanted: Seq<char>) -> bool {
        match self {
            DataView::Element { name, .. } => name == wanted,
            _ => false,
        }
    }
}

impl DomView {
    /// The children of a node.
    pub open spec fn children(self, n: u32) -> Seq<u32> {
        match self.node(n) {
            Some(x) => x.children,
            None => Seq::empty(),
        }
    }

    /// Whether a node is an element.
    pub open spec fn is_element(self, n: u32) -> bool {
        match self.node(n) {
            Some(x) => x.data is Element,
            None => false,
        }
    }

    /// The elements of a list of nodes.
    pub open spec fn elements(self, ids: Seq<u32>) -> Seq<u32>
        decreases ids.len(),
    {
        if ids.len() == 0 {
            ids
        } else if self.is_element(ids.last()) {
            self.elements(ids.drop_last()).push(ids.last())
        } else {
            self.elements(ids.drop_last())
        }
    }

    /// The first of a list of nodes that is the root element of an HTML document.
    pub open spec fn first_html(self, ids: Seq<u32>) -> Option<u32>
        decreases ids.len(),
    {
        if ids.len() == 0 {
            None
        } else {
            match self.node(ids[0]) {
                Some(x) => if x.data.is_named("html"@) {
                    Some(ids[0])
                } else {
                    self.first_html(ids.skip(1))
                },
                None => self.first_html(ids.skip(1)),
            }
        }
    }

    /// The first of a list of nodes that is a doctype.
    pub open spec fn first_doctype(self, ids: Seq<u32>) -> Option<u32>
        decreases ids.len(),
    {
        if ids.len() == 0 {
            None
        } else {
            match self.node(ids[0]) {
                Some(x) => if x.data is Doctype {
                    Some(ids[0])
                } else {
                    self.first_doctype(ids.skip(1))
                },
                None => self.first_doctype(ids.skip(1)),
            }
        }
    }

    /// The description of a doctype.
    pub open spec fn doctype_text(self, n: Option<u32>) -> Seq<char> {
        match n {
            Some(id) => match self.node(id) {
                Some(x) => match x.data {
                    DataView::Doctype { name, public_id, system_id } => json::json_text(
                        JsonView::object().put("name"@, JsonView::Str(name)).put(
                            "publicId"@,
                            JsonView::Str(public_id),
                        ).put("systemId"@, JsonView::Str(system_id)).put(
                            "nodeId"@,
                            JsonView::UInt(id as u64),
                        ),
                    ),
                    _ => "null"@,
                },
                None => "null"@,
            },
            None => "null"@,
        }
    }

    /// What a node has to say, or `default` where there is no node.
    pub open spec fn of_node(
        self,
        n: u32,
        f: spec_fn(DataView) -> Seq<char>,
        default: Seq<char>,
    ) -> Seq<char> {
        match self.node(n) {
            Some(x) => f(x.data),
            None => default,
        }
    }

    /// A relative of a node.
    pub open spec fn relative(self, n: u32, which: Seq<char>) -> Option<u32> {
        match self.node(n) {
            Some(x) => if which == "parent_node"@ {
                x.parent
            } else if which == "first_child"@ {
                x.first_child
            } else if which == "last_child"@ {
                x.last_child
            } else if which == "next_sibling"@ {
                x.next_sibling
            } else {
                x.prev_sibling
            },
            None => None,
        }
    }
}

/// What a script's question about the document is answered, where the document as it
/// stands has the answer.
pub open spec fn read_reply(
    s: StateView,
    d: DomView,
    cmd: Seq<char>,
    arg1: Seq<char>,
    arg2: Seq<char>,
) -> Option<Seq<char>> {
    let n = id_of(arg1);
    let m = id_of(arg2);
    if cmd == "document_node_id"@ {
        Some(text::decimal_text(d.document as nat))
    } else if cmd == "document_title"@ {
        Some(quoted(s.title))
    } else if cmd == "document_url"@ {
        Some(quoted(s.url))
    } else if cmd == "document_encoding"@ {
        Some(quoted(s.encoding))
    } else if cmd == "document_element"@ {
        Some(node_text(d.first_html(d.children(d.document))))
    } else if cmd == "document_doctype"@ {
        Some(d.doctype_text(d.first_doctype(d.children(d.document))))
    } else if cmd == "node_type"@ {
        Some(d.of_node(n, |x: DataView| x.type_code(), "0"@))
    } else if cmd == "node_name"@ {
        Some(quoted(d.of_node(n, |x: DataView| x.node_name(), Seq::empty())))
    } else if cmd == "parent_node"@ || cmd == "first_child"@ || cmd == "last_child"@ || cmd
        == "next_sibling"@ || cmd == "prev_sibling"@ {
        Some(node_text(d.relative(n, cmd)))
    } else if cmd == "child_nodes"@ {
        Some(ids_text(d.children(n)))
    } else if cmd == "tag_name"@ {
        Some(quoted(d.of_node(n, |x: DataView| x.tag_name(), Seq::empty())))
    } else if cmd == "get_attribute"@ {
        Some(
            json::json_text(
                json::opt_str_view(
                    match d.node(n) {
                        Some(x) => x.data.attribute(arg2),
                        None => None,
                    },
                ),
            ),
        )
    } else if cmd == "attribute_names"@ {
        Some(
            json::json_text(
                JsonView::Array(
                    (match d.node(n) {
                        Some(x) => x.data.attribute_names(),
                        None => Seq::empty(),
                    }).map_values(|t: Seq<char>| JsonView::Str(t)),
                ),
            ),
        )
    } else if cmd == "pi_target"@ {
        Some(quoted(d.of_node(n, |x: DataView| x.pi_target(), Seq::empty())))
    } else if cmd == "doctype_name"@ {
        Some(quoted(d.of_node(n, |x: DataView| x.doctype_name(), Seq::empty())))
    } else if cmd == "doctype_public_id"@ {
        Some(quoted(d.of_node(n, |x: DataView| x.doctype_public_id(), Seq::empty())))
    } else if cmd == "element_children"@ {
        Some(ids_text(d.elements(d.children(n))))
    } else if cmd == "has_child_nodes"@ {
        Some(
            bool_text(
                match d.node(n) {
                    Some(x) => x.first_child is Some,
                    None => false,
                },
            ),
        )
    } else if cmd == "node_index"@ {
        Some(text::decimal_text(d.child_index(n)))
    } else if cmd == "compare_order"@ {
        Some(
            if d.order(n, m) < 0 {
                "-1"@
            } else if d.order(n, m) > 0 {
                "1"@
            } else {
                "0"@
            },
        )
    } else if cmd == "node_root"@ {
        Some(text::decimal_text(d.root(n) as nat))
    } else {
        None
    }
}

/// What the tree has to do for a command that is no question, or the reply where there
/// is nothing to do.
pub open spec fn tree_call(d: DomView, cmd: Seq<char>, arg1: Seq<char>, arg2: Seq<char>) -> OutcomeView {
    let n = id_of(arg1);
    let m = id_of(arg2);
    if cmd == "get_element_by_id"@ {
        OutcomeView::Call(CallView::GetElementById(arg1))
    } else if cmd == "query_selector"@ {
        OutcomeView::Call(CallView::QuerySelector(arg1))
    } else if cmd == "query_selector_all"@ {
        OutcomeView::Call(CallView::QuerySelectorAll(arg1))
    } else if cmd == "query_selector_scoped"@ {
        OutcomeView::Call(CallView::QuerySelectorFrom(n, arg2))
    } else if cmd == "query_selector_all_scoped"@ {
        OutcomeView::Call(CallView::QuerySelectorAllFrom(n, arg2))
    } else if cmd == "text_content"@ {
        OutcomeView::Call(CallView::TextContent(n))
    } else if cmd == "set_attribute"@ {
        match text::split_first(arg2, '\0') {
            Some((name, value)) => if name == "id"@ {
                OutcomeView::Call(
                    CallView::SetId {
                        node: n,
                        old_id: match d.node(n) {
                            Some(x) => x.data.attribute("id"@),
                            None => None,
                        },
                        value,
                    },
                )
            } else {
                OutcomeView::Call(CallView::SetAttribute { node: n, name, value })
            },
            None => OutcomeView::Reply("true"@),
        }
    } else if cmd == "inner_html"@ {
        OutcomeView::Call(CallView::InnerHtml(n))
    } else if cmd == "outer_html"@ {
        OutcomeView::Call(CallView::OuterHtml(n))
    } else if cmd == "append_child"@ {
        OutcomeView::Call(CallView::AppendChild { parent: n, child: m })
    } else if cmd == "remove_child"@ {
        OutcomeView::Call(CallView::RemoveChild(n))
    } else if cmd == "insert_before"@ {
        OutcomeView::Call(CallView::InsertBefore { reference: m, new_node: n })
    } else if cmd == "remove_attribute"@ {
        match d.node(n) {
            Some(x) => match x.data {
                DataView::Element { attrs, .. } => OutcomeView::Call(
                    CallView::KeepAttributes { node: n, places: places_but(attrs, arg2) },
                ),
                _ => OutcomeView::Reply("true"@),
            },
            None => OutcomeView::Reply("true"@),
        }
    } else if cmd == "set_inner_html"@ {
        OutcomeView::Call(
            CallView::ReplaceChildren {
                node: n,
                detach: d.children(n),
                html: if arg2.len() == 0 {
                    None
                } else {
                    Some(arg2)
                },
            },
        )
    } else if cmd == "set_text_content"@ {
        match d.node(n) {
            Some(x) => if x.data.is_character_data() {
                OutcomeView::Call(CallView::SetCharacterData { node: n, data: arg2 })
            } else {
                OutcomeView::Reply("true"@)
            },
            None => OutcomeView::Reply("true"@),
        }
    } else if cmd == "create_document_fragment"@ {
        OutcomeView::Call(CallView::CreateDocumentFragment)
    } else if cmd == "create_element"@ {
        OutcomeView::Call(CallView::CreateElement(arg1))
    } else if cmd == "create_text_node"@ {
        OutcomeView::Call(CallView::CreateTextNode(arg1))
    } else if cmd == "create_comment_node"@ {
        OutcomeView::Call(CallView::CreateComment(arg1))
    } else if cmd == "create_processing_instruction"@ {
        OutcomeView::Call(CallView::CreateProcessingInstruction { target: arg1, data: arg2 })
    } else if cmd == "create_doctype"@ {
        OutcomeView::Call(CallView::CreateDoctype { name: arg1, public_id: arg2 })
    } else if cmd == "contains"@ {
        OutcomeView::Call(CallView::Descendants { node: n, wanted: m })
    } else {
        OutcomeView::Reply("null"@)
    }
}

/// What becomes of a command.
pub open spec fn dom_outcome(s: StateView, cmd: Seq<char>, arg1: Seq<char>, arg2: Seq<char>) -> OutcomeView {
    match s.dom {
        None => OutcomeView::Reply("null"@),
        Some(d) => match read_reply(s, d, cmd, arg1, arg2) {
            Some(t) => OutcomeView::Reply(t),
            None => tree_call(d, cmd, arg1, arg2),
        },
    }
}

/// The reply to a command that the tree had something to do for.
pub open spec fn call_reply(call: CallView, node: Option<u32>, nodes: Seq<u32>, found: Seq<char>) -> Seq<char> {
    match call {
        CallView::GetElementById(_) => node_text(node),
        CallView::QuerySelector(_) => node_text(node),
        CallView::QuerySelectorFrom(_, _) => node_text(node),
        CallView::CreateDocumentFragment => node_text(node),
        CallView::CreateElement(_) => node_text(node),
        CallView::CreateTextNode(_) => node_text(node),
        CallView::CreateComment(_) => node_text(node),
        CallView::CreateProcessingInstruction { .. } => node_text(node),
        CallView::CreateDoctype { .. } => node_text(node),
        CallView::QuerySelectorAll(_) => ids_text(nodes),
        CallView::QuerySelectorAllFrom(_, _) => ids_text(nodes),
        CallView::TextContent(_) => quoted(found),
        CallView::InnerHtml(_) => quoted(found),
        CallView::OuterHtml(_) => quoted(found),
        CallView::Descendants { wanted, .. } => bool_text(nodes.contains(wanted)),
        _ => "true"@,
    }
}

fn id_arg(arg: &str) -> (r: u32)
    ensures
        r == id_of(arg@),
{
    match text::parse_uint(arg, 0xffff_ffff) {
        Some(n) => n as u32,
        None => 0,
    }
}

fn quote(s: &str) -> (r: String)
    ensures
        r@ == quoted(s@),
{
    Json::string(s).to_text()
}

fn ids_reply(ids: &Vec<u32>) -> (r: String)
    ensures
        r@ == ids_text(ids@),
{
    let mut out: Vec<Json> = Vec::new();
    let mut i: usize = 0;
    while i < ids.len()
        invariant
            i <= ids.len(),
            json::views(out@) == ids@.subrange(0, i as int).map_values(|n: u32| id_json(n)),
        decreases ids.len() - i,
    {
        let ghost before = out@;
        let n: u32 = ids[i];
        let j: Json = if n < 0x8000_0000 {
            Json::UInt(n as u64)
        } else {
            Json::Int(n as i64 - 0x1_0000_0000)
        };
        out.push(j);
        assert(json::views(out@) =~= json::views(before).push(j@));
        assert(ids@.subrange(0, i + 1).map_values(|n: u32| id_json(n)) =~= ids@.subrange(
            0,
            i as int,
        ).map_values(|n: u32| id_json(n)).push(id_json(n)));
        i += 1;
    }
    proof {
        assert(ids@.subrange(0, i as int) =~= ids@);
        json::array_view(out);
    }
    Json::Array(out).to_text()
}

fn node_reply(n: Option<u32>) -> (r: String)
    ensures
        r@ == node_text(n),
{
    match n {
        Some(i) => text::decimal(i as u64),
        None => "-1".to_owned(),
    }
}

fn bool_reply(b: bool) -> (r: String)
    ensures
        r@ == bool_text(b),
{
    if b {
        "true".to_owned()
    } else {
        "false".to_owned()
    }
}

fn find_attr(attrs: &Vec<(String, String)>, name: &str) -> (r: Option<String>)
    ensures
        text::opt(r) == first_attr(assoc::entry_views(attrs@), name@),
{
    let ghost all = assoc::entry_views(attrs@);
    let mut i: usize = 0;
    assert(all.skip(0) =~= all);
    while i < attrs.len()
        invariant
            i <= attrs.len(),
            all == assoc::entry_views(attrs@),
            first_attr(all, name@) == first_attr(all.skip(i as int), name@),
        decreases attrs.len() - i,
    {
        if text::same(attrs[i].0.as_str(), name) {
            return Some(attrs[i].1.clone());
        }
        assert(all.skip(i as int).skip(1) =~= all.skip(i + 1));
        i += 1;
    }
    None
}

fn keep_attrs(attrs: &Vec<(String, String)>, name: &str) -> (r: Vec<usize>)
    ensures
        r@ == places_but(assoc::entry_views(attrs@), name@),
{
    let ghost all = assoc::entry_views(attrs@);
    let mut out: Vec<usize> = Vec::new();
    let mut i: usize = 0;
    while i < attrs.len()
        invariant
            i <= attrs.len(),
            all == assoc::entry_views(attrs@),
            out@ == places_but(all.subrange(0, i as int), name@),
        decreases attrs.len() - i,
    {
        assert(all.subrange(0, i + 1).drop_last() =~= all.subrange(0, i as int));
        if !text::same(attrs[i].0.as_str(), name) {
            out.push(i);
        }
        i += 1;
    }
    assert(all.subrange(0, i as int) =~= all);
    out
}

impl NodeData {
    fn type_code(&self) -> (r: &'static str)
        ensures
            r@ == self@.type_code(),
    {
        match self {
            NodeData::Document => "9",
            NodeData::Element { .. } => "1",
            NodeData::Text { .. } => "3",
            NodeData::Comment { .. } => "8",
            NodeData::Doctype { .. } => "10",
            NodeData::ProcessingInstruction { .. } => "7",
        }
    }

    fn node_name(&self) -> (r: String)
        ensures
            r@ == self@.node_name(),
    {
        match self {
            NodeData::Document => "#document".to_owned(),
            NodeData::Element { name, .. } => text::to_ascii_uppercase(name.as_str()),
            NodeData::Text { .. } => "#text".to_owned(),
            NodeData::Comment { .. } => "#comment".to_owned(),
            NodeData::Doctype { name, .. } => name.clone(),
            NodeData::ProcessingInstruction { target, .. } => target.clone(),
        }
    }

    fn tag_name(&self) -> (r: String)
        ensures
            r@ == self@.tag_name(),
    {
        match self {
            NodeData::Element { name, .. } => text::to_ascii_uppercase(name.as_str()),
            _ => String::new(),
        }
    }

    fn attribute(&self, wanted: &str) -> (r: Option<String>)
        ensures
            text::opt(r) == self@.attribute(wanted@),
    {
        match self {
            NodeData::Element { attrs, .. } => find_attr(attrs, wanted),
            _ => None,
        }
    }

    fn attribute_names(&self) -> (r: Vec<Json>)
        ensures
            json::views(r@) == self@.attribute_names().map_values(
                |t: Seq<char>| JsonView::Str(t),
            ),
    {
        let mut out: Vec<Json> = Vec::new();
        match self {
            NodeData::Element { attrs, .. } => {
                let mut i: usize = 0;
                while i < attrs.len()
                    invariant
                        i <= attrs.len(),
                        out.len() == i,
                        forall|j: int|
                            0 <= j < i ==> (#[trigger] out@[j])@ == JsonView::Str(attrs@[j].0@),
                    decreases attrs.len() - i,
                {
                    out.push(Json::string(attrs[i].0.as_str()));
                    i += 1;
                }
            },
            _ => {},
        }
        assert(json::views(out@) =~= self@.attribute_names().map_values(
            |t: Seq<char>| JsonView::Str(t),
        ));
        out
    }

    fn pi_target(&self) -> (r: String)
        ensures
            r@ == self@.pi_target(),
    {
        match self {
            NodeData::ProcessingInstruction { target, .. } => target.clone(),
            _ => String::new(),
        }
    }

    fn doctype_name(&self) -> (r: String)
        ensures
            r@ == self@.doctype_name(),
    {
        match self {
            NodeData::Doctype { name, .. } => name.clone(),
            _ => String::new(),
        }
    }

    fn doctype_public_id(&self) -> (r: String)
        ensures
            r@ == self@.doctype_public_id(),
    {
        match self {
            NodeData::Doctype { public_id, .. } => public_id.clone(),
            _ => String::new(),
        }
    }

    fn is_character_data(&self) -> (r: bool)
        ensures
            r == self@.is_character_data(),
    {
        match self {
            NodeData::Text { .. } => true,
            NodeData::Comment { .. } => true,
            NodeData::ProcessingInstruction { .. } => true,
            _ => false,
        }
    }
}

impl DomTree {
    /// The children of a node.
    pub fn children(&self, n: u32) -> (r: Vec<u32>)
        ensures
            r@ == self@.children(n),
    {
        match self.get_node(n) {
            Some(x) => {
                let r: Vec<u32> = x.children.clone();
                assert(r@ =~= x.children@);
                r
            },
            None => Vec::new(),
        }
    }

    fn is_element(&self, n: u32) -> (r: bool)
        ensures
            r == self@.is_element(n),
    {
        match self.get_node(n) {
            Some(x) => match &x.data {
                NodeData::Element { .. } => true,
                _ => false,
            },
            None => false,
        }
    }

    fn elements(&self, ids: &Vec<u32>) -> (r: Vec<u32>)
        ensures
            r@ == self@.elements(ids@),
    {
        let mut out: Vec<u32> = Vec::new();
        let mut i: usize = 0;
        while i < ids.len()
            invariant
                i <= ids.len(),
                out@ == self@.elements(ids@.subrange(0, i as int)),
            decreases ids.len() - i,
        {
            assert(ids@.subrange(0, i + 1).drop_last() =~= ids@.subrange(0, i as int));
            if self.is_element(ids[i]) {
                out.push(ids[i]);
            }
            i += 1;
        }
        assert(ids@.subrange(0, i as int) =~= ids@);
        out
    }

    fn first_html(&self, ids: &Vec<u32>) -> (r: Option<u32>)
        ensures
            r == self@.first_html(ids@),
    {
        let mut i: usize = 0;
        assert(ids@.skip(0) =~= ids@);
        while i < ids.len()
            invariant
                i <= ids.len(),
                self@.first_html(ids@) == self@.first_html(ids@.skip(i as int)),
            decreases ids.len() - i,
        {
            assert(ids@.skip(i as int).skip(1) =~= ids@.skip(i + 1));
            if let Some(x) = self.get_node(ids[i]) {
                if let NodeData::Element { name, .. } = &x.data {
                    if text::same(name.as_str(), "html") {
                        return Some(ids[i]);
                    }
                }
            }
            i += 1;
        }
        None
    }

    fn first_doctype(&self, ids: &Vec<u32>) -> (r: Option<u32>)
        ensures
            r == self@.first_doctype(ids@),
    {
        let mut i: usize = 0;
        assert(ids@.skip(0) =~= ids@);
        while i < ids.len()
            invariant
                i <= ids.len(),
                self@.first_doctype(ids@) == self@.first_doctype(ids@.skip(i as int)),
            decreases ids.len() - i,
        {
            assert(ids@.skip(i as int).skip(1) =~= ids@.skip(i + 1));
            if let Some(x) = self.get_node(ids[i]) {
                if let NodeData::Doctype { .. } = &x.data {
                    return Some(ids[i]);
                }
            }
            i += 1;
        }
        None
    }

    fn doctype_reply(&self, n: Option<u32>) -> (r: String)
        ensures
            r@ == self@.doctype_text(n),
    {
        if let Some(id) = n {
            if let Some(x) = self.get_node(id) {
                if let NodeData::Doctype { name, public_id, system_id } = &x.data {
                    return Json::object().put("name", Json::string(name.as_str())).put(
                        "publicId",
                        Json::string(public_id.as_str()),
                    ).put("systemId", Json::string(system_id.as_str())).put(
                        "nodeId",
                        Json::UInt(id as u64),
                    ).to_text();
                }
            }
        }
        "null".to_owned()
    }

    fn relative(&self, n: u32, which: &str) -> (r: Option<u32>)
        ensures
            r == self@.relative(n, which@),
    {
        match self.get_node(n) {
            Some(x) => if text::same(which, "parent_node") {
                x.parent
            } else if text::same(which, "first_child") {
                x.first_child
            } else if text::same(which, "last_child") {
                x.last_child
            } else if text::same(which, "next_sibling") {
                x.next_sibling
            } else {
                x.prev_sibling
            },
            None => None,
        }
    }

    fn attribute_of(&self, n: u32, name: &str) -> (r: Option<String>)
        ensures
            text::opt(r) == match self@.node(n) {
                Some(x) => x.data.attribute(name@),
                None => None,
            },
    {
        match self.get_node(n) {
            Some(x) => x.data.attribute(name),
            None => None,
        }
    }
}

/// Whether the links that a command follows from the nodes that it names do not run in a
/// circle. All but three commands follow none.
pub open spec fn answerable(d: DomView, cmd: Seq<char>, arg1: Seq<char>, arg2: Seq<char>) -> bool {
    let n = id_of(arg1);
    &&& cmd == "node_index"@ ==> d.way_back_ends(n)
    &&& cmd == "compare_order"@ ==> d.comparable(n, id_of(arg2))
    &&& cmd == "node_root"@ ==> d.way_up_ends(n)
}

/// Whether the links that a command follows from the nodes that it names do not run in a
/// circle.
pub fn links_end(dom: &DomTree, cmd: &str, arg1: &str, arg2: &str) -> (r: bool)
    ensures
        r == answerable(dom@, cmd@, arg1@, arg2@),
{
    let n: u32 = id_arg(arg1);
    (!text::same(cmd, "node_index") || dom.back_links_end(n)) && (!text::same(cmd, "compare_order")
        || dom.can_compare(n, id_arg(arg2))) && (!text::same(cmd, "node_root") || dom.up_links_end(
        n,
    ))
}

fn answer_question(
    state: &ObscuraState,
    dom: &DomTree,
    cmd: &str,
    arg1: &str,
    arg2: &str,
) -> (r: Option<String>)
    requires
        answerable(dom@, cmd@, arg1@, arg2@),
    ensures
        text::opt(r) == read_reply(state@, dom@, cmd@, arg1@, arg2@),
{
    let n: u32 = id_arg(arg1);
    if text::same(cmd, "document_node_id") {
        Some(text::decimal(dom.document as u64))
    } else if text::same(cmd, "document_title") {
        Some(quote(state.title.as_str()))
    } else if text::same(cmd, "document_url") {
        Some(quote(state.url.as_str()))
    } else if text::same(cmd, "document_encoding") {
        Some(quote(state.encoding.as_str()))
    } else if text::same(cmd, "document_element") {
        Some(node_reply(dom.first_html(&dom.children(dom.document))))
    } else if text::same(cmd, "document_doctype") {
        Some(dom.doctype_reply(dom.first_doctype(&dom.children(dom.document))))
    } else if text::same(cmd, "node_type") {
        match dom.get_node(n) {
            Some(x) => Some(x.data.type_code().to_owned()),
            None => Some("0".to_owned()),
        }
    } else if text::same(cmd, "node_name") {
        match dom.get_node(n) {
            Some(x) => Some(quote(x.data.node_name().as_str())),
            None => Some(quote(String::new().as_str())),
        }
    } else if text::same(cmd, "parent_node") || text::same(cmd, "first_child") || text::same(
        cmd,
        "last_child",
    ) || text::same(cmd, "next_sibling") || text::same(cmd, "prev_sibling") {
        Some(node_reply(dom.relative(n, cmd)))
    } else if text::same(cmd, "child_nodes") {
        Some(ids_reply(&dom.children(n)))
    } else if text::same(cmd, "tag_name") {
        match dom.get_node(n) {
            Some(x) => Some(quote(x.data.tag_name().as_str())),
            None => Some(quote(String::new().as_str())),
        }
    } else if text::same(cmd, "get_attribute") {
        Some(Json::opt_string(&dom.attribute_of(n, arg2)).to_text())
    } else if text::same(cmd, "attribute_names") {
        let names: Vec<Json> = match dom.get_node(n) {
            Some(x) => x.data.attribute_names(),
            None => Vec::new(),
        };
        proof {
            json::array_view(names);
            let said = match dom@.node(n) {
                Some(x) => x.data.attribute_names(),
                None => Seq::empty(),
            };
            assert(json::views(names@) =~= said.map_values(|t: Seq<char>| JsonView::Str(t)));
        }
        Some(Json::Array(names).to_text())
    } else if text::same(cmd, "pi_target") {
        match dom.get_node(n) {
            Some(x) => Some(quote(x.data.pi_target().as_str())),
            None => Some(quote(String::new().as_str())),
        }
    } else if text::same(cmd, "doctype_name") {
        match dom.get_node(n) {
            Some(x) => Some(quote(x.data.doctype_name().as_str())),
            None => Some(quote(String::new().as_str())),
        }
    } else if text::same(cmd, "doctype_public_id") {
        match dom.get_node(n) {
            Some(x) => Some(quote(x.data.doctype_public_id().as_str())),
            None => Some(quote(String::new().as_str())),
        }
    } else if text::same(cmd, "element_children") {
        Some(ids_reply(&dom.elements(&dom.children(n))))
    } else if text::same(cmd, "has_child_nodes") {
        match dom.get_node(n) {
            Some(x) => Some(bool_reply(x.first_child.is_some())),
            None => Some(bool_reply(false)),
        }
    } else if text::same(cmd, "node_index") {
        Some(text::decimal(dom.node_child_index(n) as u64))
    } else if text::same(cmd, "compare_order") {
        let o: i32 = dom.compare_node_order(n, id_arg(arg2));
        Some(
            if o < 0 {
                "-1".to_owned()
            } else if o > 0 {
                "1".to_owned()
            } else {
                "0".to_owned()
            },
        )
    } else if text::same(cmd, "node_root") {
        Some(text::decimal(dom.node_root(n) as u64))
    } else {
        None
    }
}

fn plan_change(dom: &DomTree, cmd: &str, arg1: &str, arg2: &str) -> (r: DomOutcome)
    ensures
        r@ == tree_call(dom@, cmd@, arg1@, arg2@),
{
    let n: u32 = id_arg(arg1);
    let m: u32 = id_arg(arg2);
    if text::same(cmd, "get_element_by_id") {
        DomOutcome::Call(DomCall::GetElementById(arg1.to_owned()))
    } else if text::same(cmd, "query_selector") {
        DomOutcome::Call(DomCall::QuerySelector(arg1.to_owned()))
    } else if text::same(cmd, "query_selector_all") {
        DomOutcome::Call(DomCall::QuerySelectorAll(arg1.to_owned()))
    } else if text::same(cmd, "query_selector_scoped") {
        DomOutcome::Call(DomCall::QuerySelectorFrom(n, arg2.to_owned()))
    } else if text::same(cmd, "query_selector_all_scoped") {
        DomOutcome::Call(DomCall::QuerySelectorAllFrom(n, arg2.to_owned()))
    } else if text::same(cmd, "text_content") {
        DomOutcome::Call(DomCall::TextContent(n))
    } else if text::same(cmd, "set_attribute") {
        match text::split_once(arg2, '\0') {
            Some((name, value)) => if text::same(name.as_str(), "id") {
                let old_id: Option<String> = dom.attribute_of(n, "id");
                DomOutcome::Call(DomCall::SetId { node: n, old_id, value })
            } else {
                DomOutcome::Call(DomCall::SetAttribute { node: n, name, value })
            },
            None => DomOutcome::Reply("true".to_owned()),
        }
    } else if text::same(cmd, "inner_html") {
        DomOutcome::Call(DomCall::InnerHtml(n))
    } else if text::same(cmd, "outer_html") {
        DomOutcome::Call(DomCall::OuterHtml(n))
    } else if text::same(cmd, "append_child") {
        DomOutcome::Call(DomCall::AppendChild { parent: n, child: m })
    } else if text::same(cmd, "remove_child") {
        DomOutcome::Call(DomCall::RemoveChild(n))
    } else if text::same(cmd, "insert_before") {
        DomOutcome::Call(DomCall::InsertBefore { reference: m, new_node: n })
    } else if text::same(cmd, "remove_attribute") {
        match dom.get_node(n) {
            Some(x) => match &x.data {
                NodeData::Element { attrs, .. } => DomOutcome::Call(
                    DomCall::KeepAttributes { node: n, places: keep_attrs(attrs, arg2) },
                ),
                _ => DomOutcome::Reply("true".to_owned()),
            },
            None => DomOutcome::Reply("true".to_owned()),
        }
    } else if text::same(cmd, "set_inner_html") {
        let html: Option<String> = if arg2.is_empty() {
            None
        } else {
            Some(arg2.to_owned())
        };
        DomOutcome::Call(DomCall::ReplaceChildren { node: n, detach: dom.children(n), html })
    } else if text::same(cmd, "set_text_content") {
        match dom.get_node(n) {
            Some(x) => if x.data.is_character_data() {
                DomOutcome::Call(DomCall::SetCharacterData { node: n, data: arg2.to_owned() })
            } else {
                DomOutcome::Reply("true".to_owned())
            },
            None => DomOutcome::Reply("true".to_owned()),
        }
    } else if text::same(cmd, "create_document_fragment") {
        DomOutcome::Call(DomCall::CreateDocumentFragment)
    } else if text::same(cmd, "create_element") {
        DomOutcome::Call(DomCall::CreateElement(arg1.to_owned()))
    } else if text::same(cmd, "create_text_node") {
        DomOutcome::Call(DomCall::CreateTextNode(arg1.to_owned()))
    } else if text::same(cmd, "create_comment_node") {
        DomOutcome::Call(DomCall::CreateComment(arg1.to_owned()))
    } else if text::same(cmd, "create_processing_instruction") {
        DomOutcome::Call(
            DomCall::CreateProcessingInstruction {
                target: arg1.to_owned(),
                data: arg2.to_owned(),
            },
        )
    } else if text::same(cmd, "create_doctype") {
        DomOutcome::Call(
            DomCall::CreateDoctype { name: arg1.to_owned(), public_id: arg2.to_owned() },
        )
    } else if text::same(cmd, "contains") {
        DomOutcome::Call(DomCall::Descendants { node: n, wanted: m })
    } else {
        DomOutcome::Reply("null".to_owned())
    }
}

/// Takes a command of a script: answers it, or says what the tree has to do for it. The
/// three commands that follow links need these to end.
pub fn op_dom_inner(state: &ObscuraState, cmd: &str, arg1: &str, arg2: &str) -> (r: DomOutcome)
    requires
        state@.dom is Some ==> answerable(state@.dom->0, cmd@, arg1@, arg2@),
    ensures
        r@ == dom_outcome(state@, cmd@, arg1@, arg2@),
{
    match &state.dom {
        None => DomOutcome::Reply("null".to_owned()),
        Some(dom) => match answer_question(state, dom, cmd, arg1, arg2) {
            Some(t) => DomOutcome::Reply(t),
            None => plan_change(dom, cmd, arg1, arg2),
        },
    }
}

fn holds(nodes: &Vec<u32>, wanted: u32) -> (r: bool)
    ensures
        r == nodes@.contains(wanted),
{
    let mut i: usize = 0;
    while i < nodes.len()
        invariant
            i <= nodes.len(),
            forall|j: int| 0 <= j < i ==> nodes@[j] != wanted,
        decreases nodes.len() - i,
    {
        if nodes[i] == wanted {
            return true;
        }
        i += 1;
    }
    false
}

/// The reply to a command that the tree had something to do for.
pub fn dom_reply(call: &DomCall, answer: &DomAnswer) -> (r: String)
    ensures
        r@ == call_reply(call@, answer.node, answer.nodes@, answer.text@),
{
    match call {
        DomCall::GetElementById(_) => node_reply(answer.node),
        DomCall::QuerySelector(_) => node_reply(answer.node),
        DomCall::QuerySelectorFrom(_, _) => node_reply(answer.node),
        DomCall::CreateDocumentFragment => node_reply(answer.node),
        DomCall::CreateElement(_) => node_reply(answer.node),
        DomCall::CreateTextNode(_) => node_reply(answer.node),
        DomCall::CreateComment(_) => node_reply(answer.node),
        DomCall::CreateProcessingInstruction { .. } => node_reply(answer.node),
        DomCall::CreateDoctype { .. } => node_reply(answer.node),
        DomCall::QuerySelectorAll(_) => ids_reply(&answer.nodes),
        DomCall::QuerySelectorAllFrom(_, _) => ids_reply(&answer.nodes),
        DomCall::TextContent(_) => quote(answer.text.as_str()),
        DomCall::InnerHtml(_) => quote(answer.text.as_str()),
        DomCall::OuterHtml(_) => quote(answer.text.as_str()),
        DomCall::Descendants { wanted, .. } => bool_reply(holds(&answer.nodes, *wanted)),
        _ => "true".to_owned(),
    }
}

/// Taking an attribute off an element leaves exactly the attributes with other names, in
/// their order.
pub proof fn removed_attribute_is_gone(attrs: Seq<(Seq<char>, Seq<char>)>, name: Seq<char>)
    requires
        attrs.len() <= usize::MAX,
    ensures
        forall|k: int|
            0 <= k < places_but(attrs, name).len() ==> {
                let p = #[trigger] places_but(attrs, name)[k] as int;
                0 <= p < attrs.len() && attrs[p].0 != name
            },
        forall|k: int, l: int|
            0 <= k < l < places_but(attrs, name).len() ==> (#[trigger] places_but(attrs, name)[k])
                < (#[trigger] places_but(attrs, name)[l]),
        forall|i: int|
            0 <= i < attrs.len() && (#[trigger] attrs[i]).0 != name ==> places_but(
                attrs,
                name,
            ).contains(i as usize),
    decreases attrs.len(),
{
    if attrs.len() > 0 {
        let init = attrs.drop_last();
        removed_attribute_is_gone(init, name);
        let v = places_but(init, name);
        let w = places_but(attrs, name);
        assert forall|k: int| 0 <= k < w.len() implies {
            let p = #[trigger] w[k] as int;
            0 <= p < attrs.len() && attrs[p].0 != name
        } by {
            if k < v.len() {
                assert(w[k] == v[k]);
            }
        }
        assert forall|i: int| 0 <= i < attrs.len() && (#[trigger] attrs[i]).0
            != name implies w.contains(i as usize) by {
            if i < init.len() {
                assert(init[i] == attrs[i]);
                let k = choose|k: int| 0 <= k < v.len() && v[k] == i as usize;
                assert(w[k] == i as usize);
            } else {
                assert(w[w.len() - 1] == i as usize);
            }
        }
    }
}

/// What the index of the tree's ids is after a call, where the tree does what it is asked:
/// setting an id takes the old one out of the index and puts the new one in.
pub open spec fn index_after(index: Map<Seq<char>, u32>, call: CallView) -> Map<Seq<char>, u32> {
    match call {
        CallView::SetId { node, old_id, value } => (match old_id {
            Some(o) => index.remove(o),
            None => index,
        }).insert(value, node),
        _ => index,
    }
}

proof fn set_attribute_is_a_change(s: StateView, d: DomView, arg1: Seq<char>, arg2: Seq<char>)
    requires
        s.dom == Some(d),
    ensures
        dom_outcome(s, "set_attribute"@, arg1, arg2) == match text::split_first(arg2, '\0') {
            Some((name, value)) => if name == "id"@ {
                OutcomeView::Call(
                    CallView::SetId {
                        node: id_of(arg1),
                        old_id: match d.node(id_of(arg1)) {
                            Some(x) => x.data.attribute("id"@),
                            None => None,
                        },
                        value,
                    },
                )
            } else {
                OutcomeView::Call(CallView::SetAttribute { node: id_of(arg1), name, value })
            },
            None => OutcomeView::Reply("true"@),
        },
{
    reveal_strlit("document_node_id");
    reveal_strlit("document_title");
    reveal_strlit("document_url");
    reveal_strlit("document_encoding");
    reveal_strlit("document_element");
    reveal_strlit("document_doctype");
    reveal_strlit("node_type");
    reveal_strlit("node_name");
    reveal_strlit("parent_node");
    reveal_strlit("first_child");
    reveal_strlit("last_child");
    reveal_strlit("next_sibling");
    reveal_strlit("prev_sibling");
    reveal_strlit("child_nodes");
    reveal_strlit("tag_name");
    reveal_strlit("get_attribute");
    reveal_strlit("attribute_names");
    reveal_strlit("pi_target");
    reveal_strlit("doctype_name");
    reveal_strlit("doctype_public_id");
    reveal_strlit("element_children");
    reveal_strlit("has_child_nodes");
    reveal_strlit("node_index");
    reveal_strlit("compare_order");
    reveal_strlit("node_root");
    reveal_strlit("get_element_by_id");
    reveal_strlit("query_selector");
    reveal_strlit("query_selector_all");
    reveal_strlit("query_selector_scoped");
    reveal_strlit("query_selector_all_scoped");
    reveal_strlit("text_content");
    reveal_strlit("set_attribute");
    let cmd = "set_attribute"@;
    assert(cmd[0] == 's' && cmd[4] == 'a');
}

/// What stands before the first NUL is the name of the attribute, and all that follows is its
/// value; an argument without a NUL sets nothing.
pub proof fn attribute_is_split_at_first_nul(
    s: StateView,
    d: DomView,
    arg1: Seq<char>,
    name: Seq<char>,
    value: Seq<char>,
)
    requires
        s.dom == Some(d),
        !name.contains('\0'),
        name != "id"@,
    ensures
        dom_outcome(s, "set_attribute"@, arg1, name + seq!['\0'] + value) == OutcomeView::Call(
            CallView::SetAttribute { node: id_of(arg1), name, value },
        ),
        dom_outcome(s, "set_attribute"@, arg1, name) == OutcomeView::Reply("true"@),
{
    text::split_at_first(name, '\0', value);
    set_attribute_is_a_change(s, d, arg1, name + seq!['\0'] + value);
    set_attribute_is_a_change(s, d, arg1, name);
}

/// The id index follows the id attribute: setting the id of a node to `value` leaves `value`
/// leading to the node, the id that it had before leading nowhere, and all others as they
/// were.
pub proof fn id_index_follows_attribute(
    s: StateView,
    d: DomView,
    arg1: Seq<char>,
    value: Seq<char>,
    index: Map<Seq<char>, u32>,
)
    requires
        s.dom == Some(d),
    ensures
        ({
            let n = id_of(arg1);
            let old_id = match d.node(n) {
                Some(x) => x.data.attribute("id"@),
                None => None,
            };
            let outcome = dom_outcome(s, "set_attribute"@, arg1, "id"@ + seq!['\0'] + value);
            let after = index_after(index, outcome->Call_0);
            &&& outcome is Call
            &&& after.contains_key(value) && after[value] == n
            &&& forall|x: Seq<char>|
                x != value && Some(x) == old_id ==> !#[trigger] after.contains_key(x)
            &&& forall|x: Seq<char>|
                x != value && Some(x) != old_id ==> (#[trigger] after.contains_key(x)
                    == index.contains_key(x) && after[x] == index[x])
        }),
{
    reveal_strlit("id");
    assert(!"id"@.contains('\0'));
    text::split_at_first("id"@, '\0', value);
    set_attribute_is_a_change(s, d, arg1, "id"@ + seq!['\0'] + value);
}

} // verus!
