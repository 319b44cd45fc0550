//! What the commands of page scripts are for, command by command.

use vstd::prelude::*;
use vstd::string::*;

use crate::js::dom::{DataView, DomView, NodeView};
use crate::js::dom_ops::{self, CallView, OutcomeView};
use crate::js::state::StateView;
use crate::json::{self, JsonView};
use crate::text;
use crate::text_laws;

verus! {

/// How some names are spelled: enough to tell them apart.
spec fn commands_differ_spelled() -> bool {
    &&& "document_node_id"@.len() == 16
    &&& "document_title"@.len() == 14
    &&& "document_url"@.len() == 12
    &&& "document_encoding"@.len() == 17
    &&& "document_element"@.len() == 16
    &&& "document_doctype"@.len() == 16
    &&& "node_type"@.len() == 9
    &&& "node_name"@.len() == 9
    &&& "parent_node"@.len() == 11
    &&& "first_child"@.len() == 11
    &&& "last_child"@.len() == 10
    &&& "next_sibling"@.len() == 12
    &&& "prev_sibling"@.len() == 12
    &&& "child_nodes"@.len() == 11
    &&& "tag_name"@.len() == 8
    &&& "get_attribute"@.len() == 13
    &&& "attribute_names"@.len() == 15
    &&& "pi_target"@.len() == 9
    &&& "doctype_name"@.len() == 12
    &&& "doctype_public_id"@.len() == 17
    &&& "element_children"@.len() == 16
    &&& "has_child_nodes"@.len() == 15
    &&& "node_index"@.len() == 10
    &&& "compare_order"@.len() == 13
    &&& "node_root"@.len() == 9
    &&& "get_element_by_id"@.len() == 17
    &&& "query_selector"@.len() == 14
    &&& "query_selector_all"@.len() == 18
    &&& "query_selector_scoped"@.len() == 21
    &&& "query_selector_all_scoped"@.len() == 25
    &&& "text_content"@.len() == 12
    &&& "set_attribute"@.len() == 13
    &&& "inner_html"@.len() == 10
    &&& "outer_html"@.len() == 10
    &&& "append_child"@.len() == 12
    &&& "remove_child"@.len() == 12
    &&& "insert_before"@.len() == 13
    &&& "remove_attribute"@.len() == 16
    &&& "set_inner_html"@.len() == 14
    &&& "set_text_content"@.len() == 16
    &&& "create_document_fragment"@.len() == 24
    &&& "create_element"@.len() == 14
    &&& "create_text_node"@.len() == 16
    &&& "create_comment_node"@.len() == 19
    &&& "create_processing_instruction"@.len() == 29
    &&& "create_doctype"@.len() == 14
    &&& "contains"@.len() == 8
    &&& "document_node_id"@[9] == 'n'
    &&& "document_element"@[9] == 'e'
    &&& "document_doctype"@[9] == 'd'
    &&& "document_node_id"@[0] == 'd'
    &&& "element_children"@[0] == 'e'
    &&& "remove_attribute"@[0] == 'r'
    &&& "set_text_content"@[0] == 's'
    &&& "create_text_node"@[0] == 'c'
    &&& "document_title"@[0] == 'd'
    &&& "query_selector"@[0] == 'q'
    &&& "set_inner_html"@[0] == 's'
    &&& "create_element"@[0] == 'c'
    &&& "create_doctype"@[0] == 'c'
    &&& "document_url"@[0] == 'd'
    &&& "next_sibling"@[0] == 'n'
    &&& "prev_sibling"@[0] == 'p'
    &&& "document_url"@[3] == 'u'
    &&& "doctype_name"@[3] == 't'
    &&& "text_content"@[0] == 't'
    &&& "append_child"@[0] == 'a'
    &&& "remove_child"@[0] == 'r'
    &&& "document_encoding"@[3] == 'u'
    &&& "doctype_public_id"@[3] == 't'
    &&& "document_encoding"@[0] == 'd'
    &&& "get_element_by_id"@[0] == 'g'
    &&& "document_element"@[0] == 'd'
    &&& "document_doctype"@[0] == 'd'
    &&& "node_type"@[5] == 't'
    &&& "node_name"@[5] == 'n'
    &&& "node_type"@[0] == 'n'
    &&& "pi_target"@[0] == 'p'
    &&& "node_root"@[5] == 'r'
    &&& "node_name"@[0] == 'n'
    &&& "parent_node"@[0] == 'p'
    &&& "first_child"@[0] == 'f'
    &&& "child_nodes"@[0] == 'c'
    &&& "last_child"@[0] == 'l'
    &&& "node_index"@[0] == 'n'
    &&& "inner_html"@[0] == 'i'
    &&& "outer_html"@[0] == 'o'
    &&& "doctype_name"@[0] == 'd'
    &&& "tag_name"@[0] == 't'
    &&& "contains"@[0] == 'c'
    &&& "get_attribute"@[0] == 'g'
    &&& "compare_order"@[0] == 'c'
    &&& "set_attribute"@[0] == 's'
    &&& "insert_before"@[0] == 'i'
    &&& "attribute_names"@[0] == 'a'
    &&& "has_child_nodes"@[0] == 'h'
    &&& "node_root"@[0] == 'n'
    &&& "doctype_public_id"@[0] == 'd'
    &&& "create_element"@[7] == 'e'
    &&& "create_doctype"@[7] == 'd'
}

#[verifier::spinoff_prover]
proof fn commands_differ()
    ensures
        commands_differ_spelled(),
{
    reveal_strlit("document_node_id");
    reveal_strlit("document_title");
    reveal_strlit("document_url");
    reveal_strlit("document_encoding");
    reveal_strlit("document_element");
    reveal_strlit("document_doctype");
    reveal_strlit("node_type");
    reveal_strlit("node_name");
    reveal_strlit("parent_node");
    reveal_strlit("first_child");
    reveal_strlit("last_child");
    reveal_strlit("next_sibling");
    reveal_strlit("prev_sibling");
    reveal_strlit("child_nodes");
    reveal_strlit("tag_name");
    reveal_strlit("get_attribute");
    reveal_strlit("attribute_names");
    reveal_strlit("pi_target");
    reveal_strlit("doctype_name");
    reveal_strlit("doctype_public_id");
    reveal_strlit("element_children");
    reveal_strlit("has_child_nodes");
    reveal_strlit("node_index");
    reveal_strlit("compare_order");
    reveal_strlit("node_root");
    reveal_strlit("get_element_by_id");
    reveal_strlit("query_selector");
    reveal_strlit("query_selector_all");
    reveal_strlit("query_selector_scoped");
    reveal_strlit("query_selector_all_scoped");
    reveal_strlit("text_content");
    reveal_strlit("set_attribute");
    reveal_strlit("inner_html");
    reveal_strlit("outer_html");
    reveal_strlit("append_child");
    reveal_strlit("remove_child");
    reveal_strlit("insert_before");
    reveal_strlit("remove_attribute");
    reveal_strlit("set_inner_html");
    reveal_strlit("set_text_content");
    reveal_strlit("create_document_fragment");
    reveal_strlit("create_element");
    reveal_strlit("create_text_node");
    reveal_strlit("create_comment_node");
    reveal_strlit("create_processing_instruction");
    reveal_strlit("create_doctype");
    reveal_strlit("contains");
}

/// A node of a tree is found by its number.
pub proof fn nodes_are_found_by_number(d: DomView, n: u32)
    ensures
        n < d.nodes.len() ==> d.node(n) == d.nodes[n as int],
        n >= d.nodes.len() ==> d.node(n) is None,
{
}

/// A number, perhaps behind a plus sign, names the node with that number; what is no number, or one
/// of more than 32 bits, names node zero.
pub proof fn arguments_name_nodes(n: u64, s: Seq<char>, c: char, t: Seq<char>)
    ensures
        n <= u32::MAX ==> dom_ops::id_of(text::decimal_text(n as nat)) == n,
        n <= u32::MAX ==> dom_ops::id_of(seq!['+'] + text::decimal_text(n as nat)) == n,
        n > u32::MAX ==> dom_ops::id_of(text::decimal_text(n as nat)) == 0,
        dom_ops::id_of(Seq::empty()) == 0,
        !('0' <= c <= '9') && (s.len() > 0 || c != '+') ==> dom_ops::id_of(s + seq![c] + t) == 0,
{
    text_laws::numbers_are_read(s, n, 0xffff_ffff, c, t);
}

/// Without a document every command is answered with `null`.
pub proof fn nothing_is_done_without_a_document(
    s: StateView,
    cmd: Seq<char>,
    arg1: Seq<char>,
    arg2: Seq<char>,
)
    requires
        s.dom is None,
    ensures
        dom_ops::dom_outcome(s, cmd, arg1, arg2) == OutcomeView::Reply("null"@),
{
}

/// What the document is called, where it is from and how it was encoded, and which node it is.
pub proof fn documents_describe_themselves(
    s: StateView,
    d: DomView,
    arg1: Seq<char>,
    arg2: Seq<char>,
)
    requires
        s.dom == Some(d),
    ensures
        dom_ops::dom_outcome(s, "document_node_id"@, arg1, arg2) == OutcomeView::Reply(
            text::decimal_text(d.document as nat),
        ),
        dom_ops::dom_outcome(s, "document_title"@, arg1, arg2) == OutcomeView::Reply(
            json::json_text(JsonView::Str(s.title)),
        ),
        dom_ops::dom_outcome(s, "document_url"@, arg1, arg2) == OutcomeView::Reply(
            json::json_text(JsonView::Str(s.url)),
        ),
        dom_ops::dom_outcome(s, "document_encoding"@, arg1, arg2) == OutcomeView::Reply(
            json::json_text(JsonView::Str(s.encoding)),
        ),
{
    commands_differ();
}

proof fn first_html_is_first(d: DomView, ids: Seq<u32>)
    ensures
        match d.first_html(ids) {
            Some(n) => exists|i: int|
                0 <= i < ids.len() && #[trigger] ids[i] == n && is_html(d, n) && forall|j: int|
                    0 <= j < i ==> !is_html(d, #[trigger] ids[j]),
            None => forall|i: int| 0 <= i < ids.len() ==> !is_html(d, #[trigger] ids[i]),
        },
    decreases ids.len(),
{
    if ids.len() > 0 {
        if is_html(d, ids[0]) {
            assert(d.first_html(ids) == Some(ids[0]));
        } else {
            let rest = ids.skip(1);
            first_html_is_first(d, rest);
            assert(d.first_html(ids) == d.first_html(rest));
            match d.first_html(ids) {
                Some(n) => {
                    let i = choose|i: int|
                        0 <= i < rest.len() && #[trigger] rest[i] == n && is_html(d, n) && forall|
                            j: int,
                        |
                            0 <= j < i ==> !is_html(d, #[trigger] rest[j]);
                    assert(ids[i + 1] == n);
                    assert forall|j: int| 0 <= j < i + 1 implies !is_html(d, #[trigger] ids[j]) by {
                        if j > 0 {
                            assert(rest[j - 1] == ids[j]);
                        }
                    }
                },
                None => {
                    assert forall|i: int| 0 <= i < ids.len() implies !is_html(
                        d,
                        #[trigger] ids[i],
                    ) by {
                        if i > 0 {
                            assert(rest[i - 1] == ids[i]);
                        }
                    }
                },
            }
        }
    }
}

proof fn first_doctype_is_first(d: DomView, ids: Seq<u32>)
    ensures
        match d.first_doctype(ids) {
            Some(n) => exists|i: int|
                0 <= i < ids.len() && #[trigger] ids[i] == n && is_doctype(d, n) && forall|j: int|
                    0 <= j < i ==> !is_doctype(d, #[trigger] ids[j]),
            None => forall|i: int| 0 <= i < ids.len() ==> !is_doctype(d, #[trigger] ids[i]),
        },
    decreases ids.len(),
{
    if ids.len() > 0 {
        if is_doctype(d, ids[0]) {
            assert(d.first_doctype(ids) == Some(ids[0]));
        } else {
            let rest = ids.skip(1);
            first_doctype_is_first(d, rest);
            assert(d.first_doctype(ids) == d.first_doctype(rest));
            match d.first_doctype(ids) {
                Some(n) => {
                    let i = choose|i: int|
                        0 <= i < rest.len() && #[trigger] rest[i] == n && is_doctype(d, n)
                            && forall|j: int| 0 <= j < i ==> !is_doctype(d, #[trigger] rest[j]);
                    assert(ids[i + 1] == n);
                    assert forall|j: int| 0 <= j < i + 1 implies !is_doctype(
                        d,
                        #[trigger] ids[j],
                    ) by {
                        if j > 0 {
                            assert(rest[j - 1] == ids[j]);
                        }
                    }
                },
                None => {
                    assert forall|i: int| 0 <= i < ids.len() implies !is_doctype(
                        d,
                        #[trigger] ids[i],
                    ) by {
                        if i > 0 {
                            assert(rest[i - 1] == ids[i]);
                        }
                    }
                },
            }
        }
    }
}

/// Whether a node is an element named `html`.
pub open spec fn is_html(d: DomView, n: u32) -> bool {
    n < d.nodes.len() && match d.nodes[n as int] {
        Some(x) => match x.data {
            DataView::Element { name, .. } => name == "html"@,
            _ => false,
        },
        None => false,
    }
}

/// Whether a node is a doctype.
pub open spec fn is_doctype(d: DomView, n: u32) -> bool {
    n < d.nodes.len() && d.nodes[n as int] is Some && d.nodes[n as int]->0.data is Doctype
}

/// The root element of a document is its first child named `html`; there is none, and the reply
/// is minus one, where no child is.
pub proof fn the_root_element_is_the_first_html(
    s: StateView,
    d: DomView,
    x: NodeView,
    arg1: Seq<char>,
    arg2: Seq<char>,
)
    requires
        s.dom == Some(d),
        d.document < d.nodes.len(),
        d.nodes[d.document as int] == Some(x),
    ensures
        forall|i: int|
            0 <= i < x.children.len() && is_html(d, #[trigger] x.children[i]) && (forall|j: int|
                0 <= j < i ==> !is_html(d, #[trigger] x.children[j])) ==> dom_ops::dom_outcome(
                s,
                "document_element"@,
                arg1,
                arg2,
            ) == OutcomeView::Reply(text::decimal_text(x.children[i] as nat)),
        (forall|i: int| 0 <= i < x.children.len() ==> !is_html(d, #[trigger] x.children[i]))
            ==> dom_ops::dom_outcome(s, "document_element"@, arg1, arg2) == OutcomeView::Reply(
            "-1"@,
        ),
{
    commands_differ();
    let c = x.children;
    first_html_is_first(d, c);
    assert(d.children(d.document) == c);
    assert forall|i: int|
        0 <= i < c.len() && is_html(d, #[trigger] c[i]) && (forall|j: int|
            0 <= j < i ==> !is_html(d, #[trigger] c[j])) implies d.first_html(c) == Some(
        c[i],
    ) by {
        let n = d.first_html(c)->0;
        let k = choose|k: int|
            0 <= k < c.len() && #[trigger] c[k] == n && is_html(d, n) && forall|j: int|
                0 <= j < k ==> !is_html(d, #[trigger] c[j]);
        if k < i {
            assert(!is_html(d, c[k]));
        }
        if i < k {
            assert(!is_html(d, c[i]));
        }
    }
    if d.first_html(c) is Some {
        let n = d.first_html(c)->0;
        let k = choose|k: int|
            0 <= k < c.len() && #[trigger] c[k] == n && is_html(d, n) && forall|j: int|
                0 <= j < k ==> !is_html(d, #[trigger] c[j]);
        assert(is_html(d, c[k]));
    }
}

/// The doctype of a document is its first child that is one, told by its names and its number;
/// there is none where no child is.
pub proof fn the_doctype_is_the_first_one(
    s: StateView,
    d: DomView,
    x: NodeView,
    i: int,
    y: NodeView,
    arg1: Seq<char>,
    arg2: Seq<char>,
)
    requires
        s.dom == Some(d),
        d.document < d.nodes.len(),
        d.nodes[d.document as int] == Some(x),
    ensures
        0 <= i < x.children.len() && x.children[i] < d.nodes.len()
            && d.nodes[x.children[i] as int] == Some(y) && (forall|j: int|
            0 <= j < i ==> !is_doctype(d, #[trigger] x.children[j])) ==> (
        y.data matches DataView::Doctype { name, public_id, system_id } ==> {
            let o = dom_ops::dom_outcome(s, "document_doctype"@, arg1, arg2);
            exists|v: JsonView|
                o == OutcomeView::Reply(#[trigger] json::json_text(v)) && v.get("name"@) == Some(
                    JsonView::Str(name),
                ) && v.get("publicId"@) == Some(JsonView::Str(public_id)) && v.get("systemId"@)
                    == Some(JsonView::Str(system_id)) && v.get("nodeId"@) == Some(
                    JsonView::UInt(x.children[i] as u64),
                )
        }),
        (forall|j: int| 0 <= j < x.children.len() ==> !is_doctype(d, #[trigger] x.children[j]))
            ==> dom_ops::dom_outcome(s, "document_doctype"@, arg1, arg2) == OutcomeView::Reply(
            "null"@,
        ),
{
    commands_differ();
    let c = x.children;
    first_doctype_is_first(d, c);
    assert(d.children(d.document) == c);
    if d.first_doctype(c) is Some {
        let n = d.first_doctype(c)->0;
        let k = choose|k: int|
            0 <= k < c.len() && #[trigger] c[k] == n && is_doctype(d, n) && forall|j: int|
                0 <= j < k ==> !is_doctype(d, #[trigger] c[j]);
        assert(is_doctype(d, c[k]));
        if 0 <= i < c.len() && c[i] < d.nodes.len() && d.nodes[c[i] as int] == Some(y)
            && y.data is Doctype && (forall|j: int| 0 <= j < i ==> !is_doctype(d, #[trigger] c[j])) {
            if k < i {
                assert(!is_doctype(d, c[k]));
            }
            if i < k {
                assert(!is_doctype(d, c[i]));
            }
            assert(c[i] == n);
            if let DataView::Doctype { name, public_id, system_id } = y.data {
                doctype_members(name, public_id, system_id, n as u64);
            }
        }
    } else if 0 <= i < c.len() {
        assert(!is_doctype(d, c[i]));
    }
}

/// How some names are spelled: enough to tell them apart.
spec fn doctype_names_differ_spelled() -> bool {
    &&& "name"@.len() == 4
    &&& "publicId"@.len() == 8
    &&& "systemId"@.len() == 8
    &&& "nodeId"@.len() == 6
    &&& "publicId"@[0] == 'p'
    &&& "systemId"@[0] == 's'
}

#[verifier::spinoff_prover]
proof fn doctype_names_differ()
    ensures
        doctype_names_differ_spelled(),
{
    reveal_strlit("name");
    reveal_strlit("publicId");
    reveal_strlit("systemId");
    reveal_strlit("nodeId");
}

proof fn doctype_members(name: Seq<char>, public_id: Seq<char>, system_id: Seq<char>, n: u64)
    ensures
        ({
            let v = JsonView::object().put("name"@, JsonView::Str(name)).put(
                "publicId"@,
                JsonView::Str(public_id),
            ).put("systemId"@, JsonView::Str(system_id)).put("nodeId"@, JsonView::UInt(n));
            &&& v.get("name"@) == Some(JsonView::Str(name))
            &&& v.get("publicId"@) == Some(JsonView::Str(public_id))
            &&& v.get("systemId"@) == Some(JsonView::Str(system_id))
            &&& v.get("nodeId"@) == Some(JsonView::UInt(n))
        }),
{
    doctype_names_differ();
    let v0 = JsonView::object();
    let v1 = v0.put("name"@, JsonView::Str(name));
    let v2 = v1.put("publicId"@, JsonView::Str(public_id));
    let v3 = v2.put("systemId"@, JsonView::Str(system_id));
    json::object_is_keyed();
    json::put_sets(v0, "name"@, JsonView::Str(name));
    json::put_sets(v1, "publicId"@, JsonView::Str(public_id));
    json::put_sets(v2, "systemId"@, JsonView::Str(system_id));
    json::put_sets(v3, "nodeId"@, JsonView::UInt(n));
}

/// What kind of node a node is, and what it is called.
pub proof fn nodes_tell_their_kind(
    s: StateView,
    d: DomView,
    n: u32,
    x: NodeView,
    arg2: Seq<char>,
    arg1: Seq<char>,
)
    requires
        s.dom == Some(d),
        dom_ops::id_of(arg1) == n,
        n < d.nodes.len(),
        d.nodes[n as int] == Some(x),
    ensures
        ({
            let kind = dom_ops::dom_outcome(s, "node_type"@, arg1, arg2);
            let name = dom_ops::dom_outcome(s, "node_name"@, arg1, arg2);
            let tag = dom_ops::dom_outcome(s, "tag_name"@, arg1, arg2);
            let target = dom_ops::dom_outcome(s, "pi_target"@, arg1, arg2);
            let doctype = dom_ops::dom_outcome(s, "doctype_name"@, arg1, arg2);
            let public = dom_ops::dom_outcome(s, "doctype_public_id"@, arg1, arg2);
            let empty = OutcomeView::Reply(json::json_text(JsonView::Str(Seq::empty())));
            &&& match x.data {
                DataView::Element { name: e, .. } => kind == OutcomeView::Reply("1"@) && name
                    == OutcomeView::Reply(json::json_text(JsonView::Str(text::upper_text(e)))) && tag
                    == name,
                DataView::Text { .. } => kind == OutcomeView::Reply("3"@) && name
                    == OutcomeView::Reply(json::json_text(JsonView::Str("#text"@))) && tag
                    == empty,
                DataView::ProcessingInstruction { target: t, .. } => kind == OutcomeView::Reply(
                    "7"@,
                ) && name == OutcomeView::Reply(json::json_text(JsonView::Str(t))) && target
                    == name && tag == empty,
                DataView::Comment { .. } => kind == OutcomeView::Reply("8"@) && name
                    == OutcomeView::Reply(json::json_text(JsonView::Str("#comment"@))) && tag
                    == empty,
                DataView::Document => kind == OutcomeView::Reply("9"@) && name
                    == OutcomeView::Reply(json::json_text(JsonView::Str("#document"@))) && tag
                    == empty,
                DataView::Doctype { name: t, public_id, .. } => kind == OutcomeView::Reply("10"@)
                    && name == OutcomeView::Reply(json::json_text(JsonView::Str(t))) && doctype
                    == name && public == OutcomeView::Reply(
                    json::json_text(JsonView::Str(public_id)),
                ) && tag == empty,
            }
            &&& !(x.data is ProcessingInstruction) ==> target == empty
            &&& !(x.data is Doctype) ==> doctype == empty && public == empty
        }),
{
    commands_differ();
    nodes_are_found_by_number(d, n);
}

/// The relatives of a node are those that it is linked to; minus one stands for none.
pub proof fn nodes_tell_their_relatives(
    s: StateView,
    d: DomView,
    n: u32,
    x: NodeView,
    arg2: Seq<char>,
    arg1: Seq<char>,
)
    requires
        s.dom == Some(d),
        dom_ops::id_of(arg1) == n,
        n < d.nodes.len(),
        d.nodes[n as int] == Some(x),
    ensures
        ({
            let told = |o: Option<u32>|
                OutcomeView::Reply(
                    if o is Some {
                        text::decimal_text(o->0 as nat)
                    } else {
                        "-1"@
                    },
                );
            &&& dom_ops::dom_outcome(s, "parent_node"@, arg1, arg2) == told(x.parent)
            &&& dom_ops::dom_outcome(s, "first_child"@, arg1, arg2) == told(x.first_child)
            &&& dom_ops::dom_outcome(s, "last_child"@, arg1, arg2) == told(x.last_child)
            &&& dom_ops::dom_outcome(s, "next_sibling"@, arg1, arg2) == told(x.next_sibling)
            &&& dom_ops::dom_outcome(s, "prev_sibling"@, arg1, arg2) == told(x.prev_sibling)
            &&& dom_ops::dom_outcome(s, "has_child_nodes"@, arg1, arg2) == OutcomeView::Reply(
                if x.first_child is Some {
                    "true"@
                } else {
                    "false"@
                },
            )
        }),
{
    commands_differ();
    nodes_are_found_by_number(d, n);
}

/// Whether a node is an element.
pub open spec fn is_element(d: DomView, n: u32) -> bool {
    n < d.nodes.len() && d.nodes[n as int] is Some && d.nodes[n as int]->0.data is Element
}

proof fn elements_are_filtered(d: DomView, ids: Seq<u32>)
    ensures
        d.elements(ids) == ids.filter(|c: u32| is_element(d, c)),
    decreases ids.len(),
{
    reveal(Seq::filter);
    if ids.len() > 0 {
        elements_are_filtered(d, ids.drop_last());
        assert(d.is_element(ids.last()) == is_element(d, ids.last()));
    }
}

/// The children of a node are listed by number in their order; among them the elements alone.
pub proof fn children_are_listed(
    s: StateView,
    d: DomView,
    n: u32,
    x: NodeView,
    arg2: Seq<char>,
    arg1: Seq<char>,
)
    requires
        s.dom == Some(d),
        dom_ops::id_of(arg1) == n,
        n < d.nodes.len(),
        d.nodes[n as int] == Some(x),
    ensures
        ({
            let numbers = |c: u32|
                    if c < 0x8000_0000 {
                        JsonView::UInt(c as u64)
                    } else {
                        JsonView::Int((c - 0x1_0000_0000) as i64)
                    };
            &&& dom_ops::dom_outcome(s, "child_nodes"@, arg1, arg2) == OutcomeView::Reply(
                json::json_text(JsonView::Array(x.children.map_values(numbers))),
            )
            &&& dom_ops::dom_outcome(s, "element_children"@, arg1, arg2) == OutcomeView::Reply(
                json::json_text(
                    JsonView::Array(
                        x.children.filter(|c: u32| is_element(d, c)).map_values(numbers),
                    ),
                ),
            )
        }),
{
    commands_differ();
    nodes_are_found_by_number(d, n);
    let numbers = |c: u32|
            if c < 0x8000_0000 {
                JsonView::UInt(c as u64)
            } else {
                JsonView::Int((c - 0x1_0000_0000) as i64)
            };
    let c = x.children;
    elements_are_filtered(d, c);
    let e = c.filter(|m: u32| is_element(d, m));
    assert(c.map_values(|m: u32| dom_ops::id_json(m)) =~= c.map_values(numbers));
    assert(e.map_values(|m: u32| dom_ops::id_json(m)) =~= e.map_values(numbers));
}

proof fn first_attr_is_first(attrs: Seq<(Seq<char>, Seq<char>)>, name: Seq<char>, i: int)
    ensures
        0 <= i < attrs.len() && attrs[i].0 == name && (forall|j: int|
            0 <= j < i ==> (#[trigger] attrs[j]).0 != name) ==> dom_ops::first_attr(attrs, name)
            == Some(attrs[i].1),
        (forall|j: int| 0 <= j < attrs.len() ==> (#[trigger] attrs[j]).0 != name)
            ==> dom_ops::first_attr(attrs, name) is None,
    decreases attrs.len(),
{
    if attrs.len() > 0 && attrs[0].0 != name {
        let rest = attrs.skip(1);
        first_attr_is_first(rest, name, i - 1);
        if 0 <= i < attrs.len() && attrs[i].0 == name && (forall|j: int|
            0 <= j < i ==> (#[trigger] attrs[j]).0 != name) {
            assert(rest[i - 1] == attrs[i]);
            assert forall|j: int| 0 <= j < i - 1 implies (#[trigger] rest[j]).0 != name by {
                assert(rest[j] == attrs[j + 1]);
            }
        }
        if forall|j: int| 0 <= j < attrs.len() ==> (#[trigger] attrs[j]).0 != name {
            assert forall|j: int| 0 <= j < rest.len() implies (#[trigger] rest[j]).0 != name by {
                assert(rest[j] == attrs[j + 1]);
            }
        }
    }
}

/// The value of an attribute is that of the first attribute with the name, and `null` where an
/// element has none; the names of the attributes are told in their order.
pub proof fn attributes_are_read(
    s: StateView,
    d: DomView,
    n: u32,
    x: NodeView,
    name: Seq<char>,
    i: int,
    arg1: Seq<char>,
)
    requires
        s.dom == Some(d),
        dom_ops::id_of(arg1) == n,
        n < d.nodes.len(),
        d.nodes[n as int] == Some(x),
    ensures
        ({
            let value = dom_ops::dom_outcome(s, "get_attribute"@, arg1, name);
            let names = dom_ops::dom_outcome(s, "attribute_names"@, arg1, name);
            match x.data {
                DataView::Element { attrs, .. } => {
                    &&& 0 <= i < attrs.len() && attrs[i].0 == name && (forall|j: int|
                        0 <= j < i ==> (#[trigger] attrs[j]).0 != name) ==> value
                        == OutcomeView::Reply(json::json_text(JsonView::Str(attrs[i].1)))
                    &&& (forall|j: int| 0 <= j < attrs.len() ==> (#[trigger] attrs[j]).0 != name)
                        ==> value == OutcomeView::Reply(json::json_text(JsonView::Null))
                    &&& names == OutcomeView::Reply(
                        json::json_text(
                            JsonView::Array(
                                Seq::new(attrs.len(), |k: int| JsonView::Str(attrs[k].0)),
                            ),
                        ),
                    )
                },
                _ => {
                    &&& value == OutcomeView::Reply(json::json_text(JsonView::Null))
                    &&& names == OutcomeView::Reply(json::json_text(JsonView::Array(Seq::empty())))
                },
            }
        }),
{
    commands_differ();
    nodes_are_found_by_number(d, n);
    let texts = |t: Seq<char>| JsonView::Str(t);
    match x.data {
        DataView::Element { attrs, .. } => {
            first_attr_is_first(attrs, name, i);
            assert(x.data.attribute_names().map_values(texts) =~= Seq::new(
                attrs.len(),
                |k: int| JsonView::Str(attrs[k].0),
            ));
        },
        _ => {
            assert(x.data.attribute_names().map_values(texts) =~= Seq::empty());
        },
    }
}

/// How far a node is from its first sibling, which of two nodes comes first, and which node is at
/// the top, are told in figures.
pub proof fn places_are_told(
    s: StateView,
    d: DomView,
    n: u32,
    m: u32,
    arg1: Seq<char>,
    arg2: Seq<char>,
)
    requires
        s.dom == Some(d),
        dom_ops::id_of(arg1) == n,
        dom_ops::id_of(arg2) == m,
    ensures
        ({
            &&& dom_ops::dom_outcome(s, "node_index"@, arg1, arg2) == OutcomeView::Reply(
                text::decimal_text(d.child_index(n)),
            )
            &&& dom_ops::dom_outcome(s, "compare_order"@, arg1, arg2) == OutcomeView::Reply(
                if n == m {
                    "0"@
                } else if d.order(n, m) == -1 {
                    "-1"@
                } else {
                    "1"@
                },
            )
            &&& dom_ops::dom_outcome(s, "node_root"@, arg1, arg2) == OutcomeView::Reply(
                text::decimal_text(d.root(n) as nat),
            )
        }),
{
    commands_differ();
}

proof fn more_steps_back(d: DomView, n: u32, a: nat, b: nat)
    requires
        d.back_ends(n, a),
        a <= b,
    ensures
        d.index_within(n, a) == d.index_within(n, b),
    decreases a,
{
    if let Some(p) = d.prev(n) {
        more_steps_back(d, p, (a - 1) as nat, (b - 1) as nat);
    }
}

proof fn more_steps_up(d: DomView, n: u32, a: nat, b: nat)
    requires
        d.up_ends(n, a),
        a <= b,
    ensures
        d.root_within(n, a) == d.root_within(n, b),
    decreases a,
{
    if let Some(p) = d.parent(n) {
        more_steps_up(d, p, (a - 1) as nat, (b - 1) as nat);
    }
}

/// A node without a sibling before it has index zero, and any other one more than that sibling;
/// a node without a parent is its own root, and any other has the root of its parent.
pub proof fn places_follow_links(d: DomView, n: u32, x: NodeView)
    requires
        n < d.nodes.len(),
        d.nodes[n as int] == Some(x),
    ensures
        d.way_back_ends(n) ==> d.child_index(n) == match x.prev_sibling {
            Some(p) => d.child_index(p) + 1,
            None => 0,
        },
        d.way_up_ends(n) ==> d.root(n) == match x.parent {
            Some(p) => d.root(p),
            None => n,
        },
{
    let l = d.nodes.len();
    if d.way_back_ends(n) {
        if let Some(p) = x.prev_sibling {
            more_steps_back(d, p, (l - 1) as nat, l);
        }
    }
    if d.way_up_ends(n) {
        if let Some(p) = x.parent {
            more_steps_up(d, p, (l - 1) as nat, l);
        }
    }
}

/// Of a node that is not there, questions are answered with nothing.
pub proof fn missing_nodes_say_nothing(
    s: StateView,
    d: DomView,
    n: u32,
    arg2: Seq<char>,
    arg1: Seq<char>,
)
    requires
        s.dom == Some(d),
        dom_ops::id_of(arg1) == n,
        n >= d.nodes.len() || d.nodes[n as int] is None,
    ensures
        ({
            let none = OutcomeView::Reply("-1"@);
            let empty = OutcomeView::Reply(json::json_text(JsonView::Str(Seq::empty())));
            let list = OutcomeView::Reply(json::json_text(JsonView::Array(Seq::empty())));
            &&& dom_ops::dom_outcome(s, "node_type"@, arg1, arg2) == OutcomeView::Reply("0"@)
            &&& dom_ops::dom_outcome(s, "node_name"@, arg1, arg2) == empty
            &&& dom_ops::dom_outcome(s, "tag_name"@, arg1, arg2) == empty
            &&& dom_ops::dom_outcome(s, "parent_node"@, arg1, arg2) == none
            &&& dom_ops::dom_outcome(s, "first_child"@, arg1, arg2) == none
            &&& dom_ops::dom_outcome(s, "last_child"@, arg1, arg2) == none
            &&& dom_ops::dom_outcome(s, "next_sibling"@, arg1, arg2) == none
            &&& dom_ops::dom_outcome(s, "prev_sibling"@, arg1, arg2) == none
            &&& dom_ops::dom_outcome(s, "child_nodes"@, arg1, arg2) == list
            &&& dom_ops::dom_outcome(s, "element_children"@, arg1, arg2) == list
            &&& dom_ops::dom_outcome(s, "attribute_names"@, arg1, arg2) == list
            &&& dom_ops::dom_outcome(s, "has_child_nodes"@, arg1, arg2) == OutcomeView::Reply(
                "false"@,
            )
            &&& dom_ops::dom_outcome(s, "get_attribute"@, arg1, arg2) == OutcomeView::Reply(
                json::json_text(JsonView::Null),
            )
        }),
{
    commands_differ();
    nodes_are_found_by_number(d, n);
    let empty = Seq::<u32>::empty();
    assert(d.elements(empty) =~= empty);
    assert(empty.map_values(|m: u32| dom_ops::id_json(m)) =~= Seq::<JsonView>::empty());
    assert(Seq::<Seq<char>>::empty().map_values(|t: Seq<char>| JsonView::Str(t)) =~= Seq::<
        JsonView,
    >::empty());
}

/// What the tree is asked to find, by the selector or the id that a script gives and, where it
/// names one, under the node that it names.
pub proof fn searches_reach_the_tree(
    s: StateView,
    d: DomView,
    n: u32,
    m: u32,
    what: Seq<char>,
    other: Seq<char>,
    node: Seq<char>,
    second: Seq<char>,
)
    requires
        s.dom == Some(d),
        dom_ops::id_of(node) == n,
        dom_ops::id_of(second) == m,
    ensures
        ({
            &&& dom_ops::dom_outcome(s, "get_element_by_id"@, what, other) == OutcomeView::Call(
                CallView::GetElementById(what),
            )
            &&& dom_ops::dom_outcome(s, "query_selector"@, what, other) == OutcomeView::Call(
                CallView::QuerySelector(what),
            )
            &&& dom_ops::dom_outcome(s, "query_selector_all"@, what, other) == OutcomeView::Call(
                CallView::QuerySelectorAll(what),
            )
            &&& dom_ops::dom_outcome(s, "query_selector_scoped"@, node, what)
                == OutcomeView::Call(CallView::QuerySelectorFrom(n, what))
            &&& dom_ops::dom_outcome(s, "query_selector_all_scoped"@, node, what)
                == OutcomeView::Call(CallView::QuerySelectorAllFrom(n, what))
            &&& dom_ops::dom_outcome(s, "contains"@, node, second) == OutcomeView::Call(
                CallView::Descendants { node: n, wanted: m },
            )
        }),
{
    commands_differ();
}

/// What no command is called is answered with `null`.
pub proof fn other_commands_do_nothing(
    s: StateView,
    cmd: Seq<char>,
    arg1: Seq<char>,
    arg2: Seq<char>,
)
    requires
        cmd != "document_node_id"@,
        cmd != "document_title"@,
        cmd != "document_url"@,
        cmd != "document_encoding"@,
        cmd != "document_element"@,
        cmd != "document_doctype"@,
        cmd != "node_type"@,
        cmd != "node_name"@,
        cmd != "parent_node"@,
        cmd != "first_child"@,
        cmd != "last_child"@,
        cmd != "next_sibling"@,
        cmd != "prev_sibling"@,
        cmd != "child_nodes"@,
        cmd != "tag_name"@,
        cmd != "get_attribute"@,
        cmd != "attribute_names"@,
        cmd != "pi_target"@,
        cmd != "doctype_name"@,
        cmd != "doctype_public_id"@,
        cmd != "element_children"@,
        cmd != "has_child_nodes"@,
        cmd != "node_index"@,
        cmd != "compare_order"@,
        cmd != "node_root"@,
        cmd != "get_element_by_id"@,
        cmd != "query_selector"@,
        cmd != "query_selector_all"@,
        cmd != "query_selector_scoped"@,
        cmd != "query_selector_all_scoped"@,
        cmd != "text_content"@,
        cmd != "set_attribute"@,
        cmd != "inner_html"@,
        cmd != "outer_html"@,
        cmd != "append_child"@,
        cmd != "remove_child"@,
        cmd != "insert_before"@,
        cmd != "remove_attribute"@,
        cmd != "set_inner_html"@,
        cmd != "set_text_content"@,
        cmd != "create_document_fragment"@,
        cmd != "create_element"@,
        cmd != "create_text_node"@,
        cmd != "create_comment_node"@,
        cmd != "create_processing_instruction"@,
        cmd != "create_doctype"@,
        cmd != "contains"@,
    ensures
        dom_ops::dom_outcome(s, cmd, arg1, arg2) == OutcomeView::Reply("null"@),
{
}

/// An attribute is set to what stands behind the first null character, under the name before it;
/// the tree is told apart where the attribute is the id, with the id that was there. Without a null
/// character nothing is set.
pub proof fn attributes_are_set(
    s: StateView,
    d: DomView,
    n: u32,
    x: NodeView,
    name: Seq<char>,
    value: Seq<char>,
    node: Seq<char>,
)
    requires
        s.dom == Some(d),
        dom_ops::id_of(node) == n,
        n < d.nodes.len(),
        d.nodes[n as int] == Some(x),
        !name.contains('\0'),
    ensures
        ({
            let set = dom_ops::dom_outcome(s, "set_attribute"@, node, name + seq!['\0'] + value);
            &&& dom_ops::dom_outcome(s, "set_attribute"@, node, name) == OutcomeView::Reply(
                "true"@,
            )
            &&& name != "id"@ ==> set == OutcomeView::Call(
                CallView::SetAttribute { node: n, name, value },
            )
            &&& name == "id"@ && !(x.data is Element) ==> set == OutcomeView::Call(
                CallView::SetId { node: n, old_id: None, value },
            )
            &&& name == "id"@ ==> match x.data {
                DataView::Element { attrs, .. } => attrs.len() > 0 && attrs[0].0 == "id"@
                    ==> set == OutcomeView::Call(
                    CallView::SetId { node: n, old_id: Some(attrs[0].1), value },
                ),
                _ => true,
            }
            &&& name == "id"@ ==> match x.data {
                DataView::Element { attrs, .. } => (forall|j: int|
                    0 <= j < attrs.len() ==> (#[trigger] attrs[j]).0 != "id"@) ==> set
                    == OutcomeView::Call(CallView::SetId { node: n, old_id: None, value }),
                _ => true,
            }
        }),
{
    commands_differ();
    nodes_are_found_by_number(d, n);
    text::split_at_first(name, '\0', value);
    if let DataView::Element { attrs, .. } = x.data {
        first_attr_is_first(attrs, "id"@, 0);
    }
}

proof fn longer_ways_up(d: DomView, n: u32, a: nat, b: nat)
    requires
        d.up_ends(n, a),
        a <= b,
    ensures
        d.path_within(n, a) == d.path_within(n, b),
    decreases a,
{
    if let Some(p) = d.parent(n) {
        longer_ways_up(d, p, (a - 1) as nat, (b - 1) as nat);
    }
}

/// The way down to a node is the way down to its parent and then the node; the way to a node
/// without a parent is the node alone. Nodes that no way leads to from the same top go by their
/// numbers.
pub proof fn ways_follow_parents(d: DomView, n: u32, x: NodeView, m: u32)
    requires
        n < d.nodes.len(),
        d.nodes[n as int] == Some(x),
    ensures
        d.way_up_ends(n) ==> d.path(n) == match x.parent {
            Some(p) => d.path(p).push(n),
            None => seq![n],
        },
        d.order(n, n) == 0,
        d.path(n)[0] != d.path(m)[0] && n < m ==> d.order(n, m) == -1,
        d.path(n)[0] != d.path(m)[0] && n > m ==> d.order(n, m) == 1,
{
    if d.way_up_ends(n) {
        if let Some(p) = x.parent {
            let l = d.nodes.len();
            longer_ways_up(d, p, (l - 1) as nat, l);
        }
    }
}

/// No command has a name of more than 29 characters.
pub proof fn long_names_are_no_commands(
    s: StateView,
    cmd: Seq<char>,
    arg1: Seq<char>,
    arg2: Seq<char>,
)
    requires
        cmd.len() > 29,
    ensures
        dom_ops::dom_outcome(s, cmd, arg1, arg2) == OutcomeView::Reply("null"@),
{
    commands_differ();
}

/// Taking an attribute off an element is always asked of the tree, for the element that is named.
pub proof fn removing_names_the_node(
    s: StateView,
    d: DomView,
    n: u32,
    x: NodeView,
    name: Seq<char>,
    node: Seq<char>,
)
    requires
        s.dom == Some(d),
        dom_ops::id_of(node) == n,
        n < d.nodes.len(),
        d.nodes[n as int] == Some(x),
        x.data is Element,
    ensures
        dom_ops::dom_outcome(s, "remove_attribute"@, node, name) matches OutcomeView::Call(
            CallView::KeepAttributes { node: k, places },
        ) && k == n,
{
    commands_differ();
    nodes_are_found_by_number(d, n);
}

/// Setting the id of an element is always asked of the tree, for the element that is named and with
/// the value that is given.
pub proof fn setting_names_the_node(
    s: StateView,
    d: DomView,
    n: u32,
    x: NodeView,
    name: Seq<char>,
    value: Seq<char>,
    node: Seq<char>,
)
    requires
        s.dom == Some(d),
        dom_ops::id_of(node) == n,
        n < d.nodes.len(),
        d.nodes[n as int] == Some(x),
        name == "id"@,
        !name.contains('\0'),
    ensures
        dom_ops::dom_outcome(
            s,
            "set_attribute"@,
            node,
            name + seq!['\0'] + value,
        ) matches OutcomeView::Call(CallView::SetId { node: k, old_id, value: v }) && k == n && v
            == value,
{
    commands_differ();
    nodes_are_found_by_number(d, n);
    text::split_at_first(name, '\0', value);
}

proof fn ranked_way_up_ends(d: DomView, rank: spec_fn(u32) -> nat, n: u32, steps: nat)
    requires
        forall|m: u32, p: u32| #[trigger] d.parent(m) == Some(p) ==> #[trigger] rank(p) < rank(m),
        rank(n) <= steps,
    ensures
        d.up_ends(n, steps),
    decreases steps,
{
    if let Some(p) = d.parent(n) {
        assert(rank(p) < rank(n));
        ranked_way_up_ends(d, rank, p, (steps - 1) as nat);
    }
}

proof fn ranked_way_back_ends(d: DomView, rank: spec_fn(u32) -> nat, n: u32, steps: nat)
    requires
        forall|m: u32, p: u32| #[trigger] d.prev(m) == Some(p) ==> #[trigger] rank(p) < rank(m),
        rank(n) <= steps,
    ensures
        d.back_ends(n, steps),
    decreases steps,
{
    if let Some(p) = d.prev(n) {
        assert(rank(p) < rank(n));
        ranked_way_back_ends(d, rank, p, (steps - 1) as nat);
    }
}

proof fn circles_do_not_end(d: DomView, n: u32, m: u32, steps: nat)
    ensures
        d.parent(n) == Some(m) && d.parent(m) == Some(n) ==> !d.up_ends(n, steps) && !d.up_ends(
            m,
            steps,
        ),
        d.prev(n) == Some(m) && d.prev(m) == Some(n) ==> !d.back_ends(n, steps) && !d.back_ends(
            m,
            steps,
        ),
    decreases steps,
{
    if steps > 0 {
        circles_do_not_end(d, n, m, (steps - 1) as nat);
    }
}

/// Where every node is deeper than its parent, the ways up end; where every node is further on than
/// the sibling before it, the ways back end. Nodes that are each other's parents, or each other's
/// siblings before them, or a node that is its own, make ways that do not end.
pub proof fn ways_end_without_circles(d: DomView, rank: spec_fn(u32) -> nat, n: u32, m: u32)
    requires
        rank(n) <= d.nodes.len(),
    ensures
        (forall|k: u32, p: u32| #[trigger] d.parent(k) == Some(p) ==> #[trigger] rank(p) < rank(k))
            ==> d.way_up_ends(n),
        (forall|k: u32, p: u32| #[trigger] d.prev(k) == Some(p) ==> #[trigger] rank(p) < rank(k))
            ==> d.way_back_ends(n),
        d.parent(n) == Some(m) && d.parent(m) == Some(n) ==> !d.way_up_ends(n),
        d.prev(n) == Some(m) && d.prev(m) == Some(n) ==> !d.way_back_ends(n),
        d.parent(n) is None ==> d.way_up_ends(n),
        d.prev(n) is None ==> d.way_back_ends(n),
{
    let l = d.nodes.len();
    if forall|k: u32, p: u32| #[trigger] d.parent(k) == Some(p) ==> #[trigger] rank(p) < rank(k) {
        ranked_way_up_ends(d, rank, n, l);
    }
    if forall|k: u32, p: u32| #[trigger] d.prev(k) == Some(p) ==> #[trigger] rank(p) < rank(k) {
        ranked_way_back_ends(d, rank, n, l);
    }
    circles_do_not_end(d, n, m, l);
}

/// Any command can be answered where its ways end, and those that follow no ways always.
pub proof fn commands_can_be_answered(
    d: DomView,
    cmd: Seq<char>,
    arg1: Seq<char>,
    arg2: Seq<char>,
)
    ensures
        cmd != "node_index"@ && cmd != "compare_order"@ && cmd != "node_root"@
            ==> dom_ops::answerable(d, cmd, arg1, arg2),
        dom_ops::answerable(d, "node_index"@, arg1, arg2) == d.way_back_ends(
            dom_ops::id_of(arg1),
        ),
        dom_ops::answerable(d, "node_root"@, arg1, arg2) == d.way_up_ends(dom_ops::id_of(arg1)),
        dom_ops::answerable(d, "compare_order"@, arg1, arg1),
        d.ends() ==> dom_ops::answerable(d, cmd, arg1, arg2),
{
    commands_differ();
    if d.ends() {
        let n = dom_ops::id_of(arg1);
        let m = dom_ops::id_of(arg2);
        assert(d.node(n) == d.node(n));
        assert(d.node(m) == d.node(m));
        let p = d.path(n);
        let q = d.path(m);
        let i = crate::js::dom::shared(p, q) as int;
        assert(d.node(p[i]) == d.node(p[i]));
        assert(d.node(q[i]) == d.node(q[i]));
    }
}

/// The text and the inner and outer HTML of a node are asked for under their own names.
pub proof fn contents_are_asked_for(
    s: StateView,
    d: DomView,
    n: u32,
    other: Seq<char>,
    node: Seq<char>,
)
    requires
        s.dom == Some(d),
        dom_ops::id_of(node) == n,
    ensures
        ({
            &&& dom_ops::dom_outcome(s, "text_content"@, node, other) == OutcomeView::Call(
                CallView::TextContent(n),
            )
            &&& dom_ops::dom_outcome(s, "inner_html"@, node, other) == OutcomeView::Call(
                CallView::InnerHtml(n),
            )
            &&& dom_ops::dom_outcome(s, "outer_html"@, node, other) == OutcomeView::Call(
                CallView::OuterHtml(n),
            )
        }),
{
    commands_differ();
}

/// Nodes are moved as scripts say: the second under the first, the first away from its parent,
/// and the first before the second.
pub proof fn nodes_are_moved(
    s: StateView,
    d: DomView,
    n: u32,
    m: u32,
    first: Seq<char>,
    second: Seq<char>,
)
    requires
        s.dom == Some(d),
        dom_ops::id_of(first) == n,
        dom_ops::id_of(second) == m,
    ensures
        ({
            &&& dom_ops::dom_outcome(s, "append_child"@, first, second) == OutcomeView::Call(
                CallView::AppendChild { parent: n, child: m },
            )
            &&& dom_ops::dom_outcome(s, "remove_child"@, first, second) == OutcomeView::Call(
                CallView::RemoveChild(n),
            )
            &&& dom_ops::dom_outcome(s, "insert_before"@, first, second) == OutcomeView::Call(
                CallView::InsertBefore { reference: m, new_node: n },
            )
        }),
{
    commands_differ();
}

/// Nodes are made of what scripts give for them.
pub proof fn nodes_are_made(s: StateView, d: DomView, a: Seq<char>, b: Seq<char>)
    requires
        s.dom == Some(d),
    ensures
        dom_ops::dom_outcome(s, "create_document_fragment"@, a, b) == OutcomeView::Call(
            CallView::CreateDocumentFragment,
        ),
        dom_ops::dom_outcome(s, "create_element"@, a, b) == OutcomeView::Call(
            CallView::CreateElement(a),
        ),
        dom_ops::dom_outcome(s, "create_text_node"@, a, b) == OutcomeView::Call(
            CallView::CreateTextNode(a),
        ),
        dom_ops::dom_outcome(s, "create_comment_node"@, a, b) == OutcomeView::Call(
            CallView::CreateComment(a),
        ),
        dom_ops::dom_outcome(s, "create_processing_instruction"@, a, b) == OutcomeView::Call(
            CallView::CreateProcessingInstruction { target: a, data: b },
        ),
        dom_ops::dom_outcome(s, "create_doctype"@, a, b) == OutcomeView::Call(
            CallView::CreateDoctype { name: a, public_id: b },
        ),
{
    commands_differ();
}

/// Setting the inner HTML of a node takes all its children off and puts what the HTML stands for
/// in their place; setting the text changes nodes that hold characters and no others; and taking
/// an attribute off keeps the attributes with other names.
pub proof fn contents_are_replaced(
    s: StateView,
    d: DomView,
    n: u32,
    x: NodeView,
    value: Seq<char>,
    node: Seq<char>,
)
    requires
        s.dom == Some(d),
        dom_ops::id_of(node) == n,
        n < d.nodes.len(),
        d.nodes[n as int] == Some(x),
    ensures
        ({
            let html = dom_ops::dom_outcome(s, "set_inner_html"@, node, value);
            let data = dom_ops::dom_outcome(s, "set_text_content"@, node, value);
            let off = dom_ops::dom_outcome(s, "remove_attribute"@, node, value);
            &&& value.len() > 0 ==> html == OutcomeView::Call(
                CallView::ReplaceChildren { node: n, detach: x.children, html: Some(value) },
            )
            &&& value.len() == 0 ==> html == OutcomeView::Call(
                CallView::ReplaceChildren { node: n, detach: x.children, html: None },
            )
            &&& match x.data {
                DataView::Text { .. } | DataView::Comment { .. }
                | DataView::ProcessingInstruction { .. } => data == OutcomeView::Call(
                    CallView::SetCharacterData { node: n, data: value },
                ),
                _ => data == OutcomeView::Reply("true"@),
            }
            &&& match x.data {
                DataView::Element { attrs, .. } => attrs.len() <= usize::MAX ==> {
                    &&& off matches OutcomeView::Call(CallView::KeepAttributes { node: k, places })
                    &&& k == n
                    &&& forall|i: int|
                        0 <= i < attrs.len() ==> (places.contains(i as usize) == ((
                        #[trigger] attrs[i]).0 != value))
                    &&& forall|i: int, j: int|
                        0 <= i < j < places.len() ==> (#[trigger] places[i]) < (
                        #[trigger] places[j])
                },
                _ => off == OutcomeView::Reply("true"@),
            }
        }),
{
    commands_differ();
    nodes_are_found_by_number(d, n);
    if let DataView::Element { attrs, .. } = x.data {
        if attrs.len() <= usize::MAX {
            dom_ops::removed_attribute_is_gone(attrs, value);
            let places = dom_ops::places_but(attrs, value);
            assert forall|i: int| 0 <= i < attrs.len() && places.contains(i as usize) implies (
            #[trigger] attrs[i]).0 != value by {
                let k = choose|k: int| 0 <= k < places.len() && places[k] == i as usize;
                assert(places[k] as int == i);
            }
        }
    }
}

/// The reply to a search or to making a node is its number, or minus one; to a search for many
/// the list of their numbers; to a question for contents the text as JSON; to whether a node is
/// below another whether it was found there; and to a change that it was made.
pub proof fn answers_of_the_tree_are_passed_on(
    node: Option<u32>,
    nodes: Seq<u32>,
    found: Seq<char>,
    n: u32,
    m: u32,
    a: Seq<char>,
    b: Seq<char>,
)
    ensures
        ({
            let numbers = |c: u32|
                    if c < 0x8000_0000 {
                        JsonView::UInt(c as u64)
                    } else {
                        JsonView::Int((c - 0x1_0000_0000) as i64)
                    };
            let told = if node is Some {
                text::decimal_text(node->0 as nat)
            } else {
                "-1"@
            };
            let list = json::json_text(
                JsonView::Array(nodes.map_values(numbers)),
            );
            let quoted = json::json_text(JsonView::Str(found));
            let reply = |c: CallView| dom_ops::call_reply(c, node, nodes, found);
            &&& reply(CallView::GetElementById(a)) == told
            &&& reply(CallView::QuerySelector(a)) == told
            &&& reply(CallView::QuerySelectorFrom(n, a)) == told
            &&& reply(CallView::CreateDocumentFragment) == told
            &&& reply(CallView::CreateElement(a)) == told
            &&& reply(CallView::CreateTextNode(a)) == told
            &&& reply(CallView::CreateComment(a)) == told
            &&& reply(CallView::CreateProcessingInstruction { target: a, data: b }) == told
            &&& reply(CallView::CreateDoctype { name: a, public_id: b }) == told
            &&& reply(CallView::QuerySelectorAll(a)) == list
            &&& reply(CallView::QuerySelectorAllFrom(n, a)) == list
            &&& reply(CallView::TextContent(n)) == quoted
            &&& reply(CallView::InnerHtml(n)) == quoted
            &&& reply(CallView::OuterHtml(n)) == quoted
            &&& nodes.contains(m) ==> reply(CallView::Descendants { node: n, wanted: m })
                == "true"@
            &&& !nodes.contains(m) ==> reply(CallView::Descendants { node: n, wanted: m })
                == "false"@
            &&& reply(CallView::AppendChild { parent: n, child: m }) == "true"@
            &&& reply(CallView::RemoveChild(n)) == "true"@
            &&& reply(CallView::InsertBefore { reference: n, new_node: m }) == "true"@
            &&& reply(CallView::SetAttribute { node: n, name: a, value: b }) == "true"@
            &&& reply(CallView::SetCharacterData { node: n, data: a }) == "true"@
        }),
{
    let numbers = |c: u32|
            if c < 0x8000_0000 {
                JsonView::UInt(c as u64)
            } else {
                JsonView::Int((c - 0x1_0000_0000) as i64)
            };
    assert(nodes.map_values(|c: u32| dom_ops::id_json(c)) =~= nodes.map_values(numbers));
}

} // verus!
