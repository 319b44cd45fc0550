//! The document tree as page scripts see it.

use vstd::prelude::*;
use vstd::string::*;

use crate::assoc;

verus! {

/// What a node of a document is.
pub enum NodeData {
    Document,
    Doctype { name: String, public_id: String, system_id: String },
    Text { contents: String },
    Comment { contents: String },
    Element { name: String, attrs: Vec<(String, String)> },
    ProcessingInstruction { target: String, data: String },
}

/// A node with its place in the tree.
pub struct Node {
    pub data: NodeData,
    pub parent: Option<u32>,
    pub first_child: Option<u32>,
    pub last_child: Option<u32>,
    pub next_sibling: Option<u32>,
    pub prev_sibling: Option<u32>,
    pub children: Vec<u32>,
}

/// The nodes of a document by their number, and the number of the document itself.
pub struct DomTree {
    pub document: u32,
    pub nodes: Vec<Option<Node>>,
}

/// What a node of a document is, as plain data.
pub enum DataView {
    Document,
    Doctype { name: Seq<char>, public_id: Seq<char>, system_id: Seq<char> },
    Text { contents: Seq<char> },
    Comment { contents: Seq<char> },
    Element { name: Seq<char>, attrs: Seq<(Seq<char>, Seq<char>)> },
    ProcessingInstruction { target: Seq<char>, data: Seq<char> },
}

impl View for NodeData {
    type V = DataView;

    open spec fn view(&self) -> DataView {
        match self {
            NodeData::Document => DataView::Document,
            NodeData::Doctype { name, public_id, system_id } => DataView::Doctype {
                name: name@,
                public_id: public_id@,
                system_id: system_id@,
            },
            NodeData::Text { contents } => DataView::Text { contents: contents@ },
            NodeData::Comment { contents } => DataView::Comment { contents: contents@ },
            NodeData::Element { name, attrs } => DataView::Element {
                name: name@,
                attrs: assoc::entry_views(attrs@),
            },
            NodeData::ProcessingInstruction { target, data } => DataView::ProcessingInstruction {
                target: target@,
                data: data@,
            },
        }
    }
}

/// A node with its place in the tree, as plain data.
pub struct NodeView {
    pub data: DataView,
    pub parent: Option<u32>,
    pub first_child: Option<u32>,
    pub last_child: Option<u32>,
    pub next_sibling: Option<u32>,
    pub prev_sibling: Option<u32>,
    pub children: Seq<u32>,
}

impl View for Node {
    type V = NodeView;

    open spec fn view(&self) -> NodeView {
        NodeView {
            data: self.data@,
            parent: self.parent,
            first_child: self.first_child,
            last_child: self.last_child,
            next_sibling: self.next_sibling,
            prev_sibling: self.prev_sibling,
            children: self.children@,
        }
    }
}

/// A document tree, as plain data.
pub struct DomView {
    pub document: u32,
    pub nodes: Seq<Option<NodeView>>,
}

/// The view of a slot for a node.
pub open spec fn slot_view(n: Option<Node>) -> Option<NodeView> {
    match n {
        Some(x) => Some(x@),
        None => None,
    }
}

impl View for DomTree {
    type V = DomView;

    open spec fn view(&self) -> DomView {
        DomView {
            document: self.document,
            nodes: self.nodes@.map_values(|n: Option<Node>| slot_view(n)),
        }
    }
}

impl DomView {
    /// The node with a number.
    pub open spec fn node(self, n: u32) -> Option<NodeView> {
        if n < self.nodes.len() {
            self.nodes[n as int]
        } else {
            None
        }
    }

    /// The parent of a node.
    pub open spec fn parent(self, n: u32) -> Option<u32> {
        match self.node(n) {
            Some(x) => x.parent,
            None => None,
        }
    }

    /// The sibling before a node.
    pub open spec fn prev(self, n: u32) -> Option<u32> {
        match self.node(n) {
            Some(x) => x.prev_sibling,
            None => None,
        }
    }

    /// Whether the way up from a node ends within a number of steps.
    pub open spec fn up_ends(self, n: u32, steps: nat) -> bool
        decreases steps,
    {
        match self.parent(n) {
            None => true,
            Some(p) => steps > 0 && self.up_ends(p, (steps - 1) as nat),
        }
    }

    /// Whether the way back from a node along its siblings ends within a number of steps.
    pub open spec fn back_ends(self, n: u32, steps: nat) -> bool
        decreases steps,
    {
        match self.prev(n) {
            None => true,
            Some(p) => steps > 0 && self.back_ends(p, (steps - 1) as nat),
        }
    }

    /// Whether the way up from a node does not run in a circle.
    pub open spec fn way_up_ends(self, n: u32) -> bool {
        self.up_ends(n, self.nodes.len())
    }

    /// Whether the way back from a node along its siblings does not run in a circle.
    pub open spec fn way_back_ends(self, n: u32) -> bool {
        self.back_ends(n, self.nodes.len())
    }

    /// Whether no way up or back runs in a circle.
    pub open spec fn ends(self) -> bool {
        forall|n: u32|
            #![trigger self.node(n)]
            self.way_up_ends(n) && self.way_back_ends(n)
    }

    /// The way down to a node from its root, where it is at most `steps` long.
    pub open spec fn path_within(self, n: u32, steps: nat) -> Seq<u32>
        decreases steps,
    {
        match self.parent(n) {
            Some(p) => if steps > 0 {
                self.path_within(p, (steps - 1) as nat).push(n)
            } else {
                seq![n]
            },
            None => seq![n],
        }
    }

    /// The way down to a node from its root, both included.
    pub open spec fn path(self, n: u32) -> Seq<u32> {
        self.path_within(n, self.nodes.len())
    }

    /// The number of siblings before a node, where they are at most `steps`.
    pub open spec fn index_within(self, n: u32, steps: nat) -> nat
        decreases steps,
    {
        match self.prev(n) {
            Some(p) => if steps > 0 {
                self.index_within(p, (steps - 1) as nat) + 1
            } else {
                0
            },
            None => 0,
        }
    }

    /// The number of siblings before a node.
    pub open spec fn child_index(self, n: u32) -> nat {
        self.index_within(n, self.nodes.len())
    }
}

/// With enough steps, more of them change nothing.
proof fn enough_steps_up(t: DomView, n: u32, a: nat, b: nat)
    requires
        t.up_ends(n, a),
        a <= b,
    ensures
        t.up_ends(n, b),
        t.path_within(n, a) == t.path_within(n, b),
        t.path_within(n, a).len() <= a + 1,
    decreases a,
{
    if let Some(p) = t.parent(n) {
        enough_steps_up(t, p, (a - 1) as nat, (b - 1) as nat);
    }
}

/// With enough steps, more of them change nothing.
proof fn enough_steps_back(t: DomView, n: u32, a: nat, b: nat)
    requires
        t.back_ends(n, a),
        a <= b,
    ensures
        t.back_ends(n, b),
        t.index_within(n, a) == t.index_within(n, b),
        t.index_within(n, a) <= a,
    decreases a,
{
    if let Some(p) = t.prev(n) {
        enough_steps_back(t, p, (a - 1) as nat, (b - 1) as nat);
    }
}

impl DomTree {
    /// The node with a number.
    pub fn get_node(&self, n: u32) -> (r: Option<&Node>)
        ensures
            match r {
                Some(x) => self@.node(n) == Some(x@),
                None => self@.node(n) is None,
            },
    {
        let i: usize = n as usize;
        if i < self.nodes.len() {
            match &self.nodes[i] {
                Some(x) => Some(x),
                None => None,
            }
        } else {
            None
        }
    }

    /// The parent of a node.
    pub fn parent(&self, n: u32) -> (r: Option<u32>)
        ensures
            r == self@.parent(n),
    {
        match self.get_node(n) {
            Some(x) => x.parent,
            None => None,
        }
    }

    /// The sibling before a node.
    pub fn prev_sibling(&self, n: u32) -> (r: Option<u32>)
        ensures
            r == self@.prev(n),
    {
        match self.get_node(n) {
            Some(x) => x.prev_sibling,
            None => None,
        }
    }

    /// The number of siblings before a node.
    pub fn node_child_index(&self, n: u32) -> (r: usize)
        requires
            self@.way_back_ends(n),
        ensures
            r == self@.child_index(n),
    {
        let ghost mut left: nat = self.nodes.len() as nat;
        proof {
            enough_steps_back(self@, n, left, left);
        }
        let mut i: usize = 0;
        let mut cur: Option<u32> = self.prev_sibling(n);
        let ghost mut at: u32 = n;
        while cur.is_some()
            invariant
                cur == self@.prev(at),
                self@.back_ends(at, left),
                i + self@.index_within(at, left) == self@.child_index(n),
                self@.child_index(n) <= self.nodes.len(),
                left <= self.nodes.len(),
            decreases left,
        {
            let p: u32 = cur.unwrap();
            i += 1;
            cur = self.prev_sibling(p);
            proof {
                at = p;
                left = (left - 1) as nat;
            }
        }
        i
    }

    /// The way down to a node from its root, both included.
    pub fn node_ancestors_root_first(&self, n: u32) -> (r: Vec<u32>)
        requires
            self@.way_up_ends(n),
        ensures
            r@ == self@.path(n),
            r.len() > 0,
            r@.last() == n,
    {
        let ghost mut left: nat = self.nodes.len() as nat;
        let mut v: Vec<u32> = vec![n];
        let mut cur: u32 = n;
        let mut up: Option<u32> = self.parent(n);
        while up.is_some()
            invariant
                up == self@.parent(cur),
                self@.up_ends(cur, left),
                v.len() > 0,
                v@[0] == n,
                v@.last() == cur,
                self@.path_within(cur, left) + v@.reverse().skip(1) == self@.path(n),
            decreases left,
        {
            let ghost before = v@;
            let p: u32 = up.unwrap();
            v.push(p);
            proof {
                let top = self@.path_within(p, (left - 1) as nat);
                assert(self@.path_within(cur, left) == top.push(cur));
                assert(v@.reverse().skip(1) =~= before.reverse());
                assert(before.reverse() =~= seq![cur] + before.reverse().skip(1));
                assert(top.push(cur) + before.reverse().skip(1) =~= top + (seq![cur]
                    + before.reverse().skip(1)));
                left = (left - 1) as nat;
            }
            cur = p;
            up = self.parent(p);
        }
        let mut r: Vec<u32> = Vec::new();
        let mut i: usize = v.len();
        while i > 0
            invariant
                i <= v.len(),
                r@ == v@.reverse().subrange(0, v.len() - i),
            decreases i,
        {
            i -= 1;
            r.push(v[i]);
            assert(v@.reverse().subrange(0, v.len() - i) =~= v@.reverse().subrange(
                0,
                v.len() - i - 1,
            ).push(v@[i as int]));
        }
        proof {
            assert(r@ =~= v@.reverse());
            assert(seq![cur] + v@.reverse().skip(1) =~= v@.reverse());
        }
        r
    }
}

/// How far two ways down go together.
pub open spec fn shared(a: Seq<u32>, b: Seq<u32>) -> nat
    decreases a.len(),
{
    if a.len() == 0 || b.len() == 0 || a[0] != b[0] {
        0
    } else {
        1 + shared(a.skip(1), b.skip(1))
    }
}

/// Two ways agree as far as they go together, and no further.
proof fn shared_is_longest(a: Seq<u32>, b: Seq<u32>)
    ensures
        shared(a, b) <= a.len(),
        shared(a, b) <= b.len(),
        forall|i: int| 0 <= i < shared(a, b) ==> a[i] == b[i],
        shared(a, b) < a.len() && shared(a, b) < b.len() ==> a[shared(a, b) as int] != b[shared(
            a,
            b,
        ) as int],
    decreases a.len(),
{
    if a.len() > 0 && b.len() > 0 && a[0] == b[0] {
        let x = a.skip(1);
        let y = b.skip(1);
        shared_is_longest(x, y);
        assert forall|i: int| 0 <= i < shared(a, b) implies a[i] == b[i] by {
            if i > 0 {
                assert(x[i - 1] == y[i - 1]);
            }
        }
    }
}

/// A length up to which two ways agree and beyond which they do not is how far they go
/// together.
proof fn shared_unique(a: Seq<u32>, b: Seq<u32>, n: nat)
    requires
        n <= a.len(),
        n <= b.len(),
        forall|i: int| 0 <= i < n ==> a[i] == b[i],
        n < a.len() && n < b.len() ==> a[n as int] != b[n as int],
    ensures
        shared(a, b) == n,
{
    shared_is_longest(a, b);
    let m = shared(a, b);
    if m < n {
        assert(a[m as int] == b[m as int]);
    }
    if n < m {
        assert(a[n as int] == b[n as int]);
    }
}

impl DomView {
    /// Document order of two nodes: -1 where the first comes first, 1 where the second
    /// does, 0 where they are the same. Nodes of different trees go by their number.
    pub open spec fn order(self, a: u32, b: u32) -> int {
        let p = self.path(a);
        let q = self.path(b);
        let i = shared(p, q);
        if a == b {
            0
        } else if p[0] != q[0] {
            if a < b {
                -1
            } else {
                1
            }
        } else if i >= p.len() {
            -1
        } else if i >= q.len() {
            1
        } else if self.child_index(p[i as int]) < self.child_index(q[i as int]) {
            -1
        } else {
            1
        }
    }

    /// Whether the ways that comparing two nodes follows do not run in a circle: the ways up
    /// from both and, where these part below one root, the ways back from where they part.
    pub open spec fn comparable(self, a: u32, b: u32) -> bool {
        a == b || {
            let p = self.path(a);
            let q = self.path(b);
            let i = shared(p, q) as int;
            &&& self.way_up_ends(a)
            &&& self.way_up_ends(b)
            &&& p[0] == q[0] && i < p.len() && i < q.len() ==> self.way_back_ends(p[i])
                && self.way_back_ends(q[i])
        }
    }

    /// The topmost ancestor of a node, where it is at most `steps` up.
    pub open spec fn root_within(self, n: u32, steps: nat) -> u32
        decreases steps,
    {
        match self.parent(n) {
            Some(p) => if steps > 0 {
                self.root_within(p, (steps - 1) as nat)
            } else {
                n
            },
            None => n,
        }
    }

    /// The topmost ancestor of a node.
    pub open spec fn root(self, n: u32) -> u32 {
        self.root_within(n, self.nodes.len())
    }
}

/// How far two ways down go together.
fn parting(a: &Vec<u32>, b: &Vec<u32>) -> (r: usize)
    ensures
        r == shared(a@, b@),
{
    let mut i: usize = 0;
    while i < a.len() && i < b.len() && a[i] == b[i]
        invariant
            i <= a.len(),
            i <= b.len(),
            forall|j: int| 0 <= j < i ==> a@[j] == b@[j],
        decreases a.len() - i,
    {
        i += 1;
    }
    proof {
        shared_unique(a@, b@, i as nat);
    }
    i
}

impl DomTree {
    /// Document order of two nodes.
    pub fn compare_node_order(&self, a: u32, b: u32) -> (r: i32)
        requires
            self@.comparable(a, b),
        ensures
            r == self@.order(a, b),
    {
        if a == b {
            return 0;
        }
        let aa: Vec<u32> = self.node_ancestors_root_first(a);
        let bb: Vec<u32> = self.node_ancestors_root_first(b);
        if aa[0] != bb[0] {
            return if a < b {
                -1
            } else {
                1
            };
        }
        let i: usize = parting(&aa, &bb);
        if i >= aa.len() {
            return -1;
        }
        if i >= bb.len() {
            return 1;
        }
        if self.node_child_index(aa[i]) < self.node_child_index(bb[i]) {
            -1
        } else {
            1
        }
    }

    /// The topmost ancestor of a node.
    pub fn node_root(&self, n: u32) -> (r: u32)
        requires
            self@.way_up_ends(n),
        ensures
            r == self@.root(n),
    {
        let ghost mut left: nat = self.nodes.len() as nat;
        let mut cur: u32 = n;
        let mut up: Option<u32> = self.parent(n);
        while up.is_some()
            invariant
                up == self@.parent(cur),
                self@.up_ends(cur, left),
                self@.root_within(cur, left) == self@.root(n),
            decreases left,
        {
            cur = up.unwrap();
            up = self.parent(cur);
            proof {
                left = (left - 1) as nat;
            }
        }
        cur
    }

    /// Whether the way up from a node does not run in a circle.
    pub fn up_links_end(&self, n: u32) -> (r: bool)
        ensures
            r == self@.way_up_ends(n),
    {
        let mut left: usize = self.nodes.len();
        let mut at: u32 = n;
        let mut up: Option<u32> = self.parent(n);
        while up.is_some()
            invariant
                up == self@.parent(at),
                self@.way_up_ends(n) == self@.up_ends(at, left as nat),
            decreases left,
        {
            if left == 0 {
                return false;
            }
            at = up.unwrap();
            up = self.parent(at);
            left -= 1;
        }
        true
    }

    /// Whether the way back from a node along its siblings does not run in a circle.
    pub fn back_links_end(&self, n: u32) -> (r: bool)
        ensures
            r == self@.way_back_ends(n),
    {
        let mut left: usize = self.nodes.len();
        let mut at: u32 = n;
        let mut back: Option<u32> = self.prev_sibling(n);
        while back.is_some()
            invariant
                back == self@.prev(at),
                self@.way_back_ends(n) == self@.back_ends(at, left as nat),
            decreases left,
        {
            if left == 0 {
                return false;
            }
            at = back.unwrap();
            back = self.prev_sibling(at);
            left -= 1;
        }
        true
    }

    /// Whether the ways that comparing two nodes follows do not run in a circle.
    pub fn can_compare(&self, a: u32, b: u32) -> (r: bool)
        ensures
            r == self@.comparable(a, b),
    {
        if a == b {
            return true;
        }
        if !self.up_links_end(a) || !self.up_links_end(b) {
            return false;
        }
        let aa: Vec<u32> = self.node_ancestors_root_first(a);
        let bb: Vec<u32> = self.node_ancestors_root_first(b);
        if aa[0] != bb[0] {
            return true;
        }
        let i: usize = parting(&aa, &bb);
        if i >= aa.len() || i >= bb.len() {
            return true;
        }
        self.back_links_end(aa[i]) && self.back_links_end(bb[i])
    }
}

impl DomView {
    /// Whether the links of a tree agree: a node with a parent stands once among the
    /// parent's children, right after its previous sibling; a node without one has none.
    pub open spec fn linked(self) -> bool {
        forall|n: u32|
            #![trigger self.node(n)]
            match self.parent(n) {
                Some(p) => self.is_child_of(n, p),
                None => self.prev(n) is None,
            }
    }

    /// Whether a node stands once among the children of another, right after its
    /// previous sibling.
    pub open spec fn is_child_of(self, n: u32, p: u32) -> bool {
        &&& self.node(p) is Some
        &&& self.node(p)->0.children.no_duplicates()
        &&& exists|j: int| self.child_at(n, p, j)
    }

    /// Whether a node is the `j`th child of another and its previous sibling is the one
    /// before that, itself a child of the same node.
    pub open spec fn child_at(self, n: u32, p: u32, j: int) -> bool {
        let c = self.node(p)->0.children;
        &&& 0 <= j < c.len()
        &&& c[j] == n
        &&& self.prev(n) == if j == 0 {
            None
        } else {
            Some(c[j - 1])
        }
        &&& j > 0 ==> self.parent(c[j - 1]) == Some(p)
    }
}

/// The index of a node is its place among the children of its parent.
pub proof fn child_index_is_place(t: DomView, n: u32, p: u32, j: int)
    requires
        t.ends(),
        t.linked(),
        t.parent(n) == Some(p),
        0 <= j < t.node(p)->0.children.len(),
        t.node(p)->0.children[j] == n,
    ensures
        t.child_index(n) == j,
    decreases j,
{
    let c = t.node(p)->0.children;
    assert(t.node(n) == t.node(n));
    let k = choose|k: int| t.child_at(n, p, k);
    assert(t.child_at(n, p, k));
    assert(k == j);
    if j > 0 {
        let m = c[j - 1];
        child_index_is_place(t, m, p, j - 1);
        assert(t.node(m) == t.node(m));
        let l = t.nodes.len();
        assert(l > 0);
        assert(t.back_ends(m, (l - 1) as nat));
        enough_steps_back(t, m, (l - 1) as nat, l);
    }
}

/// Each node on the way down to a node is the parent of the next, and the first has none.
proof fn path_steps(t: DomView, n: u32, steps: nat)
    requires
        t.up_ends(n, steps),
    ensures
        t.path_within(n, steps).len() > 0,
        t.path_within(n, steps).last() == n,
        t.parent(t.path_within(n, steps)[0]) is None,
        forall|i: int|
            0 < i < t.path_within(n, steps).len() ==> t.parent(
                #[trigger] t.path_within(n, steps)[i],
            ) == Some(t.path_within(n, steps)[i - 1]),
    decreases steps,
{
    if let Some(p) = t.parent(n) {
        path_steps(t, p, (steps - 1) as nat);
        let q = t.path_within(p, (steps - 1) as nat);
        let w = t.path_within(n, steps);
        assert forall|i: int| 0 < i < w.len() implies t.parent(#[trigger] w[i]) == Some(
            w[i - 1],
        ) by {
            if i < q.len() {
                assert(w[i] == q[i]);
                assert(w[i - 1] == q[i - 1]);
            }
        }
    }
}

/// Where two ways in one tree part, they part between two children of one node, which
/// have different indices.
proof fn parting_indices_differ(t: DomView, a: u32, b: u32)
    requires
        t.ends(),
        t.linked(),
        t.path(a)[0] == t.path(b)[0],
        shared(t.path(a), t.path(b)) < t.path(a).len(),
        shared(t.path(a), t.path(b)) < t.path(b).len(),
    ensures
        shared(t.path(a), t.path(b)) > 0,
        t.child_index(t.path(a)[shared(t.path(a), t.path(b)) as int]) != t.child_index(
            t.path(b)[shared(t.path(a), t.path(b)) as int],
        ),
{
    let p = t.path(a);
    let q = t.path(b);
    let i = shared(p, q) as int;
    assert(t.node(a) == t.node(a));
    assert(t.node(b) == t.node(b));
    path_steps(t, a, t.nodes.len());
    path_steps(t, b, t.nodes.len());
    shared_is_longest(p, q);
    assert(i > 0);
    let up = p[i - 1];
    assert(t.parent(p[i]) == Some(up));
    assert(t.parent(q[i]) == Some(up));
    assert(t.node(p[i]) == t.node(p[i]));
    assert(t.node(q[i]) == t.node(q[i]));
    let j = choose|j: int| t.child_at(p[i], up, j);
    let k = choose|k: int| t.child_at(q[i], up, k);
    assert(t.child_at(p[i], up, j));
    assert(t.child_at(q[i], up, k));
    child_index_is_place(t, p[i], up, j);
    child_index_is_place(t, q[i], up, k);
}

/// Document order is antisymmetric: two nodes compare opposite ways round, and only a
/// node and itself compare as the same.
pub proof fn order_antisymmetric(t: DomView, a: u32, b: u32)
    requires
        t.ends(),
        t.linked(),
    ensures
        t.order(a, b) == -t.order(b, a),
        t.order(a, b) == 0 <==> a == b,
{
    let p = t.path(a);
    let q = t.path(b);
    assert(t.node(a) == t.node(a));
    assert(t.node(b) == t.node(b));
    path_steps(t, a, t.nodes.len());
    path_steps(t, b, t.nodes.len());
    shared_is_longest(p, q);
    shared_unique(q, p, shared(p, q));
    if a != b && p[0] == q[0] {
        let i = shared(p, q);
        if i >= p.len() && i >= q.len() {
            assert(p[p.len() - 1] == q[q.len() - 1]);
        }
        if i < p.len() && i < q.len() {
            parting_indices_differ(t, a, b);
        }
    }
}

/// The way down to a node that another passes is the part of it up to there.
proof fn path_passes(t: DomView, n: u32, steps: nat, i: int)
    requires
        t.up_ends(n, steps),
        0 <= i < t.path_within(n, steps).len(),
    ensures
        t.up_ends(t.path_within(n, steps)[i], steps),
        t.path_within(t.path_within(n, steps)[i], steps) == t.path_within(n, steps).subrange(
            0,
            i + 1,
        ),
    decreases steps,
{
    let w = t.path_within(n, steps);
    path_steps(t, n, steps);
    if i == w.len() - 1 {
        assert(w.subrange(0, i + 1) =~= w);
    } else {
        let p = t.parent(n)->0;
        let q = t.path_within(p, (steps - 1) as nat);
        path_passes(t, p, (steps - 1) as nat, i);
        assert(w[i] == q[i]);
        assert(w.subrange(0, i + 1) =~= q.subrange(0, i + 1));
        enough_steps_up(t, q[i], (steps - 1) as nat, steps);
    }
}

/// A node comes before every node below it.
pub proof fn ancestor_comes_first(t: DomView, b: u32, i: int)
    requires
        t.ends(),
        0 <= i < t.path(b).len() - 1,
    ensures
        t.order(t.path(b)[i], b) == -1,
{
    let a = t.path(b)[i];
    let p = t.path(a);
    let q = t.path(b);
    assert(t.node(a) == t.node(a));
    assert(t.node(b) == t.node(b));
    path_passes(t, b, t.nodes.len(), i);
    shared_unique(p, q, (i + 1) as nat);
    if a == b {
        assert(p == q);
    }
}

/// Of two branches below one node, all of the branch with the lower index comes first.
pub proof fn earlier_branch_comes_first(t: DomView, a: u32, b: u32, i: int)
    requires
        t.ends(),
        0 < i < t.path(a).len(),
        i < t.path(b).len(),
        forall|j: int| 0 <= j < i ==> t.path(a)[j] == t.path(b)[j],
        t.child_index(t.path(a)[i]) < t.child_index(t.path(b)[i]),
    ensures
        t.order(a, b) == -1,
{
    shared_unique(t.path(a), t.path(b), i as nat);
}

/// Document order within one tree is transitive.
pub proof fn order_transitive(t: DomView, a: u32, b: u32, c: u32)
    requires
        t.ends(),
        t.linked(),
        t.path(a)[0] == t.path(b)[0],
        t.path(b)[0] == t.path(c)[0],
        t.order(a, b) == -1,
        t.order(b, c) == -1,
    ensures
        t.order(a, c) == -1,
{
    let p = t.path(a);
    let q = t.path(b);
    let r = t.path(c);
    assert(t.node(a) == t.node(a));
    assert(t.node(b) == t.node(b));
    assert(t.node(c) == t.node(c));
    path_steps(t, a, t.nodes.len());
    path_steps(t, b, t.nodes.len());
    path_steps(t, c, t.nodes.len());
    shared_is_longest(p, q);
    shared_is_longest(q, r);
    shared_is_longest(p, r);
    let i = shared(p, q);
    let j = shared(q, r);
    assert(i < q.len()) by {
        if i >= q.len() && i >= p.len() {
            assert(p[p.len() - 1] == q[q.len() - 1]);
        }
    }
    assert(j < r.len()) by {
        if j >= q.len() && j >= r.len() {
            assert(r[r.len() - 1] == q[q.len() - 1]);
        }
    }
    if i < j {
        if i < p.len() {
            assert(r[i as int] == q[i as int]);
        }
        assert forall|k: int| 0 <= k < i implies p[k] == r[k] by {
            assert(p[k] == q[k] && q[k] == r[k]);
        }
        shared_unique(p, r, i);
    } else if j < i {
        assert(p[j as int] == q[j as int]);
        assert forall|k: int| 0 <= k < j implies p[k] == r[k] by {
            assert(p[k] == q[k] && q[k] == r[k]);
        }
        assert(q[j as int] != r[j as int]);
        shared_unique(p, r, j);
    } else {
        assert forall|k: int| 0 <= k < i implies p[k] == r[k] by {
            assert(p[k] == q[k] && q[k] == r[k]);
        }
        if i < p.len() {
            assert(t.child_index(p[i as int]) < t.child_index(q[i as int]));
            assert(t.child_index(q[i as int]) < t.child_index(r[i as int]));
        }
        shared_unique(p, r, i);
    }
    if a == c {
        order_antisymmetric(t, a, b);
    }
}

} // verus!
