//! The document tree: its nodes, walking it in document order, and attributes.
use crate::text::same_text;
use vstd::prelude::*;

verus! {

/// The place of a node in the document's list of nodes.
pub type NodeId = usize;

/// An element: its tag, its namespace where that is not HTML's, and its attributes.
pub struct Element {
    pub tag: String,
    pub namespace: Option<String>,
    pub attrs: Vec<(String, String)>,
}

/// What a node is.
pub enum NodeKind {
    Element(Element),
    Text(String),
    Comment(String),
}

/// A node of the document.
pub struct Node {
    pub parent: Option<NodeId>,
    pub children: Vec<NodeId>,
    pub kind: NodeKind,
}

/// A document.
pub struct Dom {
    pub nodes: Vec<Node>,
    pub root: NodeId,
}

/// An attribute.
#[verifier::ext_equal]
pub struct Attr {
    pub name: Seq<char>,
    pub value: Seq<char>,
}

/// The mathematical counterpart of `NodeKind`.
#[verifier::ext_equal]
pub enum KindV {
    Element(Seq<char>, Option<Seq<char>>, Seq<Attr>),
    Text(Seq<char>),
    Comment(Seq<char>),
}

/// The mathematical counterpart of `Node`.
#[verifier::ext_equal]
pub struct NodeV {
    pub parent: Option<NodeId>,
    pub children: Seq<NodeId>,
    pub kind: KindV,
}

pub open spec fn attrs_view(a: Seq<(String, String)>) -> Seq<Attr> {
    Seq::new(a.len(), |i: int| Attr { name: a[i].0@, value: a[i].1@ })
}

impl View for NodeKind {
    type V = KindV;

    open spec fn view(&self) -> KindV {
        match *self {
            NodeKind::Element(e) => KindV::Element(
                e.tag@,
                crate::value::opt_text(e.namespace),
                attrs_view(e.attrs@),
            ),
            NodeKind::Text(s) => KindV::Text(s@),
            NodeKind::Comment(s) => KindV::Comment(s@),
        }
    }
}

impl View for Node {
    type V = NodeV;

    open spec fn view(&self) -> NodeV {
        NodeV { parent: self.parent, children: self.children@, kind: self.kind@ }
    }
}

/// Every link leads to a node.
pub open spec fn linked(d: Seq<NodeV>) -> bool {
    forall|i: int|
        0 <= i < d.len() ==> {
            &&& ((#[trigger] d[i]).parent matches Some(p) ==> p < d.len())
            &&& forall|j: int| 0 <= j < d[i].children.len() ==> #[trigger] d[i].children[j] < d.len()
        }
}

impl Dom {
    /// The nodes by their numbers. The root, a number too, is named beside them.
    pub open spec fn tree(&self) -> Seq<NodeV> {
        Seq::new(self.nodes@.len(), |i: int| self.nodes@[i]@)
    }

    /// Every link leads to a node, and so does the root.
    pub open spec fn wf(self) -> bool {
        linked(self.tree()) && self.root < self.tree().len()
    }
}

/// The nodes below `id` and `id` itself in document order, down to `depth` levels. The number of
/// nodes is always enough levels for a tree.
pub open spec fn preorder(d: Seq<NodeV>, id: NodeId, depth: nat) -> Seq<NodeId>
    decreases depth, 1nat, 0nat,
{
    if depth == 0 || id >= d.len() {
        Seq::empty()
    } else {
        seq![id] + preorder_all(d, d[id as int].children, 0, (depth - 1) as nat)
    }
}

/// The same for each of some nodes from the `j`-th on.
pub open spec fn preorder_all(d: Seq<NodeV>, ids: Seq<NodeId>, j: int, depth: nat) -> Seq<NodeId>
    decreases depth, 2nat, ids.len() - j,
{
    if !(0 <= j < ids.len()) {
        Seq::empty()
    } else {
        preorder(d, ids[j], depth) + preorder_all(d, ids, j + 1, depth)
    }
}

/// The nodes of the subtree in document order.
pub open spec fn subtree(d: Seq<NodeV>, id: NodeId) -> Seq<NodeId> {
    preorder(d, id, d.len())
}

impl Dom {
    fn preorder_into(&self, id: NodeId, depth: usize, out: &mut Vec<NodeId>)
        requires
            self.wf(),
            id < self.tree().len(),
        ensures
            final(out)@ == old(out)@ + preorder(self.tree(), id, depth as nat),
        decreases depth,
    {
        let ghost before = out@;
        if depth == 0 {
            assert(out@ =~= before + preorder(self.tree(), id, 0));
            return ;
        }
        out.push(id);
        let ghost kids = self.tree()[id as int].children;
        assert(kids == self.nodes@[id as int].children@);
        let mut j: usize = 0;
        assert(before + preorder(self.tree(), id, depth as nat) =~= out@ + preorder_all(
            self.tree(),
            kids,
            0,
            (depth - 1) as nat,
        ));
        while j < self.nodes[id].children.len()
            invariant
                self.wf(),
                id < self.tree().len(),
                depth > 0,
                kids == self.tree()[id as int].children,
                kids == self.nodes@[id as int].children@,
                j <= kids.len(),
                before + preorder(self.tree(), id, depth as nat) == out@ + preorder_all(
                    self.tree(),
                    kids,
                    j as int,
                    (depth - 1) as nat,
                ),
            decreases kids.len() - j,
        {
            let ghost prior = out@;
            let c: NodeId = self.nodes[id].children[j];
            assert(kids[j as int] == c);
            self.preorder_into(c, depth - 1, out);
            assert(prior + preorder_all(self.tree(), kids, j as int, (depth - 1) as nat) =~= out@
                + preorder_all(self.tree(), kids, j + 1, (depth - 1) as nat));
            j = j + 1;
        }
        assert(out@ + preorder_all(self.tree(), kids, j as int, (depth - 1) as nat) =~= out@);
    }

    /// The nodes of the subtree in document order.
    pub fn walk(&self, id: NodeId) -> (r: Vec<NodeId>)
        requires
            self.wf(),
            id < self.tree().len(),
        ensures
            r@ == subtree(self.tree(), id),
    {
        let mut out: Vec<NodeId> = Vec::new();
        self.preorder_into(id, self.nodes.len(), &mut out);
        assert(out@ =~= subtree(self.tree(), id));
        out
    }
}

/// The first place of `x`.
pub open spec fn first_index(s: Seq<NodeId>, x: NodeId) -> Option<nat>
    decreases s.len(),
{
    if s.len() == 0 {
        None
    } else if s[0] == x {
        Some(0)
    } else {
        match first_index(s.skip(1), x) {
            Some(i) => Some(i + 1),
            None => None,
        }
    }
}

proof fn lemma_first_index(s: Seq<NodeId>, x: NodeId, i: nat)
    requires
        i <= s.len(),
        i < s.len() ==> s[i as int] == x,
        forall|j: int| 0 <= j < i ==> s[j] != x,
    ensures
        first_index(s, x) == if i < s.len() {
            Some(i)
        } else {
            None::<nat>
        },
    decreases s.len(),
{
    if s.len() > 0 && i > 0 {
        assert(s[0] != x);
        assert forall|j: int| 0 <= j < i - 1 implies s.skip(1)[j] != x by {
            assert(s[j + 1] != x);
        }
        lemma_first_index(s.skip(1), x, (i - 1) as nat);
    }
}

/// The place of `target` in the document order of the subtree at `id`.
pub fn preorder_index(dom: &Dom, id: NodeId, target: NodeId) -> (r: Option<usize>)
    requires
        dom.wf(),
        id < dom.tree().len(),
    ensures
        match r {
            Some(i) => first_index(subtree(dom.tree(), id), target) == Some(i as nat),
            None => first_index(subtree(dom.tree(), id), target) is None,
        },
{
    let all: Vec<NodeId> = dom.walk(id);
    let mut i: usize = 0;
    while i < all.len()
        invariant
            i <= all@.len(),
            all@ == subtree(dom.tree(), id),
            forall|j: int| 0 <= j < i ==> all@[j] != target,
        decreases all@.len() - i,
    {
        if all[i] == target {
            proof {
                lemma_first_index(all@, target, i as nat);
            }
            return Some(i);
        }
        i = i + 1;
    }
    proof {
        lemma_first_index(all@, target, i as nat);
    }
    None
}

/// `compareDocumentPosition`: 4 where `b` follows `a`, 2 where it precedes it, and 0 where they
/// are one node or not both in the document.
pub open spec fn position_of(d: Seq<NodeV>, root: NodeId, a: NodeId, b: NodeId) -> u64 {
    if a == b {
        0
    } else {
        match (first_index(subtree(d, root), a), first_index(subtree(d, root), b)) {
            (Some(x), Some(y)) => if y > x {
                4
            } else if y < x {
                2
            } else {
                0
            },
            _ => 0,
        }
    }
}

pub fn compare_document_position(dom: &Dom, a: NodeId, b: NodeId) -> (r: u64)
    requires
        dom.wf(),
    ensures
        r == position_of(dom.tree(), dom.root, a, b),
{
    if a == b {
        return 0;
    }
    match (preorder_index(dom, dom.root, a), preorder_index(dom, dom.root, b)) {
        (Some(x), Some(y)) => if y > x {
            4
        } else if y < x {
            2
        } else {
            0
        },
        _ => 0,
    }
}

proof fn lemma_first_index_found(s: Seq<NodeId>, x: NodeId)
    ensures
        first_index(s, x) matches Some(i) ==> i < s.len() && s[i as int] == x,
    decreases s.len(),
{
    if s.len() > 0 && s[0] != x {
        lemma_first_index_found(s.skip(1), x);
    }
}

/// Of two different nodes in the document, one follows the other: comparing them the other way
/// round gives the other answer.
pub proof fn law_document_order(d: Seq<NodeV>, root: NodeId, a: NodeId, b: NodeId)
    ensures
        position_of(d, root, a, b) == 4 <==> position_of(d, root, b, a) == 2,
        first_index(subtree(d, root), a) is Some && first_index(subtree(d, root), b) is Some && a != b
            ==> position_of(d, root, a, b) != 0,
{
    lemma_first_index_found(subtree(d, root), a);
    lemma_first_index_found(subtree(d, root), b);
}

pub open spec fn tag_is(d: Seq<NodeV>, id: NodeId, tag: Seq<char>) -> bool {
    &&& id < d.len()
    &&& d[id as int].kind matches KindV::Element(t, _, _)
    &&& t == tag
}

impl Dom {
    pub fn has_tag(&self, id: NodeId, tag: &str) -> (r: bool)
        requires
            id < self.tree().len(),
        ensures
            r == tag_is(self.tree(), id, tag@),
    {
        match &self.nodes[id].kind {
            NodeKind::Element(e) => same_text(e.tag.as_str(), tag),
            _ => false,
        }
    }
}

/// True of a document fragment.
pub fn is_fragment(dom: &Dom, id: NodeId) -> (r: bool)
    requires
        id < dom.tree().len(),
    ensures
        r == tag_is(dom.tree(), id, "#document-fragment"@),
{
    dom.has_tag(id, "#document-fragment")
}

/// The nodes of a list that have a tag, in order.
pub open spec fn with_tag(d: Seq<NodeV>, ids: Seq<NodeId>, tag: Seq<char>) -> Seq<NodeId>
    decreases ids.len(),
{
    if ids.len() == 0 {
        Seq::empty()
    } else if tag_is(d, ids.last(), tag) {
        with_tag(d, ids.drop_last(), tag).push(ids.last())
    } else {
        with_tag(d, ids.drop_last(), tag)
    }
}

proof fn lemma_preorder_in_range(d: Seq<NodeV>, id: NodeId, depth: nat, k: int)
    requires
        linked(d),
        0 <= k < preorder(d, id, depth).len(),
    ensures
        preorder(d, id, depth)[k] < d.len(),
    decreases depth, 1nat, 0nat,
{
    if depth > 0 && id < d.len() && k > 0 {
        let rest = preorder_all(d, d[id as int].children, 0, (depth - 1) as nat);
        lemma_preorder_all_in_range(d, d[id as int].children, 0, (depth - 1) as nat, k - 1);
        assert(preorder(d, id, depth)[k] == rest[k - 1]);
    }
}

proof fn lemma_preorder_all_in_range(d: Seq<NodeV>, ids: Seq<NodeId>, j: int, depth: nat, k: int)
    requires
        linked(d),
        0 <= k < preorder_all(d, ids, j, depth).len(),
    ensures
        preorder_all(d, ids, j, depth)[k] < d.len(),
    decreases depth, 2nat, ids.len() - j,
{
    if 0 <= j < ids.len() {
        let front = preorder(d, ids[j], depth);
        let back = preorder_all(d, ids, j + 1, depth);
        if k < front.len() {
            lemma_preorder_in_range(d, ids[j], depth, k);
        } else {
            lemma_preorder_all_in_range(d, ids, j + 1, depth, k - front.len());
        }
    }
}

pub proof fn lemma_subtree_in_range(d: Seq<NodeV>, id: NodeId)
    requires
        linked(d),
    ensures
        forall|k: int| 0 <= k < subtree(d, id).len() ==> #[trigger] subtree(d, id)[k] < d.len(),
{
    assert forall|k: int| 0 <= k < subtree(d, id).len() implies #[trigger] subtree(d, id)[k]
        < d.len() by {
        lemma_preorder_in_range(d, id, d.len(), k);
    }
}

/// Appends the `script` elements of the subtree to `out`, in document order.
pub fn collect_script_nodes(dom: &Dom, id: NodeId, out: &mut Vec<NodeId>)
    requires
        dom.wf(),
        id < dom.tree().len(),
    ensures
        final(out)@ == old(out)@ + with_tag(dom.tree(), subtree(dom.tree(), id), "script"@),
{
    let all: Vec<NodeId> = dom.walk(id);
    let ghost before = out@;
    proof {
        lemma_subtree_in_range(dom.tree(), id);
    }
    let mut i: usize = 0;
    assert(all@.take(0) =~= Seq::<NodeId>::empty());
    assert(out@ =~= before + with_tag(dom.tree(), all@.take(0), "script"@));
    while i < all.len()
        invariant
            i <= all@.len(),
            forall|k: int| 0 <= k < all@.len() ==> #[trigger] all@[k] < dom.tree().len(),
            out@ == before + with_tag(dom.tree(), all@.take(i as int), "script"@),
        decreases all@.len() - i,
    {
        let n: NodeId = all[i];
        assert(all@.take(i + 1).drop_last() =~= all@.take(i as int));
        assert(all@[i as int] < dom.tree().len());
        if dom.has_tag(n, "script") {
            out.push(n);
        }
        i = i + 1;
        assert(out@ =~= before + with_tag(dom.tree(), all@.take(i as int), "script"@));
    }
    assert(all@.take(i as int) =~= all@);
}

/// The first of some nodes that has a tag.
pub open spec fn first_with_tag(d: Seq<NodeV>, ids: Seq<NodeId>, tag: Seq<char>) -> Option<NodeId> {
    let found = with_tag(d, ids, tag);
    if found.len() > 0 {
        Some(found[0])
    } else {
        None
    }
}

/// The body of the document, or its root where it has none.
pub fn find_body(dom: &Dom) -> (r: NodeId)
    requires
        dom.wf(),
    ensures
        r == match first_with_tag(dom.tree(), subtree(dom.tree(), dom.root), "body"@) {
            Some(b) => b,
            None => dom.root,
        },
        r < dom.tree().len(),
{
    let all: Vec<NodeId> = dom.walk(dom.root);
    proof {
        lemma_subtree_in_range(dom.tree(), dom.root);
    }
    let mut i: usize = 0;
    assert(all@.take(0) =~= Seq::<NodeId>::empty());
    while i < all.len()
        invariant
            i <= all@.len(),
            all@ == subtree(dom.tree(), dom.root),
            forall|k: int| 0 <= k < all@.len() ==> #[trigger] all@[k] < dom.tree().len(),
            with_tag(dom.tree(), all@.take(i as int), "body"@) == Seq::<NodeId>::empty(),
        decreases all@.len() - i,
    {
        let n: NodeId = all[i];
        assert(all@.take(i + 1).drop_last() =~= all@.take(i as int));
        assert(all@[i as int] < dom.tree().len());
        if dom.has_tag(n, "body") {
            proof {
                assert(with_tag(dom.tree(), all@.take(i + 1), "body"@) =~= seq![n]);
                lemma_first_tag_stays(dom.tree(), all@, "body"@, i + 1);
            }
            return n;
        }
        i = i + 1;
    }
    assert(all@.take(i as int) =~= all@);
    dom.root
}

proof fn lemma_first_tag_stays(d: Seq<NodeV>, ids: Seq<NodeId>, tag: Seq<char>, i: int)
    requires
        0 <= i <= ids.len(),
        with_tag(d, ids.take(i), tag).len() > 0,
    ensures
        with_tag(d, ids, tag).len() > 0,
        with_tag(d, ids, tag)[0] == with_tag(d, ids.take(i), tag)[0],
    decreases ids.len() - i,
{
    if i < ids.len() {
        assert(ids.take(i + 1).drop_last() =~= ids.take(i));
        lemma_first_tag_stays(d, ids, tag, i + 1);
    } else {
        assert(ids.take(i) =~= ids);
    }
}

/// The value of an attribute.
pub open spec fn attr_value(attrs: Seq<Attr>, name: Seq<char>) -> Option<Seq<char>>
    decreases attrs.len(),
{
    if attrs.len() == 0 {
        None
    } else if attrs[0].name == name {
        Some(attrs[0].value)
    } else {
        attr_value(attrs.skip(1), name)
    }
}

/// The attributes after one is set: in place where it is there, else at the end.
pub open spec fn attr_set(attrs: Seq<Attr>, name: Seq<char>, value: Seq<char>) -> Seq<Attr>
    decreases attrs.len(),
{
    if attrs.len() == 0 {
        seq![Attr { name, value }]
    } else if attrs[0].name == name {
        seq![Attr { name, value }] + attrs.skip(1)
    } else {
        seq![attrs[0]] + attr_set(attrs.skip(1), name, value)
    }
}

/// The attributes without one.
pub open spec fn attr_removed(attrs: Seq<Attr>, name: Seq<char>) -> Seq<Attr>
    decreases attrs.len(),
{
    if attrs.len() == 0 {
        Seq::empty()
    } else if attrs[0].name == name {
        attr_removed(attrs.skip(1), name)
    } else {
        seq![attrs[0]] + attr_removed(attrs.skip(1), name)
    }
}

/// An attribute that is set reads back, one that is removed is gone, and others keep their values.
pub proof fn law_attributes(attrs: Seq<Attr>, name: Seq<char>, value: Seq<char>, other: Seq<char>)
    ensures
        attr_value(attr_set(attrs, name, value), name) == Some(value),
        attr_value(attr_removed(attrs, name), name) is None,
        other != name ==> attr_value(attr_set(attrs, name, value), other) == attr_value(attrs, other),
        other != name ==> attr_value(attr_removed(attrs, name), other) == attr_value(attrs, other),
    decreases attrs.len(),
{
    if attrs.len() > 0 {
        let rest = attrs.skip(1);
        law_attributes(rest, name, value, other);
        let set = attr_set(attrs, name, value);
        let removed = attr_removed(attrs, name);
        if attrs[0].name == name {
            assert(set.skip(1) =~= rest);
        } else {
            assert(set.skip(1) =~= attr_set(rest, name, value));
            assert(removed.skip(1) =~= attr_removed(rest, name));
        }
    } else {
        assert(attr_set(attrs, name, value).skip(1) =~= Seq::<Attr>::empty());
    }
}

/// The attributes of a node; none where it is no element.
pub open spec fn attrs_of(d: Seq<NodeV>, id: NodeId) -> Seq<Attr> {
    match d[id as int].kind {
        KindV::Element(_, _, a) => a,
        _ => Seq::empty(),
    }
}

/// An attribute of a node.
pub open spec fn attr(d: Seq<NodeV>, id: NodeId, name: Seq<char>) -> Option<Seq<char>> {
    attr_value(attrs_of(d, id), name)
}

/// The document with the attributes of one element replaced.
pub open spec fn with_attrs(d: Seq<NodeV>, id: NodeId, attrs: Seq<Attr>) -> Seq<NodeV> {
    match d[id as int].kind {
        KindV::Element(t, n, _) => d.update(
            id as int,
            NodeV {
                parent: d[id as int].parent,
                children: d[id as int].children,
                kind: KindV::Element(t, n, attrs),
            },
        ),
        _ => d,
    }
}

fn attr_place(attrs: &Vec<(String, String)>, name: &str) -> (r: usize)
    ensures
        r <= attrs@.len(),
        r < attrs@.len() ==> attrs_view(attrs@)[r as int].name == name@,
        forall|j: int| 0 <= j < r ==> (#[trigger] attrs_view(attrs@)[j]).name != name@,
{
    let mut i: usize = 0;
    while i < attrs.len()
        invariant
            i <= attrs@.len(),
            forall|j: int| 0 <= j < i ==> (#[trigger] attrs_view(attrs@)[j]).name != name@,
        decreases attrs@.len() - i,
    {
        assert(attrs_view(attrs@)[i as int].name == attrs@[i as int].0@);
        if same_text(attrs[i].0.as_str(), name) {
            return i;
        }
        i = i + 1;
    }
    i
}

proof fn lemma_attr_at(attrs: Seq<Attr>, name: Seq<char>, value: Seq<char>, i: int)
    requires
        0 <= i <= attrs.len(),
        i < attrs.len() ==> attrs[i].name == name,
        forall|j: int| 0 <= j < i ==> (#[trigger] attrs[j]).name != name,
    ensures
        attr_value(attrs, name) == if i < attrs.len() {
            Some(attrs[i].value)
        } else {
            None::<Seq<char>>
        },
        attr_set(attrs, name, value) == if i < attrs.len() {
            attrs.update(i, Attr { name, value })
        } else {
            attrs.push(Attr { name, value })
        },
        i == attrs.len() ==> attr_removed(attrs, name) == attrs,
        i < attrs.len() ==> attr_removed(attrs, name) == attrs.take(i) + attr_removed(
            attrs.skip(i + 1),
            name,
        ),
    decreases attrs.len(),
{
    if attrs.len() == 0 {
        assert(attr_set(attrs, name, value) =~= attrs.push(Attr { name, value }));
        assert(attr_removed(attrs, name) =~= attrs);
    } else if i == 0 {
        assert(attr_set(attrs, name, value) =~= attrs.update(0, Attr { name, value }));
        assert(attrs.take(0) + attr_removed(attrs.skip(1), name) =~= attr_removed(
            attrs.skip(1),
            name,
        ));
    } else {
        let rest = attrs.skip(1);
        assert(attrs[0].name != name);
        assert forall|j: int| 0 <= j < i - 1 implies (#[trigger] rest[j]).name != name by {
            assert(rest[j] == attrs[j + 1]);
        }
        lemma_attr_at(rest, name, value, i - 1);
        if i < attrs.len() {
            assert(attr_set(attrs, name, value) =~= attrs.update(i, Attr { name, value }));
            assert(rest.skip(i) =~= attrs.skip(i + 1));
            assert(attr_removed(attrs, name) =~= attrs.take(i) + attr_removed(
                attrs.skip(i + 1),
                name,
            ));
        } else {
            assert(attr_set(attrs, name, value) =~= attrs.push(Attr { name, value }));
            assert(attr_removed(attrs, name) =~= attrs);
        }
    }
}

fn remove_named(attrs: &mut Vec<(String, String)>, name: &str)
    ensures
        attrs_view(final(attrs)@) == attr_removed(attrs_view(old(attrs)@), name@),
    decreases old(attrs)@.len(),
{
    let ghost before = attrs_view(attrs@);
    let i: usize = attr_place(attrs, name);
    proof {
        lemma_attr_at(before, name@, Seq::empty(), i as int);
    }
    if i < attrs.len() {
        let mut tail: Vec<(String, String)> = attrs.split_off(i);
        let ghost cut = attrs_view(tail@);
        let dropped: (String, String) = tail.remove(0);
        assert(attrs_view(tail@) =~= before.skip(i + 1));
        remove_named(&mut tail, name);
        let ghost rest = attrs_view(tail@);
        assert(attrs_view(attrs@) =~= before.take(i as int));
        attrs.append(&mut tail);
        assert(attrs_view(attrs@) =~= before.take(i as int) + rest);
    }
}

impl Dom {
    /// The value of an attribute.
    pub fn get_attr(&self, id: NodeId, name: &str) -> (r: Option<String>)
        requires
            id < self.tree().len(),
        ensures
            crate::value::opt_text(r) == attr(self.tree(), id, name@),
    {
        match &self.nodes[id].kind {
            NodeKind::Element(e) => {
                let i: usize = attr_place(&e.attrs, name);
                proof {
                    lemma_attr_at(attrs_view(e.attrs@), name@, Seq::empty(), i as int);
                }
                if i < e.attrs.len() {
                    Some(e.attrs[i].1.clone())
                } else {
                    None
                }
            },
            _ => None,
        }
    }

    fn replace_attrs(&mut self, id: NodeId, attrs: Vec<(String, String)>)
        requires
            old(self).wf(),
            id < old(self).tree().len(),
        ensures
            final(self).wf(),
            final(self).root == old(self).root,
            final(self).tree() == with_attrs(old(self).tree(), id, attrs_view(attrs@)),
    {
        let ghost before = self.tree();
        let mut node: Node = Node {
            parent: None,
            children: Vec::new(),
            kind: NodeKind::Text(String::new()),
        };
        std::mem::swap(&mut node, &mut self.nodes[id]);
        let Node { parent, children, kind } = node;
        let kind: NodeKind = match kind {
            NodeKind::Element(e) => NodeKind::Element(
                Element { tag: e.tag, namespace: e.namespace, attrs },
            ),
            other => other,
        };
        self.nodes.set(id, Node { parent, children, kind });
        proof {
            assert(self.tree() =~= with_attrs(before, id, attrs_view(attrs@)));
            assert forall|i: int| 0 <= i < self.tree().len() implies {
                &&& ((#[trigger] self.tree()[i]).parent matches Some(p) ==> p < self.tree().len())
                &&& forall|j: int|
                    0 <= j < self.tree()[i].children.len() ==> #[trigger] self.tree()[i].children[j]
                        < self.tree().len()
            } by {
                assert(self.tree()[i].parent == before[i].parent);
                assert(self.tree()[i].children == before[i].children);
            }
        }
    }

    fn copy_attrs(&self, id: NodeId) -> (r: Vec<(String, String)>)
        requires
            id < self.tree().len(),
        ensures
            attrs_view(r@) == attrs_of(self.tree(), id),
    {
        let mut out: Vec<(String, String)> = Vec::new();
        match &self.nodes[id].kind {
            NodeKind::Element(e) => {
                let mut i: usize = 0;
                while i < e.attrs.len()
                    invariant
                        i <= e.attrs@.len(),
                        out@.len() == i,
                        forall|j: int|
                            0 <= j < i ==> (#[trigger] out@[j]).0@ == e.attrs@[j].0@ && out@[j].1@
                                == e.attrs@[j].1@,
                    decreases e.attrs@.len() - i,
                {
                    out.push((e.attrs[i].0.clone(), e.attrs[i].1.clone()));
                    i = i + 1;
                }
                assert(attrs_view(out@) =~= attrs_view(e.attrs@));
            },
            _ => {
                assert(attrs_view(out@) =~= Seq::<Attr>::empty());
            },
        }
        out
    }

    /// Sets an attribute of an element.
    pub fn set_attr(&mut self, id: NodeId, name: &str, value: &str)
        requires
            old(self).wf(),
            id < old(self).tree().len(),
        ensures
            final(self).wf(),
            final(self).root == old(self).root,
            final(self).tree() == with_attrs(
                old(self).tree(),
                id,
                attr_set(attrs_of(old(self).tree(), id), name@, value@),
            ),
    {
        let mut attrs: Vec<(String, String)> = self.copy_attrs(id);
        let ghost before = attrs_view(attrs@);
        let i: usize = attr_place(&attrs, name);
        proof {
            lemma_attr_at(before, name@, value@, i as int);
        }
        let entry: (String, String) = (name.to_owned(), value.to_owned());
        if i < attrs.len() {
            attrs.set(i, entry);
        } else {
            attrs.push(entry);
        }
        assert(attrs_view(attrs@) =~= attr_set(before, name@, value@));
        self.replace_attrs(id, attrs);
    }

    /// Removes an attribute of an element.
    pub fn remove_attr(&mut self, id: NodeId, name: &str)
        requires
            old(self).wf(),
            id < old(self).tree().len(),
        ensures
            final(self).wf(),
            final(self).root == old(self).root,
            final(self).tree() == with_attrs(
                old(self).tree(),
                id,
                attr_removed(attrs_of(old(self).tree(), id), name@),
            ),
    {
        let mut attrs: Vec<(String, String)> = self.copy_attrs(id);
        remove_named(&mut attrs, name);
        self.replace_attrs(id, attrs);
    }
}

} // verus!
