//! What the methods that move nodes do to the document.
use crate::elements::{insert_all, insert_node, is_node, next_in, or_undefined, same_node};
use crate::host::{
    ask_text, done, halted, plays, question_at, settles, text_in, value_in, Answer, Halt, Host, Op,
    Question, Run,
};
use crate::text::ascii_lower;
use crate::tree::{
    adjacent_nodes, among, append_all, append_child_run, dom_contains_run, first_fitting,
    insert_adjacent_run, insert_before_run, named_place, node_put_run,
    node_replace_with_run, place_at, put_at, put_each, remove_child_run, remove_element_run, Place,
};
use crate::value::{arg, Val};
use vstd::prelude::*;

verus! {

/// What stands in each node, in order.
pub type Document = spec_fn(Val) -> Seq<Val>;

/// A list without a node.
pub open spec fn without(s: Seq<Val>, node: Val) -> Seq<Val>
    decreases s.len(),
{
    if s.len() == 0 {
        Seq::empty()
    } else if s.last() == node {
        without(s.drop_last(), node)
    } else {
        without(s.drop_last(), node).push(s.last())
    }
}

/// A list with a node put before a reference, or at the end where the reference is not in it.
pub open spec fn with_before(s: Seq<Val>, node: Val, reference: Val) -> Seq<Val> {
    if s.contains(reference) {
        s.insert(s.index_of(reference), node)
    } else {
        s.push(node)
    }
}

/// A document with a node taken out of what it stands in.
pub open spec fn taken_out(d: Document, node: Val) -> Document {
    |x: Val| without(d(x), node)
}

/// A document with a node moved into another, before a reference.
pub open spec fn moved(d: Document, parent: Val, node: Val, reference: Val) -> Document {
    |x: Val|
        if x == parent {
            with_before(without(d(x), node), node, reference)
        } else {
            without(d(x), node)
        }
}

/// The document after the engine was asked something.
pub open spec fn document_after(d: Document, q: Question) -> Document {
    match q.op {
        Op::InsertNode => moved(d, arg(q.args, 0), arg(q.args, 1), arg(q.args, 2)),
        Op::AppendNode => moved(d, arg(q.args, 0), arg(q.args, 1), Val::Undefined),
        Op::DetachNode => taken_out(d, arg(q.args, 0)),
        _ => d,
    }
}

/// The engine's answer is true of a document.
pub open spec fn true_of(d: Document, q: Question, a: Answer) -> bool {
    match q.op {
        Op::NodeChildren => a == Answer::List(d(arg(q.args, 0))),
        Op::NodeParent => match a {
            Answer::Value(p) => d(p).contains(arg(q.args, 0)),
            _ => forall|p: Val| !(#[trigger] d(p)).contains(arg(q.args, 0)),
        },
        _ => true,
    }
}

/// The engine plays a run on a document: `d(k)` is the document before the `k`-th question.
pub open spec fn played<T>(run: spec_fn(Host) -> Run<T>, h: Host, d: spec_fn(nat) -> Document) -> bool {
    forall|k: nat|
        k < h.len && (#[trigger] question_at(run, h, k)) is Some ==> {
            let q = question_at(run, h, k)->0;
            true_of(d(k), q, (h.reply)(k, q)) && d(k + 1) == document_after(d(k), q)
        }
}

/// Nothing stands at two places in a node, and only nodes stand in nodes.
pub open spec fn sound(d: Document) -> bool {
    &&& forall|p: Val| (#[trigger] d(p)).no_duplicates()
    &&& forall|p: Val, i: int| 0 <= i < d(p).len() ==> is_node(#[trigger] d(p)[i])
    &&& forall|p: Val, q: Val, x: Val|
        (#[trigger] d(p).contains(x)) && (#[trigger] d(q).contains(x)) ==> p == q
}

/// A node that stands in nothing.
pub open spec fn loose(d: Document, node: Val) -> bool {
    is_node(node) && forall|p: Val| !(#[trigger] d(p)).contains(node)
}

proof fn lemma_without(s: Seq<Val>, node: Val)
    requires
        !s.contains(node),
    ensures
        without(s, node) == s,
    decreases s.len(),
{
    if s.len() > 0 {
        assert(s.last() != node);
        assert forall|i: int| 0 <= i < s.drop_last().len() implies s.drop_last()[i] != node by {
            assert(s[i] != node);
        }
        lemma_without(s.drop_last(), node);
        assert(s.drop_last().push(s.last()) =~= s);
    } else {
        assert(s =~= Seq::empty());
    }
}

/// What `insertAdjacentElement` is given beside the word is `x`, or what `insertAdjacentHTML` is
/// given makes the one node `x`.
pub open spec fn makes(h: Host, of_html: bool, given: Val, x: Val) -> bool {
    if of_html {
        let text = text_in(value_in((h.reply)(1, Question { op: Op::Display, args: seq![given] })));
        (h.reply)(2, Question { op: Op::ParseHtml, args: seq![Val::Str(text)] }) == Answer::List(
            seq![x],
        )
    } else {
        given == x
    }
}

/// The word that `insertAdjacentElement` and `insertAdjacentHTML` are given, in lower case.
pub open spec fn word_given(h: Host, word: Val) -> Seq<char> {
    ascii_lower(text_in(value_in((h.reply)(0, Question { op: Op::Display, args: seq![word] }))))
}

/// `insertAdjacentElement` and `insertAdjacentHTML` put a node where the word says: `afterbegin`
/// before all children, `beforeend` behind them, `beforebegin` directly before the element and
/// `afterend` directly behind it. Nothing else moves.
#[verifier::spinoff_prover]
#[verifier::rlimit(40)]
pub proof fn law_insert_adjacent(
    h: Host,
    d: spec_fn(nat) -> Document,
    of_html: bool,
    node: Val,
    word: Val,
    given: Val,
    x: Val,
    parent: Val,
    i: int,
)
    requires
        is_node(node),
        is_node(x),
        x != node,
        makes(h, of_html, given, x),
        sound(d(0)),
        loose(d(0), x),
        0 <= i < d(0)(parent).len(),
        d(0)(parent)[i] == node,
        parent != node,
        played(|g: Host| insert_adjacent_run(g, 0, of_html, Some(node), seq![word, given]), h, d),
        insert_adjacent_run(h, 0, of_html, Some(node), seq![word, given]).out is Ok,
    ensures
        ({
            let said = word_given(h, word);
            let then = d(insert_adjacent_run(h, 0, of_html, Some(node), seq![word, given]).pos);
            let inside = d(0)(node);
            let around = d(0)(parent);
            &&& said == "afterbegin"@ ==> then(node) == seq![x] + inside && then(parent) == around
            &&& said == "beforeend"@ ==> then(node) == inside + seq![x] && then(parent) == around
            &&& said == "beforebegin"@ ==> then(node) == inside && then(parent) == around.take(i)
                + seq![x] + around.skip(i)
            &&& said == "afterend"@ ==> then(node) == inside && then(parent) == around.take(i + 1)
                + seq![x] + around.skip(i + 1)
        }),
{
    reveal_strlit("beforebegin");
    reveal_strlit("afterbegin");
    reveal_strlit("beforeend");
    reveal_strlit("afterend");
    let args = seq![word, given];
    let run = |g: Host| insert_adjacent_run(g, 0, of_html, Some(node), args);
    let said = word_given(h, word);
    let r = insert_adjacent_run(h, 0, of_html, Some(node), args);
    let b: nat = if of_html {
        3
    } else {
        1
    };
    lemma_adjacent(h, of_html, node, word, given, x);
    let around = d(0)(parent);
    let inside = d(0)(node);
    lemma_without(inside, x);
    lemma_without(around, x);
    assert(around.contains(node));
    lemma_adjacent(Host { len: 0, reply: h.reply }, of_html, node, word, given, x);
    lemma_adjacent(Host { len: 1, reply: h.reply }, of_html, node, word, given, x);
    lemma_adjacent(Host { len: 2, reply: h.reply }, of_html, node, word, given, x);
    lemma_adjacent(Host { len: b, reply: h.reply }, of_html, node, word, given, x);
    lemma_adjacent(Host { len: b + 1, reply: h.reply }, of_html, node, word, given, x);
    lemma_adjacent(Host { len: b + 2, reply: h.reply }, of_html, node, word, given, x);
    assert(question_at(run, h, 0) == Some(Question { op: Op::Display, args: seq![word] }));
    assert(d(1) == d(0));
    if of_html {
        let text = text_in(value_in((h.reply)(1, Question { op: Op::Display, args: seq![given] })));
        assert(question_at(run, h, 1) == Some(Question { op: Op::Display, args: seq![given] }));
        assert(question_at(run, h, 2) == Some(
            Question { op: Op::ParseHtml, args: seq![Val::Str(text)] },
        ));
        assert(d(3) == d(0));
    }
    assert(d(b) == d(0));
    assert("beforebegin"@.len() == 11 && "afterbegin"@.len() == 10 && "beforeend"@.len() == 9
        && "afterend"@.len() == 8);
    if said == "afterbegin"@ {
        assert(named_place(said) == Some(Place::First));
        let q1 = Question { op: Op::NodeChildren, args: seq![node] };
        assert(question_at(run, h, b) == Some(q1));
        let first = if inside.len() > 0 {
            inside[0]
        } else {
            Val::Undefined
        };
        let q2 = Question { op: Op::InsertNode, args: seq![node, x, first] };
        assert(question_at(run, h, b + 1) == Some(q2));
        if inside.len() > 0 {
            assert(inside.contains(first));
            assert(inside.index_of(first) == 0);
        } else {
            assert(inside.push(x) =~= seq![x] + inside);
        }
        assert(with_before(inside, x, first) =~= seq![x] + inside);
        assert(r.pos == b + 2);
        assert(d(b + 2) == moved(d(0), node, x, first));
        assert(d(b + 2)(node) == seq![x] + inside && d(b + 2)(parent) == around);
    } else if said == "beforeend"@ {
        assert(named_place(said) == Some(Place::Last));
        let q1 = Question { op: Op::InsertNode, args: seq![node, x, Val::Undefined] };
        assert(question_at(run, h, b) == Some(q1));
        assert(!inside.contains(Val::Undefined));
        assert(with_before(inside, x, Val::Undefined) =~= inside + seq![x]);
        assert(r.pos == b + 1);
        assert(d(b + 1) == moved(d(0), node, x, Val::Undefined));
        assert(d(b + 1)(node) == inside + seq![x] && d(b + 1)(parent) == around);
    } else if said == "beforebegin"@ {
        let q1 = Question { op: Op::NodeParent, args: seq![node] };
        assert(question_at(run, h, b) == Some(q1));
        let q2 = Question { op: Op::InsertNode, args: seq![parent, x, node] };
        assert((h.reply)(b, q1) == Answer::Value(parent));
        assert(question_at(run, h, b + 1) == Some(q2));
        assert(around.index_of(node) == i);
        assert(with_before(around, x, node) =~= around.take(i) + seq![x] + around.skip(i));
        assert(r.pos == b + 2);
        assert(d(b + 2) == moved(d(0), parent, x, node));
        assert(d(b + 2)(node) == inside);
    } else if said == "afterend"@ {
        let q1 = Question { op: Op::NodeParent, args: seq![node] };
        assert(question_at(run, h, b) == Some(q1));
        assert((h.reply)(b, q1) == Answer::Value(parent));
        let q2 = Question { op: Op::NodeChildren, args: seq![parent] };
        assert(question_at(run, h, b + 1) == Some(q2));
        lemma_next(around, 0, i);
        let next = if i + 1 < around.len() {
            around[i + 1]
        } else {
            Val::Undefined
        };
        let q3 = Question { op: Op::InsertNode, args: seq![parent, x, next] };
        assert(question_at(run, h, b + 2) == Some(q3));
        if i + 1 < around.len() {
            assert(around.contains(next));
            assert(around.index_of(next) == i + 1);
        } else {
            assert(!around.contains(Val::Undefined));
        }
        assert(with_before(around, x, next) =~= around.take(i + 1) + seq![x] + around.skip(i + 1));
        assert(r.pos == b + 3);
        assert(d(b + 3) == moved(d(0), parent, x, next));
        assert(d(b + 3)(node) == inside);
    }
}

/// One node put somewhere.
pub open spec fn put_one(g: Host, pos: nat, node: Val, word: Seq<char>, x: Val) -> Run<()> {
    match named_place(word) {
        None => done((), pos),
        Some(place) => {
            let t = place_at(g, pos, node, place);
            match t.out {
                Err(e) => halted(e, t.pos),
                Ok(None) => done((), t.pos),
                Ok(Some(y)) => insert_node(g, t.pos, y.0, x, y.1),
            }
        },
    }
}

proof fn lemma_put_one(g: Host, pos: nat, node: Val, place: Place, x: Val)
    ensures
        ({
            let r = put_each(g, pos, node, place, seq![x], 0);
            let t = place_at(g, pos, node, place);
            match t.out {
                Err(e) => r == halted::<()>(e, t.pos),
                Ok(None) => r == done((), t.pos),
                Ok(Some(y)) => r == insert_node(g, t.pos, y.0, x, y.1),
            }
        }),
{
    let one = seq![x];
    assert(seq![one[0]] =~= one);
    reveal_with_fuel(put_each, 2);
    reveal_with_fuel(insert_all, 2);
}

/// The run of `insertAdjacentElement` and `insertAdjacentHTML` with one node.
proof fn lemma_adjacent(g: Host, of_html: bool, node: Val, word: Val, given: Val, x: Val)
    requires
        is_node(node),
        is_node(x),
        makes(g, of_html, given, x),
    ensures
        ({
            let r = insert_adjacent_run(g, 0, of_html, Some(node), seq![word, given]);
            let d = ask_text(g, 0, Op::Display, seq![word]);
            match d.out {
                Err(e) => r == halted::<Val>(e, d.pos),
                Ok(w) => {
                    let n = adjacent_nodes(g, d.pos, of_html, seq![word, given]);
                    match n.out {
                        Err(e) => r == halted::<Val>(e, n.pos),
                        Ok(l) => {
                            let s = put_one(g, n.pos, node, ascii_lower(w), x);
                            l == seq![x] && r.pos == s.pos && match s.out {
                                Err(e) => r.out == Err::<Val, _>(e),
                                Ok(_) => r.out is Ok,
                            }
                        },
                    }
                },
            }
        }),
{
    let args = seq![word, given];
    let d = ask_text(g, 0, Op::Display, seq![word]);
    assert(args[0] == word && args[1] == given);
    if d.out is Ok {
        let n = adjacent_nodes(g, d.pos, of_html, args);
        if let Ok(l) = n.out {
            assert(l =~= seq![x]);
            if let Some(place) = named_place(ascii_lower(d.out->Ok_0)) {
                lemma_put_one(g, n.pos, node, place, x);
            }
        }
    }
}

/// The node that follows the `k`-th one.
proof fn lemma_next(s: Seq<Val>, j: int, k: int)
    requires
        0 <= j <= k < s.len(),
        s.no_duplicates(),
        forall|i: int| 0 <= i < s.len() ==> is_node(#[trigger] s[i]),
    ensures
        next_in(s, j, s[k]) == if k + 1 < s.len() {
            Some(s[k + 1])
        } else {
            None
        },
    decreases k - j,
{
    assert(is_node(s[j]) && is_node(s[k]));
    assert(same_node(s[j], s[k]) <==> s[j] == s[k]);
    if j < k {
        lemma_next(s, j + 1, k);
    }
}

/// The engine throws at nothing.
pub open spec fn never_throws(h: Host) -> bool {
    forall|k: nat, q: Question| !((#[trigger] (h.reply)(k, q)) is Throw)
}

/// The questions that put nodes from the `i`-th on into another, each before the same reference.
pub open spec fn insertions(parent: Val, nodes: Seq<Val>, i: int, reference: Val) -> Seq<Question> {
    Seq::new(
        (nodes.len() - i) as nat,
        |j: int| Question { op: Op::InsertNode, args: seq![parent, nodes[i + j], reference] },
    )
}

proof fn lemma_insert_all(
    g: Host,
    pos: nat,
    parent: Val,
    nodes: Seq<Val>,
    i: int,
    reference: Option<Val>,
)
    requires
        never_throws(g),
        pos <= g.len,
        0 <= i <= nodes.len(),
    ensures
        insert_all(g, pos, parent, nodes, i, reference) == plays(
            g,
            pos,
            insertions(parent, nodes, i, or_undefined(reference)),
            (),
        ),
    decreases nodes.len() - i,
{
    let qs = insertions(parent, nodes, i, or_undefined(reference));
    if i < nodes.len() {
        assert(qs[0] == (Question {
            op: Op::InsertNode,
            args: seq![parent, nodes[i], or_undefined(reference)],
        }));
        assert(!((g.reply)(pos, qs[0]) is Throw));
        if pos < g.len {
            lemma_insert_all(g, pos + 1, parent, nodes, i + 1, reference);
            let rest = insertions(parent, nodes, i + 1, or_undefined(reference));
            assert(forall|j: int| 0 <= j < rest.len() ==> rest[j] == #[trigger] qs[j + 1]);
            if g.len < pos + qs.len() {
                assert(rest[g.len - (pos + 1)] == qs[g.len - pos]);
            }
        }
    }
}

/// The document while nodes are put into `parent` one after the other, at the `k`-th place.
pub open spec fn with_some(base: Document, parent: Val, k: int, nodes: Seq<Val>, d: Document) -> bool {
    forall|x: Val|
        (#[trigger] d(x)) == if x == parent {
            base(x).take(k) + nodes + base(x).skip(k)
        } else {
            base(x)
        }
}

/// Different nodes that stand in nothing.
pub open spec fn loose_nodes(d: Document, nodes: Seq<Val>) -> bool {
    nodes.no_duplicates() && forall|i: int| 0 <= i < nodes.len() ==> loose(d, #[trigger] nodes[i])
}

proof fn lemma_one_more(
    base: Document,
    parent: Val,
    k: int,
    nodes: Seq<Val>,
    j: int,
    reference: Val,
    d: Document,
    next: Document,
)
    requires
        sound(base),
        loose_nodes(base, nodes),
        0 <= k <= base(parent).len(),
        0 <= j < nodes.len(),
        with_some(base, parent, k, nodes.take(j), d),
        k < base(parent).len() ==> reference == base(parent)[k],
        k == base(parent).len() ==> reference == Val::Undefined,
        next == moved(d, parent, nodes[j], reference),
    ensures
        with_some(base, parent, k, nodes.take(j + 1), next),
{
    let x = nodes[j];
    let b = base(parent);
    assert(loose(base, x));
    assert forall|m: int, n: int| 0 <= m < b.len() && 0 <= n < nodes.len() implies b[m]
        != nodes[n] by {
        assert(loose(base, nodes[n]));
        assert(b.contains(b[m]));
    }
    assert forall|n: int| 0 <= n < nodes.len() implies nodes[n] != Val::Undefined by {
        assert(loose(base, nodes[n]));
    }
    assert forall|m: int| 0 <= m < b.len() implies b[m] != Val::Undefined by {
        assert(is_node(base(parent)[m]));
    }
    lemma_list_more(b, k, nodes, j, reference);
    assert(d(parent) == b.take(k) + nodes.take(j) + b.skip(k));
    assert forall|y: Val| (#[trigger] next(y)) == if y == parent {
        base(y).take(k) + nodes.take(j + 1) + base(y).skip(k)
    } else {
        base(y)
    } by {
        if y != parent {
            assert(d(y) == base(y));
            assert(!base(y).contains(x));
            lemma_without(base(y), x);
        }
    }
}

proof fn lemma_list_more(b: Seq<Val>, k: int, nodes: Seq<Val>, j: int, reference: Val)
    requires
        0 <= k <= b.len(),
        0 <= j < nodes.len(),
        b.no_duplicates(),
        nodes.no_duplicates(),
        forall|m: int, n: int|
            0 <= m < b.len() && 0 <= n < nodes.len() ==> #[trigger] b[m] != #[trigger] nodes[n],
        forall|n: int| 0 <= n < nodes.len() ==> nodes[n] != Val::Undefined,
        forall|m: int| 0 <= m < b.len() ==> b[m] != Val::Undefined,
        k < b.len() ==> reference == b[k],
        k == b.len() ==> reference == Val::Undefined,
    ensures
        ({
            let l = b.take(k) + nodes.take(j) + b.skip(k);
            with_before(without(l, nodes[j]), nodes[j], reference) == b.take(k) + nodes.take(j + 1)
                + b.skip(k)
        }),
{
    let x = nodes[j];
    let l = b.take(k) + nodes.take(j) + b.skip(k);
    if l.contains(x) {
        let m = l.index_of(x);
        lemma_element(b, k, nodes, j, m);
        assert(false);
    }
    lemma_without(l, x);
    if k < b.len() {
        assert(l[k + j] == b.skip(k)[0]);
        assert(l.contains(reference));
        let m = l.index_of(reference);
        lemma_element(b, k, nodes, j, m);
        assert(m == k + j);
    } else if l.contains(reference) {
        let m = l.index_of(reference);
        lemma_element(b, k, nodes, j, m);
        assert(false);
    }
    lemma_put_in(b, k, nodes, j);
    if !(k < b.len()) {
        assert(l.push(x) =~= l.insert(k + j, x));
    }
}

proof fn lemma_element(b: Seq<Val>, k: int, nodes: Seq<Val>, j: int, m: int)
    requires
        0 <= k <= b.len(),
        0 <= j < nodes.len(),
        0 <= m < b.len() + j,
    ensures
        (b.take(k) + nodes.take(j) + b.skip(k))[m] == if m < k {
            b[m]
        } else if m < k + j {
            nodes[m - k]
        } else {
            b[m - j]
        },
{
}

proof fn lemma_put_in(b: Seq<Val>, k: int, nodes: Seq<Val>, j: int)
    requires
        0 <= k <= b.len(),
        0 <= j < nodes.len(),
    ensures
        (b.take(k) + nodes.take(j) + b.skip(k)).insert(k + j, nodes[j]) == b.take(k) + nodes.take(
            j + 1,
        ) + b.skip(k),
{
    assert((b.take(k) + nodes.take(j) + b.skip(k)).insert(k + j, nodes[j]) =~= b.take(k)
        + nodes.take(j + 1) + b.skip(k));
}

proof fn lemma_all_in(
    run: spec_fn(Host) -> Run<Val>,
    h: Host,
    d: spec_fn(nat) -> Document,
    b: nat,
    base: Document,
    parent: Val,
    k: int,
    nodes: Seq<Val>,
    reference: Val,
    j: nat,
)
    requires
        played(run, h, d),
        d(b) == base,
        sound(base),
        loose_nodes(base, nodes),
        0 <= k <= base(parent).len(),
        k < base(parent).len() ==> reference == base(parent)[k],
        k == base(parent).len() ==> reference == Val::Undefined,
        b + nodes.len() <= h.len,
        j <= nodes.len(),
        forall|m: nat|
            b <= m < b + nodes.len() ==> (#[trigger] question_at(run, h, m)) == Some(
                insertions(parent, nodes, 0, reference)[m - b],
            ),
    ensures
        with_some(base, parent, k, nodes.take(j as int), d(b + j)),
    decreases j,
{
    if j == 0 {
        assert forall|x: Val| (#[trigger] d(b)(x)) == if x == parent {
            base(x).take(k) + nodes.take(0) + base(x).skip(k)
        } else {
            base(x)
        } by {
            assert(base(parent).take(k) + nodes.take(0) + base(parent).skip(k) =~= base(parent));
        }
    } else {
        let i = (j - 1) as nat;
        lemma_all_in(run, h, d, b, base, parent, k, nodes, reference, i);
        let q = Question { op: Op::InsertNode, args: seq![parent, nodes[i as int], reference] };
        assert(question_at(run, h, b + i) == Some(q));
        assert(d(b + i + 1) == moved(d(b + i), parent, nodes[i as int], reference));
        lemma_one_more(base, parent, k, nodes, i as int, reference, d(b + i), d(b + j));
    }
}

/// The place among the children of a node, or of what it stands in, that a place at the node means.
pub open spec fn spot(place: Place, inside: Seq<Val>, i: int) -> int {
    match place {
        Place::First => 0,
        Place::Last => inside.len() as int,
        Place::Before => i,
        Place::After => i + 1,
    }
}

/// `prepend`, `append`, `before` and `after` put all that they are given at one place, in order:
/// before or behind all children of a node, or directly before or behind the node in what it stands
/// in. Nothing else moves.
#[verifier::spinoff_prover]
#[verifier::rlimit(30)]
pub proof fn law_put_in_order(
    h: Host,
    d: spec_fn(nat) -> Document,
    place: Place,
    node: Val,
    args: Seq<Val>,
    nodes: Seq<Val>,
    parent: Val,
    i: int,
)
    requires
        is_node(node),
        sound(d(0)),
        loose_nodes(d(0), nodes),
        never_throws(h),
        0 <= i < d(0)(parent).len(),
        d(0)(parent)[i] == node,
        parent != node,
        (h.reply)(0, Question { op: Op::NodesOfValues, args }) == Answer::List(nodes),
        played(|g: Host| node_put_run(g, 0, place, Some(node), args), h, d),
        node_put_run(h, 0, place, Some(node), args).out is Ok,
    ensures
        with_some(
            d(0),
            if place == Place::First || place == Place::Last {
                node
            } else {
                parent
            },
            spot(place, d(0)(node), i),
            nodes,
            d(node_put_run(h, 0, place, Some(node), args).pos),
        ),
{
    let run = |g: Host| node_put_run(g, 0, place, Some(node), args);
    let r = node_put_run(h, 0, place, Some(node), args);
    let around = d(0)(parent);
    let inside = d(0)(node);
    let within = if place == Place::First || place == Place::Last {
        node
    } else {
        parent
    };
    let k = spot(place, inside, i);
    let reference = if k < d(0)(within).len() {
        d(0)(within)[k]
    } else {
        Val::Undefined
    };
    let b: nat = match place {
        Place::Last => 1,
        Place::After => 3,
        _ => 2,
    };
    assert(around.contains(node));
    assert(question_at(run, h, 0) == Some(Question { op: Op::NodesOfValues, args }));
    assert(h.len >= 1);
    assert(d(1) == d(0));
    lemma_next(around, 0, i);
    match place {
        Place::Last => {},
        Place::First => {
            let q = Question { op: Op::NodeChildren, args: seq![node] };
            assert(question_at(run, h, 1) == Some(q));
            assert(d(2) == d(1));
        },
        Place::Before => {
            let q = Question { op: Op::NodeParent, args: seq![node] };
            assert(question_at(run, h, 1) == Some(q));
            assert((h.reply)(1, q) == Answer::Value(parent));
            assert(d(2) == d(1));
        },
        Place::After => {
            let q = Question { op: Op::NodeParent, args: seq![node] };
            assert(question_at(run, h, 1) == Some(q));
            assert((h.reply)(1, q) == Answer::Value(parent));
            let c = Question { op: Op::NodeChildren, args: seq![parent] };
            assert(question_at(run, h, 2) == Some(c));
            assert(d(3) == d(2) && d(2) == d(1));
        },
    }
    assert(d(b) == d(0));
    let there = if k < d(0)(within).len() {
        Some(d(0)(within)[k])
    } else {
        None
    };
    let qs = insertions(within, nodes, 0, reference);
    assert(place_at(h, 1, node, place) == done(Some((within, there)), b));
    lemma_insert_all(h, b, within, nodes, 0, there);
    assert(r.pos == b + nodes.len());
    assert forall|m: nat| b <= m < b + nodes.len() implies (#[trigger] question_at(run, h, m)) == Some(
        qs[m - b],
    ) by {
        let g = Host { len: m, reply: h.reply };
        assert(place_at(g, 1, node, place) == done(Some((within, there)), b));
        lemma_insert_all(g, b, within, nodes, 0, there);
    }
    lemma_all_in(run, h, d, b, d(0), within, k, nodes, reference, nodes.len());
    assert(nodes.take(nodes.len() as int) =~= nodes);
}

/// `appendChild` puts a node behind all children and gives it; `insertBefore` puts it directly
/// before the reference, or behind all children where there is none.
#[verifier::spinoff_prover]
#[verifier::rlimit(30)]
pub proof fn law_child_put(
    h: Host,
    d: spec_fn(nat) -> Document,
    e: spec_fn(nat) -> Document,
    parent: Val,
    x: Val,
    i: int,
)
    requires
        is_node(parent),
        sound(d(0)),
        loose(d(0), x),
        e(0) == d(0),
        0 <= i <= d(0)(parent).len(),
        never_throws(h),
        (h.reply)(1, Question { op: Op::IsFragment, args: seq![x] }) == Answer::Value(
            Val::Bool(false),
        ),
        played(|g: Host| append_child_run(g, 0, Some(parent), seq![x]), h, d),
        append_child_run(h, 0, Some(parent), seq![x]).out is Ok,
        ({
            let reference = if i < d(0)(parent).len() {
                d(0)(parent)[i]
            } else {
                Val::Null
            };
            &&& played(|g: Host| insert_before_run(g, 0, Some(parent), seq![x, reference]), h, e)
            &&& insert_before_run(h, 0, Some(parent), seq![x, reference]).out is Ok
        }),
    ensures
        ({
            let r = append_child_run(h, 0, Some(parent), seq![x]);
            let before = d(0)(parent);
            let reference = if i < before.len() {
                before[i]
            } else {
                Val::Null
            };
            let s = insert_before_run(h, 0, Some(parent), seq![x, reference]);
            &&& r.out == Ok::<Val, Halt>(x)
            &&& d(r.pos)(parent) == before.push(x)
            &&& s.out == Ok::<Val, Halt>(x)
            &&& e(s.pos)(parent) == before.take(i) + seq![x] + before.skip(i)
        }),
{
    let before = d(0)(parent);
    let run = |g: Host| append_child_run(g, 0, Some(parent), seq![x]);
    let q0 = Question { op: Op::CheckInsert, args: seq![parent, x, Val::Undefined] };
    let q1 = Question { op: Op::IsFragment, args: seq![x] };
    let q2 = Question { op: Op::AppendNode, args: seq![parent, x] };
    assert(seq![x][0] == x);
    reveal_with_fuel(append_all, 2);
    assert(!((h.reply)(0, q0) is Throw) && !((h.reply)(2, q2) is Throw));
    assert(question_at(run, h, 0) == Some(q0));
    assert(question_at(run, h, 1) == Some(q1));
    assert(question_at(run, h, 2) == Some(q2));
    assert(d(3) == moved(d(0), parent, x, Val::Undefined));
    lemma_without(before, x);
    assert(!before.contains(Val::Undefined));
    let reference = if i < before.len() {
        before[i]
    } else {
        Val::Null
    };
    let given = if i < before.len() {
        before[i]
    } else {
        Val::Undefined
    };
    let args = seq![x, reference];
    assert(args[0] == x && args[1] == reference);
    let put = |g: Host| insert_before_run(g, 0, Some(parent), args);
    let p0 = Question { op: Op::CheckInsert, args: seq![parent, x, given] };
    let p1 = Question { op: Op::InsertNode, args: seq![parent, x, given] };
    assert(!((h.reply)(0, p0) is Throw) && !((h.reply)(1, p1) is Throw));
    assert(question_at(put, h, 0) == Some(p0));
    assert(question_at(put, h, 1) == Some(p1));
    assert(e(2) == moved(e(0), parent, x, given));
    if i < before.len() {
        assert(before.contains(given));
        assert(before.index_of(given) == i);
    }
    assert(with_before(before, x, given) =~= before.take(i) + seq![x] + before.skip(i));
}

/// `remove` and `removeChild` take a node out of what it stands in, and nothing else.
pub proof fn law_removed(
    h: Host,
    d: spec_fn(nat) -> Document,
    e: spec_fn(nat) -> Document,
    recv: Option<Val>,
    node: Val,
    parent: Val,
    i: int,
)
    requires
        is_node(node),
        sound(d(0)),
        e(0) == d(0),
        0 <= i < d(0)(parent).len(),
        d(0)(parent)[i] == node,
        never_throws(h),
        h.len == 1,
        played(|g: Host| remove_element_run(g, 0, Some(node), Seq::empty()), h, d),
        played(|g: Host| remove_child_run(g, 0, recv, seq![node]), h, e),
    ensures
        remove_element_run(h, 0, Some(node), Seq::empty()) == done(Val::Undefined, 1),
        remove_child_run(h, 0, recv, seq![node]) == done(node, 1),
        d(1)(parent) == d(0)(parent).remove(i),
        e(1)(parent) == d(0)(parent).remove(i),
{
    let run = |g: Host| remove_element_run(g, 0, Some(node), Seq::empty());
    let take = |g: Host| remove_child_run(g, 0, recv, seq![node]);
    let q = Question { op: Op::DetachNode, args: seq![node] };
    assert(seq![node][0] == node);
    assert(!((h.reply)(0, q) is Throw));
    assert(question_at(run, h, 0) == Some(q));
    assert(question_at(take, h, 0) == Some(q));
    assert(d(1) == taken_out(d(0), node));
    assert(e(1) == taken_out(d(0), node));
    lemma_without_one(d(0)(parent), i);
}

proof fn lemma_without_one(s: Seq<Val>, i: int)
    requires
        s.no_duplicates(),
        0 <= i < s.len(),
    ensures
        without(s, s[i]) == s.remove(i),
    decreases s.len(),
{
    let l = s.drop_last();
    if i == s.len() - 1 {
        assert(!l.contains(s[i]));
        lemma_without(l, s[i]);
        assert(s.remove(i) =~= l);
    } else {
        lemma_without_one(l, i);
        assert(l[i] == s[i]);
        assert(s.last() != s[i]);
        assert(s.remove(i) =~= l.remove(i).push(s.last()));
    }
}

/// `replaceWith` puts one node where the other stood.
#[verifier::spinoff_prover]
#[verifier::rlimit(30)]
pub proof fn law_replaced_node(
    h: Host,
    d: spec_fn(nat) -> Document,
    node: Val,
    args: Seq<Val>,
    x: Val,
    parent: Val,
    i: int,
)
    requires
        is_node(node),
        sound(d(0)),
        loose(d(0), x),
        never_throws(h),
        0 <= i < d(0)(parent).len(),
        d(0)(parent)[i] == node,
        (h.reply)(0, Question { op: Op::NodesOfValues, args }) == Answer::List(seq![x]),
        played(|g: Host| node_replace_with_run(g, 0, Some(node), args), h, d),
        node_replace_with_run(h, 0, Some(node), args).out is Ok,
    ensures
        d(node_replace_with_run(h, 0, Some(node), args).pos)(parent) == d(0)(parent).update(i, x),
{
    let run = |g: Host| node_replace_with_run(g, 0, Some(node), args);
    let around = d(0)(parent);
    assert(around.contains(node));
    reveal_with_fuel(insert_all, 2);
    assert(seq![x][0] == x);
    let q1 = Question { op: Op::NodeParent, args: seq![node] };
    let q2 = Question { op: Op::InsertNode, args: seq![parent, x, node] };
    let q3 = Question { op: Op::DetachNode, args: seq![node] };
    assert(!((h.reply)(1, q1) is Throw) && !((h.reply)(2, q2) is Throw) && !((h.reply)(3, q3)
        is Throw));
    assert(question_at(run, h, 0) == Some(Question { op: Op::NodesOfValues, args }));
    assert(question_at(run, h, 1) == Some(q1));
    assert((h.reply)(1, q1) == Answer::Value(parent));
    assert(question_at(run, h, 2) == Some(q2));
    assert(question_at(run, h, 3) == Some(q3));
    lemma_without(around, x);
    assert(around.index_of(node) == i);
    let l = with_before(around, x, node);
    assert(l =~= around.insert(i, x));
    assert(d(3)(parent) == l);
    assert(l[i + 1] == node);
    assert forall|a: int, b: int| 0 <= a < l.len() && 0 <= b < l.len() && a != b implies l[a]
        != l[b] by {
        assert(l[a] == if a < i {
            around[a]
        } else if a == i {
            x
        } else {
            around[a - 1]
        });
        assert(l[b] == if b < i {
            around[b]
        } else if b == i {
            x
        } else {
            around[b - 1]
        });
    }
    assert(l.no_duplicates());
    lemma_without_one(l, i + 1);
    assert(l.remove(i + 1) =~= around.update(i, x));
}

/// The question whether a selector fits a node.
pub open spec fn fit_asked(x: Val, selector: Seq<char>) -> Question {
    Question { op: Op::SelectorFits, args: seq![x, Val::Str(selector)] }
}

/// The engine says of each node at every time what it is and whether a selector fits it.
pub open spec fn fitted(
    h: Host,
    selector: Seq<char>,
    element: spec_fn(Val) -> bool,
    fits: spec_fn(Val) -> bool,
) -> bool {
    &&& forall|pos: nat, x: Val|
        (#[trigger] (h.reply)(pos, Question { op: Op::NodeKind, args: seq![x] })) == Answer::Value(
            Val::Str(
                if element(x) {
                    "element"@
                } else {
                    "text"@
                },
            ),
        )
    &&& forall|pos: nat, x: Val|
        (#[trigger] (h.reply)(pos, fit_asked(x, selector))) == Answer::Value(Val::Bool(fits(x)))
}

/// `closest` gives the first element, from the node itself on outwards, that the selector fits.
pub proof fn law_closest(
    h: Host,
    pos: nat,
    nodes: Seq<Val>,
    i: int,
    k: int,
    selector: Seq<char>,
    element: spec_fn(Val) -> bool,
    fits: spec_fn(Val) -> bool,
)
    requires
        fitted(h, selector, element, fits),
        0 <= i <= k <= nodes.len(),
        forall|j: int| i <= j < k ==> !(element(#[trigger] nodes[j]) && fits(nodes[j])),
        k < nodes.len() ==> element(nodes[k]) && fits(nodes[k]),
    ensures
        settles(
            first_fitting(h, pos, nodes, i, selector),
            if k < nodes.len() {
                nodes[k]
            } else {
                Val::Null
            },
        ),
    decreases k - i,
{
    reveal_strlit("element");
    reveal_strlit("text");
    assert("element"@.len() == 7 && "text"@.len() == 4);
    if i < nodes.len() {
        let x = nodes[i];
        let q = Question { op: Op::NodeKind, args: seq![x] };
        let f = fit_asked(x, selector);
        assert((h.reply)(pos, q) is Value);
        assert((h.reply)(pos + 1, f) is Value);
        if i < k {
            law_closest(h, pos + 1, nodes, i + 1, k, selector, element, fits);
            law_closest(h, pos + 2, nodes, i + 1, k, selector, element, fits);
        }
    }
}

/// A node contains another that it is, or that stands in it at any depth, and no other.
pub proof fn law_contains(h: Host, node: Val, other: Val, outwards: Seq<Val>)
    requires
        is_node(node),
        is_node(other),
        h.len == 1,
        (h.reply)(0, Question { op: Op::Ancestors, args: seq![other] }) == Answer::List(outwards),
        forall|i: int| 0 <= i < outwards.len() ==> is_node(#[trigger] outwards[i]),
    ensures
        dom_contains_run(h, 0, Some(node), seq![other]).out == Ok::<Val, Halt>(
            Val::Bool(node == other || outwards.contains(node)),
        ),
{
    assert(seq![other][0] == other);
    if among(outwards, node) {
        let i = choose|i: int| 0 <= i < outwards.len() && same_node(#[trigger] outwards[i], node);
        assert(outwards[i] == node);
    }
    if outwards.contains(node) {
        let i = outwards.index_of(node);
        assert(same_node(outwards[i], node));
    }
}

} // verus!
