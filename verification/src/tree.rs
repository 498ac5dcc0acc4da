//! Making nodes, and moving them in the tree.
use crate::canvas::{cat, display_arg, empty_list};
use crate::elements::{
    insert_all, insert_node, is_node, namespace_arg, next_sibling, node_value, null_if_none,
    or_null, or_undefined, same_node,
};
use crate::globals::displays;
use crate::host::{
    ask_flag, ask_list, ask_slot, ask_text, ask_value, chain, done, fail, halted, list1, list2,
    list3, list4, opt_view, raised, run_list, run_plain, run_value, text_value, Host, Interp, Op,
    Run, Stop,
};
use crate::json::text_views;
use crate::number::{count_of_num, num_of, num_to_count, Num};
use crate::number_format::{this_of, this_or_undefined};
use crate::text::{append_text, ascii_lower, blank, is_blank, same_text, to_ascii_lower};
use crate::value::{
    arg, arg_at, clone_values, to_bool, truthy, views, ErrorKind, Native, Val, Value,
};
use vstd::prelude::*;

verus! {

pub open spec fn told(r: Run<Val>, v: Val) -> Run<Val> {
    chain(r, |u: Val, p: nat| done(v, p))
}

/// Throws where a node cannot stand in another, before a reference.
pub open spec fn check_insert(h: Host, pos: nat, parent: Val, node: Val, reference: Option<Val>) -> Run<
    (),
> {
    chain(
        ask_value(h, pos, Op::CheckInsert, seq![parent, node, or_undefined(reference)]),
        |u: Val, p: nat| done((), p),
    )
}

/// A node among the arguments.
pub open spec fn node_arg(args: Seq<Val>, i: int) -> Option<Val> {
    if is_node(arg(args, i)) {
        Some(arg(args, i))
    } else {
        None
    }
}

/// `insertBefore`.
pub open spec fn insert_before_run(h: Host, pos: nat, recv: Option<Val>, args: Seq<Val>) -> Run<Val> {
    let parent = this_of(recv);
    let child = arg(args, 0);
    if !is_node(parent) || !is_node(child) {
        raised(ErrorKind::Error, "insertBefore 는 요소 인자가 필요"@, pos)
    } else {
        chain(
            check_insert(h, pos, parent, child, node_arg(args, 1)),
            |u: (), p: nat|
                chain(
                    insert_node(h, p, parent, child, node_arg(args, 1)),
                    |v: (), q: nat| done(child, q),
                ),
        )
    }
}

/// Appends nodes from the `i`-th on.
pub open spec fn append_all(h: Host, pos: nat, parent: Val, nodes: Seq<Val>, i: int) -> Run<()>
    decreases nodes.len() - i,
{
    if !(0 <= i < nodes.len()) {
        done((), pos)
    } else {
        let s = ask_value(h, pos, Op::AppendNode, seq![parent, nodes[i]]);
        match s.out {
            Err(e) => halted(e, s.pos),
            Ok(_) => append_all(h, s.pos, parent, nodes, i + 1),
        }
    }
}

/// Appends a node; of a fragment, what stands in it.
pub open spec fn append_checked(h: Host, pos: nat, parent: Val, child: Val) -> Run<Val> {
    chain(
        ask_flag(h, pos, Op::IsFragment, seq![child]),
        |f: bool, p: nat|
            chain(
                if f {
                    ask_list(h, p, Op::NodeChildren, seq![child])
                } else {
                    done(seq![child], p)
                },
                |nodes: Seq<Val>, q: nat|
                    chain(
                        append_all(h, q, parent, nodes, 0),
                        |u: (), r: nat| done(child, r),
                    ),
            ),
    )
}

/// `appendChild`.
pub open spec fn append_child_run(h: Host, pos: nat, recv: Option<Val>, args: Seq<Val>) -> Run<Val> {
    let parent = this_of(recv);
    let child = arg(args, 0);
    if !is_node(parent) || !is_node(child) {
        raised(ErrorKind::Error, "appendChild 는 요소 인자가 필요"@, pos)
    } else {
        chain(
            check_insert(h, pos, parent, child, None),
            |u: (), p: nat| append_checked(h, p, parent, child),
        )
    }
}

/// Where nodes go that are put next to a node or into it.
#[derive(Debug, Clone, Copy, PartialEq, Eq, Structural)]
pub enum Place {
    /// Before the node.
    Before,
    /// First in the node.
    First,
    /// Last in the node.
    Last,
    /// After the node.
    After,
}

/// The parent and the reference that a place at a node means; none where the node stands in
/// nothing.
pub open spec fn place_at(h: Host, pos: nat, node: Val, place: Place) -> Run<Option<(Val, Option<Val>)>> {
    match place {
        Place::Last => done(Some((node, None)), pos),
        Place::First => chain(
            ask_list(h, pos, Op::NodeChildren, seq![node]),
            |l: Seq<Val>, p: nat|
                done(
                    Some(
                        (
                            node,
                            if l.len() > 0 {
                                Some(l[0])
                            } else {
                                None
                            },
                        ),
                    ),
                    p,
                ),
        ),
        Place::Before => chain(
            ask_slot(h, pos, Op::NodeParent, seq![node]),
            |q: Option<Val>, p: nat|
                done(
                    match q {
                        Some(parent) => Some((parent, Some(node))),
                        None => None,
                    },
                    p,
                ),
        ),
        Place::After => chain(
            ask_slot(h, pos, Op::NodeParent, seq![node]),
            |q: Option<Val>, p: nat|
                match q {
                    Some(parent) => chain(
                        next_sibling(h, p, parent, node),
                        |next: Option<Val>, r: nat| done(Some((parent, next)), r),
                    ),
                    None => done(None, p),
                },
        ),
    }
}

/// Puts nodes at a place, in order.
pub open spec fn put_at(h: Host, pos: nat, node: Val, place: Place, nodes: Seq<Val>) -> Run<()> {
    chain(
        place_at(h, pos, node, place),
        |t: Option<(Val, Option<Val>)>, p: nat|
            match t {
                None => done((), p),
                Some(x) => insert_all(h, p, x.0, nodes, 0, x.1),
            },
    )
}

/// `append`, `prepend`, `before` and `after`: texts become nodes, and all go to the place in the
/// order in which they were given.
pub open spec fn node_put_run(
    h: Host,
    pos: nat,
    place: Place,
    recv: Option<Val>,
    args: Seq<Val>,
) -> Run<Val> {
    let target = this_of(recv);
    if !is_node(target) {
        done(Val::Undefined, pos)
    } else {
        chain(
            ask_list(h, pos, Op::NodesOfValues, args),
            |nodes: Seq<Val>, p: nat|
                chain(
                    put_at(h, p, target, place, nodes),
                    |u: (), q: nat| done(Val::Undefined, q),
                ),
        )
    }
}

/// `replaceWith`.
pub open spec fn node_replace_with_run(h: Host, pos: nat, recv: Option<Val>, args: Seq<Val>) -> Run<Val> {
    let target = this_of(recv);
    if !is_node(target) {
        done(Val::Undefined, pos)
    } else {
        chain(
            ask_list(h, pos, Op::NodesOfValues, args),
            |nodes: Seq<Val>, p0: nat|
                chain(
                    place_at(h, p0, target, Place::Before),
                    |t: Option<(Val, Option<Val>)>, p1: nat|
                        match t {
                            None => done(Val::Undefined, p1),
                            Some(x) => chain(
                                insert_all(h, p1, x.0, nodes, 0, x.1),
                                |u: (), p2: nat|
                                    told(
                                        ask_value(h, p2, Op::DetachNode, seq![target]),
                                        Val::Undefined,
                                    ),
                            ),
                        },
                ),
        )
    }
}

/// The place that a word of `insertAdjacentHTML` names.
pub open spec fn named_place(word: Seq<char>) -> Option<Place> {
    if word == "beforebegin"@ {
        Some(Place::Before)
    } else if word == "afterbegin"@ {
        Some(Place::First)
    } else if word == "beforeend"@ {
        Some(Place::Last)
    } else if word == "afterend"@ {
        Some(Place::After)
    } else {
        None
    }
}

/// Puts each node from the `i`-th on at a place as it is then.
pub open spec fn put_each(h: Host, pos: nat, node: Val, place: Place, nodes: Seq<Val>, i: int) -> Run<()>
    decreases nodes.len() - i,
{
    if !(0 <= i < nodes.len()) {
        done((), pos)
    } else {
        let s = put_at(h, pos, node, place, seq![nodes[i]]);
        match s.out {
            Err(e) => halted(e, s.pos),
            Ok(_) => put_each(h, s.pos, node, place, nodes, i + 1),
        }
    }
}

/// The nodes that `insertAdjacentElement` and `insertAdjacentHTML` put somewhere.
pub open spec fn adjacent_nodes(h: Host, pos: nat, of_html: bool, args: Seq<Val>) -> Run<Seq<Val>> {
    if !of_html {
        done(
            if is_node(arg(args, 1)) {
                seq![arg(args, 1)]
            } else {
                Seq::empty()
            },
            pos,
        )
    } else {
        chain(
            display_arg(h, pos, args, 1),
            |html: Seq<char>, p: nat| ask_list(h, p, Op::ParseHtml, seq![Val::Str(html)]),
        )
    }
}

/// `insertAdjacentHTML` and `insertAdjacentElement`.
pub open spec fn insert_adjacent_run(
    h: Host,
    pos: nat,
    of_html: bool,
    recv: Option<Val>,
    args: Seq<Val>,
) -> Run<Val> {
    let node = this_of(recv);
    if !is_node(node) {
        done(Val::Undefined, pos)
    } else {
        chain(
            display_arg(h, pos, args, 0),
            |word: Seq<char>, p0: nat|
                chain(
                    adjacent_nodes(h, p0, of_html, args),
                    |nodes: Seq<Val>, p1: nat|
                        match named_place(ascii_lower(word)) {
                            None => done(Val::Undefined, p1),
                            Some(place) => chain(
                                put_each(h, p1, node, place, nodes, 0),
                                |u: (), p2: nat| done(Val::Undefined, p2),
                            ),
                        },
                ),
        )
    }
}

/// The node that an argument of `replaceChildren` stands for: a text for what is no node.
pub open spec fn as_node(h: Host, pos: nat, v: Val) -> Run<Val> {
    if is_node(v) {
        done(v, pos)
    } else {
        chain(
            ask_text(h, pos, Op::Display, seq![v]),
            |s: Seq<char>, p: nat| ask_value(h, p, Op::NewText, seq![Val::Str(s)]),
        )
    }
}

/// Appends what the arguments from the `i`-th on stand for.
pub open spec fn append_values(h: Host, pos: nat, node: Val, args: Seq<Val>, i: int) -> Run<()>
    decreases args.len() - i,
{
    if !(0 <= i < args.len()) {
        done((), pos)
    } else {
        let n = as_node(h, pos, args[i]);
        match n.out {
            Err(e) => halted(e, n.pos),
            Ok(c) => {
                let s = ask_value(h, n.pos, Op::AppendNode, seq![node, c]);
                match s.out {
                    Err(e) => halted(e, s.pos),
                    Ok(_) => append_values(h, s.pos, node, args, i + 1),
                }
            },
        }
    }
}

/// `replaceChildren`.
pub open spec fn replace_children_run(h: Host, pos: nat, recv: Option<Val>, args: Seq<Val>) -> Run<Val> {
    let node = this_of(recv);
    if !is_node(node) {
        done(Val::Undefined, pos)
    } else {
        chain(
            ask_value(h, pos, Op::ClearNode, seq![node]),
            |u: Val, p: nat|
                chain(
                    append_values(h, p, node, args, 0),
                    |v: (), q: nat| done(Val::Undefined, q),
                ),
        )
    }
}

/// `remove` of an element.
pub open spec fn remove_element_run(h: Host, pos: nat, recv: Option<Val>, args: Seq<Val>) -> Run<Val> {
    if !is_node(this_of(recv)) {
        raised(ErrorKind::Error, "remove 는 요소 메서드"@, pos)
    } else {
        told(ask_value(h, pos, Op::DetachNode, seq![this_of(recv)]), Val::Undefined)
    }
}

/// `removeChild`.
pub open spec fn remove_child_run(h: Host, pos: nat, recv: Option<Val>, args: Seq<Val>) -> Run<Val> {
    if !is_node(arg(args, 0)) {
        done(arg(args, 0), pos)
    } else {
        told(ask_value(h, pos, Op::DetachNode, seq![arg(args, 0)]), arg(args, 0))
    }
}

/// `cloneNode`.
pub open spec fn clone_node_run(h: Host, pos: nat, recv: Option<Val>, args: Seq<Val>) -> Run<Val> {
    if !is_node(this_of(recv)) {
        raised(ErrorKind::Error, "cloneNode 는 요소 메서드"@, pos)
    } else {
        ask_value(h, pos, Op::CopyNode, seq![this_of(recv), Val::Bool(truthy(arg(args, 0)))])
    }
}

/// Whether a list of selectors fits a node; a text that is none fits nothing.
pub open spec fn fits(h: Host, pos: nat, node: Val, selector: Seq<char>) -> Run<bool> {
    chain(
        ask_flag(h, pos, Op::IsSelector, seq![Val::Str(selector)]),
        |ok: bool, p: nat|
            if ok {
                ask_flag(h, p, Op::SelectorFits, seq![node, Val::Str(selector)])
            } else {
                done(false, p)
            },
    )
}

/// `matches` of an element.
pub open spec fn matches_run(h: Host, pos: nat, recv: Option<Val>, args: Seq<Val>) -> Run<Val> {
    chain(
        display_arg(h, pos, args, 0),
        |s: Seq<char>, p: nat|
            if !is_node(this_of(recv)) {
                done(Val::Bool(false), p)
            } else {
                chain(fits(h, p, this_of(recv), s), |b: bool, q: nat| done(Val::Bool(b), q))
            },
    )
}

/// The first node from the `i`-th on that is an element and that a list of selectors fits.
pub open spec fn first_fitting(h: Host, pos: nat, nodes: Seq<Val>, i: int, selector: Seq<char>) -> Run<Val>
    decreases nodes.len() - i,
{
    if !(0 <= i < nodes.len()) {
        done(Val::Null, pos)
    } else {
        let k = ask_text(h, pos, Op::NodeKind, seq![nodes[i]]);
        match k.out {
            Err(e) => halted(e, k.pos),
            Ok(kind) => if kind != "element"@ {
                first_fitting(h, k.pos, nodes, i + 1, selector)
            } else {
                let f = ask_flag(h, k.pos, Op::SelectorFits, seq![nodes[i], Val::Str(selector)]);
                match f.out {
                    Err(e) => halted(e, f.pos),
                    Ok(b) => if b {
                        done(nodes[i], f.pos)
                    } else {
                        first_fitting(h, f.pos, nodes, i + 1, selector)
                    },
                }
            },
        }
    }
}

/// `closest` of an element: the element itself is tried first, and then what it stands in.
pub open spec fn closest_run(h: Host, pos: nat, recv: Option<Val>, args: Seq<Val>) -> Run<Val> {
    chain(
        display_arg(h, pos, args, 0),
        |s: Seq<char>, p0: nat|
            if !is_node(this_of(recv)) {
                done(Val::Null, p0)
            } else {
                chain(
                    ask_flag(h, p0, Op::IsSelector, seq![Val::Str(s)]),
                    |ok: bool, p1: nat|
                        if !ok {
                            done(Val::Null, p1)
                        } else {
                            chain(
                                ask_list(h, p1, Op::Ancestors, seq![this_of(recv)]),
                                |l: Seq<Val>, p2: nat|
                                    first_fitting(h, p2, seq![this_of(recv)] + l, 0, s),
                            )
                        },
                )
            },
    )
}

/// Whether a node is among some.
pub open spec fn among(nodes: Seq<Val>, node: Val) -> bool {
    exists|i: int| 0 <= i < nodes.len() && same_node(#[trigger] nodes[i], node)
}

/// `contains` of a node.
pub open spec fn dom_contains_run(h: Host, pos: nat, recv: Option<Val>, args: Seq<Val>) -> Run<Val> {
    let node = this_of(recv);
    let other = arg(args, 0);
    if !is_node(other) || !is_node(node) {
        done(Val::Bool(false), pos)
    } else if same_node(other, node) {
        done(Val::Bool(true), pos)
    } else {
        chain(
            ask_list(h, pos, Op::Ancestors, seq![other]),
            |l: Seq<Val>, p: nat| done(Val::Bool(among(l, node)), p),
        )
    }
}

/// `getRootNode`: the document where the node stands in it.
pub open spec fn dom_get_root_node_run(h: Host, pos: nat, recv: Option<Val>, args: Seq<Val>) -> Run<Val> {
    let node = this_of(recv);
    if !is_node(node) {
        done(Val::Undefined, pos)
    } else {
        chain(
            ask_list(h, pos, Op::Ancestors, seq![node]),
            |l: Seq<Val>, p0: nat|
                {
                    let root = if l.len() > 0 {
                        l.last()
                    } else {
                        node
                    };
                    chain(
                        ask_value(h, p0, Op::DocumentRoot, Seq::empty()),
                        |top: Val, p1: nat|
                            if same_node(root, top) {
                                chain(
                                    ask_slot(h, p1, Op::GlobalValue, seq![Val::Str("document"@)]),
                                    |d: Option<Val>, p2: nat|
                                        done(
                                            match d {
                                                Some(v) => v,
                                                None => root,
                                            },
                                            p2,
                                        ),
                                )
                            } else {
                                done(root, p1)
                            },
                    )
                },
        )
    }
}

/// `document.body`, `document.head` and `document.documentElement`.
pub open spec fn doc_query_run(
    h: Host,
    pos: nat,
    tag: Seq<char>,
    recv: Option<Val>,
    args: Seq<Val>,
) -> Run<Val> {
    chain(
        ask_slot(h, pos, Op::FindTag, seq![Val::Str(tag)]),
        |s: Option<Val>, p: nat| done(or_null(s), p),
    )
}

/// `document.activeElement`: the body where nothing has the focus.
pub open spec fn active_element_run(h: Host, pos: nat, recv: Option<Val>, args: Seq<Val>) -> Run<Val> {
    chain(
        ask_slot(h, pos, Op::ActiveNode, Seq::empty()),
        |s: Option<Val>, p: nat|
            match s {
                Some(v) => done(v, p),
                None => doc_query_run(h, p, "body"@, None, Seq::empty()),
            },
    )
}

/// `document.currentScript`.
pub open spec fn current_script_run(h: Host, pos: nat, recv: Option<Val>, args: Seq<Val>) -> Run<Val> {
    chain(
        ask_slot(h, pos, Op::CurrentScript, Seq::empty()),
        |s: Option<Val>, p: nat| done(or_null(s), p),
    )
}

/// `createElement`.
pub open spec fn create_element_run(h: Host, pos: nat, recv: Option<Val>, args: Seq<Val>) -> Run<Val> {
    chain(
        display_arg(h, pos, args, 0),
        |tag: Seq<char>, p: nat|
            chain(
                ask_value(h, p, Op::CheckTag, seq![Val::Str(tag)]),
                |u: Val, q: nat| ask_value(h, q, Op::NewElement, seq![Val::Str(tag)]),
            ),
    )
}

pub open spec fn text_or_undefined(s: Option<Seq<char>>) -> Val {
    match s {
        Some(t) => Val::Str(t),
        None => Val::Undefined,
    }
}

/// `createElementNS`.
pub open spec fn create_element_ns_run(h: Host, pos: nat, recv: Option<Val>, args: Seq<Val>) -> Run<Val> {
    chain(
        namespace_arg(h, pos, arg(args, 0)),
        |ns: Option<Seq<char>>, p0: nat|
            chain(
                display_arg(h, p0, args, 1),
                |name: Seq<char>, p1: nat|
                    chain(
                        ask_value(
                            h,
                            p1,
                            Op::CheckQualifiedName,
                            seq![Val::Str(name), text_or_undefined(ns)],
                        ),
                        |u: Val, p2: nat|
                            ask_value(
                                h,
                                p2,
                                Op::NewElementNs,
                                seq![text_or_undefined(ns), Val::Str(name)],
                            ),
                    ),
            ),
    )
}

/// `createTextNode`.
pub open spec fn create_text_node_run(h: Host, pos: nat, recv: Option<Val>, args: Seq<Val>) -> Run<Val> {
    chain(
        display_arg(h, pos, args, 0),
        |s: Seq<char>, p: nat| ask_value(h, p, Op::NewText, seq![Val::Str(s)]),
    )
}

/// `createComment`.
pub open spec fn create_comment_run(h: Host, pos: nat, recv: Option<Val>, args: Seq<Val>) -> Run<Val> {
    chain(
        display_arg(h, pos, args, 0),
        |s: Seq<char>, p: nat| ask_value(h, p, Op::NewComment, seq![Val::Str(s)]),
    )
}

/// `createDocumentFragment`.
pub open spec fn create_document_fragment_run(
    h: Host,
    pos: nat,
    recv: Option<Val>,
    args: Seq<Val>,
) -> Run<Val> {
    ask_value(h, pos, Op::NewElement, seq![Val::Str("#document-fragment"@)])
}

/// A new element of a tag, put at the end of another node.
pub open spec fn child_of(h: Host, pos: nat, parent: Val, tag: Seq<char>) -> Run<Val> {
    chain(
        ask_value(h, pos, Op::NewElement, seq![Val::Str(tag)]),
        |e: Val, p: nat| told(ask_value(h, p, Op::AppendNode, seq![parent, e]), e),
    )
}

/// What a document object is made of.
pub open spec fn document_fields(html: Val, head: Val, body: Val) -> Seq<Val> {
    seq![
        Val::Str("nodeType"@),
        Val::Num(num_of(9)),
        Val::Str("documentElement"@),
        html,
        Val::Str("head"@),
        head,
        Val::Str("body"@),
        body,
        Val::Str("createElement"@),
        Val::Native(Native::CreateElement),
        Val::Str("createTextNode"@),
        Val::Native(Native::CreateTextNode),
        Val::Str("createDocumentFragment"@),
        Val::Native(Native::CreateDocumentFragment),
    ]
}

/// `createHTMLDocument`: a document of its own, with a head and a body.
pub open spec fn create_html_document_run(h: Host, pos: nat, recv: Option<Val>, args: Seq<Val>) -> Run<
    Val,
> {
    chain(
        ask_value(h, pos, Op::NewElement, seq![Val::Str("html"@)]),
        |html: Val, p0: nat|
            chain(
                child_of(h, p0, html, "head"@),
                |head: Val, p1: nat|
                    chain(
                        child_of(h, p1, html, "body"@),
                        |body: Val, p2: nat|
                            ask_value(h, p2, Op::NewObject, document_fields(html, head, body)),
                    ),
            ),
    )
}

/// `DOMParser`.
pub open spec fn dom_parser_ctor_run(h: Host, pos: nat, recv: Option<Val>, args: Seq<Val>) -> Run<Val> {
    ask_value(
        h,
        pos,
        Op::NewObject,
        seq![Val::Str("parseFromString"@), Val::Native(Native::DomParserParse)],
    )
}

/// `parseFromString`: an element that holds a body with what the text makes.
pub open spec fn dom_parser_parse_run(h: Host, pos: nat, recv: Option<Val>, args: Seq<Val>) -> Run<Val> {
    chain(
        display_arg(h, pos, args, 0),
        |src: Seq<char>, p0: nat|
            chain(
                ask_value(h, p0, Op::NewElement, seq![Val::Str("html"@)]),
                |root: Val, p1: nat|
                    chain(
                        child_of(h, p1, root, "body"@),
                        |body: Val, p2: nat|
                            chain(
                                ask_list(h, p2, Op::ParseHtml, seq![Val::Str(src)]),
                                |nodes: Seq<Val>, p3: nat|
                                    chain(
                                        append_all(h, p3, body, nodes, 0),
                                        |u: (), p4: nat| done(root, p4),
                                    ),
                            ),
                    ),
            ),
    )
}

/// All the texts, one after the other.
pub open spec fn run_together(parts: Seq<Seq<char>>) -> Seq<char>
    decreases parts.len(),
{
    if parts.len() == 0 {
        Seq::empty()
    } else {
        run_together(parts.drop_last()) + parts.last()
    }
}

/// Where `document.write` writes: behind the running script, or at the end of the body.
pub open spec fn writing_place(h: Host, pos: nat) -> Run<(Val, Option<Val>)> {
    chain(
        ask_slot(h, pos, Op::CurrentScript, Seq::empty()),
        |s: Option<Val>, p0: nat|
            chain(
                match s {
                    Some(script) => place_at(h, p0, script, Place::After),
                    None => done(None, p0),
                },
                |t: Option<(Val, Option<Val>)>, p1: nat|
                    match t {
                        Some(x) => done(x, p1),
                        None => chain(
                            ask_value(h, p1, Op::DocumentBody, Seq::empty()),
                            |b: Val, p2: nat| done((b, None), p2),
                        ),
                    },
            ),
    )
}

/// Inserts nodes from the `i`-th on and lists the scripts among them.
pub open spec fn write_nodes(
    h: Host,
    pos: nat,
    place: (Val, Option<Val>),
    nodes: Seq<Val>,
    i: int,
    scripts: Seq<Val>,
) -> Run<Seq<Val>>
    decreases nodes.len() - i,
{
    if !(0 <= i < nodes.len()) {
        done(scripts, pos)
    } else {
        let s = insert_node(h, pos, place.0, nodes[i], place.1);
        match s.out {
            Err(e) => halted(e, s.pos),
            Ok(_) => {
                let l = ask_list(h, s.pos, Op::ScriptsIn, seq![nodes[i]]);
                match l.out {
                    Err(e) => halted(e, l.pos),
                    Ok(more) => write_nodes(h, l.pos, place, nodes, i + 1, scripts + more),
                }
            },
        }
    }
}

/// Has a script that was written run later: by its source or by its text.
pub open spec fn write_script(h: Host, pos: nat, script: Val) -> Run<()> {
    chain(
        ask_slot(h, pos, Op::AttributeText, seq![script, Val::Str("src"@)]),
        |src: Option<Val>, p0: nat|
            chain(
                ask_text(h, p0, Op::TextContent, seq![script]),
                |code: Seq<char>, p1: nat|
                    chain(
                        ask_value(
                            h,
                            p1,
                            Op::WriteScript,
                            seq![or_undefined(src), Val::Str(code)],
                        ),
                        |u: Val, p2: nat| done((), p2),
                    ),
            ),
    )
}

/// Has the scripts from the `i`-th on run later, in order.
pub open spec fn write_scripts(h: Host, pos: nat, scripts: Seq<Val>, i: int) -> Run<()>
    decreases scripts.len() - i,
{
    if !(0 <= i < scripts.len()) {
        done((), pos)
    } else {
        let s = write_script(h, pos, scripts[i]);
        match s.out {
            Err(e) => halted(e, s.pos),
            Ok(_) => write_scripts(h, s.pos, scripts, i + 1),
        }
    }
}

/// `document.write` of a text that is not blank.
pub open spec fn write_html(h: Host, pos: nat, html: Seq<char>) -> Run<Val> {
    chain(
        writing_place(h, pos),
        |place: (Val, Option<Val>), p0: nat|
            chain(
                ask_list(h, p0, Op::ParseHtml, seq![Val::Str(html)]),
                |nodes: Seq<Val>, p1: nat|
                    chain(
                        write_nodes(h, p1, place, nodes, 0, Seq::empty()),
                        |scripts: Seq<Val>, p2: nat|
                            chain(
                                write_scripts(h, p2, scripts, 0),
                                |u: (), p3: nat| done(Val::Undefined, p3),
                            ),
                    ),
            ),
    )
}

/// `document.write`.
pub open spec fn doc_write_run(h: Host, pos: nat, recv: Option<Val>, args: Seq<Val>) -> Run<Val> {
    chain(
        displays(h, pos, args, 0, Seq::empty()),
        |parts: Seq<Seq<char>>, p0: nat|
            if blank(run_together(parts)) {
                done(Val::Undefined, p0)
            } else {
                chain(
                    ask_flag(h, p0, Op::HasDocument, Seq::empty()),
                    |there: bool, p1: nat|
                        if there {
                            write_html(h, p1, run_together(parts))
                        } else {
                            done(Val::Undefined, p1)
                        },
                )
            },
    )
}

/// Whether a place in the document comes before another, as `compareDocumentPosition` counts it.
pub open spec fn order_bits(a: Option<Val>, b: Option<Val>) -> int {
    match (a, b) {
        (Some(Val::Num(x)), Some(Val::Num(y))) => if count_of_num(y) > count_of_num(x) {
            4
        } else if count_of_num(y) < count_of_num(x) {
            2
        } else {
            0
        },
        _ => 0,
    }
}

/// `compareDocumentPosition`.
pub open spec fn compare_doc_position_run(h: Host, pos: nat, recv: Option<Val>, args: Seq<Val>) -> Run<
    Val,
> {
    let a = this_of(recv);
    let b = arg(args, 0);
    if !is_node(a) || !is_node(b) || same_node(a, b) {
        done(Val::Num(num_of(0)), pos)
    } else {
        chain(
            ask_slot(h, pos, Op::DocumentIndex, seq![a]),
            |x: Option<Val>, p: nat|
                chain(
                    ask_slot(h, p, Op::DocumentIndex, seq![b]),
                    |y: Option<Val>, q: nat| done(Val::Num(num_of(order_bits(x, y))), q),
                ),
        )
    }
}

/// `getElementsByClassName` and `getElementsByTagName`.
pub open spec fn get_elements_run(
    h: Host,
    pos: nat,
    by_class: bool,
    recv: Option<Val>,
    args: Seq<Val>,
) -> Run<Val> {
    chain(
        display_arg(h, pos, args, 0),
        |what: Seq<char>, p: nat|
            chain(
                ask_list(
                    h,
                    p,
                    if by_class {
                        Op::ByClass
                    } else {
                        Op::ByTag
                    },
                    seq![
                        if is_node(this_of(recv)) {
                            this_of(recv)
                        } else {
                            Val::Undefined
                        },
                        Val::Str(what),
                    ],
                ),
                |l: Seq<Val>, q: nat| ask_value(h, q, Op::NewArray, l),
            ),
    )
}

/// `querySelector` and `querySelectorAll`.
pub open spec fn query_selector_run(
    h: Host,
    pos: nat,
    all: bool,
    recv: Option<Val>,
    args: Seq<Val>,
) -> Run<Val> {
    chain(
        display_arg(h, pos, args, 0),
        |s: Seq<char>, p: nat|
            ask_value(
                h,
                p,
                Op::Query,
                seq![
                    if is_node(this_of(recv)) {
                        this_of(recv)
                    } else {
                        Val::Undefined
                    },
                    Val::Str(s),
                    Val::Bool(all),
                ],
            ),
    )
}

/// `attachShadow`: the element itself stands for its shadow.
pub open spec fn attach_shadow_run(h: Host, pos: nat, recv: Option<Val>, args: Seq<Val>) -> Run<Val> {
    let node = this_of(recv);
    if !is_node(node) {
        done(Val::Undefined, pos)
    } else {
        told(ask_value(h, pos, Op::MarkShadowHost, seq![node]), node)
    }
}

/// Null for what is undefined.
pub open spec fn null_for_undefined(v: Val) -> Val {
    if v is Undefined {
        Val::Null
    } else {
        v
    }
}

/// What the record of a change is made of.
pub open spec fn record_fields(l: Seq<Val>, i: int) -> Seq<Val> {
    seq![
        Val::Str("type"@),
        arg(l, i),
        Val::Str("target"@),
        arg(l, i + 1),
        Val::Str("attributeName"@),
        null_for_undefined(arg(l, i + 2)),
        Val::Str("oldValue"@),
        null_for_undefined(arg(l, i + 3)),
        Val::Str("addedNodes"@),
        arg(l, i + 4),
        Val::Str("removedNodes"@),
        arg(l, i + 5),
    ]
}

/// The records of changes from the `i`-th value on, as objects.
pub open spec fn record_objects(h: Host, pos: nat, l: Seq<Val>, i: int, out: Seq<Val>) -> Run<Seq<Val>>
    decreases l.len() - i,
{
    if !(0 <= i && i + 5 < l.len()) {
        done(out, pos)
    } else {
        let o = ask_value(h, pos, Op::NewObject, record_fields(l, i));
        match o.out {
            Err(e) => halted(e, o.pos),
            Ok(x) => record_objects(h, o.pos, l, i + 6, out.push(x)),
        }
    }
}

/// What was recorded of changes to the document, as an array of objects.
pub open spec fn take_mutations_run(h: Host, pos: nat, recv: Option<Val>, args: Seq<Val>) -> Run<Val> {
    chain(
        ask_list(h, pos, Op::TakeRecords, Seq::empty()),
        |l: Seq<Val>, p: nat|
            chain(
                record_objects(h, p, l, 0, Seq::empty()),
                |out: Seq<Val>, q: nat| ask_value(h, q, Op::NewArray, out),
            ),
    )
}

pub open spec fn place_run(r: Result<Option<(Value, Option<Value>)>, Stop>, it: Interp) -> Run<
    Option<(Val, Option<Val>)>,
> {
    match r {
        Ok(Some(x)) => done(Some((x.0@, opt_view(x.1))), it.pos as nat),
        Ok(None) => done(None, it.pos as nat),
        Err(e) => halted(e@, it.pos as nat),
    }
}

pub open spec fn spot_run(r: Result<(Value, Option<Value>), Stop>, it: Interp) -> Run<
    (Val, Option<Val>),
> {
    match r {
        Ok(x) => done((x.0@, opt_view(x.1)), it.pos as nat),
        Err(e) => halted(e@, it.pos as nat),
    }
}

fn node_at(args: &Vec<Value>, i: usize) -> (r: Option<Value>)
    ensures
        opt_view(r) == node_arg(views(args@), i as int),
{
    let v: Value = arg_at(args, i);
    if node_value(&v) {
        Some(v)
    } else {
        None
    }
}

fn scope_of(recv: &Option<Value>) -> (r: Value)
    ensures
        r@ == if is_node(this_of(opt_view(*recv))) {
            this_of(opt_view(*recv))
        } else {
            Val::Undefined
        },
{
    let v: Value = this_or_undefined(recv);
    if node_value(&v) {
        v
    } else {
        Value::Undefined
    }
}

fn place_named_by(word: &str) -> (r: Option<Place>)
    ensures
        r == named_place(word@),
{
    if same_text(word, "beforebegin") {
        Some(Place::Before)
    } else if same_text(word, "afterbegin") {
        Some(Place::First)
    } else if same_text(word, "beforeend") {
        Some(Place::Last)
    } else if same_text(word, "afterend") {
        Some(Place::After)
    } else {
        None
    }
}

fn is_among(nodes: &Vec<Value>, node: &Value) -> (r: bool)
    ensures
        r == among(views(nodes@), node@),
{
    let mut i: usize = 0;
    while i < nodes.len()
        invariant
            i <= nodes@.len(),
            forall|j: int| 0 <= j < i ==> !same_node(#[trigger] views(nodes@)[j], node@),
        decreases nodes@.len() - i,
    {
        assert(views(nodes@)[i as int] == nodes@[i as int]@);
        if crate::elements::is_same_node(&nodes[i], node) {
            return true;
        }
        i = i + 1;
    }
    false
}

fn fields_of_document(html: Value, head: Value, body: Value) -> (r: Vec<Value>)
    ensures
        views(r@) == document_fields(html@, head@, body@),
{
    let a: Vec<Value> = list4(
        text_value("nodeType"),
        Value::Num(Num::from_u64(9)),
        text_value("documentElement"),
        html,
    );
    let b: Vec<Value> = list4(text_value("head"), head, text_value("body"), body);
    let c: Vec<Value> = list4(
        text_value("createElement"),
        Value::Native(Native::CreateElement),
        text_value("createTextNode"),
        Value::Native(Native::CreateTextNode),
    );
    let d: Vec<Value> = list2(
        text_value("createDocumentFragment"),
        Value::Native(Native::CreateDocumentFragment),
    );
    let out: Vec<Value> = cat(cat(cat(a, &b), &c), &d);
    assert(views(out@) =~= document_fields(html@, head@, body@));
    out
}

fn text_together(parts: &Vec<String>) -> (r: String)
    ensures
        r@ == run_together(text_views(parts@)),
{
    let ghost all = text_views(parts@);
    let mut out: String = String::new();
    let mut i: usize = 0;
    assert(all.take(0) =~= Seq::empty());
    assert(out@ =~= run_together(all.take(0)));
    while i < parts.len()
        invariant
            i <= parts@.len(),
            all == text_views(parts@),
            out@ == run_together(all.take(i as int)),
        decreases parts@.len() - i,
    {
        assert(all.take(i + 1).drop_last() =~= all.take(i as int));
        assert(all.take(i + 1).last() == parts@[i as int]@);
        append_text(&mut out, parts[i].as_str());
        i = i + 1;
    }
    assert(all.take(i as int) =~= all);
    out
}

fn bits_of_order(a: &Option<Value>, b: &Option<Value>) -> (r: u64)
    ensures
        r == order_bits(opt_view(*a), opt_view(*b)),
{
    match (a, b) {
        (Some(Value::Num(x)), Some(Value::Num(y))) => {
            let i: u64 = num_to_count(*x);
            let j: u64 = num_to_count(*y);
            if j > i {
                4
            } else if j < i {
                2
            } else {
                0
            }
        },
        _ => 0,
    }
}

fn null_or(v: Value) -> (r: Value)
    ensures
        r@ == null_for_undefined(v@),
{
    match v {
        Value::Undefined => Value::Null,
        x => x,
    }
}

fn fields_of_record(l: &Vec<Value>, i: usize) -> (r: Vec<Value>)
    requires
        i + 5 < l@.len(),
    ensures
        views(r@) == record_fields(views(l@), i as int),
{
    let size: usize = l.len();
    let a: Vec<Value> = list4(
        text_value("type"),
        arg_at(l, i),
        text_value("target"),
        arg_at(l, i + 1),
    );
    let b: Vec<Value> = list4(
        text_value("attributeName"),
        null_or(arg_at(l, i + 2)),
        text_value("oldValue"),
        null_or(arg_at(l, i + 3)),
    );
    let c: Vec<Value> = list4(
        text_value("addedNodes"),
        arg_at(l, i + 4),
        text_value("removedNodes"),
        arg_at(l, i + 5),
    );
    let out: Vec<Value> = cat(cat(a, &b), &c);
    assert(views(out@) =~= record_fields(views(l@), i as int));
    out
}

impl Interp {
    fn check_insert(&mut self, parent: &Value, node: &Value, reference: &Option<Value>) -> (r: Result<(), Stop>)
        requires
            old(self).wf(),
        ensures
            final(self).follows(*old(self)),
            run_plain(r, *final(self)) == check_insert(
                old(self).host(),
                old(self).pos as nat,
                parent@,
                node@,
                opt_view(*reference),
            ),
    {
        let u: Value = self.ask_value(
            Op::CheckInsert,
            list3(parent.clone(), node.clone(), crate::elements::undefined_if_none(reference)),
        )?;
        Ok(())
    }

    /// `insertBefore`.
    pub fn insert_before(&mut self, recv: &Option<Value>, args: &Vec<Value>) -> (r: Result<Value, Stop>)
        requires
            old(self).wf(),
        ensures
            final(self).follows(*old(self)),
            run_value(r, *final(self)) == insert_before_run(
                old(self).host(),
                old(self).pos as nat,
                opt_view(*recv),
                views(args@),
            ),
    {
        let parent: Value = this_or_undefined(recv);
        let child: Value = arg_at(args, 0);
        if !node_value(&parent) || !node_value(&child) {
            return Err(fail(ErrorKind::Error, "insertBefore 는 요소 인자가 필요"));
        }
        let reference: Option<Value> = node_at(args, 1);
        self.check_insert(&parent, &child, &reference)?;
        self.insert_node(&parent, child.clone(), &reference)?;
        Ok(child)
    }

    #[verifier::loop_isolation(false)]
    fn append_all(&mut self, parent: &Value, nodes: &Vec<Value>) -> (r: Result<(), Stop>)
        requires
            old(self).wf(),
        ensures
            final(self).follows(*old(self)),
            run_plain(r, *final(self)) == append_all(
                old(self).host(),
                old(self).pos as nat,
                parent@,
                views(nodes@),
                0,
            ),
    {
        let ghost all = views(nodes@);
        let ghost goal = append_all(self.host(), self.pos as nat, parent@, all, 0);
        let mut i: usize = 0;
        while i < nodes.len()
            invariant
                i <= nodes@.len(),
                self.follows(*old(self)),
                goal == append_all(self.host(), self.pos as nat, parent@, all, i as int),
            decreases nodes@.len() - i,
        {
            assert(all[i as int] == nodes@[i as int]@);
            let u: Value = self.ask_value(Op::AppendNode, list2(parent.clone(), nodes[i].clone()))?;
            i = i + 1;
        }
        Ok(())
    }

    fn append_checked(&mut self, parent: &Value, child: Value) -> (r: Result<Value, Stop>)
        requires
            old(self).wf(),
        ensures
            final(self).follows(*old(self)),
            run_value(r, *final(self)) == append_checked(
                old(self).host(),
                old(self).pos as nat,
                parent@,
                child@,
            ),
    {
        let nodes: Vec<Value> = if self.ask_flag(Op::IsFragment, list1(child.clone()))? {
            self.ask_list(Op::NodeChildren, list1(child.clone()))?
        } else {
            list1(child.clone())
        };
        self.append_all(parent, &nodes)?;
        Ok(child)
    }

    /// `appendChild`.
    pub fn append_child(&mut self, recv: &Option<Value>, args: &Vec<Value>) -> (r: Result<Value, Stop>)
        requires
            old(self).wf(),
        ensures
            final(self).follows(*old(self)),
            run_value(r, *final(self)) == append_child_run(
                old(self).host(),
                old(self).pos as nat,
                opt_view(*recv),
                views(args@),
            ),
    {
        let parent: Value = this_or_undefined(recv);
        let child: Value = arg_at(args, 0);
        if !node_value(&parent) || !node_value(&child) {
            return Err(fail(ErrorKind::Error, "appendChild 는 요소 인자가 필요"));
        }
        self.check_insert(&parent, &child, &None)?;
        self.append_checked(&parent, child)
    }

    fn place_at(&mut self, node: &Value, place: Place) -> (r: Result<Option<(Value, Option<Value>)>, Stop>)
        requires
            old(self).wf(),
        ensures
            final(self).follows(*old(self)),
            place_run(r, *final(self)) == place_at(
                old(self).host(),
                old(self).pos as nat,
                node@,
                place,
            ),
    {
        match place {
            Place::Last => Ok(Some((node.clone(), None))),
            Place::First => {
                let l: Vec<Value> = self.ask_list(Op::NodeChildren, list1(node.clone()))?;
                if l.len() > 0 {
                    assert(views(l@)[0] == l@[0]@);
                    Ok(Some((node.clone(), Some(l[0].clone()))))
                } else {
                    Ok(Some((node.clone(), None)))
                }
            },
            Place::Before => {
                match self.ask_slot(Op::NodeParent, list1(node.clone()))? {
                    Some(parent) => Ok(Some((parent, Some(node.clone())))),
                    None => Ok(None),
                }
            },
            Place::After => {
                match self.ask_slot(Op::NodeParent, list1(node.clone()))? {
                    Some(parent) => {
                        let next: Option<Value> = self.next_sibling(&parent, node)?;
                        Ok(Some((parent, next)))
                    },
                    None => Ok(None),
                }
            },
        }
    }

    fn put_at(&mut self, node: &Value, place: Place, nodes: &Vec<Value>) -> (r: Result<(), Stop>)
        requires
            old(self).wf(),
        ensures
            final(self).follows(*old(self)),
            run_plain(r, *final(self)) == put_at(
                old(self).host(),
                old(self).pos as nat,
                node@,
                place,
                views(nodes@),
            ),
    {
        match self.place_at(node, place)? {
            None => Ok(()),
            Some((parent, reference)) => self.insert_all(&parent, nodes, &reference),
        }
    }

    /// `append`, `prepend`, `before` and `after`.
    pub fn node_put(&mut self, place: Place, recv: &Option<Value>, args: &Vec<Value>) -> (r: Result<Value, Stop>)
        requires
            old(self).wf(),
        ensures
            final(self).follows(*old(self)),
            run_value(r, *final(self)) == node_put_run(
                old(self).host(),
                old(self).pos as nat,
                place,
                opt_view(*recv),
                views(args@),
            ),
    {
        let node: Value = this_or_undefined(recv);
        if !node_value(&node) {
            return Ok(Value::Undefined);
        }

        let nodes: Vec<Value> = self.ask_list(Op::NodesOfValues, clone_values(args))?;
        self.put_at(&node, place, &nodes)?;
        Ok(Value::Undefined)
    }

    /// `replaceWith`.
    pub fn node_replace_with(&mut self, recv: &Option<Value>, args: &Vec<Value>) -> (r: Result<Value, Stop>)
        requires
            old(self).wf(),
        ensures
            final(self).follows(*old(self)),
            run_value(r, *final(self)) == node_replace_with_run(
                old(self).host(),
                old(self).pos as nat,
                opt_view(*recv),
                views(args@),
            ),
    {
        let node: Value = this_or_undefined(recv);
        if !node_value(&node) {
            return Ok(Value::Undefined);
        }

        let nodes: Vec<Value> = self.ask_list(Op::NodesOfValues, clone_values(args))?;
        match self.place_at(&node, Place::Before)? {
            None => Ok(Value::Undefined),
            Some((parent, reference)) => {
                self.insert_all(&parent, &nodes, &reference)?;
                let u: Value = self.ask_value(Op::DetachNode, list1(node))?;
                Ok(Value::Undefined)
            },
        }
    }

    #[verifier::loop_isolation(false)]
    fn put_each(&mut self, node: &Value, place: Place, nodes: &Vec<Value>) -> (r: Result<(), Stop>)
        requires
            old(self).wf(),
        ensures
            final(self).follows(*old(self)),
            run_plain(r, *final(self)) == put_each(
                old(self).host(),
                old(self).pos as nat,
                node@,
                place,
                views(nodes@),
                0,
            ),
    {
        let ghost all = views(nodes@);
        let ghost goal = put_each(self.host(), self.pos as nat, node@, place, all, 0);
        let mut i: usize = 0;
        while i < nodes.len()
            invariant
                i <= nodes@.len(),
                self.follows(*old(self)),
                goal == put_each(self.host(), self.pos as nat, node@, place, all, i as int),
            decreases nodes@.len() - i,
        {
            assert(all[i as int] == nodes@[i as int]@);
            self.put_at(node, place, &list1(nodes[i].clone()))?;
            i = i + 1;
        }
        Ok(())
    }

    fn adjacent_nodes(&mut self, of_html: bool, args: &Vec<Value>) -> (r: Result<Vec<Value>, Stop>)
        requires
            old(self).wf(),
        ensures
            final(self).follows(*old(self)),
            run_list(r, *final(self)) == adjacent_nodes(
                old(self).host(),
                old(self).pos as nat,
                of_html,
                views(args@),
            ),
    {
        if !of_html {
            let v: Value = arg_at(args, 1);
            if node_value(&v) {
                Ok(list1(v))
            } else {
                let none: Vec<Value> = empty_list();
                assert(views(none@) =~= Seq::empty());
                Ok(none)
            }
        } else {
            let html: String = self.display_arg(args, 1)?;
            self.ask_list(Op::ParseHtml, list1(Value::Str(html)))
        }
    }

    /// `insertAdjacentHTML` and `insertAdjacentElement`.
    pub fn insert_adjacent(&mut self, of_html: bool, recv: &Option<Value>, args: &Vec<Value>) -> (r: Result<Value, Stop>)
        requires
            old(self).wf(),
        ensures
            final(self).follows(*old(self)),
            run_value(r, *final(self)) == insert_adjacent_run(
                old(self).host(),
                old(self).pos as nat,
                of_html,
                opt_view(*recv),
                views(args@),
            ),
    {
        let node: Value = this_or_undefined(recv);
        if !node_value(&node) {
            return Ok(Value::Undefined);
        }

        let word: String = self.display_arg(args, 0)?;
        let nodes: Vec<Value> = self.adjacent_nodes(of_html, args)?;
        match place_named_by(to_ascii_lower(word.as_str()).as_str()) {
            None => Ok(Value::Undefined),
            Some(place) => {
                self.put_each(&node, place, &nodes)?;
                Ok(Value::Undefined)
            },
        }
    }

    fn as_node(&mut self, v: &Value) -> (r: Result<Value, Stop>)
        requires
            old(self).wf(),
        ensures
            final(self).follows(*old(self)),
            run_value(r, *final(self)) == as_node(
                old(self).host(),
                old(self).pos as nat,
                v@,
            ),
    {
        if node_value(v) {
            return Ok(v.clone());
        }
        let s: String = self.ask_text(Op::Display, list1(v.clone()))?;
        self.ask_value(Op::NewText, list1(Value::Str(s)))
    }

    #[verifier::loop_isolation(false)]
    fn append_values(&mut self, node: &Value, args: &Vec<Value>) -> (r: Result<(), Stop>)
        requires
            old(self).wf(),
        ensures
            final(self).follows(*old(self)),
            run_plain(r, *final(self)) == append_values(
                old(self).host(),
                old(self).pos as nat,
                node@,
                views(args@),
                0,
            ),
    {
        let ghost all = views(args@);
        let ghost goal = append_values(self.host(), self.pos as nat, node@, all, 0);
        let mut i: usize = 0;
        while i < args.len()
            invariant
                i <= args@.len(),
                self.follows(*old(self)),
                goal == append_values(self.host(), self.pos as nat, node@, all, i as int),
            decreases args@.len() - i,
        {
            assert(all[i as int] == args@[i as int]@);
            let c: Value = self.as_node(&args[i])?;
            let u: Value = self.ask_value(Op::AppendNode, list2(node.clone(), c))?;
            i = i + 1;
        }
        Ok(())
    }

    /// `replaceChildren`.
    pub fn replace_children(&mut self, recv: &Option<Value>, args: &Vec<Value>) -> (r: Result<Value, Stop>)
        requires
            old(self).wf(),
        ensures
            final(self).follows(*old(self)),
            run_value(r, *final(self)) == replace_children_run(
                old(self).host(),
                old(self).pos as nat,
                opt_view(*recv),
                views(args@),
            ),
    {
        let node: Value = this_or_undefined(recv);
        if !node_value(&node) {
            return Ok(Value::Undefined);
        }

        let u: Value = self.ask_value(Op::ClearNode, list1(node.clone()))?;
        self.append_values(&node, args)?;
        Ok(Value::Undefined)
    }

    /// `remove` of an element.
    pub fn remove_element(&mut self, recv: &Option<Value>, args: &Vec<Value>) -> (r: Result<Value, Stop>)
        requires
            old(self).wf(),
        ensures
            final(self).follows(*old(self)),
            run_value(r, *final(self)) == remove_element_run(
                old(self).host(),
                old(self).pos as nat,
                opt_view(*recv),
                views(args@),
            ),
    {
        let node: Value = this_or_undefined(recv);
        if !node_value(&node) {
            return Err(fail(ErrorKind::Error, "remove 는 요소 메서드"));
        }

        let u: Value = self.ask_value(Op::DetachNode, list1(node))?;
        Ok(Value::Undefined)
    }

    /// `removeChild`.
    pub fn remove_child(&mut self, recv: &Option<Value>, args: &Vec<Value>) -> (r: Result<Value, Stop>)
        requires
            old(self).wf(),
        ensures
            final(self).follows(*old(self)),
            run_value(r, *final(self)) == remove_child_run(
                old(self).host(),
                old(self).pos as nat,
                opt_view(*recv),
                views(args@),
            ),
    {
        let child: Value = arg_at(args, 0);
        if node_value(&child) {
            let u: Value = self.ask_value(Op::DetachNode, list1(child.clone()))?;
        }
        Ok(child)
    }

    /// `cloneNode`.
    pub fn clone_node(&mut self, recv: &Option<Value>, args: &Vec<Value>) -> (r: Result<Value, Stop>)
        requires
            old(self).wf(),
        ensures
            final(self).follows(*old(self)),
            run_value(r, *final(self)) == clone_node_run(
                old(self).host(),
                old(self).pos as nat,
                opt_view(*recv),
                views(args@),
            ),
    {
        let node: Value = this_or_undefined(recv);
        if !node_value(&node) {
            return Err(fail(ErrorKind::Error, "cloneNode 는 요소 메서드"));
        }

        let deep: bool = to_bool(&arg_at(args, 0));
        self.ask_value(Op::CopyNode, list2(node, Value::Bool(deep)))
    }

    fn fits(&mut self, node: &Value, selector: &str) -> (r: Result<bool, Stop>)
        requires
            old(self).wf(),
        ensures
            final(self).follows(*old(self)),
            run_plain(r, *final(self)) == fits(
                old(self).host(),
                old(self).pos as nat,
                node@,
                selector@,
            ),
    {
        if self.ask_flag(Op::IsSelector, list1(text_value(selector)))? {
            self.ask_flag(Op::SelectorFits, list2(node.clone(), text_value(selector)))
        } else {
            Ok(false)
        }
    }

    /// `matches` of an element.
    pub fn matches(&mut self, recv: &Option<Value>, args: &Vec<Value>) -> (r: Result<Value, Stop>)
        requires
            old(self).wf(),
        ensures
            final(self).follows(*old(self)),
            run_value(r, *final(self)) == matches_run(
                old(self).host(),
                old(self).pos as nat,
                opt_view(*recv),
                views(args@),
            ),
    {
        let s: String = self.display_arg(args, 0)?;
        let node: Value = this_or_undefined(recv);
        if !node_value(&node) {
            return Ok(Value::Bool(false));
        }
        let b: bool = self.fits(&node, s.as_str())?;
        Ok(Value::Bool(b))
    }

    #[verifier::loop_isolation(false)]
    fn first_fitting(&mut self, nodes: &Vec<Value>, selector: &str) -> (r: Result<Value, Stop>)
        requires
            old(self).wf(),
        ensures
            final(self).follows(*old(self)),
            run_value(r, *final(self)) == first_fitting(
                old(self).host(),
                old(self).pos as nat,
                views(nodes@),
                0,
                selector@,
            ),
    {
        let ghost all = views(nodes@);
        let ghost goal = first_fitting(self.host(), self.pos as nat, all, 0, selector@);
        let mut i: usize = 0;
        while i < nodes.len()
            invariant
                i <= nodes@.len(),
                self.follows(*old(self)),
                goal == first_fitting(self.host(), self.pos as nat, all, i as int, selector@),
            decreases nodes@.len() - i,
        {
            assert(all[i as int] == nodes@[i as int]@);
            let kind: String = self.ask_text(Op::NodeKind, list1(nodes[i].clone()))?;
            if same_text(kind.as_str(), "element") {
                if self.ask_flag(Op::SelectorFits, list2(nodes[i].clone(), text_value(selector)))? {
                    return Ok(nodes[i].clone());
                }
            }
            i = i + 1;
        }
        Ok(Value::Null)
    }

    /// `closest` of an element.
    pub fn closest(&mut self, recv: &Option<Value>, args: &Vec<Value>) -> (r: Result<Value, Stop>)
        requires
            old(self).wf(),
        ensures
            final(self).follows(*old(self)),
            run_value(r, *final(self)) == closest_run(
                old(self).host(),
                old(self).pos as nat,
                opt_view(*recv),
                views(args@),
            ),
    {
        let s: String = self.display_arg(args, 0)?;
        let node: Value = this_or_undefined(recv);
        if !node_value(&node) {
            return Ok(Value::Null);
        }
        if !self.ask_flag(Op::IsSelector, list1(text_value(s.as_str())))? {
            return Ok(Value::Null);
        }
        let l: Vec<Value> = self.ask_list(Op::Ancestors, list1(node.clone()))?;
        self.first_fitting(&cat(list1(node), &l), s.as_str())
    }

    /// `contains` of a node.
    pub fn dom_contains(&mut self, recv: &Option<Value>, args: &Vec<Value>) -> (r: Result<Value, Stop>)
        requires
            old(self).wf(),
        ensures
            final(self).follows(*old(self)),
            run_value(r, *final(self)) == dom_contains_run(
                old(self).host(),
                old(self).pos as nat,
                opt_view(*recv),
                views(args@),
            ),
    {
        let node: Value = this_or_undefined(recv);
        let other: Value = arg_at(args, 0);
        if !node_value(&other) || !node_value(&node) {
            return Ok(Value::Bool(false));
        }
        if crate::elements::is_same_node(&other, &node) {
            return Ok(Value::Bool(true));
        }
        let l: Vec<Value> = self.ask_list(Op::Ancestors, list1(other))?;
        Ok(Value::Bool(is_among(&l, &node)))
    }

    /// `getRootNode`.
    pub fn dom_get_root_node(&mut self, recv: &Option<Value>, args: &Vec<Value>) -> (r: Result<Value, Stop>)
        requires
            old(self).wf(),
        ensures
            final(self).follows(*old(self)),
            run_value(r, *final(self)) == dom_get_root_node_run(
                old(self).host(),
                old(self).pos as nat,
                opt_view(*recv),
                views(args@),
            ),
    {
        let node: Value = this_or_undefined(recv);
        if !node_value(&node) {
            return Ok(Value::Undefined);
        }

        let l: Vec<Value> = self.ask_list(Op::Ancestors, list1(node.clone()))?;
        let root: Value = if l.len() > 0 {
            assert(views(l@).last() == l@[l@.len() - 1]@);
            l[l.len() - 1].clone()
        } else {
            node
        };
        let none: Vec<Value> = empty_list();
        assert(views(none@) =~= Seq::empty());
        let top: Value = self.ask_value(Op::DocumentRoot, none)?;
        if crate::elements::is_same_node(&root, &top) {
            match self.ask_slot(Op::GlobalValue, list1(text_value("document")))? {
                Some(v) => Ok(v),
                None => Ok(root),
            }
        } else {
            Ok(root)
        }
    }

    /// `document.body`, `document.head` and `document.documentElement`.
    pub fn doc_query(&mut self, tag: &str, recv: &Option<Value>, args: &Vec<Value>) -> (r: Result<Value, Stop>)
        requires
            old(self).wf(),
        ensures
            final(self).follows(*old(self)),
            run_value(r, *final(self)) == doc_query_run(
                old(self).host(),
                old(self).pos as nat,
                tag@,
                opt_view(*recv),
                views(args@),
            ),
    {
        let s: Option<Value> = self.ask_slot(Op::FindTag, list1(text_value(tag)))?;
        Ok(null_if_none(s))
    }

    /// `document.activeElement`.
    pub fn active_element(&mut self, recv: &Option<Value>, args: &Vec<Value>) -> (r: Result<Value, Stop>)
        requires
            old(self).wf(),
        ensures
            final(self).follows(*old(self)),
            run_value(r, *final(self)) == active_element_run(
                old(self).host(),
                old(self).pos as nat,
                opt_view(*recv),
                views(args@),
            ),
    {
        let none: Vec<Value> = empty_list();
        assert(views(none@) =~= Seq::empty());
        match self.ask_slot(Op::ActiveNode, none)? {
            Some(v) => Ok(v),
            None => self.doc_query("body", &None, &empty_list()),
        }
    }

    /// `document.currentScript`.
    pub fn current_script(&mut self, recv: &Option<Value>, args: &Vec<Value>) -> (r: Result<Value, Stop>)
        requires
            old(self).wf(),
        ensures
            final(self).follows(*old(self)),
            run_value(r, *final(self)) == current_script_run(
                old(self).host(),
                old(self).pos as nat,
                opt_view(*recv),
                views(args@),
            ),
    {
        let none: Vec<Value> = empty_list();
        assert(views(none@) =~= Seq::empty());
        let s: Option<Value> = self.ask_slot(Op::CurrentScript, none)?;
        Ok(null_if_none(s))
    }

    /// `createElement`.
    pub fn create_element(&mut self, recv: &Option<Value>, args: &Vec<Value>) -> (r: Result<Value, Stop>)
        requires
            old(self).wf(),
        ensures
            final(self).follows(*old(self)),
            run_value(r, *final(self)) == create_element_run(
                old(self).host(),
                old(self).pos as nat,
                opt_view(*recv),
                views(args@),
            ),
    {
        let tag: String = self.display_arg(args, 0)?;
        let u: Value = self.ask_value(Op::CheckTag, list1(text_value(tag.as_str())))?;
        self.ask_value(Op::NewElement, list1(Value::Str(tag)))
    }

    /// `createElementNS`.
    pub fn create_element_ns(&mut self, recv: &Option<Value>, args: &Vec<Value>) -> (r: Result<Value, Stop>)
        requires
            old(self).wf(),
        ensures
            final(self).follows(*old(self)),
            run_value(r, *final(self)) == create_element_ns_run(
                old(self).host(),
                old(self).pos as nat,
                opt_view(*recv),
                views(args@),
            ),
    {
        let ns: Option<String> = self.namespace_arg(&arg_at(args, 0))?;
        let name: String = self.display_arg(args, 1)?;
        let space: Value = match ns {
            Some(s) => Value::Str(s),
            None => Value::Undefined,
        };
        let u: Value = self.ask_value(
            Op::CheckQualifiedName,
            list2(text_value(name.as_str()), space.clone()),
        )?;
        self.ask_value(Op::NewElementNs, list2(space, Value::Str(name)))
    }

    /// `createTextNode`.
    pub fn create_text_node(&mut self, recv: &Option<Value>, args: &Vec<Value>) -> (r: Result<Value, Stop>)
        requires
            old(self).wf(),
        ensures
            final(self).follows(*old(self)),
            run_value(r, *final(self)) == create_text_node_run(
                old(self).host(),
                old(self).pos as nat,
                opt_view(*recv),
                views(args@),
            ),
    {
        let s: String = self.display_arg(args, 0)?;
        self.ask_value(Op::NewText, list1(Value::Str(s)))
    }

    /// `createComment`.
    pub fn create_comment(&mut self, recv: &Option<Value>, args: &Vec<Value>) -> (r: Result<Value, Stop>)
        requires
            old(self).wf(),
        ensures
            final(self).follows(*old(self)),
            run_value(r, *final(self)) == create_comment_run(
                old(self).host(),
                old(self).pos as nat,
                opt_view(*recv),
                views(args@),
            ),
    {
        let s: String = self.display_arg(args, 0)?;
        self.ask_value(Op::NewComment, list1(Value::Str(s)))
    }

    /// `createDocumentFragment`.
    pub fn create_document_fragment(&mut self, recv: &Option<Value>, args: &Vec<Value>) -> (r: Result<Value, Stop>)
        requires
            old(self).wf(),
        ensures
            final(self).follows(*old(self)),
            run_value(r, *final(self)) == create_document_fragment_run(
                old(self).host(),
                old(self).pos as nat,
                opt_view(*recv),
                views(args@),
            ),
    {
        self.ask_value(Op::NewElement, list1(text_value("#document-fragment")))
    }

    fn child_of(&mut self, parent: &Value, tag: &str) -> (r: Result<Value, Stop>)
        requires
            old(self).wf(),
        ensures
            final(self).follows(*old(self)),
            run_value(r, *final(self)) == child_of(
                old(self).host(),
                old(self).pos as nat,
                parent@,
                tag@,
            ),
    {
        let e: Value = self.ask_value(Op::NewElement, list1(text_value(tag)))?;
        let u: Value = self.ask_value(Op::AppendNode, list2(parent.clone(), e.clone()))?;
        Ok(e)
    }

    /// `createHTMLDocument`.
    pub fn create_html_document(&mut self, recv: &Option<Value>, args: &Vec<Value>) -> (r: Result<Value, Stop>)
        requires
            old(self).wf(),
        ensures
            final(self).follows(*old(self)),
            run_value(r, *final(self)) == create_html_document_run(
                old(self).host(),
                old(self).pos as nat,
                opt_view(*recv),
                views(args@),
            ),
    {
        let html: Value = self.ask_value(Op::NewElement, list1(text_value("html")))?;
        let head: Value = self.child_of(&html, "head")?;
        let body: Value = self.child_of(&html, "body")?;
        self.ask_value(Op::NewObject, fields_of_document(html, head, body))
    }

    /// `DOMParser`.
    pub fn dom_parser_ctor(&mut self, recv: &Option<Value>, args: &Vec<Value>) -> (r: Result<Value, Stop>)
        requires
            old(self).wf(),
        ensures
            final(self).follows(*old(self)),
            run_value(r, *final(self)) == dom_parser_ctor_run(
                old(self).host(),
                old(self).pos as nat,
                opt_view(*recv),
                views(args@),
            ),
    {
        self.ask_value(
            Op::NewObject,
            list2(text_value("parseFromString"), Value::Native(Native::DomParserParse)),
        )
    }

    /// `parseFromString`.
    pub fn dom_parser_parse(&mut self, recv: &Option<Value>, args: &Vec<Value>) -> (r: Result<Value, Stop>)
        requires
            old(self).wf(),
        ensures
            final(self).follows(*old(self)),
            run_value(r, *final(self)) == dom_parser_parse_run(
                old(self).host(),
                old(self).pos as nat,
                opt_view(*recv),
                views(args@),
            ),
    {
        let src: String = self.display_arg(args, 0)?;
        let root: Value = self.ask_value(Op::NewElement, list1(text_value("html")))?;
        let body: Value = self.child_of(&root, "body")?;
        let nodes: Vec<Value> = self.ask_list(Op::ParseHtml, list1(Value::Str(src)))?;
        self.append_all(&body, &nodes)?;
        Ok(root)
    }

    fn writing_place(&mut self) -> (r: Result<(Value, Option<Value>), Stop>)
        requires
            old(self).wf(),
        ensures
            final(self).follows(*old(self)),
            spot_run(r, *final(self)) == writing_place(old(self).host(), old(self).pos as nat),
    {
        let none: Vec<Value> = empty_list();
        assert(views(none@) =~= Seq::empty());
        let t: Option<(Value, Option<Value>)> = match self.ask_slot(Op::CurrentScript, none)? {
            Some(script) => self.place_at(&script, Place::After)?,
            None => None,
        };
        match t {
            Some(x) => Ok(x),
            None => {
                let nothing: Vec<Value> = empty_list();
                assert(views(nothing@) =~= Seq::empty());
                let b: Value = self.ask_value(Op::DocumentBody, nothing)?;
                Ok((b, None))
            },
        }
    }

    #[verifier::loop_isolation(false)]
    fn write_nodes(&mut self, place: &(Value, Option<Value>), nodes: &Vec<Value>) -> (r: Result<Vec<Value>, Stop>)
        requires
            old(self).wf(),
        ensures
            final(self).follows(*old(self)),
            run_list(r, *final(self)) == write_nodes(
                old(self).host(),
                old(self).pos as nat,
                (place.0@, opt_view(place.1)),
                views(nodes@),
                0,
                Seq::empty(),
            ),
    {
        let ghost all = views(nodes@);
        let ghost spot = (place.0@, opt_view(place.1));
        let ghost goal = write_nodes(self.host(), self.pos as nat, spot, all, 0, Seq::empty());
        let mut scripts: Vec<Value> = empty_list();
        assert(views(scripts@) =~= Seq::empty());
        let mut i: usize = 0;
        while i < nodes.len()
            invariant
                i <= nodes@.len(),
                self.follows(*old(self)),
                goal == write_nodes(self.host(), self.pos as nat, spot, all, i as int, views(scripts@)),
            decreases nodes@.len() - i,
        {
            assert(all[i as int] == nodes@[i as int]@);
            self.insert_node(&place.0, nodes[i].clone(), &place.1)?;
            let more: Vec<Value> = self.ask_list(Op::ScriptsIn, list1(nodes[i].clone()))?;
            scripts = cat(scripts, &more);
            i = i + 1;
        }
        Ok(scripts)
    }

    fn write_script(&mut self, script: &Value) -> (r: Result<(), Stop>)
        requires
            old(self).wf(),
        ensures
            final(self).follows(*old(self)),
            run_plain(r, *final(self)) == write_script(
                old(self).host(),
                old(self).pos as nat,
                script@,
            ),
    {
        let src: Option<Value> = self.ask_slot(
            Op::AttributeText,
            list2(script.clone(), text_value("src")),
        )?;
        let code: String = self.ask_text(Op::TextContent, list1(script.clone()))?;
        let u: Value = self.ask_value(
            Op::WriteScript,
            list2(crate::elements::undefined_if_none(&src), Value::Str(code)),
        )?;
        Ok(())
    }

    #[verifier::loop_isolation(false)]
    fn write_scripts(&mut self, scripts: &Vec<Value>) -> (r: Result<(), Stop>)
        requires
            old(self).wf(),
        ensures
            final(self).follows(*old(self)),
            run_plain(r, *final(self)) == write_scripts(
                old(self).host(),
                old(self).pos as nat,
                views(scripts@),
                0,
            ),
    {
        let ghost all = views(scripts@);
        let ghost goal = write_scripts(self.host(), self.pos as nat, all, 0);
        let mut i: usize = 0;
        while i < scripts.len()
            invariant
                i <= scripts@.len(),
                self.follows(*old(self)),
                goal == write_scripts(self.host(), self.pos as nat, all, i as int),
            decreases scripts@.len() - i,
        {
            assert(all[i as int] == scripts@[i as int]@);
            self.write_script(&scripts[i])?;
            i = i + 1;
        }
        Ok(())
    }

    fn write_html(&mut self, html: String) -> (r: Result<Value, Stop>)
        requires
            old(self).wf(),
        ensures
            final(self).follows(*old(self)),
            run_value(r, *final(self)) == write_html(
                old(self).host(),
                old(self).pos as nat,
                html@,
            ),
    {
        let place: (Value, Option<Value>) = self.writing_place()?;
        let nodes: Vec<Value> = self.ask_list(Op::ParseHtml, list1(Value::Str(html)))?;
        let scripts: Vec<Value> = self.write_nodes(&place, &nodes)?;
        self.write_scripts(&scripts)?;
        Ok(Value::Undefined)
    }

    /// `document.write`.
    pub fn doc_write(&mut self, recv: &Option<Value>, args: &Vec<Value>) -> (r: Result<Value, Stop>)
        requires
            old(self).wf(),
        ensures
            final(self).follows(*old(self)),
            run_value(r, *final(self)) == doc_write_run(
                old(self).host(),
                old(self).pos as nat,
                opt_view(*recv),
                views(args@),
            ),
    {
        let parts: Vec<String> = self.displays(args)?;
        let html: String = text_together(&parts);
        if is_blank(html.as_str()) {
            return Ok(Value::Undefined);
        }
        let none: Vec<Value> = empty_list();
        assert(views(none@) =~= Seq::empty());
        if self.ask_flag(Op::HasDocument, none)? {
            self.write_html(html)
        } else {
            Ok(Value::Undefined)
        }
    }

    /// `compareDocumentPosition`.
    pub fn compare_doc_position(&mut self, recv: &Option<Value>, args: &Vec<Value>) -> (r: Result<Value, Stop>)
        requires
            old(self).wf(),
        ensures
            final(self).follows(*old(self)),
            run_value(r, *final(self)) == compare_doc_position_run(
                old(self).host(),
                old(self).pos as nat,
                opt_view(*recv),
                views(args@),
            ),
    {
        let a: Value = this_or_undefined(recv);
        let b: Value = arg_at(args, 0);
        if !node_value(&a) || !node_value(&b) || crate::elements::is_same_node(&a, &b) {
            return Ok(Value::Num(Num::from_u64(0)));
        }
        let x: Option<Value> = self.ask_slot(Op::DocumentIndex, list1(a))?;
        let y: Option<Value> = self.ask_slot(Op::DocumentIndex, list1(b))?;
        Ok(Value::Num(Num::from_u64(bits_of_order(&x, &y))))
    }

    /// `getElementsByClassName` and `getElementsByTagName`.
    pub fn get_elements(&mut self, by_class: bool, recv: &Option<Value>, args: &Vec<Value>) -> (r: Result<Value, Stop>)
        requires
            old(self).wf(),
        ensures
            final(self).follows(*old(self)),
            run_value(r, *final(self)) == get_elements_run(
                old(self).host(),
                old(self).pos as nat,
                by_class,
                opt_view(*recv),
                views(args@),
            ),
    {
        let what: String = self.display_arg(args, 0)?;
        let op: Op = if by_class {
            Op::ByClass
        } else {
            Op::ByTag
        };
        let l: Vec<Value> = self.ask_list(op, list2(scope_of(recv), Value::Str(what)))?;
        self.ask_value(Op::NewArray, l)
    }

    /// `querySelector` and `querySelectorAll`.
    pub fn query_selector(&mut self, all: bool, recv: &Option<Value>, args: &Vec<Value>) -> (r: Result<Value, Stop>)
        requires
            old(self).wf(),
        ensures
            final(self).follows(*old(self)),
            run_value(r, *final(self)) == query_selector_run(
                old(self).host(),
                old(self).pos as nat,
                all,
                opt_view(*recv),
                views(args@),
            ),
    {
        let s: String = self.display_arg(args, 0)?;
        self.ask_value(Op::Query, list3(scope_of(recv), Value::Str(s), Value::Bool(all)))
    }

    /// `attachShadow`.
    pub fn attach_shadow(&mut self, recv: &Option<Value>, args: &Vec<Value>) -> (r: Result<Value, Stop>)
        requires
            old(self).wf(),
        ensures
            final(self).follows(*old(self)),
            run_value(r, *final(self)) == attach_shadow_run(
                old(self).host(),
                old(self).pos as nat,
                opt_view(*recv),
                views(args@),
            ),
    {
        let node: Value = this_or_undefined(recv);
        if !node_value(&node) {
            return Ok(Value::Undefined);
        }

        let u: Value = self.ask_value(Op::MarkShadowHost, list1(node.clone()))?;
        Ok(node)
    }

    #[verifier::loop_isolation(false)]
    fn record_objects(&mut self, l: &Vec<Value>) -> (r: Result<Vec<Value>, Stop>)
        requires
            old(self).wf(),
        ensures
            final(self).follows(*old(self)),
            run_list(r, *final(self)) == record_objects(
                old(self).host(),
                old(self).pos as nat,
                views(l@),
                0,
                Seq::empty(),
            ),
    {
        let ghost all = views(l@);
        let ghost goal = record_objects(self.host(), self.pos as nat, all, 0, Seq::empty());
        let mut out: Vec<Value> = empty_list();
        assert(views(out@) =~= Seq::empty());
        let size: usize = l.len();
        let mut i: usize = 0;
        while i < size && size - i > 5
            invariant
                i <= size,
                size == l@.len(),
                self.follows(*old(self)),
                goal == record_objects(self.host(), self.pos as nat, all, i as int, views(out@)),
            decreases size - i,
        {
            let ghost before = views(out@);
            let x: Value = self.ask_value(Op::NewObject, fields_of_record(l, i))?;
            out.push(x);
            assert(views(out@) =~= before.push(x@));
            i = i + 6;
        }
        Ok(out)
    }

    /// What was recorded of changes to the document.
    pub fn take_mutations(&mut self, recv: &Option<Value>, args: &Vec<Value>) -> (r: Result<Value, Stop>)
        requires
            old(self).wf(),
        ensures
            final(self).follows(*old(self)),
            run_value(r, *final(self)) == take_mutations_run(
                old(self).host(),
                old(self).pos as nat,
                opt_view(*recv),
                views(args@),
            ),
    {
        let none: Vec<Value> = empty_list();
        assert(views(none@) =~= Seq::empty());
        let l: Vec<Value> = self.ask_list(Op::TakeRecords, none)?;
        let out: Vec<Value> = self.record_objects(&l)?;
        self.ask_value(Op::NewArray, out)
    }
}

/// A node contains itself, whatever it stands in.
pub proof fn law_contains_itself(h: Host, pos: nat, node: Val)
    requires
        is_node(node),
    ensures
        dom_contains_run(h, pos, Some(node), seq![node]) == done(Val::Bool(true), pos),
{
}

/// Comparing the other way round gives the other answer.
pub proof fn law_order_reversed(a: Option<Val>, b: Option<Val>)
    ensures
        order_bits(a, b) == 4 <==> order_bits(b, a) == 2,
        order_bits(a, b) == 0 <==> order_bits(b, a) == 0,
{
}

} // verus!
