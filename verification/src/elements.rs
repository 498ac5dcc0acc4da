//! The methods of nodes: attributes, character data, and the tree.
use crate::canvas::{display_arg, empty_list};
use crate::class_list::{number_or_zero, place_named};
use crate::code_units::{text_of_units, utf16, utf16_text};
use crate::host::{
    ask_list, ask_number, ask_slot, ask_text, ask_value, chain, done, fail, fail_dom, halted, list1,
    list2, list3, opt_view, raised, run_list, run_plain, run_slot, run_text, run_value, text_in,
    text_value, DomError, Halt, Host, Interp, Op, Run, Stop, Thrown,
};
use crate::json::{text_views, texts_in, texts_of};
use crate::number::{count_of_num, num_of, num_to_count, Num};
use crate::number_format::{this_of, this_or_undefined};
use crate::objects::is_nullish;
use crate::strings::units_of;
use crate::text::{
    ascii_lower, chars_of, concat_text, has_prefix, same_text, starts_with_text, to_ascii_lower,
};
use crate::value::{arg, arg_at, to_bool, truthy, views, ErrorKind, Kind, Val, Value};
use crate::web_state::text_of_value;
use vstd::prelude::*;

verus! {

pub open spec fn is_node(v: Val) -> bool {
    v matches Val::Ref(Kind::Dom, _)
}

/// Whether a node is an element.
pub open spec fn element(h: Host, pos: nat, node: Val) -> Run<bool> {
    chain(
        ask_text(h, pos, Op::NodeKind, seq![node]),
        |k: Seq<char>, p: nat| done(k == "element"@, p),
    )
}

/// The name of an attribute of a node: HTML's elements do not tell upper case from lower case.
pub open spec fn html_name(h: Host, pos: nat, node: Val, raw: Seq<char>) -> Run<Seq<char>> {
    chain(
        element(h, pos, node),
        |e: bool, p: nat|
            if !e {
                done(raw, p)
            } else {
                chain(
                    ask_slot(h, p, Op::ElementNamespace, seq![node]),
                    |ns: Option<Val>, q: nat|
                        done(
                            if ns is None {
                                ascii_lower(raw)
                            } else {
                                raw
                            },
                            q,
                        ),
                )
            },
    )
}

/// An attribute of a node; what is no element has none.
pub open spec fn attribute(h: Host, pos: nat, node: Val, name: Seq<char>) -> Run<Option<Val>> {
    chain(
        element(h, pos, node),
        |e: bool, p: nat|
            if e {
                ask_slot(h, p, Op::AttributeText, seq![node, Val::Str(name)])
            } else {
                done(None, p)
            },
    )
}

pub open spec fn or_null(s: Option<Val>) -> Val {
    match s {
        Some(v) => v,
        None => Val::Null,
    }
}

/// `getAttribute`.
pub open spec fn get_attribute_run(h: Host, pos: nat, recv: Option<Val>, args: Seq<Val>) -> Run<Val> {
    let node = this_of(recv);
    if is_node(node) {
        chain(
            display_arg(h, pos, args, 0),
            |raw: Seq<char>, p0: nat|
                chain(
                    html_name(h, p0, node, raw),
                    |name: Seq<char>, p1: nat|
                        chain(
                            attribute(h, p1, node, name),
                            |s: Option<Val>, p2: nat| done(or_null(s), p2),
                        ),
                ),
        )
    } else {
        chain(
            match recv {
                Some(v) => ask_text(h, pos, Op::TypeOf, seq![v]),
                None => done("없음"@, pos),
            },
            |t: Seq<char>, p: nat|
                raised(ErrorKind::Error, "getAttribute 는 요소 메서드 (수신자="@ + t + ")"@, p),
        )
    }
}

/// `hasAttribute`.
pub open spec fn has_attribute_run(h: Host, pos: nat, recv: Option<Val>, args: Seq<Val>) -> Run<Val> {
    let node = this_of(recv);
    if !is_node(node) {
        done(Val::Bool(false), pos)
    } else {
        chain(
            display_arg(h, pos, args, 0),
            |raw: Seq<char>, p0: nat|
                chain(
                    html_name(h, p0, node, raw),
                    |name: Seq<char>, p1: nat|
                        chain(
                            attribute(h, p1, node, name),
                            |s: Option<Val>, p2: nat| done(Val::Bool(s is Some), p2),
                        ),
                ),
        )
    }
}

pub open spec fn drop_attribute(h: Host, pos: nat, node: Val, name: Seq<char>, r: Val) -> Run<Val> {
    chain(
        ask_value(h, pos, Op::DropAttribute, seq![node, Val::Str(name)]),
        |u: Val, p: nat| done(r, p),
    )
}

pub open spec fn put_attribute(
    h: Host,
    pos: nat,
    node: Val,
    name: Seq<char>,
    value: Seq<char>,
    r: Val,
) -> Run<Val> {
    chain(
        ask_value(h, pos, Op::SetAttributeText, seq![node, Val::Str(name), Val::Str(value)]),
        |u: Val, p: nat| done(r, p),
    )
}

/// `removeAttribute`.
pub open spec fn remove_attribute_run(h: Host, pos: nat, recv: Option<Val>, args: Seq<Val>) -> Run<Val> {
    let node = this_of(recv);
    if !is_node(node) {
        done(Val::Undefined, pos)
    } else {
        chain(
            display_arg(h, pos, args, 0),
            |raw: Seq<char>, p0: nat|
                chain(
                    html_name(h, p0, node, raw),
                    |name: Seq<char>, p1: nat| drop_attribute(h, p1, node, name, Val::Undefined),
                ),
        )
    }
}

/// `setAttribute`.
pub open spec fn set_attribute_run(h: Host, pos: nat, recv: Option<Val>, args: Seq<Val>) -> Run<Val> {
    let node = this_of(recv);
    if !is_node(node) {
        raised(ErrorKind::TypeError, "setAttribute 는 요소 메서드"@, pos)
    } else {
        chain(
            display_arg(h, pos, args, 0),
            |raw: Seq<char>, p0: nat|
                chain(
                    ask_text(h, p0, Op::AttributeName, seq![node, Val::Str(raw)]),
                    |name: Seq<char>, p1: nat|
                        chain(
                            display_arg(h, p1, args, 1),
                            |value: Seq<char>, p2: nat|
                                put_attribute(h, p2, node, name, value, Val::Undefined),
                        ),
                ),
        )
    }
}

/// The names of a node's attributes; what is no element has none.
pub open spec fn attribute_names(h: Host, pos: nat, node: Val) -> Run<Seq<Val>> {
    chain(
        element(h, pos, node),
        |e: bool, p: nat|
            if e {
                ask_list(h, p, Op::AttributeNames, seq![node])
            } else {
                done(Seq::empty(), p)
            },
    )
}

/// `getAttributeNames`.
pub open spec fn get_attribute_names_run(h: Host, pos: nat, recv: Option<Val>, args: Seq<Val>) -> Run<
    Val,
> {
    let node = this_of(recv);
    if !is_node(node) {
        done(Val::Undefined, pos)
    } else {
        chain(
            attribute_names(h, pos, node),
            |l: Seq<Val>, p: nat| ask_value(h, p, Op::NewArray, l),
        )
    }
}

/// `hasAttributes`.
pub open spec fn has_attributes_run(h: Host, pos: nat, recv: Option<Val>, args: Seq<Val>) -> Run<Val> {
    let node = this_of(recv);
    if !is_node(node) {
        done(Val::Bool(false), pos)
    } else {
        chain(
            attribute_names(h, pos, node),
            |l: Seq<Val>, p: nat| done(Val::Bool(l.len() > 0), p),
        )
    }
}

/// Adds an attribute without a value, or removes it.
pub open spec fn toggle_to(h: Host, pos: nat, node: Val, name: Seq<char>, want: bool) -> Run<Val> {
    if want {
        put_attribute(h, pos, node, name, Seq::empty(), Val::Bool(true))
    } else {
        drop_attribute(h, pos, node, name, Val::Bool(false))
    }
}

/// `toggleAttribute`: whether the attribute is there afterwards.
pub open spec fn toggle_attribute_run(h: Host, pos: nat, recv: Option<Val>, args: Seq<Val>) -> Run<Val> {
    let node = this_of(recv);
    if !is_node(node) {
        done(Val::Bool(false), pos)
    } else {
        chain(
            display_arg(h, pos, args, 0),
            |raw: Seq<char>, p0: nat|
                chain(
                    ask_text(h, p0, Op::AttributeName, seq![node, Val::Str(raw)]),
                    |name: Seq<char>, p1: nat|
                        chain(
                            attribute(h, p1, node, name),
                            |s: Option<Val>, p2: nat|
                                toggle_to(
                                    h,
                                    p2,
                                    node,
                                    name,
                                    if args.len() > 1 {
                                        truthy(args[1])
                                    } else {
                                        s is None
                                    },
                                ),
                        ),
                ),
        )
    }
}

/// A name without its prefix: what follows the last colon.
pub open spec fn local_name(name: Seq<char>) -> Seq<char>
    decreases name.len(),
{
    if name.len() == 0 {
        Seq::empty()
    } else if name.last() == ':' {
        Seq::empty()
    } else {
        local_name(name.drop_last()).push(name.last())
    }
}

/// The first name from the `i`-th on that is a local name, or ends in it after a colon.
pub open spec fn named_locally(names: Seq<Seq<char>>, i: int, local: Seq<char>) -> Option<Seq<char>>
    decreases names.len() - i,
{
    if !(0 <= i < names.len()) {
        None
    } else if names[i] == local || local_name(names[i]) == local {
        Some(names[i])
    } else {
        named_locally(names, i + 1, local)
    }
}

/// The name of the attribute that a local name finds.
pub open spec fn found_locally(h: Host, pos: nat, node: Val, args: Seq<Val>) -> Run<Option<Seq<char>>> {
    chain(
        display_arg(h, pos, args, 1),
        |local: Seq<char>, p: nat|
            chain(
                attribute_names(h, p, node),
                |l: Seq<Val>, q: nat| done(named_locally(texts_in(l), 0, local), q),
            ),
    )
}

/// `getAttributeNS`.
pub open spec fn get_attribute_ns_run(h: Host, pos: nat, recv: Option<Val>, args: Seq<Val>) -> Run<Val> {
    let node = this_of(recv);
    if !is_node(node) {
        done(Val::Null, pos)
    } else {
        chain(
            found_locally(h, pos, node, args),
            |f: Option<Seq<char>>, p: nat|
                match f {
                    None => done(Val::Null, p),
                    Some(name) => chain(
                        ask_slot(h, p, Op::AttributeText, seq![node, Val::Str(name)]),
                        |s: Option<Val>, q: nat| done(or_null(s), q),
                    ),
                },
        )
    }
}

/// `hasAttributeNS`.
pub open spec fn has_attribute_ns_run(h: Host, pos: nat, recv: Option<Val>, args: Seq<Val>) -> Run<Val> {
    let node = this_of(recv);
    if !is_node(node) {
        done(Val::Null, pos)
    } else {
        chain(
            found_locally(h, pos, node, args),
            |f: Option<Seq<char>>, p: nat| done(Val::Bool(f is Some), p),
        )
    }
}

/// `removeAttributeNS`.
pub open spec fn remove_attribute_ns_run(h: Host, pos: nat, recv: Option<Val>, args: Seq<Val>) -> Run<
    Val,
> {
    let node = this_of(recv);
    if !is_node(node) {
        done(Val::Null, pos)
    } else {
        chain(
            found_locally(h, pos, node, args),
            |f: Option<Seq<char>>, p: nat|
                match f {
                    None => done(Val::Undefined, p),
                    Some(name) => drop_attribute(h, p, node, name, Val::Undefined),
                },
        )
    }
}

/// `setAttributeNS`.
pub open spec fn set_attribute_ns_run(h: Host, pos: nat, recv: Option<Val>, args: Seq<Val>) -> Run<Val> {
    let node = this_of(recv);
    if !is_node(node) {
        raised(ErrorKind::TypeError, "setAttributeNS 는 요소 메서드"@, pos)
    } else {
        chain(
            display_arg(h, pos, args, 1),
            |name: Seq<char>, p0: nat|
                chain(
                    display_arg(h, p0, args, 2),
                    |value: Seq<char>, p1: nat|
                        if name.len() == 0 {
                            halted(
                                Halt::Throw(
                                    Thrown::Dom(
                                        DomError::InvalidCharacterError,
                                        "속성 이름이 비었다"@,
                                    ),
                                ),
                                p1,
                            )
                        } else {
                            put_attribute(h, p1, node, name, value, Val::Undefined)
                        },
                ),
        )
    }
}

/// `getAttributeNode`.
pub open spec fn get_attribute_node_run(h: Host, pos: nat, recv: Option<Val>, args: Seq<Val>) -> Run<Val> {
    let node = this_of(recv);
    if !is_node(node) {
        done(Val::Null, pos)
    } else {
        chain(
            display_arg(h, pos, args, 0),
            |raw: Seq<char>, p0: nat|
                chain(
                    attribute(h, p0, node, ascii_lower(raw)),
                    |s: Option<Val>, p1: nat|
                        if s is Some {
                            ask_value(h, p1, Op::NewAttr, seq![node, Val::Str(ascii_lower(raw))])
                        } else {
                            done(Val::Null, p1)
                        },
                ),
        )
    }
}

/// An attribute's text; empty where there is none.
pub open spec fn text_of_attribute(h: Host, pos: nat, node: Val, name: Seq<char>) -> Run<Seq<char>> {
    chain(
        attribute(h, pos, node, name),
        |s: Option<Val>, p: nat|
            done(
                match s {
                    Some(v) => text_in(v),
                    None => Seq::empty(),
                },
                p,
            ),
    )
}

/// `setAttributeNode`: the attribute node where there was such an attribute before.
pub open spec fn set_attribute_node_run(h: Host, pos: nat, recv: Option<Val>, args: Seq<Val>) -> Run<Val> {
    let node = this_of(recv);
    let a = arg(args, 0);
    if !is_node(node) {
        done(Val::Null, pos)
    } else if !(a matches Val::Ref(Kind::Attr, _)) {
        raised(ErrorKind::TypeError, "setAttributeNode 인자는 Attr"@, pos)
    } else {
        chain(
            ask_value(h, pos, Op::AttrOwner, seq![a]),
            |owner: Val, p0: nat|
                chain(
                    ask_text(h, p0, Op::AttrName, seq![a]),
                    |name: Seq<char>, p1: nat|
                        chain(
                            text_of_attribute(h, p1, owner, name),
                            |value: Seq<char>, p2: nat| attribute_moved(h, p2, node, name, value),
                        ),
                ),
        )
    }
}

pub open spec fn attribute_moved(
    h: Host,
    pos: nat,
    node: Val,
    name: Seq<char>,
    value: Seq<char>,
) -> Run<Val> {
    chain(
        attribute(h, pos, node, name),
        |before: Option<Val>, p0: nat|
            chain(
                put_attribute(h, p0, node, name, value, Val::Null),
                |r: Val, p1: nat|
                    if before is Some {
                        ask_value(h, p1, Op::NewAttr, seq![node, Val::Str(name)])
                    } else {
                        done(r, p1)
                    },
            ),
    )
}

/// `removeAttributeNode`.
pub open spec fn remove_attribute_node_run(h: Host, pos: nat, recv: Option<Val>, args: Seq<Val>) -> Run<
    Val,
> {
    let node = this_of(recv);
    let a = arg(args, 0);
    if !is_node(node) {
        done(Val::Null, pos)
    } else if !(a matches Val::Ref(Kind::Attr, _)) {
        raised(ErrorKind::TypeError, "removeAttributeNode 인자는 Attr"@, pos)
    } else {
        chain(
            ask_text(h, pos, Op::AttrName, seq![a]),
            |name: Seq<char>, p0: nat|
                chain(
                    drop_attribute(h, p0, node, name, Val::Undefined),
                    |u: Val, p1: nat|
                        ask_value(h, p1, Op::NewAttr, seq![node, Val::Str(name)]),
                ),
        )
    }
}

/// The methods of character data.
#[derive(Debug, Clone, Copy, PartialEq, Eq, Structural)]
pub enum CharDataOp {
    Append,
    Insert,
    Substring,
    Delete,
    Replace,
}

/// Code units with some of them replaced by others.
pub open spec fn spliced(u: Seq<u16>, offset: int, count: int, data: Seq<u16>) -> Seq<u16> {
    u.take(offset) + data + u.skip(offset + count)
}

/// How many of the code units from a place on are meant.
pub open spec fn clamped(len: nat, offset: int, count: int) -> int {
    if count <= len - offset {
        count
    } else {
        len - offset
    }
}

/// An argument as a count of code units.
pub open spec fn count_arg(h: Host, pos: nat, args: Seq<Val>, i: int) -> Run<u64> {
    if 0 <= i < args.len() {
        chain(
            ask_number(h, pos, Op::DelayOf, seq![args[i]]),
            |n: Num, p: nat| done(count_of_num(n), p),
        )
    } else {
        done(0, pos)
    }
}

/// What a method of character data gets: a place, a count, and a text.
pub open spec fn data_args(h: Host, pos: nat, op: CharDataOp, len: u64, args: Seq<Val>) -> Run<
    (u64, u64, Seq<char>),
> {
    match op {
        CharDataOp::Append => chain(
            display_arg(h, pos, args, 0),
            |s: Seq<char>, p: nat| done((len, 0u64, s), p),
        ),
        CharDataOp::Insert => chain(
            count_arg(h, pos, args, 0),
            |o: u64, p: nat|
                chain(display_arg(h, p, args, 1), |s: Seq<char>, q: nat| done((o, 0u64, s), q)),
        ),
        CharDataOp::Substring | CharDataOp::Delete => chain(
            count_arg(h, pos, args, 0),
            |o: u64, p: nat|
                chain(
                    count_arg(h, p, args, 1),
                    |n: u64, q: nat| done((o, n, Seq::<char>::empty()), q),
                ),
        ),
        CharDataOp::Replace => chain(
            count_arg(h, pos, args, 0),
            |o: u64, p: nat|
                chain(
                    count_arg(h, p, args, 1),
                    |n: u64, q: nat|
                        chain(display_arg(h, q, args, 2), |s: Seq<char>, r: nat| done((o, n, s), r)),
                ),
        ),
    }
}

pub open spec fn index_size_error<T>(pos: nat) -> Run<T> {
    halted(
        Halt::Throw(Thrown::Dom(DomError::IndexSizeError, "offset 이 데이터 길이를 넘음"@)),
        pos,
    )
}

/// A method of character data on these code units.
pub open spec fn data_method(
    h: Host,
    pos: nat,
    node: Val,
    op: CharDataOp,
    u: Seq<u16>,
    a: (u64, u64, Seq<char>),
) -> Run<Val> {
    let offset = a.0 as int;
    let count = clamped(u.len(), offset, a.1 as int);
    if offset > u.len() {
        index_size_error(pos)
    } else if op == CharDataOp::Substring {
        done(Val::Str(utf16_text(u.subrange(offset, offset + count))), pos)
    } else {
        chain(
            ask_value(
                h,
                pos,
                Op::SetNodeData,
                seq![node, Val::Str(utf16_text(spliced(u, offset, count, utf16(a.2))))],
            ),
            |r: Val, p: nat| done(Val::Undefined, p),
        )
    }
}

/// `appendData`, `insertData`, `substringData`, `deleteData` and `replaceData`. Places and counts
/// are of UTF-16 code units.
pub open spec fn char_data_run(
    h: Host,
    pos: nat,
    op: CharDataOp,
    recv: Option<Val>,
    args: Seq<Val>,
) -> Run<Val> {
    let node = this_of(recv);
    if !is_node(node) {
        raised(ErrorKind::TypeError, "CharacterData 메서드"@, pos)
    } else {
        chain(
            element(h, pos, node),
            |e: bool, p0: nat|
                if e {
                    raised(ErrorKind::TypeError, "요소에는 문자 데이터가 없다"@, p0)
                } else {
                    chain(
                        ask_text(h, p0, Op::NodeData, seq![node]),
                        |s: Seq<char>, p1: nat| data_of(h, p1, node, op, utf16(s), args),
                    )
                },
        )
    }
}

pub open spec fn data_of(
    h: Host,
    pos: nat,
    node: Val,
    op: CharDataOp,
    u: Seq<u16>,
    args: Seq<Val>,
) -> Run<Val> {
    chain(
        data_args(h, pos, op, u.len() as u64, args),
        |a: (u64, u64, Seq<char>), p: nat| data_method(h, p, node, op, u, a),
    )
}

/// Whether two handles are of the same node.
pub open spec fn same_node(a: Val, b: Val) -> bool {
    match (a, b) {
        (Val::Ref(k, i), Val::Ref(l, j)) => k == l && i == j,
        _ => false,
    }
}

/// The node that follows another in a list; none where there is none.
pub open spec fn next_in(children: Seq<Val>, i: int, node: Val) -> Option<Val>
    decreases children.len() - i,
{
    if !(0 <= i < children.len()) {
        None
    } else if same_node(children[i], node) {
        if i + 1 < children.len() {
            Some(children[i + 1])
        } else {
            None
        }
    } else {
        next_in(children, i + 1, node)
    }
}

/// The next sibling of a node in its parent.
pub open spec fn next_sibling(h: Host, pos: nat, parent: Val, node: Val) -> Run<Option<Val>> {
    chain(
        ask_list(h, pos, Op::NodeChildren, seq![parent]),
        |l: Seq<Val>, p: nat| done(next_in(l, 0, node), p),
    )
}

pub open spec fn or_undefined(v: Option<Val>) -> Val {
    match v {
        Some(x) => x,
        None => Val::Undefined,
    }
}

pub open spec fn insert_node(h: Host, pos: nat, parent: Val, node: Val, reference: Option<Val>) -> Run<
    (),
> {
    chain(
        ask_value(h, pos, Op::InsertNode, seq![parent, node, or_undefined(reference)]),
        |u: Val, p: nat| done((), p),
    )
}

/// Inserts nodes from the `i`-th on, each before the same reference.
pub open spec fn insert_all(
    h: Host,
    pos: nat,
    parent: Val,
    nodes: Seq<Val>,
    i: int,
    reference: Option<Val>,
) -> Run<()>
    decreases nodes.len() - i,
{
    if !(0 <= i < nodes.len()) {
        done((), pos)
    } else {
        let s = insert_node(h, pos, parent, nodes[i], reference);
        match s.out {
            Err(e) => halted(e, s.pos),
            Ok(_) => insert_all(h, s.pos, parent, nodes, i + 1, reference),
        }
    }
}

/// Puts the rest of a split text behind it.
pub open spec fn split_tail(h: Host, pos: nat, node: Val, tail: Val) -> Run<Val> {
    chain(
        ask_slot(h, pos, Op::NodeParent, seq![node]),
        |parent: Option<Val>, p0: nat|
            match parent {
                None => done(tail, p0),
                Some(q) => chain(
                    next_sibling(h, p0, q, node),
                    |next: Option<Val>, p1: nat|
                        chain(insert_node(h, p1, q, tail, next), |u: (), p2: nat| done(tail, p2)),
                ),
            },
    )
}

/// `splitText` of a text of these code units.
pub open spec fn split_at(h: Host, pos: nat, node: Val, u: Seq<u16>, offset: int) -> Run<Val> {
    if offset > u.len() {
        index_size_error(pos)
    } else {
        chain(
            ask_value(h, pos, Op::SetNodeData, seq![node, Val::Str(utf16_text(u.take(offset)))]),
            |r: Val, p0: nat|
                chain(
                    ask_value(h, p0, Op::NewText, seq![Val::Str(utf16_text(u.skip(offset)))]),
                    |tail: Val, p1: nat| split_tail(h, p1, node, tail),
                ),
        )
    }
}

/// `splitText`: the new text node with what follows the place.
pub open spec fn split_text_run(h: Host, pos: nat, recv: Option<Val>, args: Seq<Val>) -> Run<Val> {
    let node = this_of(recv);
    if !is_node(node) {
        raised(ErrorKind::TypeError, "splitText 는 Text 메서드"@, pos)
    } else {
        chain(
            count_arg(h, pos, args, 0),
            |offset: u64, p0: nat|
                chain(
                    ask_text(h, p0, Op::NodeKind, seq![node]),
                    |k: Seq<char>, p1: nat|
                        if k != "text"@ {
                            raised(ErrorKind::TypeError, "splitText 는 Text 메서드"@, p1)
                        } else {
                            chain(
                                ask_text(h, p1, Op::NodeData, seq![node]),
                                |s: Seq<char>, p2: nat|
                                    split_at(h, p2, node, utf16(s), offset as int),
                            )
                        },
                ),
        )
    }
}

/// A namespace as an argument: none where it is undefined, null or empty.
pub open spec fn namespace_arg(h: Host, pos: nat, v: Val) -> Run<Option<Seq<char>>> {
    if v is Undefined || v is Null {
        done(None, pos)
    } else {
        chain(
            ask_text(h, pos, Op::Display, seq![v]),
            |s: Seq<char>, p: nat|
                done(
                    if s.len() == 0 {
                        None
                    } else {
                        Some(s)
                    },
                    p,
                ),
        )
    }
}

/// The namespace of a prefix.
pub open spec fn located(h: Host, pos: nat, node: Val, prefix: Seq<char>) -> Run<Option<Seq<char>>> {
    chain(
        ask_slot(h, pos, Op::LocateNamespace, seq![node, Val::Str(prefix)]),
        |s: Option<Val>, p: nat|
            done(
                match s {
                    Some(v) => Some(text_in(v)),
                    None => None,
                },
                p,
            ),
    )
}

/// `lookupNamespaceURI`.
pub open spec fn lookup_namespace_uri_run(h: Host, pos: nat, recv: Option<Val>, args: Seq<Val>) -> Run<
    Val,
> {
    let node = this_of(recv);
    let a = arg(args, 0);
    if !is_node(node) {
        done(Val::Null, pos)
    } else {
        chain(
            if a is Undefined || a is Null {
                done(Seq::empty(), pos)
            } else {
                ask_text(h, pos, Op::Display, seq![a])
            },
            |prefix: Seq<char>, p: nat|
                chain(
                    located(h, p, node, prefix),
                    |ns: Option<Seq<char>>, q: nat|
                        done(
                            match ns {
                                Some(s) => Val::Str(s),
                                None => Val::Null,
                            },
                            q,
                        ),
                ),
        )
    }
}

/// `isDefaultNamespace`.
pub open spec fn is_default_namespace_run(h: Host, pos: nat, recv: Option<Val>, args: Seq<Val>) -> Run<
    Val,
> {
    let node = this_of(recv);
    if !is_node(node) {
        done(Val::Null, pos)
    } else {
        chain(
            located(h, pos, node, Seq::empty()),
            |ns: Option<Seq<char>>, p: nat|
                chain(
                    namespace_arg(h, p, arg(args, 0)),
                    |want: Option<Seq<char>>, q: nat| done(Val::Bool(ns == want), q),
                ),
        )
    }
}

/// `lookupPrefix`.
pub open spec fn lookup_prefix_run(h: Host, pos: nat, recv: Option<Val>, args: Seq<Val>) -> Run<Val> {
    let node = this_of(recv);
    if !is_node(node) {
        done(Val::Null, pos)
    } else {
        chain(
            namespace_arg(h, pos, arg(args, 0)),
            |ns: Option<Seq<char>>, p: nat|
                match ns {
                    None => done(Val::Null, p),
                    Some(s) => chain(
                        ask_slot(h, p, Op::LocatePrefix, seq![node, Val::Str(s)]),
                        |f: Option<Val>, q: nat| done(or_null(f), q),
                    ),
                },
        )
    }
}

/// The names of an element's interfaces, from its own on.
pub open spec fn interfaces(own: Seq<char>) -> Seq<Seq<char>> {
    let base = if has_prefix(own, "SVG"@) {
        "SVGElement"@
    } else {
        "HTMLElement"@
    };
    let front = if own == base {
        seq![own]
    } else {
        seq![own, base]
    };
    front + seq!["Element"@, "Node"@, "EventTarget"@]
}

/// The names of the interfaces of something that the document's interfaces give out.
pub open spec fn brands(h: Host, pos: nat, v: Val) -> Run<Seq<Seq<char>>> {
    match v {
        Val::Ref(Kind::Dom, _) => chain(
            ask_text(h, pos, Op::NodeKind, seq![v]),
            |k: Seq<char>, p: nat|
                if k == "element"@ {
                    chain(
                        ask_text(h, p, Op::InterfaceName, seq![v]),
                        |own: Seq<char>, q: nat| done(interfaces(own), q),
                    )
                } else if k == "text"@ {
                    done(seq!["Text"@, "CharacterData"@, "Node"@, "EventTarget"@], p)
                } else {
                    done(seq!["Comment"@, "CharacterData"@, "Node"@, "EventTarget"@], p)
                },
        ),
        Val::Ref(Kind::Attr, _) => done(seq!["Attr"@, "Node"@, "EventTarget"@], pos),
        Val::Ref(Kind::Sheet, _) => done(seq!["CSSStyleSheet"@, "StyleSheet"@], pos),
        Val::Ref(Kind::CssRule, _) => done(seq!["CSSStyleRule"@, "CSSRule"@], pos),
        Val::Ref(Kind::RuleStyle, _) => done(seq!["CSSStyleDeclaration"@], pos),
        Val::Ref(Kind::Style, _) => done(seq!["CSSStyleDeclaration"@], pos),
        Val::Ref(Kind::ComputedStyle, _) => done(seq!["CSSStyleDeclaration"@], pos),
        _ => done(Seq::empty(), pos),
    }
}

/// The chain of interfaces as an array.
pub open spec fn brand_run(h: Host, pos: nat, recv: Option<Val>, args: Seq<Val>) -> Run<Val> {
    chain(
        brands(h, pos, arg(args, 0)),
        |l: Seq<Seq<char>>, p: nat|
            ask_value(h, p, Op::NewArray, crate::reflect::text_vals(l)),
    )
}

/// `item` of a collection.
pub open spec fn list_item_run(h: Host, pos: nat, recv: Option<Val>, args: Seq<Val>) -> Run<Val> {
    let v = this_of(recv);
    chain(
        number_or_zero(h, pos, args, 0),
        |n: Num, p: nat|
            if !(v matches Val::Ref(Kind::Arr, _)) || crate::number::greater(num_of(0), n) {
                done(Val::Null, p)
            } else {
                chain(
                    ask_list(h, p, Op::Elements, seq![v]),
                    |l: Seq<Val>, q: nat|
                        done(
                            match place_named(n, l.len()) {
                                Some(i) => l[i],
                                None => Val::Null,
                            },
                            q,
                        ),
                )
            },
    )
}

pub open spec fn opt_text_run(r: Result<Option<String>, Stop>, it: Interp) -> Run<Option<Seq<char>>> {
    match r {
        Ok(Some(o)) => done(Some(o@), it.pos as nat),
        Ok(None) => done(None, it.pos as nat),
        Err(e) => halted(e@, it.pos as nat),
    }
}

pub open spec fn data_args_run(r: Result<(u64, u64, String), Stop>, it: Interp) -> Run<
    (u64, u64, Seq<char>),
> {
    match r {
        Ok(o) => done((o.0, o.1, o.2@), it.pos as nat),
        Err(e) => halted(e@, it.pos as nat),
    }
}

pub fn node_value(v: &Value) -> (r: bool)
    ensures
        r == is_node(v@),
{
    matches!(v, Value::Ref(Kind::Dom, _))
}

pub fn null_if_none(s: Option<Value>) -> (r: Value)
    ensures
        r@ == or_null(opt_view(s)),
{
    match s {
        Some(v) => v,
        None => Value::Null,
    }
}

pub fn undefined_if_none(s: &Option<Value>) -> (r: Value)
    ensures
        r@ == or_undefined(opt_view(*s)),
{
    match s {
        Some(v) => v.clone(),
        None => Value::Undefined,
    }
}

fn after_colon(name: &str) -> (r: String)
    ensures
        r@ == local_name(name@),
{
    let cs: Vec<char> = chars_of(name);
    let mut i: usize = cs.len();
    assert(name@.take(i as int) =~= name@);
    assert(local_name(name@) =~= local_name(name@.take(i as int)) + name@.skip(i as int));
    while i > 0
        invariant
            i <= cs@.len(),
            cs@ == name@,
            local_name(name@) == local_name(name@.take(i as int)) + name@.skip(i as int),
        decreases i,
    {
        let ghost part = name@.take(i as int);
        assert(part.last() == cs@[i - 1]);
        assert(part.drop_last() =~= name@.take(i - 1));
        if cs[i - 1] == ':' {
            assert(local_name(name@) =~= name@.subrange(i as int, name@.len() as int));
            return crate::text::string_of_range(&cs, i, cs.len());
        }
        assert(local_name(part) + name@.skip(i as int) =~= local_name(name@.take(i - 1))
            + name@.skip(i - 1));
        i = i - 1;
    }
    assert(local_name(name@) =~= name@.subrange(0, name@.len() as int));
    crate::text::string_of_range(&cs, 0, cs.len())
}

fn find_local(names: &Vec<String>, local: &str) -> (r: Option<String>)
    ensures
        match r {
            Some(s) => named_locally(text_views(names@), 0, local@) == Some(s@),
            None => named_locally(text_views(names@), 0, local@) is None,
        },
{
    let ghost all = text_views(names@);
    let mut i: usize = 0;
    while i < names.len()
        invariant
            i <= names@.len(),
            all == text_views(names@),
            named_locally(all, 0, local@) == named_locally(all, i as int, local@),
        decreases names@.len() - i,
    {
        assert(all[i as int] == names@[i as int]@);
        if same_text(names[i].as_str(), local) || same_text(
            after_colon(names[i].as_str()).as_str(),
            local,
        ) {
            return Some(names[i].clone());
        }
        i = i + 1;
    }
    None
}

fn units_between(u: &Vec<u16>, from: usize, to: usize) -> (r: Vec<u16>)
    requires
        from <= to <= u@.len(),
    ensures
        r@ == u@.subrange(from as int, to as int),
{
    let mut out: Vec<u16> = Vec::new();
    let mut i: usize = from;
    while i < to
        invariant
            from <= i <= to <= u@.len(),
            out@ == u@.subrange(from as int, i as int),
        decreases to - i,
    {
        out.push(u[i]);
        i = i + 1;
        assert(out@ =~= u@.subrange(from as int, i as int));
    }
    out
}

fn splice_units(u: &Vec<u16>, offset: usize, count: usize, data: &Vec<u16>) -> (r: Vec<u16>)
    requires
        offset + count <= u@.len(),
    ensures
        r@ == spliced(u@, offset as int, count as int, data@),
{
    let mut out: Vec<u16> = units_between(u, 0, offset);
    let mut middle: Vec<u16> = units_between(data, 0, data.len());
    let size: usize = u.len();
    let mut tail: Vec<u16> = units_between(u, offset + count, size);
    let ghost a = out@;
    let ghost b = middle@;
    let ghost c = tail@;
    out.append(&mut middle);
    out.append(&mut tail);
    assert(a =~= u@.take(offset as int));
    assert(b =~= data@);
    assert(c =~= u@.skip(offset + count));
    assert(out@ =~= spliced(u@, offset as int, count as int, data@));
    out
}

/// The node that follows another in a list.
pub fn find_next(children: &Vec<Value>, node: &Value) -> (r: Option<Value>)
    ensures
        opt_view(r) == next_in(views(children@), 0, node@),
{
    let ghost all = views(children@);
    let size: usize = children.len();
    let mut i: usize = 0;
    while i < size
        invariant
            i <= size,
            size == children@.len(),
            all == views(children@),
            next_in(all, 0, node@) == next_in(all, i as int, node@),
        decreases size - i,
    {
        assert(all[i as int] == children@[i as int]@);
        if is_same_node(&children[i], node) {
            if size - i > 1 {
                assert(all[i + 1] == children@[i + 1]@);
                return Some(children[i + 1].clone());
            } else {
                return None;
            }
        }
        i = i + 1;
    }
    None
}

pub fn is_same_node(a: &Value, b: &Value) -> (r: bool)
    ensures
        r == same_node(a@, b@),
{
    match (a, b) {
        (Value::Ref(k, i), Value::Ref(l, j)) => *k == *l && *i == *j,
        _ => false,
    }
}

fn single_text(a: &str) -> (r: Vec<String>)
    ensures
        text_views(r@) == seq![a@],
{
    let mut v: Vec<String> = Vec::new();
    v.push(a.to_owned());
    assert(text_views(v@) =~= seq![a@]);
    v
}

fn two_texts(a: &str, b: &str) -> (r: Vec<String>)
    ensures
        text_views(r@) == seq![a@, b@],
{
    let mut v: Vec<String> = single_text(a);
    let ghost before = text_views(v@);
    v.push(b.to_owned());
    assert(text_views(v@) =~= before.push(b@));
    assert(text_views(v@) =~= seq![a@, b@]);
    v
}

fn three_texts(a: &str, b: &str, c: &str) -> (r: Vec<String>)
    ensures
        text_views(r@) == seq![a@, b@, c@],
{
    let mut v: Vec<String> = two_texts(a, b);
    let ghost before = text_views(v@);
    v.push(c.to_owned());
    assert(text_views(v@) =~= before.push(c@));
    assert(text_views(v@) =~= seq![a@, b@, c@]);
    v
}

fn four_texts(a: &str, b: &str, c: &str, d: &str) -> (r: Vec<String>)
    ensures
        text_views(r@) == seq![a@, b@, c@, d@],
{
    let mut v: Vec<String> = three_texts(a, b, c);
    let ghost before = text_views(v@);
    v.push(d.to_owned());
    assert(text_views(v@) =~= before.push(d@));
    assert(text_views(v@) =~= seq![a@, b@, c@, d@]);
    v
}

fn interfaces_of(own: &str) -> (r: Vec<String>)
    ensures
        text_views(r@) == interfaces(own@),
{
    let base: &str = if starts_with_text(own, "SVG") {
        "SVGElement"
    } else {
        "HTMLElement"
    };
    let mut v: Vec<String> = if same_text(own, base) {
        single_text(own)
    } else {
        two_texts(own, base)
    };
    let ghost front = text_views(v@);
    let mut tail: Vec<String> = three_texts("Element", "Node", "EventTarget");
    let ghost back = text_views(tail@);
    v.append(&mut tail);
    assert(text_views(v@) =~= front + back);
    v
}

impl Interp {
    fn element(&mut self, node: &Value) -> (r: Result<bool, Stop>)
        requires
            old(self).wf(),
        ensures
            final(self).follows(*old(self)),
            run_plain(r, *final(self)) == element(
                old(self).host(),
                old(self).pos as nat,
                node@,
            ),
    {
        let k: String = self.ask_text(Op::NodeKind, list1(node.clone()))?;
        Ok(same_text(k.as_str(), "element"))
    }

    fn html_name(&mut self, node: &Value, raw: String) -> (r: Result<String, Stop>)
        requires
            old(self).wf(),
        ensures
            final(self).follows(*old(self)),
            run_text(r, *final(self)) == html_name(
                old(self).host(),
                old(self).pos as nat,
                node@,
                raw@,
            ),
    {
        if !self.element(node)? {
            return Ok(raw);
        }
        let ns: Option<Value> = self.ask_slot(Op::ElementNamespace, list1(node.clone()))?;
        if ns.is_none() {
            Ok(to_ascii_lower(raw.as_str()))
        } else {
            Ok(raw)
        }
    }

    fn attribute(&mut self, node: &Value, name: &str) -> (r: Result<Option<Value>, Stop>)
        requires
            old(self).wf(),
        ensures
            final(self).follows(*old(self)),
            run_slot(r, *final(self)) == attribute(
                old(self).host(),
                old(self).pos as nat,
                node@,
                name@,
            ),
    {
        if self.element(node)? {
            self.ask_slot(Op::AttributeText, list2(node.clone(), text_value(name)))
        } else {
            Ok(None)
        }
    }

    /// `getAttribute`.
    pub fn get_attribute(&mut self, recv: &Option<Value>, args: &Vec<Value>) -> (r: Result<Value, Stop>)
        requires
            old(self).wf(),
        ensures
            final(self).follows(*old(self)),
            run_value(r, *final(self)) == get_attribute_run(
                old(self).host(),
                old(self).pos as nat,
                opt_view(*recv),
                views(args@),
            ),
    {
        let node: Value = this_or_undefined(recv);
        if !node_value(&node) {
            let t: String = match recv {
                Some(v) => self.ask_text(Op::TypeOf, list1(v.clone()))?,
                None => "없음".to_owned(),
            };
            let a: String = concat_text("getAttribute 는 요소 메서드 (수신자=", t.as_str());
            return Err(fail(ErrorKind::Error, concat_text(a.as_str(), ")").as_str()));
        }
        let raw: String = self.display_arg(args, 0)?;
        let name: String = self.html_name(&node, raw)?;
        let s: Option<Value> = self.attribute(&node, name.as_str())?;
        Ok(null_if_none(s))
    }

    /// `hasAttribute`.
    pub fn has_attribute(&mut self, recv: &Option<Value>, args: &Vec<Value>) -> (r: Result<Value, Stop>)
        requires
            old(self).wf(),
        ensures
            final(self).follows(*old(self)),
            run_value(r, *final(self)) == has_attribute_run(
                old(self).host(),
                old(self).pos as nat,
                opt_view(*recv),
                views(args@),
            ),
    {
        let node: Value = this_or_undefined(recv);
        if !node_value(&node) {
            return Ok(Value::Bool(false));
        }

        let raw: String = self.display_arg(args, 0)?;
        let name: String = self.html_name(&node, raw)?;
        let s: Option<Value> = self.attribute(&node, name.as_str())?;
        Ok(Value::Bool(s.is_some()))
    }

    fn drop_attribute(&mut self, node: &Value, name: &str, result: Value) -> (r: Result<Value, Stop>)
        requires
            old(self).wf(),
        ensures
            final(self).follows(*old(self)),
            run_value(r, *final(self)) == drop_attribute(
                old(self).host(),
                old(self).pos as nat,
                node@,
                name@,
                result@,
            ),
    {
        let u: Value = self.ask_value(Op::DropAttribute, list2(node.clone(), text_value(name)))?;
        Ok(result)
    }

    fn put_attribute(&mut self, node: &Value, name: &str, value: &str, result: Value) -> (r: Result<Value, Stop>)
        requires
            old(self).wf(),
        ensures
            final(self).follows(*old(self)),
            run_value(r, *final(self)) == put_attribute(
                old(self).host(),
                old(self).pos as nat,
                node@,
                name@,
                value@,
                result@,
            ),
    {
        let u: Value = self.ask_value(
            Op::SetAttributeText,
            list3(node.clone(), text_value(name), text_value(value)),
        )?;
        Ok(result)
    }

    /// `removeAttribute`.
    pub fn remove_attribute(&mut self, recv: &Option<Value>, args: &Vec<Value>) -> (r: Result<Value, Stop>)
        requires
            old(self).wf(),
        ensures
            final(self).follows(*old(self)),
            run_value(r, *final(self)) == remove_attribute_run(
                old(self).host(),
                old(self).pos as nat,
                opt_view(*recv),
                views(args@),
            ),
    {
        let node: Value = this_or_undefined(recv);
        if !node_value(&node) {
            return Ok(Value::Undefined);
        }

        let raw: String = self.display_arg(args, 0)?;
        let name: String = self.html_name(&node, raw)?;
        self.drop_attribute(&node, name.as_str(), Value::Undefined)
    }

    /// `setAttribute`.
    pub fn set_attribute(&mut self, recv: &Option<Value>, args: &Vec<Value>) -> (r: Result<Value, Stop>)
        requires
            old(self).wf(),
        ensures
            final(self).follows(*old(self)),
            run_value(r, *final(self)) == set_attribute_run(
                old(self).host(),
                old(self).pos as nat,
                opt_view(*recv),
                views(args@),
            ),
    {
        let node: Value = this_or_undefined(recv);
        if !node_value(&node) {
            return Err(fail(ErrorKind::TypeError, "setAttribute 는 요소 메서드"));
        }

        let raw: String = self.display_arg(args, 0)?;
        let name: String = self.ask_text(Op::AttributeName, list2(node.clone(), Value::Str(raw)))?;
        let value: String = self.display_arg(args, 1)?;
        self.put_attribute(&node, name.as_str(), value.as_str(), Value::Undefined)
    }

    fn attribute_names(&mut self, node: &Value) -> (r: Result<Vec<Value>, Stop>)
        requires
            old(self).wf(),
        ensures
            final(self).follows(*old(self)),
            run_list(r, *final(self)) == attribute_names(
                old(self).host(),
                old(self).pos as nat,
                node@,
            ),
    {
        if self.element(node)? {
            self.ask_list(Op::AttributeNames, list1(node.clone()))
        } else {
            let none: Vec<Value> = empty_list();
            assert(views(none@) =~= Seq::empty());
            Ok(none)
        }
    }

    /// `getAttributeNames`.
    pub fn get_attribute_names(&mut self, recv: &Option<Value>, args: &Vec<Value>) -> (r: Result<Value, Stop>)
        requires
            old(self).wf(),
        ensures
            final(self).follows(*old(self)),
            run_value(r, *final(self)) == get_attribute_names_run(
                old(self).host(),
                old(self).pos as nat,
                opt_view(*recv),
                views(args@),
            ),
    {
        let node: Value = this_or_undefined(recv);
        if !node_value(&node) {
            return Ok(Value::Undefined);
        }

        let l: Vec<Value> = self.attribute_names(&node)?;
        self.ask_value(Op::NewArray, l)
    }

    /// `hasAttributes`.
    pub fn has_attributes(&mut self, recv: &Option<Value>, args: &Vec<Value>) -> (r: Result<Value, Stop>)
        requires
            old(self).wf(),
        ensures
            final(self).follows(*old(self)),
            run_value(r, *final(self)) == has_attributes_run(
                old(self).host(),
                old(self).pos as nat,
                opt_view(*recv),
                views(args@),
            ),
    {
        let node: Value = this_or_undefined(recv);
        if !node_value(&node) {
            return Ok(Value::Bool(false));
        }

        let l: Vec<Value> = self.attribute_names(&node)?;
        Ok(Value::Bool(l.len() > 0))
    }

    fn toggle_to(&mut self, node: &Value, name: &str, want: bool) -> (r: Result<Value, Stop>)
        requires
            old(self).wf(),
        ensures
            final(self).follows(*old(self)),
            run_value(r, *final(self)) == toggle_to(
                old(self).host(),
                old(self).pos as nat,
                node@,
                name@,
                want,
            ),
    {
        if want {
            let e: String = String::new();
            assert(e@ =~= Seq::<char>::empty());
            self.put_attribute(node, name, e.as_str(), Value::Bool(true))
        } else {
            self.drop_attribute(node, name, Value::Bool(false))
        }
    }

    /// `toggleAttribute`.
    pub fn toggle_attribute(&mut self, recv: &Option<Value>, args: &Vec<Value>) -> (r: Result<Value, Stop>)
        requires
            old(self).wf(),
        ensures
            final(self).follows(*old(self)),
            run_value(r, *final(self)) == toggle_attribute_run(
                old(self).host(),
                old(self).pos as nat,
                opt_view(*recv),
                views(args@),
            ),
    {
        let node: Value = this_or_undefined(recv);
        if !node_value(&node) {
            return Ok(Value::Bool(false));
        }

        let raw: String = self.display_arg(args, 0)?;
        let name: String = self.ask_text(Op::AttributeName, list2(node.clone(), Value::Str(raw)))?;
        let s: Option<Value> = self.attribute(&node, name.as_str())?;
        let want: bool = if args.len() > 1 {
            to_bool(&args[1])
        } else {
            s.is_none()
        };
        self.toggle_to(&node, name.as_str(), want)
    }

    fn found_locally(&mut self, node: &Value, args: &Vec<Value>) -> (r: Result<Option<String>, Stop>)
        requires
            old(self).wf(),
        ensures
            final(self).follows(*old(self)),
            opt_text_run(r, *final(self)) == found_locally(
                old(self).host(),
                old(self).pos as nat,
                node@,
                views(args@),
            ),
    {
        let local: String = self.display_arg(args, 1)?;
        let l: Vec<Value> = self.attribute_names(node)?;
        Ok(find_local(&texts_of(&l), local.as_str()))
    }

    /// `getAttributeNS`.
    pub fn get_attribute_ns(&mut self, recv: &Option<Value>, args: &Vec<Value>) -> (r: Result<Value, Stop>)
        requires
            old(self).wf(),
        ensures
            final(self).follows(*old(self)),
            run_value(r, *final(self)) == get_attribute_ns_run(
                old(self).host(),
                old(self).pos as nat,
                opt_view(*recv),
                views(args@),
            ),
    {
        let node: Value = this_or_undefined(recv);
        if !node_value(&node) {
            return Ok(Value::Null);
        }

        match self.found_locally(&node, args)? {
            None => Ok(Value::Null),
            Some(name) => {
                let s: Option<Value> = self.ask_slot(
                    Op::AttributeText,
                    list2(node, Value::Str(name)),
                )?;
                Ok(null_if_none(s))
            },
        }
    }

    /// `hasAttributeNS`.
    pub fn has_attribute_ns(&mut self, recv: &Option<Value>, args: &Vec<Value>) -> (r: Result<Value, Stop>)
        requires
            old(self).wf(),
        ensures
            final(self).follows(*old(self)),
            run_value(r, *final(self)) == has_attribute_ns_run(
                old(self).host(),
                old(self).pos as nat,
                opt_view(*recv),
                views(args@),
            ),
    {
        let node: Value = this_or_undefined(recv);
        if !node_value(&node) {
            return Ok(Value::Null);
        }

        let f: Option<String> = self.found_locally(&node, args)?;
        Ok(Value::Bool(f.is_some()))
    }

    /// `removeAttributeNS`.
    pub fn remove_attribute_ns(&mut self, recv: &Option<Value>, args: &Vec<Value>) -> (r: Result<Value, Stop>)
        requires
            old(self).wf(),
        ensures
            final(self).follows(*old(self)),
            run_value(r, *final(self)) == remove_attribute_ns_run(
                old(self).host(),
                old(self).pos as nat,
                opt_view(*recv),
                views(args@),
            ),
    {
        let node: Value = this_or_undefined(recv);
        if !node_value(&node) {
            return Ok(Value::Null);
        }

        match self.found_locally(&node, args)? {
            None => Ok(Value::Undefined),
            Some(name) => self.drop_attribute(&node, name.as_str(), Value::Undefined),
        }
    }

    /// `setAttributeNS`.
    pub fn set_attribute_ns(&mut self, recv: &Option<Value>, args: &Vec<Value>) -> (r: Result<Value, Stop>)
        requires
            old(self).wf(),
        ensures
            final(self).follows(*old(self)),
            run_value(r, *final(self)) == set_attribute_ns_run(
                old(self).host(),
                old(self).pos as nat,
                opt_view(*recv),
                views(args@),
            ),
    {
        let node: Value = this_or_undefined(recv);
        if !node_value(&node) {
            return Err(fail(ErrorKind::TypeError, "setAttributeNS 는 요소 메서드"));
        }

        let name: String = self.display_arg(args, 1)?;
        let value: String = self.display_arg(args, 2)?;
        if chars_of(name.as_str()).len() == 0 {
            return Err(fail_dom(DomError::InvalidCharacterError, "속성 이름이 비었다"));
        }
        self.put_attribute(&node, name.as_str(), value.as_str(), Value::Undefined)
    }

    /// `getAttributeNode`.
    pub fn get_attribute_node(&mut self, recv: &Option<Value>, args: &Vec<Value>) -> (r: Result<Value, Stop>)
        requires
            old(self).wf(),
        ensures
            final(self).follows(*old(self)),
            run_value(r, *final(self)) == get_attribute_node_run(
                old(self).host(),
                old(self).pos as nat,
                opt_view(*recv),
                views(args@),
            ),
    {
        let node: Value = this_or_undefined(recv);
        if !node_value(&node) {
            return Ok(Value::Null);
        }

        let raw: String = self.display_arg(args, 0)?;
        let name: String = to_ascii_lower(raw.as_str());
        let s: Option<Value> = self.attribute(&node, name.as_str())?;
        if s.is_some() {
            self.ask_value(Op::NewAttr, list2(node, Value::Str(name)))
        } else {
            Ok(Value::Null)
        }
    }

    fn text_of_attribute(&mut self, node: &Value, name: &str) -> (r: Result<String, Stop>)
        requires
            old(self).wf(),
        ensures
            final(self).follows(*old(self)),
            run_text(r, *final(self)) == text_of_attribute(
                old(self).host(),
                old(self).pos as nat,
                node@,
                name@,
            ),
    {
        match self.attribute(node, name)? {
            Some(v) => Ok(text_of_value(&v)),
            None => {
                let e: String = String::new();
                assert(e@ =~= Seq::<char>::empty());
                Ok(e)
            },
        }
    }

    /// `setAttributeNode`.
    pub fn set_attribute_node(&mut self, recv: &Option<Value>, args: &Vec<Value>) -> (r: Result<Value, Stop>)
        requires
            old(self).wf(),
        ensures
            final(self).follows(*old(self)),
            run_value(r, *final(self)) == set_attribute_node_run(
                old(self).host(),
                old(self).pos as nat,
                opt_view(*recv),
                views(args@),
            ),
    {
        let node: Value = this_or_undefined(recv);
        if !node_value(&node) {
            return Ok(Value::Null);
        }

        let a: Value = arg_at(args, 0);
        if !matches!(a, Value::Ref(Kind::Attr, _)) {
            return Err(fail(ErrorKind::TypeError, "setAttributeNode 인자는 Attr"));
        }
        let owner: Value = self.ask_value(Op::AttrOwner, list1(a.clone()))?;
        let name: String = self.ask_text(Op::AttrName, list1(a))?;
        let value: String = self.text_of_attribute(&owner, name.as_str())?;
        self.attribute_moved(&node, name.as_str(), value.as_str())
    }

    fn attribute_moved(&mut self, node: &Value, name: &str, value: &str) -> (r: Result<Value, Stop>)
        requires
            old(self).wf(),
        ensures
            final(self).follows(*old(self)),
            run_value(r, *final(self)) == attribute_moved(
                old(self).host(),
                old(self).pos as nat,
                node@,
                name@,
                value@,
            ),
    {
        let before: Option<Value> = self.attribute(node, name)?;
        let r: Value = self.put_attribute(node, name, value, Value::Null)?;
        if before.is_some() {
            self.ask_value(Op::NewAttr, list2(node.clone(), text_value(name)))
        } else {
            Ok(r)
        }
    }

    /// `removeAttributeNode`.
    pub fn remove_attribute_node(&mut self, recv: &Option<Value>, args: &Vec<Value>) -> (r: Result<Value, Stop>)
        requires
            old(self).wf(),
        ensures
            final(self).follows(*old(self)),
            run_value(r, *final(self)) == remove_attribute_node_run(
                old(self).host(),
                old(self).pos as nat,
                opt_view(*recv),
                views(args@),
            ),
    {
        let node: Value = this_or_undefined(recv);
        if !node_value(&node) {
            return Ok(Value::Null);
        }

        let a: Value = arg_at(args, 0);
        if !matches!(a, Value::Ref(Kind::Attr, _)) {
            return Err(fail(ErrorKind::TypeError, "removeAttributeNode 인자는 Attr"));
        }
        let name: String = self.ask_text(Op::AttrName, list1(a))?;
        let u: Value = self.drop_attribute(&node, name.as_str(), Value::Undefined)?;
        self.ask_value(Op::NewAttr, list2(node, Value::Str(name)))
    }

    fn count_arg(&mut self, args: &Vec<Value>, i: usize) -> (r: Result<u64, Stop>)
        requires
            old(self).wf(),
        ensures
            final(self).follows(*old(self)),
            run_plain(r, *final(self)) == count_arg(
                old(self).host(),
                old(self).pos as nat,
                views(args@),
                i as int,
            ),
    {
        if i < args.len() {
            let n: Num = self.ask_number(Op::DelayOf, list1(args[i].clone()))?;
            Ok(num_to_count(n))
        } else {
            Ok(0)
        }
    }

    fn data_args(&mut self, op: CharDataOp, len: u64, args: &Vec<Value>) -> (r: Result<(u64, u64, String), Stop>)
        requires
            old(self).wf(),
        ensures
            final(self).follows(*old(self)),
            data_args_run(r, *final(self)) == data_args(
                old(self).host(),
                old(self).pos as nat,
                op,
                len,
                views(args@),
            ),
    {
        match op {
            CharDataOp::Append => {
                let s: String = self.display_arg(args, 0)?;
                Ok((len, 0, s))
            },
            CharDataOp::Insert => {
                let o: u64 = self.count_arg(args, 0)?;
                let s: String = self.display_arg(args, 1)?;
                Ok((o, 0, s))
            },
            CharDataOp::Substring | CharDataOp::Delete => {
                let o: u64 = self.count_arg(args, 0)?;
                let n: u64 = self.count_arg(args, 1)?;
                let e: String = String::new();
                assert(e@ =~= Seq::<char>::empty());
                Ok((o, n, e))
            },
            CharDataOp::Replace => {
                let o: u64 = self.count_arg(args, 0)?;
                let n: u64 = self.count_arg(args, 1)?;
                let s: String = self.display_arg(args, 2)?;
                Ok((o, n, s))
            },
        }
    }

    fn data_method(&mut self, node: &Value, op: CharDataOp, u: &Vec<u16>, a: &(u64, u64, String)) -> (r: Result<Value, Stop>)
        requires
            old(self).wf(),
        ensures
            final(self).follows(*old(self)),
            run_value(r, *final(self)) == data_method(
                old(self).host(),
                old(self).pos as nat,
                node@,
                op,
                u@,
                (a.0, a.1, a.2@),
            ),
    {
        if a.0 > u.len() as u64 {
            return Err(fail_dom(DomError::IndexSizeError, "offset 이 데이터 길이를 넘음"));
        }
        let offset: usize = a.0 as usize;
        let left: usize = u.len() - offset;
        let count: usize = if a.1 <= left as u64 {
            a.1 as usize
        } else {
            left
        };
        if op == CharDataOp::Substring {
            let part: Vec<u16> = units_between(u, offset, offset + count);
            return Ok(Value::Str(text_of_units(&part)));
        }
        let data: Vec<u16> = units_of(a.2.as_str());
        let next: Vec<u16> = splice_units(u, offset, count, &data);
        let r: Value = self.ask_value(
            Op::SetNodeData,
            list2(node.clone(), Value::Str(text_of_units(&next))),
        )?;
        Ok(Value::Undefined)
    }

    /// The methods of character data.
    pub fn char_data(&mut self, op: CharDataOp, recv: &Option<Value>, args: &Vec<Value>) -> (r: Result<Value, Stop>)
        requires
            old(self).wf(),
        ensures
            final(self).follows(*old(self)),
            run_value(r, *final(self)) == char_data_run(
                old(self).host(),
                old(self).pos as nat,
                op,
                opt_view(*recv),
                views(args@),
            ),
    {
        let node: Value = this_or_undefined(recv);
        if !node_value(&node) {
            return Err(fail(ErrorKind::TypeError, "CharacterData 메서드"));
        }

        if self.element(&node)? {
            return Err(fail(ErrorKind::TypeError, "요소에는 문자 데이터가 없다"));
        }
        let s: String = self.ask_text(Op::NodeData, list1(node.clone()))?;
        self.data_of(&node, op, &units_of(s.as_str()), args)
    }

    fn data_of(&mut self, node: &Value, op: CharDataOp, u: &Vec<u16>, args: &Vec<Value>) -> (r: Result<Value, Stop>)
        requires
            old(self).wf(),
        ensures
            final(self).follows(*old(self)),
            run_value(r, *final(self)) == data_of(
                old(self).host(),
                old(self).pos as nat,
                node@,
                op,
                u@,
                views(args@),
            ),
    {
        let a: (u64, u64, String) = self.data_args(op, u.len() as u64, args)?;
        self.data_method(node, op, u, &a)
    }

    pub fn next_sibling(&mut self, parent: &Value, node: &Value) -> (r: Result<Option<Value>, Stop>)
        requires
            old(self).wf(),
        ensures
            final(self).follows(*old(self)),
            run_slot(r, *final(self)) == next_sibling(
                old(self).host(),
                old(self).pos as nat,
                parent@,
                node@,
            ),
    {
        let l: Vec<Value> = self.ask_list(Op::NodeChildren, list1(parent.clone()))?;
        Ok(find_next(&l, node))
    }

    pub fn insert_node(&mut self, parent: &Value, node: Value, reference: &Option<Value>) -> (r: Result<(), Stop>)
        requires
            old(self).wf(),
        ensures
            final(self).follows(*old(self)),
            run_plain(r, *final(self)) == insert_node(
                old(self).host(),
                old(self).pos as nat,
                parent@,
                node@,
                opt_view(*reference),
            ),
    {
        let u: Value = self.ask_value(
            Op::InsertNode,
            list3(parent.clone(), node, undefined_if_none(reference)),
        )?;
        Ok(())
    }

    #[verifier::loop_isolation(false)]
    pub fn insert_all(&mut self, parent: &Value, nodes: &Vec<Value>, reference: &Option<Value>) -> (r: Result<(), Stop>)
        requires
            old(self).wf(),
        ensures
            final(self).follows(*old(self)),
            run_plain(r, *final(self)) == insert_all(
                old(self).host(),
                old(self).pos as nat,
                parent@,
                views(nodes@),
                0,
                opt_view(*reference),
            ),
    {
        let ghost all = views(nodes@);
        let ghost goal = insert_all(self.host(), self.pos as nat, parent@, all, 0, opt_view(*reference));
        let mut i: usize = 0;
        while i < nodes.len()
            invariant
                i <= nodes@.len(),
                self.follows(*old(self)),
                goal == insert_all(
                    self.host(),
                    self.pos as nat,
                    parent@,
                    all,
                    i as int,
                    opt_view(*reference),
                ),
            decreases nodes@.len() - i,
        {
            assert(all[i as int] == nodes@[i as int]@);
            self.insert_node(parent, nodes[i].clone(), reference)?;
            i = i + 1;
        }
        Ok(())
    }

    fn split_tail(&mut self, node: &Value, tail: Value) -> (r: Result<Value, Stop>)
        requires
            old(self).wf(),
        ensures
            final(self).follows(*old(self)),
            run_value(r, *final(self)) == split_tail(
                old(self).host(),
                old(self).pos as nat,
                node@,
                tail@,
            ),
    {
        match self.ask_slot(Op::NodeParent, list1(node.clone()))? {
            None => Ok(tail),
            Some(q) => {
                let next: Option<Value> = self.next_sibling(&q, node)?;
                self.insert_node(&q, tail.clone(), &next)?;
                Ok(tail)
            },
        }
    }

    fn split_at(&mut self, node: &Value, u: &Vec<u16>, offset: u64) -> (r: Result<Value, Stop>)
        requires
            old(self).wf(),
        ensures
            final(self).follows(*old(self)),
            run_value(r, *final(self)) == split_at(
                old(self).host(),
                old(self).pos as nat,
                node@,
                u@,
                offset as int,
            ),
    {
        if offset > u.len() as u64 {
            return Err(fail_dom(DomError::IndexSizeError, "offset 이 데이터 길이를 넘음"));
        }
        let at: usize = offset as usize;
        let head: Vec<u16> = units_between(u, 0, at);
        let rest: Vec<u16> = units_between(u, at, u.len());
        assert(head@ =~= u@.take(at as int));
        assert(rest@ =~= u@.skip(at as int));
        let r: Value = self.ask_value(
            Op::SetNodeData,
            list2(node.clone(), Value::Str(text_of_units(&head))),
        )?;
        let tail: Value = self.ask_value(Op::NewText, list1(Value::Str(text_of_units(&rest))))?;
        self.split_tail(node, tail)
    }

    /// `splitText`.
    pub fn split_text(&mut self, recv: &Option<Value>, args: &Vec<Value>) -> (r: Result<Value, Stop>)
        requires
            old(self).wf(),
        ensures
            final(self).follows(*old(self)),
            run_value(r, *final(self)) == split_text_run(
                old(self).host(),
                old(self).pos as nat,
                opt_view(*recv),
                views(args@),
            ),
    {
        let node: Value = this_or_undefined(recv);
        if !node_value(&node) {
            return Err(fail(ErrorKind::TypeError, "splitText 는 Text 메서드"));
        }

        let offset: u64 = self.count_arg(args, 0)?;
        let k: String = self.ask_text(Op::NodeKind, list1(node.clone()))?;
        if !same_text(k.as_str(), "text") {
            return Err(fail(ErrorKind::TypeError, "splitText 는 Text 메서드"));
        }
        let s: String = self.ask_text(Op::NodeData, list1(node.clone()))?;
        self.split_at(&node, &units_of(s.as_str()), offset)
    }

    pub fn namespace_arg(&mut self, v: &Value) -> (r: Result<Option<String>, Stop>)
        requires
            old(self).wf(),
        ensures
            final(self).follows(*old(self)),
            opt_text_run(r, *final(self)) == namespace_arg(
                old(self).host(),
                old(self).pos as nat,
                v@,
            ),
    {
        if is_nullish(v) {
            return Ok(None);
        }
        let s: String = self.ask_text(Op::Display, list1(v.clone()))?;
        if chars_of(s.as_str()).len() == 0 {
            Ok(None)
        } else {
            Ok(Some(s))
        }
    }

    fn located(&mut self, node: &Value, prefix: String) -> (r: Result<Option<String>, Stop>)
        requires
            old(self).wf(),
        ensures
            final(self).follows(*old(self)),
            opt_text_run(r, *final(self)) == located(
                old(self).host(),
                old(self).pos as nat,
                node@,
                prefix@,
            ),
    {
        match self.ask_slot(Op::LocateNamespace, list2(node.clone(), Value::Str(prefix)))? {
            Some(v) => Ok(Some(text_of_value(&v))),
            None => Ok(None),
        }
    }

    /// `lookupNamespaceURI`.
    pub fn lookup_namespace_uri(&mut self, recv: &Option<Value>, args: &Vec<Value>) -> (r: Result<Value, Stop>)
        requires
            old(self).wf(),
        ensures
            final(self).follows(*old(self)),
            run_value(r, *final(self)) == lookup_namespace_uri_run(
                old(self).host(),
                old(self).pos as nat,
                opt_view(*recv),
                views(args@),
            ),
    {
        let node: Value = this_or_undefined(recv);
        if !node_value(&node) {
            return Ok(Value::Null);
        }

        let a: Value = arg_at(args, 0);
        let prefix: String = if is_nullish(&a) {
            let e: String = String::new();
            assert(e@ =~= Seq::<char>::empty());
            e
        } else {
            self.ask_text(Op::Display, list1(a))?
        };
        match self.located(&node, prefix)? {
            Some(s) => Ok(Value::Str(s)),
            None => Ok(Value::Null),
        }
    }

    /// `isDefaultNamespace`.
    pub fn is_default_namespace(&mut self, recv: &Option<Value>, args: &Vec<Value>) -> (r: Result<Value, Stop>)
        requires
            old(self).wf(),
        ensures
            final(self).follows(*old(self)),
            run_value(r, *final(self)) == is_default_namespace_run(
                old(self).host(),
                old(self).pos as nat,
                opt_view(*recv),
                views(args@),
            ),
    {
        let node: Value = this_or_undefined(recv);
        if !node_value(&node) {
            return Ok(Value::Null);
        }

        let e: String = String::new();
        assert(e@ =~= Seq::<char>::empty());
        let ns: Option<String> = self.located(&node, e)?;
        let want: Option<String> = self.namespace_arg(&arg_at(args, 0))?;
        let same: bool = match (&ns, &want) {
            (Some(a), Some(b)) => same_text(a.as_str(), b.as_str()),
            (None, None) => true,
            _ => false,
        };
        Ok(Value::Bool(same))
    }

    /// `lookupPrefix`.
    pub fn lookup_prefix(&mut self, recv: &Option<Value>, args: &Vec<Value>) -> (r: Result<Value, Stop>)
        requires
            old(self).wf(),
        ensures
            final(self).follows(*old(self)),
            run_value(r, *final(self)) == lookup_prefix_run(
                old(self).host(),
                old(self).pos as nat,
                opt_view(*recv),
                views(args@),
            ),
    {
        let node: Value = this_or_undefined(recv);
        if !node_value(&node) {
            return Ok(Value::Null);
        }

        match self.namespace_arg(&arg_at(args, 0))? {
            None => Ok(Value::Null),
            Some(s) => {
                let f: Option<Value> = self.ask_slot(Op::LocatePrefix, list2(node, Value::Str(s)))?;
                Ok(null_if_none(f))
            },
        }
    }

    fn brands(&mut self, v: &Value) -> (r: Result<Vec<String>, Stop>)
        requires
            old(self).wf(),
        ensures
            final(self).follows(*old(self)),
            crate::json::texts_run(r, *final(self)) == brands(
                old(self).host(),
                old(self).pos as nat,
                v@,
            ),
    {
        match v {
            Value::Ref(Kind::Dom, _) => {
                let k: String = self.ask_text(Op::NodeKind, list1(v.clone()))?;
                if same_text(k.as_str(), "element") {
                    let own: String = self.ask_text(Op::InterfaceName, list1(v.clone()))?;
                    Ok(interfaces_of(own.as_str()))
                } else if same_text(k.as_str(), "text") {
                    Ok(four_texts("Text", "CharacterData", "Node", "EventTarget"))
                } else {
                    Ok(four_texts("Comment", "CharacterData", "Node", "EventTarget"))
                }
            },
            Value::Ref(Kind::Attr, _) => Ok(three_texts("Attr", "Node", "EventTarget")),
            Value::Ref(Kind::Sheet, _) => Ok(two_texts("CSSStyleSheet", "StyleSheet")),
            Value::Ref(Kind::CssRule, _) => Ok(two_texts("CSSStyleRule", "CSSRule")),
            Value::Ref(Kind::RuleStyle, _) => Ok(single_text("CSSStyleDeclaration")),
            Value::Ref(Kind::Style, _) => Ok(single_text("CSSStyleDeclaration")),
            Value::Ref(Kind::ComputedStyle, _) => Ok(single_text("CSSStyleDeclaration")),
            _ => {
                let none: Vec<String> = Vec::new();
                assert(text_views(none@) =~= Seq::empty());
                Ok(none)
            },
        }
    }

    /// The chain of interfaces as an array.
    pub fn brand(&mut self, recv: &Option<Value>, args: &Vec<Value>) -> (r: Result<Value, Stop>)
        requires
            old(self).wf(),
        ensures
            final(self).follows(*old(self)),
            run_value(r, *final(self)) == brand_run(
                old(self).host(),
                old(self).pos as nat,
                opt_view(*recv),
                views(args@),
            ),
    {
        let l: Vec<String> = self.brands(&arg_at(args, 0))?;
        self.ask_value(Op::NewArray, crate::reflect::values_of_texts(&l))
    }

    /// `item` of a collection.
    pub fn list_item(&mut self, recv: &Option<Value>, args: &Vec<Value>) -> (r: Result<Value, Stop>)
        requires
            old(self).wf(),
        ensures
            final(self).follows(*old(self)),
            run_value(r, *final(self)) == list_item_run(
                old(self).host(),
                old(self).pos as nat,
                opt_view(*recv),
                views(args@),
            ),
    {
        let v: Value = this_or_undefined(recv);
        let n: Num = self.number_or_zero(args, 0)?;
        if !matches!(v, Value::Ref(Kind::Arr, _)) || crate::number::is_greater(Num::from_u64(0), n) {
            return Ok(Value::Null);
        }
        let l: Vec<Value> = self.ask_list(Op::Elements, list1(v))?;
        let i: u64 = num_to_count(n);
        if i < l.len() as u64 {
            Ok(l[i as usize].clone())
        } else {
            Ok(Value::Null)
        }
    }
}

/// Deleting what was inserted leaves the code units as they were.
pub proof fn law_insert_delete(u: Seq<u16>, offset: int, data: Seq<u16>)
    requires
        0 <= offset <= u.len(),
    ensures
        spliced(spliced(u, offset, 0, data), offset, data.len() as int, Seq::empty()) == u,
{
    assert(spliced(spliced(u, offset, 0, data), offset, data.len() as int, Seq::empty()) =~= u);
}

/// A split text loses nothing: what stays and what is split off make up what was there.
pub proof fn law_split_keeps_all(u: Seq<u16>, offset: int)
    requires
        0 <= offset <= u.len(),
    ensures
        u.take(offset) + u.skip(offset) == u,
{
    assert(u.take(offset) + u.skip(offset) =~= u);
}

/// A name without a colon is its own local name, and what follows the colon is the local name of
/// one with a prefix.
pub proof fn law_local_name(prefix: Seq<char>, name: Seq<char>)
    requires
        !name.contains(':'),
    ensures
        local_name(name) == name,
        local_name(prefix.push(':') + name) == name,
    decreases name.len(),
{
    let whole = prefix.push(':') + name;
    if name.len() == 0 {
        assert(whole =~= prefix.push(':'));
        assert(local_name(whole) =~= name);
        assert(local_name(name) =~= name);
    } else {
        let rest = name.drop_last();
        assert(name[name.len() - 1] != ':');
        assert(!rest.contains(':')) by {
            if rest.contains(':') {
                let i = choose|i: int| 0 <= i < rest.len() && rest[i] == ':';
                assert(name[i] == ':');
            }
        }
        law_local_name(prefix, rest);
        assert(whole.drop_last() =~= prefix.push(':') + rest);
        assert(rest.push(name.last()) =~= name);
    }
}

} // verus!
