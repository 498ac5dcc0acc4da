//! What is read of the attributes and the data of nodes after they were changed.
use crate::code_units::{utf16, utf16_text};
use crate::elements::{
    attribute_names, data_method, get_attribute_run, has_attribute_run, is_node,
    remove_attribute_run, set_attribute_run, toggle_attribute_run, CharDataOp,
};
use crate::event_laws::shown;
use crate::host::{done, Answer, Halt, Host, Op, Question};
use crate::text::ascii_lower;
use crate::value::Val;
use vstd::prelude::*;

verus! {

/// The engine says that a node is an element of HTML, once a name was shown.
pub open spec fn html_told(h: Host, node: Val, n: Val, raw: Seq<char>) -> bool {
    &&& shown(h, 0, n, raw)
    &&& h.len >= 3
    &&& (h.reply)(1, Question { op: Op::NodeKind, args: seq![node] }) == Answer::Value(
        Val::Str("element"@),
    )
    &&& (h.reply)(2, Question { op: Op::ElementNamespace, args: seq![node] }) == Answer::Absent
}

/// `getAttribute` gives the text of the attribute of the name in lower case and null where there is
/// none, and `hasAttribute` says whether there is one.
pub proof fn law_attribute_read(h: Host, node: Val, n: Val, raw: Seq<char>, there: Answer)
    requires
        is_node(node),
        html_told(h, node, n, raw),
        h.len == 5,
        (h.reply)(3, Question { op: Op::NodeKind, args: seq![node] }) == Answer::Value(
            Val::Str("element"@),
        ),
        (h.reply)(
            4,
            Question { op: Op::AttributeText, args: seq![node, Val::Str(ascii_lower(raw))] },
        ) == there,
        there is Value || there is Absent,
    ensures
        get_attribute_run(h, 0, Some(node), seq![n]) == done(
            match there {
                Answer::Value(v) => v,
                _ => Val::Null,
            },
            5,
        ),
        has_attribute_run(h, 0, Some(node), seq![n]) == done(Val::Bool(there is Value), 5),
{
    assert(seq![n][0] == n);
}

/// `removeAttribute` removes the attribute that `getAttribute` reads.
pub proof fn law_attribute_removed(h: Host, node: Val, n: Val, raw: Seq<char>)
    requires
        is_node(node),
        html_told(h, node, n, raw),
        h.len == 3,
    ensures
        remove_attribute_run(h, 0, Some(node), seq![n]).out == Err::<Val, _>(
            Halt::Ask(
                Question {
                    op: Op::DropAttribute,
                    args: seq![node, Val::Str(ascii_lower(raw))],
                },
            ),
        ),
{
    assert(seq![n][0] == n);
}

/// `setAttribute` stores the text of its second argument under the name of its first.
pub proof fn law_attribute_set(h: Host, node: Val, n: Val, raw: Seq<char>, name: Seq<char>, v: Val, value: Seq<char>)
    requires
        is_node(node),
        shown(h, 0, n, raw),
        h.len == 3,
        (h.reply)(1, Question { op: Op::AttributeName, args: seq![node, Val::Str(raw)] })
            == Answer::Value(Val::Str(name)),
        shown(h, 2, v, value),
    ensures
        set_attribute_run(h, 0, Some(node), seq![n, v]).out == Err::<Val, _>(
            Halt::Ask(
                Question {
                    op: Op::SetAttributeText,
                    args: seq![node, Val::Str(name), Val::Str(value)],
                },
            ),
        ),
{
    let args = seq![n, v];
    assert(args[0] == n && args[1] == v);
}

/// `toggleAttribute` removes an attribute that is there and adds one that is not, and says which: it
/// gives whether the attribute is there then. With a second argument that decides.
pub proof fn law_attribute_toggled(
    h: Host,
    node: Val,
    n: Val,
    raw: Seq<char>,
    name: Seq<char>,
    there: bool,
    given: Option<bool>,
)
    requires
        is_node(node),
        shown(h, 0, n, raw),
        h.len >= 4,
        (h.reply)(1, Question { op: Op::AttributeName, args: seq![node, Val::Str(raw)] })
            == Answer::Value(Val::Str(name)),
        (h.reply)(2, Question { op: Op::NodeKind, args: seq![node] }) == Answer::Value(
            Val::Str("element"@),
        ),
        there ==> (h.reply)(3, Question { op: Op::AttributeText, args: seq![node, Val::Str(name)] })
            is Value,
        !there ==> (h.reply)(3, Question { op: Op::AttributeText, args: seq![node, Val::Str(name)] })
            is Absent,
        forall|q: Question| !((#[trigger] (h.reply)(4, q)) is Throw),
    ensures
        ({
            let args = match given {
                Some(b) => seq![n, Val::Bool(b)],
                None => seq![n],
            };
            let want = match given {
                Some(b) => b,
                None => !there,
            };
            let r = toggle_attribute_run(h, 0, Some(node), args);
            &&& h.len == 4 && want ==> r.out == Err::<Val, _>(
                Halt::Ask(
                    Question {
                        op: Op::SetAttributeText,
                        args: seq![node, Val::Str(name), Val::Str(Seq::empty())],
                    },
                ),
            )
            &&& h.len == 4 && !want ==> r.out == Err::<Val, _>(
                Halt::Ask(Question { op: Op::DropAttribute, args: seq![node, Val::Str(name)] }),
            )
            &&& h.len > 4 ==> r == done(Val::Bool(want), 5)
        }),
{
    let args = match given {
        Some(b) => seq![n, Val::Bool(b)],
        None => seq![n],
    };
    assert(args[0] == n);
    let p = Question {
        op: Op::SetAttributeText,
        args: seq![node, Val::Str(name), Val::Str(Seq::empty())],
    };
    let d = Question { op: Op::DropAttribute, args: seq![node, Val::Str(name)] };
    assert(!((h.reply)(4, p) is Throw) && !((h.reply)(4, d) is Throw));
    if given is Some {
        assert(args[1] == Val::Bool(given->0));
    }
}

/// What is no element has no attributes.
pub proof fn law_no_attributes(h: Host, pos: nat, node: Val)
    requires
        h.len > pos,
        (h.reply)(pos, Question { op: Op::NodeKind, args: seq![node] }) == Answer::Value(
            Val::Str("text"@),
        ),
    ensures
        attribute_names(h, pos, node) == done(Seq::<Val>::empty(), pos + 1),
{
    reveal_strlit("element");
    reveal_strlit("text");
    assert("element"@.len() == 7 && "text"@.len() == 4);
}

/// The methods of character data: what they leave, or give, of these code units. A place behind the
/// end is refused; a count that reaches behind it stops there.
pub proof fn law_data_edited(
    h: Host,
    pos: nat,
    node: Val,
    u: Seq<u16>,
    offset: u64,
    count: u64,
    s: Seq<char>,
)
    requires
        h.len == pos,
        offset <= u.len(),
        u.len() <= u64::MAX,
    ensures
        ({
            let end = if offset + count <= u.len() {
                offset + count
            } else {
                u.len() as int
            };
            let set = |t: Seq<u16>|
                Err::<Val, _>(
                    Halt::Ask(
                        Question {
                            op: Op::SetNodeData,
                            args: seq![node, Val::Str(utf16_text(t))],
                        },
                    ),
                );
            &&& data_method(h, pos, node, CharDataOp::Substring, u, (offset, count, s)) == done(
                Val::Str(utf16_text(u.subrange(offset as int, end))),
                pos,
            )
            &&& data_method(h, pos, node, CharDataOp::Append, u, (u.len() as u64, 0, s)).out == set(
                u + utf16(s),
            )
            &&& data_method(h, pos, node, CharDataOp::Insert, u, (offset, 0, s)).out == set(
                u.take(offset as int) + utf16(s) + u.skip(offset as int),
            )
            &&& data_method(h, pos, node, CharDataOp::Delete, u, (offset, count, Seq::empty())).out
                == set(u.take(offset as int) + u.skip(end))
            &&& data_method(h, pos, node, CharDataOp::Replace, u, (offset, count, s)).out == set(
                u.take(offset as int) + utf16(s) + u.skip(end),
            )
        }),
{
    assert(u.take(u.len() as int) + utf16(s) + u.skip(u.len() as int) =~= u + utf16(s));
    let none = utf16(Seq::empty());
    assert(none =~= Seq::<u16>::empty());
    let end = if offset + count <= u.len() {
        offset + count
    } else {
        u.len() as int
    };
    assert(u.take(offset as int) + none + u.skip(end) =~= u.take(offset as int) + u.skip(end));
}

} // verus!
