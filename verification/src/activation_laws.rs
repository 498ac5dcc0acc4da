//! What clicks, written markup and the pieces of a split come to.
use crate::array_live::count_num;
use crate::click::{click_actions, form_of, leads_away, toggles, type_of, ActionV};
use crate::dom::{attr, tag_is, NodeId, NodeV};
use crate::elements::insert_node;
use crate::host::{ask_list, settles, Host, Op};
use crate::number::{law_safe_integers_exact, num_of};
use crate::regexp::{replacer_args, split_at_place, split_loop, uint32_of};
use crate::tree::{record_fields, write_nodes};
use crate::value::Val;
use vstd::prelude::*;

verus! {

/// A click on a link leads to its address; not where that is blank or a place on the same page.
pub proof fn law_link_clicked(d: Seq<NodeV>, id: NodeId, href: Seq<char>)
    requires
        tag_is(d, id, "a"@) || tag_is(d, id, "area"@),
        attr(d, id, "href"@) == Some(href),
    ensures
        leads_away(href) ==> click_actions(d, id) == seq![ActionV::Navigate(href)],
        !leads_away(href) ==> click_actions(d, id).len() == 0,
        href.len() > 0 && href[0] == '#' ==> click_actions(d, id).len() == 0,
        crate::text::blank(href) ==> click_actions(d, id).len() == 0,
{
}

/// A click on a button in a form submits the form, or resets it where the button is for that.
pub proof fn law_button_clicked(d: Seq<NodeV>, id: NodeId, form: NodeId)
    requires
        tag_is(d, id, "button"@),
        form_of(d, id) == Some(form),
    ensures
        type_of(d, id).len() == 0 || type_of(d, id) == "submit"@ ==> click_actions(d, id) == seq![
            ActionV::Dispatch(form, "submit"@),
        ],
        type_of(d, id) == "reset"@ ==> click_actions(d, id) == seq![
            ActionV::Dispatch(form, "reset"@),
        ],
        type_of(d, id) == "button"@ ==> click_actions(d, id).len() == 0,
{
    reveal_strlit("button");
    reveal_strlit("a");
    reveal_strlit("area");
    reveal_strlit("input");
    reveal_strlit("summary");
    reveal_strlit("submit");
    reveal_strlit("reset");
    reveal_strlit("image");
    assert("button"@.len() == 6 && "a"@.len() == 1 && "area"@.len() == 4 && "input"@.len() == 5
        && "summary"@.len() == 7 && "submit"@.len() == 6 && "reset"@.len() == 5 && "image"@.len()
        == 5);
    assert("button"@[0] == 'b' && "submit"@[0] == 's' && "reset"@[0] == 'r' && "image"@[0] == 'i');
}

/// A click on a box that it checks or clears tells of the input first and then of the change.
pub proof fn law_box_clicked(d: Seq<NodeV>, id: NodeId)
    requires
        toggles(d, id),
        tag_is(d, id, "input"@),
    ensures
        click_actions(d, id) == seq![
            ActionV::Dispatch(id, "input"@),
            ActionV::Dispatch(id, "change"@),
        ],
{
    reveal_strlit("input");
    reveal_strlit("a");
    reveal_strlit("area");
    assert("input"@.len() == 5 && "a"@.len() == 1 && "area"@.len() == 4);
}

/// The scripts in some nodes that are put into the document one after the other.
pub open spec fn written(
    h: Host,
    pos: nat,
    place: (Val, Option<Val>),
    nodes: Seq<Val>,
    found: Seq<Seq<Val>>,
    i: int,
) -> bool
    decreases nodes.len() - i,
{
    0 <= i < nodes.len() ==> {
        let s = insert_node(h, pos, place.0, nodes[i], place.1);
        &&& settles(s, ())
        &&& s.out is Ok ==> {
            let l = ask_list(h, s.pos, Op::ScriptsIn, seq![nodes[i]]);
            &&& settles(l, found[i])
            &&& l.out is Ok ==> written(h, l.pos, place, nodes, found, i + 1)
        }
    }
}

/// What is written goes to its place node by node, and its scripts are gathered in their order.
pub proof fn law_written(
    h: Host,
    pos: nat,
    place: (Val, Option<Val>),
    nodes: Seq<Val>,
    found: Seq<Seq<Val>>,
    i: int,
)
    requires
        0 <= i <= nodes.len(),
        nodes.len() == found.len(),
        written(h, pos, place, nodes, found, i),
    ensures
        settles(
            write_nodes(h, pos, place, nodes, i, found.take(i).flatten()),
            found.flatten(),
        ),
    decreases nodes.len() - i,
{
    if i < nodes.len() {
        let s = insert_node(h, pos, place.0, nodes[i], place.1);
        if s.out is Ok {
            let l = ask_list(h, s.pos, Op::ScriptsIn, seq![nodes[i]]);
            if l.out is Ok {
                law_written(h, l.pos, place, nodes, found, i + 1);
                let front = found.take(i);
                assert(found.take(i + 1) =~= front.push(found[i]));
                front.lemma_flatten_push(found[i]);
            }
        }
    } else {
        assert(found.take(i) =~= found);
    }
}

/// A record of a change holds its six values under their names, in their order.
pub proof fn law_change_record(l: Seq<Val>, i: int)
    requires
        0 <= i,
        i + 6 <= l.len(),
        !(l[i + 2] is Undefined),
        !(l[i + 3] is Undefined),
    ensures
        record_fields(l, i) == seq![
            Val::Str("type"@),
            l[i],
            Val::Str("target"@),
            l[i + 1],
            Val::Str("attributeName"@),
            l[i + 2],
            Val::Str("oldValue"@),
            l[i + 3],
            Val::Str("addedNodes"@),
            l[i + 4],
            Val::Str("removedNodes"@),
            l[i + 5],
        ],
{
}

/// A limit is taken modulo 32 bits: minus one is no limit at all.
pub proof fn law_limit(k: int)
    requires
        -0xffff_ffff <= k <= 0xffff_ffff,
    ensures
        k >= 0 ==> uint32_of(num_of(k)) == k,
        k < 0 ==> uint32_of(num_of(k)) == k + 0x1_0000_0000,
{
    law_safe_integers_exact(k);
}

/// A function that replaces gets the match, its captures, where it stands and the whole text.
pub proof fn law_replacer_arguments(
    matched: Seq<char>,
    a: Seq<char>,
    b: Option<Seq<char>>,
    position: nat,
    s: Seq<char>,
    named: Val,
)
    requires
        !(named is Undefined),
    ensures
        replacer_args(matched, Seq::empty(), position, s, Val::Undefined) == seq![
            Val::Str(matched),
            Val::Num(count_num(position)),
            Val::Str(s),
        ],
        replacer_args(matched, seq![Some(a), None], position, s, Val::Undefined) == seq![
            Val::Str(matched),
            Val::Str(a),
            Val::Undefined,
            Val::Num(count_num(position)),
            Val::Str(s),
        ],
        replacer_args(matched, seq![b], position, s, named) == replacer_args(
            matched,
            seq![b],
            position,
            s,
            Val::Undefined,
        ).push(named),
{
    let two = seq![Some(a), None::<Seq<char>>];
    assert(two[0] == Some(a) && two[1] == None::<Seq<char>>);
}

/// A splitter that finds nothing at any place from `q` on.
pub open spec fn misses(h: Host, pos: nat, splitter: Val, s: Seq<char>, q: nat) -> bool
    decreases s.len() - q,
{
    q < s.len() ==> {
        let r = split_at_place(h, pos, splitter, s, q);
        &&& settles(r, None)
        &&& r.out is Ok ==> misses(h, r.pos, splitter, s, q + 1)
    }
}

/// A text in which the splitter finds nothing more ends in what is left of it.
pub proof fn law_rest_of_split(
    h: Host,
    pos: nat,
    splitter: Val,
    s: Seq<char>,
    limit: nat,
    p: nat,
    q: nat,
    fuel: nat,
    out: Seq<Val>,
)
    requires
        p <= q <= s.len(),
        s.len() - q <= fuel,
        misses(h, pos, splitter, s, q),
    ensures
        settles(
            split_loop(h, pos, splitter, s, limit, p, q, fuel, out),
            out + seq![Val::Str(s.subrange(p as int, s.len() as int))],
        ),
    decreases fuel,
{
    assert(s.skip(p as int) =~= s.subrange(p as int, s.len() as int));
    assert(out.push(Val::Str(s.skip(p as int))) =~= out + seq![
        Val::Str(s.subrange(p as int, s.len() as int)),
    ]);
    if q < s.len() {
        let r = split_at_place(h, pos, splitter, s, q);
        if r.out is Ok {
            law_rest_of_split(h, r.pos, splitter, s, limit, p, q + 1, (fuel - 1) as nat, out);
        }
    }
}

} // verus!
