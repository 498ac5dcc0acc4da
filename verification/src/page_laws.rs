//! What a page does when a script asks it to.
use crate::elements::{next_in, same_node};
use crate::host::{done, Answer, Halt, Host, Op, Question};
use crate::number::{law_safe_integers_exact, num_of, Num, MAX_SAFE};
use crate::page::{
    cookie_get_run, cookie_set_run, css_supports_run, element_animate_run,
    get_bounding_client_rect_run, history_state_run, last_frame, location_assign_run,
    location_reload_run, match_media_run, scroll_run, style_get_property_run,
    style_remove_property_run, style_set_property_run,
};
use crate::tree::{
    clone_node_run, compare_doc_position_run, create_comment_run, create_element_run,
    create_text_node_run, dom_get_root_node_run, get_elements_run, query_selector_run,
};
use crate::value::{truthy, Kind, Val};
use vstd::prelude::*;

verus! {

/// A page is scrolled by the two numbers that are given, the first across and the second down; to a
/// place or by a distance.
pub proof fn law_scrolled(h: Host, relative: bool, recv: Option<Val>, x: Num, y: Num, a: Val, b: Val)
    requires
        h.len == 2,
        (h.reply)(0, Question { op: Op::Single, args: seq![Val::Num(x)] }) == Answer::Value(a),
        (h.reply)(1, Question { op: Op::Single, args: seq![Val::Num(y)] }) == Answer::Value(b),
    ensures
        scroll_run(h, 0, relative, recv, seq![Val::Num(x), Val::Num(y)]).out == Err::<Val, _>(
            Halt::Ask(Question { op: Op::SetScroll, args: seq![a, b, Val::Bool(relative)] }),
        ),
{
    let args = seq![Val::Num(x), Val::Num(y)];
    assert(args[0] == Val::Num(x) && args[1] == Val::Num(y));
}

/// The same by an object: `left` is across and `top` is down.
pub proof fn law_scrolled_by_object(
    h: Host,
    relative: bool,
    recv: Option<Val>,
    o: u64,
    x: Num,
    y: Num,
    a: Val,
    b: Val,
)
    requires
        h.len == 4,
        (h.reply)(
            0,
            Question { op: Op::OwnSlot, args: seq![Val::Ref(Kind::Obj, o), Val::Str("left"@)] },
        ) == Answer::Value(Val::Num(x)),
        (h.reply)(1, Question { op: Op::Single, args: seq![Val::Num(x)] }) == Answer::Value(a),
        (h.reply)(
            2,
            Question { op: Op::OwnSlot, args: seq![Val::Ref(Kind::Obj, o), Val::Str("top"@)] },
        ) == Answer::Value(Val::Num(y)),
        (h.reply)(3, Question { op: Op::Single, args: seq![Val::Num(y)] }) == Answer::Value(b),
    ensures
        scroll_run(h, 0, relative, recv, seq![Val::Ref(Kind::Obj, o)]).out == Err::<Val, _>(
            Halt::Ask(Question { op: Op::SetScroll, args: seq![a, b, Val::Bool(relative)] }),
        ),
{
    assert(seq![Val::Ref(Kind::Obj, o)][0] == Val::Ref(Kind::Obj, o));
}

/// The box of an element: its right side is its left one moved by the width, its lower side the
/// upper one moved by the height.
pub proof fn law_box(h: Host, n: u64, l: Seq<Val>, right: Val, bottom: Val)
    requires
        l.len() == 4,
        h.len == 3,
        (h.reply)(0, Question { op: Op::LayoutRect, args: seq![Val::Ref(Kind::Dom, n)] })
            == Answer::List(l),
        (h.reply)(1, Question { op: Op::Sum, args: seq![l[0], l[2]] }) == Answer::Value(right),
        (h.reply)(2, Question { op: Op::Sum, args: seq![l[1], l[3]] }) == Answer::Value(bottom),
    ensures
        get_bounding_client_rect_run(h, 0, Some(Val::Ref(Kind::Dom, n)), Seq::empty()).out
            == Err::<Val, _>(
            Halt::Ask(
                Question {
                    op: Op::NewObject,
                    args: seq![
                        Val::Str("x"@),
                        l[0],
                        Val::Str("y"@),
                        l[1],
                        Val::Str("left"@),
                        l[0],
                        Val::Str("top"@),
                        l[1],
                        Val::Str("right"@),
                        right,
                        Val::Str("bottom"@),
                        bottom,
                        Val::Str("width"@),
                        l[2],
                        Val::Str("height"@),
                        l[3],
                    ],
                },
            ),
        ),
{
}

/// The page goes to the full address of what is assigned, and stays where that is blank; loading
/// anew goes to where it is.
pub proof fn law_navigation(
    h: Host,
    recv: Option<Val>,
    v: Val,
    s: Seq<char>,
    url: Seq<char>,
    base: Val,
    u: Val,
)
    requires
        h.len == 2,
        (h.reply)(0, Question { op: Op::Display, args: seq![v] }) == Answer::Value(Val::Str(s)),
        (h.reply)(1, Question { op: Op::AbsoluteUrl, args: seq![Val::Str(s)] }) == Answer::Value(
            Val::Str(url),
        ),
        (h.reply)(0, Question { op: Op::BaseUrl, args: Seq::empty() }) == Answer::Value(base),
        (h.reply)(1, Question { op: Op::Navigate, args: seq![base] }) == Answer::Value(u),
    ensures
        !crate::text::blank(s) ==> location_assign_run(h, 0, recv, seq![v]).out == Err::<Val, _>(
            Halt::Ask(Question { op: Op::Navigate, args: seq![Val::Str(url)] }),
        ),
        crate::text::blank(s) ==> location_assign_run(h, 0, recv, seq![v]) == done(
            Val::Undefined,
            1,
        ),
        location_reload_run(h, 0, recv, seq![v]) == done(Val::Undefined, 2),
{
    assert(seq![v][0] == v);
}

/// A state without an address is noted in the history and moves nothing; only a pushed one makes the
/// history longer, by one.
pub proof fn law_history(h: Host, recv: Option<Val>, state: Val, o: u64, n: Num, m: Val, u: Val, w: Val)
    requires
        h.len >= 2,
        (h.reply)(0, Question { op: Op::GlobalValue, args: seq![Val::Str("history"@)] })
            == Answer::Value(Val::Ref(Kind::Obj, o)),
        (h.reply)(
            1,
            Question {
                op: Op::StoreSlot,
                args: seq![Val::Ref(Kind::Obj, o), Val::Str("state"@), state],
            },
        ) == Answer::Value(u),
        (h.reply)(
            2,
            Question { op: Op::OwnSlot, args: seq![Val::Ref(Kind::Obj, o), Val::Str("length"@)] },
        ) == Answer::Value(Val::Num(n)),
        (h.reply)(3, Question { op: Op::PlainNumber, args: seq![Val::Num(n)] }) == Answer::Value(
            Val::Num(n),
        ),
        (h.reply)(4, Question { op: Op::PlusOne, args: seq![Val::Num(n)] }) == Answer::Value(m),
        (h.reply)(
            5,
            Question {
                op: Op::StoreSlot,
                args: seq![Val::Ref(Kind::Obj, o), Val::Str("length"@), m],
            },
        ) == Answer::Value(w),
    ensures
        history_state_run(h, 0, false, recv, seq![state]) == done(Val::Undefined, 2),
        h.len == 6 ==> history_state_run(h, 0, true, recv, seq![state]) == done(Val::Undefined, 6),
{
    assert(seq![state][0] == state);
}

/// An address in the history is where the page says that it is.
pub proof fn law_history_address(h: Host, pushes: bool, recv: Option<Val>, args: Seq<Val>, url: Seq<char>)
    requires
        args.len() == 3,
        url.len() > 0,
        h.len == 1,
        (h.reply)(0, Question { op: Op::Display, args: seq![args[2]] }) == Answer::Value(
            Val::Str(url),
        ),
    ensures
        history_state_run(h, 0, pushes, recv, args).out == Err::<Val, _>(
            Halt::Ask(Question { op: Op::UpdateLocation, args: seq![Val::Str(url)] }),
        ),
{
}

/// What `matchMedia` says begins with whether the query fits, and the query itself.
pub proof fn law_media(h: Host, recv: Option<Val>, v: Val, q: Seq<char>, b: bool)
    requires
        h.len == 2,
        (h.reply)(0, Question { op: Op::Display, args: seq![v] }) == Answer::Value(Val::Str(q)),
        (h.reply)(1, Question { op: Op::MediaMatches, args: seq![Val::Str(q)] }) == Answer::Value(
            Val::Bool(b),
        ),
    ensures
        match_media_run(h, 0, recv, seq![v]).out matches Err(Halt::Ask(asked)) && asked.op
            == Op::NewObject && asked.args.take(4) == seq![
            Val::Str("matches"@),
            Val::Bool(b),
            Val::Str("media"@),
            Val::Str(q),
        ],
{
    assert(seq![v][0] == v);
    let f = crate::page::media_fields(q, b);
    assert(f.take(4) =~= seq![
        Val::Str("matches"@),
        Val::Bool(b),
        Val::Str("media"@),
        Val::Str(q),
    ]);
}

/// A property and its value are asked about as a declaration in brackets.
pub proof fn law_supported(h: Host, recv: Option<Val>, v: Val, w: Val, a: Seq<char>, b: Seq<char>)
    requires
        h.len == 2,
        (h.reply)(0, Question { op: Op::Display, args: seq![v] }) == Answer::Value(Val::Str(a)),
        (h.reply)(1, Question { op: Op::Display, args: seq![w] }) == Answer::Value(Val::Str(b)),
    ensures
        css_supports_run(h, 0, recv, seq![v, w]).out == Err::<Val, _>(
            Halt::Ask(
                Question {
                    op: Op::StyleSupported,
                    args: seq![Val::Str(seq!['('] + a + seq![':', ' '] + b + seq![')'])],
                },
            ),
        ),
        css_supports_run(h, 0, recv, Seq::empty()) == done(Val::Bool(false), 0),
{
    reveal_strlit("(");
    reveal_strlit(": ");
    reveal_strlit(")");
    assert("("@ =~= seq!['('] && ": "@ =~= seq![':', ' '] && ")"@ =~= seq![')']);
    let args = seq![v, w];
    assert(args[0] == v && args[1] == w);
}

/// The last of an animation's frames is the one that counts.
pub proof fn law_last_frame(h: Host, a: u64, l: Seq<Val>, x: Val)
    requires
        h.len == 1,
        (h.reply)(0, Question { op: Op::Elements, args: seq![Val::Ref(Kind::Arr, a)] })
            == Answer::List(l.push(x)),
    ensures
        last_frame(h, 0, Val::Ref(Kind::Arr, a)) == done(x, 1),
{
    assert(l.push(x).last() == x);
}

/// An animation without a word about its end leaves the element as it is.
pub proof fn law_animation_leaves(h: Host, n: u64, frames: Val)
    requires
        h.len == 0,
    ensures
        element_animate_run(h, 0, Some(Val::Ref(Kind::Dom, n)), seq![frames]).out == Err::<Val, _>(
            Halt::Ask(Question { op: Op::NewPromise, args: Seq::empty() }),
        ),
{
    reveal_strlit("forwards");
    reveal_strlit("both");
    assert("forwards"@.len() == 8 && "both"@.len() == 4);
}

/// Cookies are read and kept as they are.
pub proof fn law_cookies(h: Host, recv: Option<Val>, v: Val, s: Seq<char>)
    requires
        h.len == 1,
        (h.reply)(0, Question { op: Op::Cookies, args: Seq::empty() }) == Answer::Value(
            Val::Str(s),
        ),
        (h.reply)(0, Question { op: Op::Display, args: seq![v] }) == Answer::Value(Val::Str(s)),
    ensures
        cookie_get_run(h, 0, recv, seq![v]) == done(Val::Str(s), 1),
        cookie_set_run(h, 0, recv, seq![v]).out == Err::<Val, _>(
            Halt::Ask(Question { op: Op::StoreCookie, args: seq![Val::Str(s)] }),
        ),
{
    assert(seq![v][0] == v);
}

/// A property of a style is set to a value, and set to nothing where it is removed.
pub proof fn law_style(h: Host, i: u64, v: Val, w: Val, name: Seq<char>, value: Seq<char>)
    requires
        (h.reply)(0, Question { op: Op::Display, args: seq![v] }) == Answer::Value(
            Val::Str(name),
        ),
        (h.reply)(1, Question { op: Op::Display, args: seq![w] }) == Answer::Value(
            Val::Str(value),
        ),
    ensures
        ({
            let style = Val::Ref(Kind::Style, i);
            &&& h.len == 2 ==> style_set_property_run(h, 0, Some(style), seq![v, w]).out == Err::<
                Val,
                _,
            >(
                Halt::Ask(
                    Question {
                        op: Op::SetStyle,
                        args: seq![style, Val::Str(name), Val::Str(value)],
                    },
                ),
            )
            &&& h.len == 1 ==> style_remove_property_run(h, 0, Some(style), seq![v]).out == Err::<
                Val,
                _,
            >(
                Halt::Ask(
                    Question {
                        op: Op::SetStyle,
                        args: seq![style, Val::Str(name), Val::Str(Seq::empty())],
                    },
                ),
            )
            &&& h.len == 1 ==> style_get_property_run(h, 0, Some(style), seq![v]).out == Err::<
                Val,
                _,
            >(Halt::Ask(Question { op: Op::StyleText, args: seq![style, Val::Str(name)] }))
        }),
{
    assert(seq![v][0] == v);
    assert(seq![v, w][0] == v && seq![v, w][1] == w);
}

/// Of two nodes in the document, the one that is asked about follows where its place is greater, and
/// goes before where it is less.
pub proof fn law_document_positions(h: Host, a: u64, b: u64, i: int, j: int)
    requires
        a != b,
        0 <= i <= MAX_SAFE,
        0 <= j <= MAX_SAFE,
        h.len == 2,
        (h.reply)(0, Question { op: Op::DocumentIndex, args: seq![Val::Ref(Kind::Dom, a)] })
            == Answer::Value(Val::Num(num_of(i))),
        (h.reply)(1, Question { op: Op::DocumentIndex, args: seq![Val::Ref(Kind::Dom, b)] })
            == Answer::Value(Val::Num(num_of(j))),
    ensures
        ({
            let r = compare_doc_position_run(
                h,
                0,
                Some(Val::Ref(Kind::Dom, a)),
                seq![Val::Ref(Kind::Dom, b)],
            );
            &&& i < j ==> r == done(Val::Num(num_of(4)), 2)
            &&& j < i ==> r == done(Val::Num(num_of(2)), 2)
            &&& i == j ==> r == done(Val::Num(num_of(0)), 2)
        }),
{
    law_safe_integers_exact(i);
    law_safe_integers_exact(j);
    assert(seq![Val::Ref(Kind::Dom, b)][0] == Val::Ref(Kind::Dom, b));
}

/// What the questions for elements ask: by the word that is given, below the node that is asked.
pub proof fn law_queries(h: Host, n: u64, v: Val, s: Seq<char>, all: bool)
    requires
        h.len == 1,
        (h.reply)(0, Question { op: Op::Display, args: seq![v] }) == Answer::Value(Val::Str(s)),
    ensures
        ({
            let node = Val::Ref(Kind::Dom, n);
            &&& get_elements_run(h, 0, true, Some(node), seq![v]).out == Err::<Val, _>(
                Halt::Ask(Question { op: Op::ByClass, args: seq![node, Val::Str(s)] }),
            )
            &&& get_elements_run(h, 0, false, Some(node), seq![v]).out == Err::<Val, _>(
                Halt::Ask(Question { op: Op::ByTag, args: seq![node, Val::Str(s)] }),
            )
            &&& query_selector_run(h, 0, all, Some(node), seq![v]).out == Err::<Val, _>(
                Halt::Ask(
                    Question { op: Op::Query, args: seq![node, Val::Str(s), Val::Bool(all)] },
                ),
            )
        }),
{
    assert(seq![v][0] == v);
}

/// New nodes: a text and a comment of the text that is given, an element of a tag that is allowed,
/// and a copy with all below it just where that is asked for.
pub proof fn law_nodes_made(h: Host, g: Host, recv: Option<Val>, n: u64, v: Val, s: Seq<char>)
    requires
        h.len == 1,
        (h.reply)(0, Question { op: Op::Display, args: seq![v] }) == Answer::Value(Val::Str(s)),
        g.len == 0,
    ensures
        create_text_node_run(h, 0, recv, seq![v]).out == Err::<Val, _>(
            Halt::Ask(Question { op: Op::NewText, args: seq![Val::Str(s)] }),
        ),
        create_comment_run(h, 0, recv, seq![v]).out == Err::<Val, _>(
            Halt::Ask(Question { op: Op::NewComment, args: seq![Val::Str(s)] }),
        ),
        create_element_run(h, 0, recv, seq![v]).out == Err::<Val, _>(
            Halt::Ask(Question { op: Op::CheckTag, args: seq![Val::Str(s)] }),
        ),
        clone_node_run(g, 0, Some(Val::Ref(Kind::Dom, n)), seq![v]).out == Err::<Val, _>(
            Halt::Ask(
                Question {
                    op: Op::CopyNode,
                    args: seq![Val::Ref(Kind::Dom, n), Val::Bool(truthy(v))],
                },
            ),
        ),
{
    assert(seq![v][0] == v);
}

/// The root of a node that does not stand in the document is the last node above it, and the node
/// itself where there is none.
pub proof fn law_root(h: Host, n: u64, above: Seq<Val>, top: Val)
    requires
        h.len == 2,
        (h.reply)(0, Question { op: Op::Ancestors, args: seq![Val::Ref(Kind::Dom, n)] })
            == Answer::List(above),
        (h.reply)(1, Question { op: Op::DocumentRoot, args: Seq::empty() }) == Answer::Value(top),
        !same_node(Val::Ref(Kind::Dom, n), top),
        forall|i: int| 0 <= i < above.len() ==> !same_node(#[trigger] above[i], top),
    ensures
        above.len() > 0 ==> dom_get_root_node_run(
            h,
            0,
            Some(Val::Ref(Kind::Dom, n)),
            Seq::empty(),
        ) == done(above[above.len() - 1], 2),
        above.len() == 0 ==> dom_get_root_node_run(
            h,
            0,
            Some(Val::Ref(Kind::Dom, n)),
            Seq::empty(),
        ) == done(Val::Ref(Kind::Dom, n), 2),
{
    if above.len() > 0 {
        assert(!same_node(above[above.len() - 1], top));
        assert(above.last() == above[above.len() - 1]);
    }
}

/// The node that follows the `i`-th of a list is the one after it.
pub proof fn law_next_sibling(children: Seq<Val>, from: int, i: int)
    requires
        0 <= from <= i < children.len(),
        children[i] is Ref,
        forall|j: int| from <= j < i ==> !same_node(#[trigger] children[j], children[i]),
    ensures
        next_in(children, from, children[i]) == (if i + 1 < children.len() {
            Some(children[i + 1])
        } else {
            None
        }),
    decreases i - from,
{
    if from < i {
        assert(!same_node(children[from], children[i]));
        law_next_sibling(children, from + 1, i);
    }
}

} // verus!
