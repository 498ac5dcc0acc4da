//! Which listeners an event reaches, and what cancels it.
use crate::host::{done, settles, Answer, Halt, Host, Op, Question};
use crate::listeners::{
    add_event_listener_run, add_global_listener_run, blur_run, call_each, click_ends,
    dispatch_global_event_run, event_prevent_default_run, event_stop_prop_run,
    focus_run, kept_nodes, kept_page, listening, ListenersV, NodeListenerV, PageListenerV,
};
use crate::value::{callable, Kind, Val};
use vstd::prelude::*;

verus! {

/// The engine shows a value at `pos` as this text.
pub open spec fn shown(h: Host, pos: nat, v: Val, t: Seq<char>) -> bool {
    h.len > pos && (h.reply)(pos, Question { op: Op::Display, args: seq![v] }) == Answer::Value(
        Val::Str(t),
    )
}

/// A listener that is added to a node comes after all others, for the event that it was added for;
/// a boolean says whether it is asked for early.
pub proof fn law_listener_added(
    h: Host,
    s: ListenersV,
    node: u64,
    name: Val,
    event: Seq<char>,
    f: Val,
    early: bool,
)
    requires
        shown(h, 0, name, event),
        callable(f),
    ensures
        add_event_listener_run(
            h,
            0,
            s,
            Some(Val::Ref(Kind::Dom, node)),
            seq![name, f, Val::Bool(early)],
        ) == done(
            ListenersV {
                nodes: s.nodes.push(
                    NodeListenerV { node, event, listener: f, capture: early, once: false },
                ),
                page: s.page,
            },
            1,
        ),
        add_event_listener_run(h, 0, s, Some(Val::Ref(Kind::Dom, node)), seq![name, f]) == done(
            ListenersV {
                nodes: s.nodes.push(
                    NodeListenerV { node, event, listener: f, capture: false, once: false },
                ),
                page: s.page,
            },
            1,
        ),
        add_global_listener_run(h, 0, s, seq![name, f]) == done(
            ListenersV {
                nodes: s.nodes,
                page: s.page.push(PageListenerV { event, listener: f }),
            },
            1,
        ),
{
    let a = seq![name, f, Val::Bool(early)];
    assert(a[0] == name && a[1] == f && a[2] == Val::Bool(early));
    let b = seq![name, f];
    assert(b[0] == name && b[1] == f);
}

/// What is not callable is no listener.
pub proof fn law_no_listener(h: Host, s: ListenersV, recv: Option<Val>, name: Val, event: Seq<char>, f: Val)
    requires
        shown(h, 0, name, event),
        !callable(f),
    ensures
        add_event_listener_run(h, 0, s, recv, seq![name, f]) == done(s, 1),
        add_global_listener_run(h, 0, s, seq![name, f]) == done(s, 1),
{
    let b = seq![name, f];
    assert(b[0] == name && b[1] == f);
}

/// The options of a listener are those of the same name: asked for early, and for one time only.
pub proof fn law_listener_options(
    h: Host,
    s: ListenersV,
    node: u64,
    name: Val,
    event: Seq<char>,
    f: Val,
    o: u64,
    early: bool,
    once: bool,
)
    requires
        shown(h, 0, name, event),
        callable(f),
        h.len >= 3,
        (h.reply)(
            1,
            Question {
                op: Op::OwnSlot,
                args: seq![Val::Ref(Kind::Obj, o), Val::Str("capture"@)],
            },
        ) == Answer::Value(Val::Bool(early)),
        (h.reply)(
            2,
            Question { op: Op::OwnSlot, args: seq![Val::Ref(Kind::Obj, o), Val::Str("once"@)] },
        ) == Answer::Value(Val::Bool(once)),
    ensures
        add_event_listener_run(
            h,
            0,
            s,
            Some(Val::Ref(Kind::Dom, node)),
            seq![name, f, Val::Ref(Kind::Obj, o)],
        ) == done(
            ListenersV {
                nodes: s.nodes.push(
                    NodeListenerV { node, event, listener: f, capture: early, once },
                ),
                page: s.page,
            },
            3,
        ),
{
    let a = seq![name, f, Val::Ref(Kind::Obj, o)];
    assert(a[0] == name && a[1] == f && a[2] == Val::Ref(Kind::Obj, o));
}

/// The engine says at every time which functions are the listener.
pub open spec fn told_same(h: Host, listener: Val, same: spec_fn(Val) -> bool) -> bool {
    forall|pos: nat, f: Val|
        (#[trigger] (h.reply)(pos, same_asked(f, listener))) == Answer::Value(Val::Bool(same(f)))
}

pub open spec fn same_asked(f: Val, listener: Val) -> Question {
    Question { op: Op::SameCallable, args: seq![f, listener] }
}

/// Those of the first `n` listeners that are not the listener at this node for this event.
pub open spec fn not_it(
    all: Seq<NodeListenerV>,
    n: int,
    node: u64,
    event: Seq<char>,
    same: spec_fn(Val) -> bool,
) -> Seq<NodeListenerV>
    decreases n,
{
    if n <= 0 {
        Seq::empty()
    } else {
        let l = all[n - 1];
        let rest = not_it(all, n - 1, node, event, same);
        if l.node == node && l.event == event && same(l.listener) {
            rest
        } else {
            rest.push(l)
        }
    }
}

/// Removing a listener from a node takes away just those that are it, at that node and for that
/// event; the others stay in order.
pub proof fn law_listener_removed(
    h: Host,
    pos: nat,
    all: Seq<NodeListenerV>,
    i: int,
    node: u64,
    event: Seq<char>,
    listener: Val,
    same: spec_fn(Val) -> bool,
)
    requires
        told_same(h, listener, same),
        0 <= i <= all.len(),
    ensures
        settles(
            kept_nodes(
                h,
                pos,
                all,
                i,
                node,
                event,
                listener,
                not_it(all, i, node, event, same),
            ),
            not_it(all, all.len() as int, node, event, same),
        ),
    decreases all.len() - i,
{
    if i < all.len() {
        let q = same_asked(all[i].listener, listener);
        assert((h.reply)(pos, q) == Answer::Value(Val::Bool(same(all[i].listener))));
        law_listener_removed(h, pos, all, i + 1, node, event, listener, same);
        law_listener_removed(h, pos + 1, all, i + 1, node, event, listener, same);
    }
}

/// Removing a listener from the page takes away just those that are it, for that event.
pub proof fn law_page_listener_removed(
    h: Host,
    pos: nat,
    all: Seq<PageListenerV>,
    i: int,
    event: Seq<char>,
    listener: Val,
    same: spec_fn(Val) -> bool,
    out: Seq<PageListenerV>,
)
    requires
        told_same(h, listener, same),
        0 <= i <= all.len(),
    ensures
        ({
            let r = kept_page(h, pos, all, i, event, listener, out);
            match r.out {
                Err(e) => e is Ask,
                Ok(l) => {
                    &&& forall|x: PageListenerV|
                        #[trigger] l.contains(x) <==> out.contains(x) || (all.skip(i).contains(x)
                            && !(x.event == event && same(x.listener)))
                },
            }
        }),
    decreases all.len() - i,
{
    if i < all.len() {
        let x = all[i];
        let q = same_asked(x.listener, listener);
        assert((h.reply)(pos, q) == Answer::Value(Val::Bool(same(x.listener))));
        let rest = all.skip(i + 1);
        assert(all.skip(i) =~= seq![x] + rest);
        assert forall|y: PageListenerV| #[trigger] all.skip(i).contains(y) <==> y == x
            || rest.contains(y) by {
            let whole = all.skip(i);
            if y == x {
                assert(whole[0] == y);
            }
            if rest.contains(y) {
                assert(whole[rest.index_of(y) + 1] == y);
            }
            if whole.contains(y) && y != x {
                assert(rest[whole.index_of(y) - 1] == y);
            }
        }
        let more = out.push(x);
        assert forall|y: PageListenerV| #[trigger] more.contains(y) <==> out.contains(y) || y == x by {
            if out.contains(y) {
                assert(more[out.index_of(y)] == y);
            }
            if y == x {
                assert(more[out.len() as int] == y);
            }
            if more.contains(y) && y != x {
                assert(out[more.index_of(y)] == y);
            }
        }
        law_page_listener_removed(h, pos, all, i + 1, event, listener, same, more);
        law_page_listener_removed(h, pos + 1, all, i + 1, event, listener, same, more);
        law_page_listener_removed(h, pos + 1, all, i + 1, event, listener, same, out);
    } else {
        assert(all.skip(i) =~= Seq::empty());
    }
}

/// The page's listeners for an event are those that were added for it, in the order of adding.
pub proof fn law_listening(s: Seq<PageListenerV>, x: PageListenerV, event: Seq<char>)
    ensures
        listening(Seq::empty(), event) == Seq::<Val>::empty(),
        x.event == event ==> listening(s.push(x), event) == listening(s, event).push(x.listener),
        x.event != event ==> listening(s.push(x), event) == listening(s, event),
{
    assert(s.push(x).drop_last() =~= s);
}

/// An event goes to all listeners one after the other, and what they give does not matter.
pub proof fn law_called_in_turn(h: Host, pos: nat, fs: Seq<Val>, i: int, k: int, evt: Val)
    requires
        0 <= i <= k <= fs.len(),
        h.len == pos + k - i,
        forall|n: nat, q: Question| !((#[trigger] (h.reply)(n, q)) is Throw),
    ensures
        k < fs.len() ==> call_each(h, pos, fs, i, None, evt).out == Err::<(), _>(
            Halt::Ask(Question { op: Op::CallBare, args: seq![fs[k]] + seq![evt] }),
        ),
        k == fs.len() ==> call_each(h, pos, fs, i, None, evt) == done((), h.len),
    decreases k - i,
{
    if i < k {
        let q = Question { op: Op::CallBare, args: seq![fs[i]] + seq![evt] };
        assert(!((h.reply)(pos, q) is Throw));
        law_called_in_turn(h, pos + 1, fs, i + 1, k, evt);
    }
}

/// `dispatchEvent` says whether nobody cancelled the event, and `preventDefault` cancels it: it sets
/// what `dispatchEvent` looks at.
pub proof fn law_cancelled_event(h: Host, s: ListenersV, evt: u64, name: Val, event: Seq<char>, g: Host)
    requires
        listening(s.page, event).len() == 0,
        h.len == 3,
        (h.reply)(
            0,
            Question { op: Op::OwnSlot, args: seq![Val::Ref(Kind::Obj, evt), Val::Str("type"@)] },
        ) == Answer::Value(name),
        (h.reply)(1, Question { op: Op::Display, args: seq![name] }) == Answer::Value(
            Val::Str(event),
        ),
        g.len == 0,
    ensures
        ({
            let e = Val::Ref(Kind::Obj, evt);
            let asked = Question { op: Op::OwnSlot, args: seq![e, Val::Str("defaultPrevented"@)] };
            &&& (h.reply)(2, asked) == Answer::Value(Val::Bool(true))
                ==> dispatch_global_event_run(h, 0, s, seq![e]) == done(Val::Bool(false), 3)
            &&& (h.reply)(2, asked) == Answer::Value(Val::Bool(false)) || (h.reply)(2, asked)
                == Answer::Absent ==> dispatch_global_event_run(h, 0, s, seq![e]) == done(
                Val::Bool(true),
                3,
            )
            &&& event_prevent_default_run(g, 0, Some(e), Seq::empty()).out == Err::<Val, _>(
                Halt::Ask(
                    Question {
                        op: Op::StoreSlot,
                        args: seq![e, Val::Str("defaultPrevented"@), Val::Bool(true)],
                    },
                ),
            )
            &&& event_stop_prop_run(g, 0, Some(e), Seq::empty()).out == Err::<Val, _>(
                Halt::Ask(
                    Question {
                        op: Op::StoreSlot,
                        args: seq![e, Val::Str("\0stopProp"@), Val::Bool(true)],
                    },
                ),
            )
        }),
{
    let e = Val::Ref(Kind::Obj, evt);
    assert(seq![e][0] == e);
}

/// A click does what clicks do unless it was cancelled; a cancelled one puts back what it had
/// toggled.
pub proof fn law_click_ends(h: Host, node: Val, kept: Seq<Val>, toggled: bool)
    requires
        h.len == 0,
    ensures
        click_ends(h, 0, node, kept, toggled, false).out == Err::<Val, _>(
            Halt::Ask(Question { op: Op::ClickDefault, args: seq![node] }),
        ),
        toggled ==> click_ends(h, 0, node, kept, toggled, true).out == Err::<Val, _>(
            Halt::Ask(Question { op: Op::RestoreChecked, args: seq![node] + kept }),
        ),
        !toggled ==> click_ends(h, 0, node, kept, toggled, true) == done(Val::Undefined, 0),
{
}

/// The question that makes an event of a name at a node.
pub open spec fn event_made(name: Seq<char>, node: Val) -> Question {
    Question { op: Op::MakeEvent, args: seq![Val::Str(name), node] }
}

/// `focus` takes the focus from the node that has it, which hears of that first; `blur` only does
/// something at the node that has it.
pub proof fn law_focus(h: Host, node: u64, other: u64)
    requires
        node != other,
        h.len == 1,
        (h.reply)(0, Question { op: Op::ActiveNode, args: Seq::empty() }) == Answer::Value(
            Val::Ref(Kind::Dom, other),
        ),
    ensures
        ({
            let n = Val::Ref(Kind::Dom, node);
            let o = Val::Ref(Kind::Dom, other);
            &&& focus_run(h, 0, Some(n), Seq::empty()).out == Err::<Val, _>(
                Halt::Ask(event_made("blur"@, o)),
            )
            &&& focus_run(h, 0, Some(o), Seq::empty()) == done(Val::Undefined, 1)
            &&& blur_run(h, 0, Some(n), Seq::empty()) == done(Val::Undefined, 1)
            &&& blur_run(h, 0, Some(o), Seq::empty()).out == Err::<Val, _>(
                Halt::Ask(Question { op: Op::SetActive, args: seq![Val::Undefined] }),
            )
        }),
{
}

} // verus!
