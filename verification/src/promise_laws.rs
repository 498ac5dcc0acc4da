//! What the functions of promises settle, and with what.
use crate::host::{done, Answer, Halt, Host, Op, Question};
use crate::promises::{
    all_from, all_settled_from, promise_catch_run, promise_finally_run,
    promise_race_run, promise_resolve_run, promise_settle_run, promise_then_run, report_fields,
};
use crate::value::{Kind, Val};
use vstd::prelude::*;

verus! {

/// Whether an item of a list of promises counts as fulfilled, and with what value it is settled.
pub struct Outcome {
    pub fulfilled: bool,
    pub value: Val,
}

/// The engine says of the items from the `i`-th on how they are settled.
pub open spec fn outcomes_told(h: Host, pos: nat, items: Seq<Val>, i: int, l: Seq<Outcome>) -> bool {
    forall|k: int|
        i <= k < items.len() ==> #[trigger] told_of(h, (pos + k - i) as nat, items[k], l[k])
}

pub open spec fn told_of(h: Host, pos: nat, item: Val, o: Outcome) -> bool {
    (h.reply)(pos, Question { op: Op::SettleState, args: seq![item] }) == Answer::List(
        seq![Val::Bool(o.fulfilled), o.value],
    )
}

pub open spec fn values_of(l: Seq<Outcome>, n: int) -> Seq<Val> {
    Seq::new(n as nat, |k: int| l[k].value)
}

/// `Promise.all` of items that are all fulfilled gives the list of their values, in order.
pub proof fn law_all_fulfilled(
    h: Host,
    pos: nat,
    p: Val,
    items: Seq<Val>,
    i: int,
    l: Seq<Outcome>,
    a: Val,
)
    requires
        0 <= i <= items.len(),
        l.len() == items.len(),
        outcomes_told(h, pos, items, i, l),
        forall|k: int| 0 <= k < l.len() ==> (#[trigger] l[k]).fulfilled,
        h.len == pos + items.len() - i + 1,
        (h.reply)(
            (pos + items.len() - i) as nat,
            Question { op: Op::NewArray, args: values_of(l, l.len() as int) },
        ) == Answer::Value(a),
    ensures
        all_from(h, pos, p, items, i, values_of(l, i)).out == Err::<Val, _>(
            Halt::Ask(Question { op: Op::ResolvePromise, args: seq![p, a] }),
        ),
    decreases items.len() - i,
{
    if i < items.len() {
        assert(told_of(h, (pos + i - i) as nat, items[i], l[i]));
        assert(l[i].fulfilled);
        let state = seq![Val::Bool(true), l[i].value];
        assert(state[0] == Val::Bool(true) && state[1] == l[i].value);
        assert(values_of(l, i + 1) =~= values_of(l, i).push(l[i].value));
        assert forall|k: int| i + 1 <= k < items.len() implies #[trigger] told_of(
            h,
            (pos + 1 + k - (i + 1)) as nat,
            items[k],
            l[k],
        ) by {
            assert(told_of(h, (pos + k - i) as nat, items[k], l[k]));
        }
        law_all_fulfilled(h, pos + 1, p, items, i + 1, l, a);
    }
}

/// The first item that is rejected rejects what `Promise.all` gives, with its reason; the items
/// after it are not asked for.
pub proof fn law_all_rejected(
    h: Host,
    pos: nat,
    p: Val,
    items: Seq<Val>,
    i: int,
    k: int,
    l: Seq<Outcome>,
    out: Seq<Val>,
)
    requires
        0 <= i <= k < items.len(),
        l.len() == items.len(),
        outcomes_told(h, pos, items, i, l),
        forall|j: int| i <= j < k ==> (#[trigger] l[j]).fulfilled,
        !l[k].fulfilled,
        h.len == pos + k - i + 1,
    ensures
        all_from(h, pos, p, items, i, out).out == Err::<Val, _>(
            Halt::Ask(Question { op: Op::RejectPromise, args: seq![p, l[k].value] }),
        ),
    decreases k - i,
{
    assert(told_of(h, (pos + i - i) as nat, items[i], l[i]));
    let state = seq![Val::Bool(l[i].fulfilled), l[i].value];
    assert(state[0] == Val::Bool(l[i].fulfilled) && state[1] == l[i].value);
    if i < k {
        assert forall|j: int| i + 1 <= j < items.len() implies #[trigger] told_of(
            h,
            (pos + 1 + j - (i + 1)) as nat,
            items[j],
            l[j],
        ) by {
            assert(told_of(h, (pos + j - i) as nat, items[j], l[j]));
        }
        law_all_rejected(h, pos + 1, p, items, i + 1, k, l, out.push(l[i].value));
    }
}

/// What `Promise.allSettled` reports of one item: how it is settled, and its value or its reason.
pub proof fn law_reported(h: Host, pos: nat, p: Val, items: Seq<Val>, i: int, o: Outcome, out: Seq<Val>)
    requires
        0 <= i < items.len(),
        told_of(h, pos, items[i], o),
        h.len == pos + 1,
    ensures
        all_settled_from(h, pos, p, items, i, out).out == Err::<Val, _>(
            Halt::Ask(
                Question {
                    op: Op::NewObject,
                    args: seq![
                        Val::Str("status"@),
                        Val::Str(
                            if o.fulfilled {
                                "fulfilled"@
                            } else {
                                "rejected"@
                            },
                        ),
                        Val::Str(
                            if o.fulfilled {
                                "value"@
                            } else {
                                "reason"@
                            },
                        ),
                        o.value,
                    ],
                },
            ),
        ),
{
    let state = seq![Val::Bool(o.fulfilled), o.value];
    assert(state[0] == Val::Bool(o.fulfilled) && state[1] == o.value);
    assert(report_fields(state) =~= seq![
        Val::Str("status"@),
        Val::Str(
            if o.fulfilled {
                "fulfilled"@
            } else {
                "rejected"@
            },
        ),
        Val::Str(
            if o.fulfilled {
                "value"@
            } else {
                "reason"@
            },
        ),
        o.value,
    ]);
}

/// Nothing to wait for gives a promise of an empty list.
pub proof fn law_all_of_nothing(h: Host, pos: nat, p: Val)
    requires
        h.len == pos,
    ensures
        all_from(h, pos, p, Seq::empty(), 0, Seq::empty()).out == Err::<Val, _>(
            Halt::Ask(Question { op: Op::NewArray, args: Seq::empty() }),
        ),
        all_settled_from(h, pos, p, Seq::empty(), 0, Seq::empty()).out == Err::<Val, _>(
            Halt::Ask(Question { op: Op::NewArray, args: Seq::empty() }),
        ),
{
}

/// `Promise.race` settles as the first item does, and stays open without one.
pub proof fn law_race(h: Host, recv: Option<Val>, list: Val, items: Seq<Val>, p: Val, o: Outcome)
    requires
        list matches Val::Ref(Kind::Arr, _),
        (h.reply)(0, Question { op: Op::Elements, args: seq![list] }) == Answer::List(items),
        (h.reply)(1, Question { op: Op::NewPromise, args: Seq::empty() }) == Answer::Value(p),
        items.len() > 0 ==> h.len == 3 && told_of(h, 2, items[0], o),
        items.len() == 0 ==> h.len == 2,
    ensures
        items.len() == 0 ==> promise_race_run(h, 0, recv, seq![list]) == done(p, 2),
        items.len() > 0 ==> promise_race_run(h, 0, recv, seq![list]).out == Err::<Val, _>(
            Halt::Ask(
                Question {
                    op: if o.fulfilled {
                        Op::ResolvePromise
                    } else {
                        Op::RejectPromise
                    },
                    args: seq![p, o.value],
                },
            ),
        ),
{
    let state = seq![Val::Bool(o.fulfilled), o.value];
    assert(state[0] == Val::Bool(o.fulfilled) && state[1] == o.value);
    assert(seq![list][0] == list);
}

/// `then` and `catch` add reactions to the promise: one for each way of being settled, and only one
/// for a rejection. What they give is the promise of the reaction.
pub proof fn law_reactions(h: Host, p: Val, f: Val, r: Val, dep: Val)
    requires
        h.len == 1,
        (h.reply)(0, Question { op: Op::NewPromise, args: Seq::empty() }) == Answer::Value(dep),
    ensures
        promise_then_run(h, 0, Some(p), seq![f, r]).out == Err::<Val, _>(
            Halt::Ask(Question { op: Op::PromiseThen, args: seq![p, f, r, dep] }),
        ),
        promise_then_run(h, 0, Some(p), seq![f]).out == Err::<Val, _>(
            Halt::Ask(Question { op: Op::PromiseThen, args: seq![p, f, Val::Undefined, dep] }),
        ),
        promise_catch_run(h, 0, Some(p), seq![r]).out == Err::<Val, _>(
            Halt::Ask(Question { op: Op::PromiseThen, args: seq![p, Val::Undefined, r, dep] }),
        ),
{
    assert(seq![f, r][0] == f && seq![f, r][1] == r);
}

/// `Promise.resolve` of what is no promise gives a promise of it.
pub proof fn law_resolved_value(h: Host, recv: Option<Val>, v: Val, p: Val)
    requires
        h.len == 2,
        (h.reply)(0, Question { op: Op::IsPromise, args: seq![v] }) == Answer::Value(
            Val::Bool(false),
        ),
        (h.reply)(1, Question { op: Op::NewPromise, args: Seq::empty() }) == Answer::Value(p),
    ensures
        promise_resolve_run(h, 0, recv, seq![v]).out == Err::<Val, _>(
            Halt::Ask(Question { op: Op::ResolvePromise, args: seq![p, v] }),
        ),
{
    assert(seq![v][0] == v);
}

/// The functions that an executor gets settle the promise with what they are given: the one resolves
/// it and the other rejects it.
pub proof fn law_executor_settles(h: Host, p: Val, v: Val, resolve: bool)
    requires
        p matches Val::Ref(Kind::Obj, _),
        h.len == 1,
        (h.reply)(0, Question { op: Op::OwnSlot, args: seq![p, Val::Str("\0state"@)] })
            == Answer::Value(Val::Str("pending"@)),
    ensures
        promise_settle_run(h, 0, resolve, Some(p), seq![v]).out == Err::<Val, _>(
            Halt::Ask(
                Question {
                    op: if resolve {
                        Op::ResolvePromise
                    } else {
                        Op::RejectPromise
                    },
                    args: seq![p, v],
                },
            ),
        ),
{
    assert(seq![v][0] == v);
}

/// `finally` gives the promise itself, whatever its callback does.
pub proof fn law_finally_passes_on(h: Host, p: Val, args: Seq<Val>)
    ensures
        promise_finally_run(h, 0, Some(p), args).out matches Ok(v) ==> v == p,
{
}

} // verus!
