//! What the callback methods make of the elements that an array has when they start.
use crate::arr_ops::{
    snap_find_last, snap_fold, snap_index_of, snap_iter, snap_present, snap_walk, PresentV, WorkV,
};
use crate::array_iter::{opt_arg, Gathered};
use crate::array_live::{count_num, ArrOp};
use crate::host::{call, settles, Halt, Host};
use crate::number::num_of;
use crate::value::{arg, callable, strictly_equal, truthy, Kind, Val};
use vstd::prelude::*;

verus! {

/// An array without holes and without accessors.
pub open spec fn plain_work(w: WorkV) -> bool {
    &&& w.holes.len() == 0
    &&& forall|i: int|
        0 <= i < w.items.len() ==> !((#[trigger] w.items[i]) matches Val::Ref(Kind::Accessor, _))
}

/// What a callback says of the elements from the `i`-th on: it gets the element, its index and the
/// array.
pub open spec fn replied(
    h: Host,
    pos: nat,
    w: WorkV,
    o: Val,
    args: Seq<Val>,
    replies: Seq<Val>,
    i: nat,
) -> bool
    decreases w.items.len() - i,
{
    i < w.items.len() ==> {
        let c = call(
            h,
            pos,
            arg(args, 0),
            opt_arg(args, 1),
            seq![w.items[i as int], Val::Num(count_num(i)), o],
        );
        &&& settles(c, replies[i as int])
        &&& c.out is Ok ==> replied(h, c.pos, w, o, args, replies, i + 1)
    }
}

proof fn lemma_walk_decides(
    h: Host,
    pos: nat,
    op: ArrOp,
    w: WorkV,
    o: Val,
    args: Seq<Val>,
    replies: Seq<Val>,
    i: nat,
    j: nat,
)
    requires
        op == ArrOp::SomeOf || op == ArrOp::Every || op == ArrOp::Find || op == ArrOp::FindIndex,
        plain_work(w),
        i <= j <= w.items.len(),
        replied(h, pos, w, o, args, replies, i),
        forall|m: int| i <= m < j ==> (truthy(#[trigger] replies[m]) <==> op == ArrOp::Every),
        j < w.items.len() ==> (truthy(replies[j as int]) <==> op != ArrOp::Every),
    ensures
        settles(
            snap_walk(h, pos, op, w, o, args, i, Seq::empty(), Seq::empty()),
            if j < w.items.len() {
                Gathered::Decided(
                    match op {
                        ArrOp::SomeOf => Val::Bool(true),
                        ArrOp::Every => Val::Bool(false),
                        ArrOp::Find => w.items[j as int],
                        _ => Val::Num(count_num(j)),
                    },
                )
            } else {
                Gathered::All(Seq::empty(), Seq::empty())
            },
        ),
    decreases w.items.len() - i,
{
    if i < w.items.len() {
        assert(!(w.items[i as int] matches Val::Ref(Kind::Accessor, _)));
        let c = call(
            h,
            pos,
            arg(args, 0),
            opt_arg(args, 1),
            seq![w.items[i as int], Val::Num(count_num(i)), o],
        );
        if c.out is Ok && i < j {
            assert(truthy(replies[i as int]) <==> op == ArrOp::Every);
            lemma_walk_decides(h, c.pos, op, w, o, args, replies, i + 1, j);
        }
    }
}

/// `some`, `every`, `find` and `findIndex` go by the first element whose reply decides: a truthy one,
/// and for `every` a falsy one.
pub proof fn law_first_reply(
    h: Host,
    pos: nat,
    w: WorkV,
    o: Val,
    args: Seq<Val>,
    replies: Seq<Val>,
    j: nat,
    all: bool,
)
    requires
        callable(arg(args, 0)),
        plain_work(w),
        j <= w.items.len(),
        replied(h, pos, w, o, args, replies, 0),
        forall|m: int| 0 <= m < j ==> (truthy(#[trigger] replies[m]) <==> all),
        j < w.items.len() ==> (truthy(replies[j as int]) <==> !all),
    ensures
        !all ==> settles(
            snap_iter(h, pos, ArrOp::SomeOf, w, o, args),
            Val::Bool(j < w.items.len()),
        ),
        all ==> settles(
            snap_iter(h, pos, ArrOp::Every, w, o, args),
            Val::Bool(j == w.items.len()),
        ),
        !all ==> settles(
            snap_iter(h, pos, ArrOp::Find, w, o, args),
            if j < w.items.len() {
                w.items[j as int]
            } else {
                Val::Undefined
            },
        ),
        !all ==> settles(
            snap_iter(h, pos, ArrOp::FindIndex, w, o, args),
            Val::Num(
                if j < w.items.len() {
                    count_num(j)
                } else {
                    num_of(-1)
                },
            ),
        ),
{
    if all {
        lemma_walk_decides(h, pos, ArrOp::Every, w, o, args, replies, 0, j);
    } else {
        lemma_walk_decides(h, pos, ArrOp::SomeOf, w, o, args, replies, 0, j);
        lemma_walk_decides(h, pos, ArrOp::Find, w, o, args, replies, 0, j);
        lemma_walk_decides(h, pos, ArrOp::FindIndex, w, o, args, replies, 0, j);
    }
}

/// `map` gathers the replies, one for each element, in their order.
pub proof fn law_mapped(
    h: Host,
    pos: nat,
    w: WorkV,
    o: Val,
    args: Seq<Val>,
    replies: Seq<Val>,
    i: nat,
)
    requires
        plain_work(w),
        i <= w.items.len(),
        replies.len() == w.items.len(),
        replied(h, pos, w, o, args, replies, i),
    ensures
        settles(
            snap_walk(
                h,
                pos,
                ArrOp::MapEach,
                w,
                o,
                args,
                i,
                replies.take(i as int),
                Seq::empty(),
            ),
            Gathered::All(replies, Seq::empty()),
        ),
    decreases w.items.len() - i,
{
    if i < w.items.len() {
        assert(!(w.items[i as int] matches Val::Ref(Kind::Accessor, _)));
        let c = call(
            h,
            pos,
            arg(args, 0),
            opt_arg(args, 1),
            seq![w.items[i as int], Val::Num(count_num(i)), o],
        );
        if c.out is Ok {
            law_mapped(h, c.pos, w, o, args, replies, i + 1);
            assert(replies.take(i as int).push(replies[i as int]) =~= replies.take(
                (i + 1) as int,
            ));
        }
    } else {
        assert(replies.take(i as int) =~= replies);
    }
}

/// The first `i` elements, without those whose reply is falsy.
pub open spec fn accepted(items: Seq<Val>, replies: Seq<Val>, i: nat) -> Seq<Val>
    decreases i,
{
    if i == 0 {
        Seq::empty()
    } else if truthy(replies[i - 1]) {
        accepted(items, replies, (i - 1) as nat).push(items[i - 1])
    } else {
        accepted(items, replies, (i - 1) as nat)
    }
}

/// `filter` gathers the elements whose reply is truthy, in their order.
pub proof fn law_filtered(
    h: Host,
    pos: nat,
    w: WorkV,
    o: Val,
    args: Seq<Val>,
    replies: Seq<Val>,
    i: nat,
)
    requires
        plain_work(w),
        i <= w.items.len(),
        replied(h, pos, w, o, args, replies, i),
    ensures
        settles(
            snap_walk(
                h,
                pos,
                ArrOp::Filter,
                w,
                o,
                args,
                i,
                accepted(w.items, replies, i),
                Seq::empty(),
            ),
            Gathered::All(accepted(w.items, replies, w.items.len()), Seq::empty()),
        ),
    decreases w.items.len() - i,
{
    if i < w.items.len() {
        assert(!(w.items[i as int] matches Val::Ref(Kind::Accessor, _)));
        let c = call(
            h,
            pos,
            arg(args, 0),
            opt_arg(args, 1),
            seq![w.items[i as int], Val::Num(count_num(i)), o],
        );
        if c.out is Ok {
            law_filtered(h, c.pos, w, o, args, replies, i + 1);
        }
    }
}

/// `reduce` goes through the elements from the front, `reduceRight` from the end, and each with its
/// index.
pub proof fn law_order_of_reduction(
    h: Host,
    pos: nat,
    w: WorkV,
    o: Val,
    backward: bool,
    n: nat,
    out: Seq<PresentV>,
)
    requires
        plain_work(w),
        n <= w.items.len(),
        out.len() == w.items.len() - n,
        forall|k: int|
            0 <= k < out.len() ==> (#[trigger] out[k]) == (PresentV {
                index: (if backward {
                    w.items.len() - 1 - k
                } else {
                    k
                }) as nat,
                value: w.items[if backward {
                    w.items.len() - 1 - k
                } else {
                    k
                }],
            }),
    ensures
        snap_present(h, pos, w, o, backward, n, out).out matches Ok(l) && l.len() == w.items.len()
            && forall|k: int|
            0 <= k < l.len() ==> (#[trigger] l[k]) == (PresentV {
                index: (if backward {
                    w.items.len() - 1 - k
                } else {
                    k
                }) as nat,
                value: w.items[if backward {
                    w.items.len() - 1 - k
                } else {
                    k
                }],
            }),
    decreases n,
{
    if n > 0 {
        let i: nat = if backward {
            (n - 1) as nat
        } else {
            (w.items.len() - n) as nat
        };
        assert(!(w.items[i as int] matches Val::Ref(Kind::Accessor, _)));
        law_order_of_reduction(
            h,
            pos,
            w,
            o,
            backward,
            (n - 1) as nat,
            out.push(PresentV { index: i, value: w.items[i as int] }),
        );
    }
}

/// What a reducer makes of the elements from the `j`-th on: it gets what it made before, the element,
/// its index and the array.
pub open spec fn reduces_to(
    h: Host,
    pos: nat,
    f: Val,
    o: Val,
    list: Seq<PresentV>,
    accs: Seq<Val>,
    j: int,
) -> bool
    decreases list.len() - j,
{
    0 <= j < list.len() ==> {
        let c = call(
            h,
            pos,
            f,
            None,
            seq![accs[j], list[j].value, Val::Num(count_num(list[j].index)), o],
        );
        &&& settles(c, accs[j + 1])
        &&& c.out is Ok ==> reduces_to(h, c.pos, f, o, list, accs, j + 1)
    }
}

/// A reduction gives what the reducer made of the last element.
pub proof fn law_reduced(
    h: Host,
    pos: nat,
    f: Val,
    o: Val,
    list: Seq<PresentV>,
    accs: Seq<Val>,
    j: int,
)
    requires
        0 <= j <= list.len(),
        reduces_to(h, pos, f, o, list, accs, j),
    ensures
        settles(snap_fold(h, pos, f, o, list, j, accs[j]), accs[list.len() as int]),
    decreases list.len() - j,
{
    if j < list.len() {
        let args = seq![accs[j], list[j].value, Val::Num(count_num(list[j].index)), o];
        assert(seq![accs[j]] + crate::arr_ops::visit_args(list[j].value, list[j].index, o)
            =~= args);
        let c = call(h, pos, f, None, args);
        if c.out is Ok {
            law_reduced(h, c.pos, f, o, list, accs, j + 1);
        }
    }
}

/// What a callback says of the elements below `n`, from the last one down.
pub open spec fn replied_down(
    h: Host,
    pos: nat,
    w: WorkV,
    o: Val,
    args: Seq<Val>,
    replies: Seq<Val>,
    n: nat,
) -> bool
    decreases n,
{
    0 < n <= w.items.len() ==> {
        let c = call(
            h,
            pos,
            arg(args, 0),
            opt_arg(args, 1),
            seq![w.items[n - 1], Val::Num(count_num((n - 1) as nat)), o],
        );
        &&& settles(c, replies[n - 1])
        &&& c.out is Ok ==> replied_down(h, c.pos, w, o, args, replies, (n - 1) as nat)
    }
}

/// `findLast` and `findLastIndex` give the last element with a truthy reply.
pub proof fn law_last_reply(
    h: Host,
    pos: nat,
    w: WorkV,
    o: Val,
    args: Seq<Val>,
    replies: Seq<Val>,
    n: nat,
    j: int,
)
    requires
        n <= w.items.len(),
        -1 <= j < n,
        replied_down(h, pos, w, o, args, replies, n),
        forall|m: int| j < m < n ==> !truthy(#[trigger] replies[m]),
        j >= 0 ==> truthy(replies[j]),
    ensures
        settles(
            snap_find_last(h, pos, w, o, args, true, n),
            Val::Num(
                if j < 0 {
                    num_of(-1)
                } else {
                    count_num(j as nat)
                },
            ),
        ),
        settles(
            snap_find_last(h, pos, w, o, args, false, n),
            if j < 0 {
                Val::Undefined
            } else {
                w.items[j]
            },
        ),
    decreases n,
{
    if n > 0 {
        let c = call(
            h,
            pos,
            arg(args, 0),
            opt_arg(args, 1),
            seq![w.items[n - 1], Val::Num(count_num((n - 1) as nat)), o],
        );
        if c.out is Ok && j != n - 1 {
            assert(!truthy(replies[n - 1]));
            law_last_reply(h, c.pos, w, o, args, replies, (n - 1) as nat, j);
        }
    }
}

/// `indexOf` gives the first place from the start on whose element is the same.
pub proof fn law_first_place(h: Host, pos: nat, w: WorkV, o: Val, needle: Val, i: nat, j: nat)
    requires
        plain_work(w),
        i <= j <= w.items.len(),
        forall|m: int| i <= m < j ==> !strictly_equal(#[trigger] w.items[m], needle),
        j < w.items.len() ==> strictly_equal(w.items[j as int], needle),
    ensures
        settles(
            snap_index_of(h, pos, w, o, w.items, needle, i),
            Val::Num(
                if j < w.items.len() {
                    count_num(j)
                } else {
                    num_of(-1)
                },
            ),
        ),
    decreases w.items.len() - i,
{
    if i < w.items.len() {
        assert(!(w.items[i as int] matches Val::Ref(Kind::Accessor, _)));
        if i < j {
            assert(!strictly_equal(w.items[i as int], needle));
            law_first_place(h, pos, w, o, needle, i + 1, j);
        }
    }
}

/// What cannot be called is refused by every callback method.
pub proof fn law_callback_refused(h: Host, pos: nat, op: ArrOp, w: WorkV, o: Val, args: Seq<Val>)
    requires
        !callable(arg(args, 0)),
    ensures
        snap_iter(h, pos, op, w, o, args).out matches Err(Halt::Throw(_)),
{
}

} // verus!
