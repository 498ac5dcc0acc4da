//! What searching, walking and ordering an array come to.
use crate::array_iter::{
    callback_args, decided, find_last, reducer_args, undecided,
};
use crate::array_live::{live_get, ArrOp};
use crate::array_search::{
    backward_start, forward_start, includes, index_search, offset_of, search_down, search_up,

};
use crate::array_sort::{comes_after, order_by, text_less, OrderV};
use crate::host::{call, done, get, settles, Answer, Halt, Host, Op, Question};
use crate::number::{law_safe_integers_exact, num_of, Num, MAX_ARRAY_LEN, MAX_SAFE};
use crate::text::decimal;
use crate::value::{strictly_equal, truthy, Kind, Val};
use vstd::prelude::*;

verus! {

/// A search that is asked to start at `k` starts there, a negative `k` counts from the end; it does
/// not start outside of the array.
pub proof fn law_search_start(k: int, len: nat)
    requires
        -MAX_SAFE <= k <= MAX_SAFE,
        0 < len <= MAX_SAFE,
    ensures
        k >= 0 ==> forward_start(offset_of(num_of(k)), len) == Some(k as nat),
        -len <= k < 0 ==> forward_start(offset_of(num_of(k)), len) == Some((len + k) as nat),
        k < -len ==> forward_start(offset_of(num_of(k)), len) == Some(0nat),
        k >= len ==> backward_start(offset_of(num_of(k)), len) == Some((len - 1) as nat),
        0 <= k < len ==> backward_start(offset_of(num_of(k)), len) == Some(k as nat),
        -len <= k < 0 ==> backward_start(offset_of(num_of(k)), len) == Some((len + k) as nat),
        k < -len ==> backward_start(offset_of(num_of(k)), len) is None,
{
    law_safe_integers_exact(k);
}

/// What is no number starts a search at the front, and an infinity at the end that it points to.
pub proof fn law_search_start_of_no_integer(n: Num, len: nat)
    requires
        !n.finite(),
        len > 0,
    ensures
        n.nan() ==> forward_start(offset_of(n), len) == Some(0nat) && backward_start(
            offset_of(n),
            len,
        ) == Some(0nat),
        !n.nan() && n.negative() ==> forward_start(offset_of(n), len) == Some(0nat)
            && backward_start(offset_of(n), len) is None,
        !n.nan() && !n.negative() ==> forward_start(offset_of(n), len) is None && backward_start(
            offset_of(n),
            len,
        ) == Some((len - 1) as nat),
{
}

/// In an array without elements nothing is found.
pub proof fn law_search_in_nothing(h: Host, a: u64, needle: Val, reverse: bool)
    requires
        h.len == 1,
        (h.reply)(0, Question { op: Op::ArrayLen, args: seq![Val::Ref(Kind::Arr, a)] })
            == Answer::Value(Val::Num(num_of(0))),
    ensures
        index_search(h, 0, reverse, Val::Ref(Kind::Arr, a), seq![needle]) == done(
            Val::Num(num_of(-1)),
            1,
        ),
        includes(h, 0, Val::Ref(Kind::Arr, a), seq![needle]) == done(Val::Bool(false), 1),
{
    law_safe_integers_exact(0);
}

/// `indexOf` looks at the first element first, and `lastIndexOf` at the last.
pub proof fn law_first_looked_at(h: Host, a: u64, needle: Val, len: nat)
    requires
        0 < len <= MAX_ARRAY_LEN,
        h.len == 1,
        (h.reply)(0, Question { op: Op::ArrayLen, args: seq![Val::Ref(Kind::Arr, a)] })
            == Answer::Value(Val::Num(num_of(len as int))),
    ensures
        index_search(h, 0, false, Val::Ref(Kind::Arr, a), seq![needle]).out == Err::<Val, _>(
            Halt::Ask(
                Question {
                    op: Op::ArrayPresent,
                    args: seq![Val::Ref(Kind::Arr, a), Val::Str(decimal(0))],
                },
            ),
        ),
        index_search(h, 0, true, Val::Ref(Kind::Arr, a), seq![needle]).out == Err::<Val, _>(
            Halt::Ask(
                Question {
                    op: Op::ArrayPresent,
                    args: seq![Val::Ref(Kind::Arr, a), Val::Str(decimal((len - 1) as nat))],
                },
            ),
        ),
{
    law_safe_integers_exact(len as int);
}

/// An element that is the same as what is looked for ends the search at its index; another one
/// moves the search on by one index, up or down.
pub proof fn law_search_step(h: Host, pos: nat, o: Val, needle: Val, v: Val, k: nat, n: nat)
    requires
        k < n,
        live_get(h, pos, o, k).out == Ok::<Option<Val>, Halt>(Some(v)),
    ensures
        ({
            let q = live_get(h, pos, o, k).pos;
            &&& strictly_equal(v, needle) ==> search_up(h, pos, o, needle, k, n) == done(
                Some(k),
                q,
            ) && search_down(h, pos, o, needle, k + 1) == done(Some(k), q)
            &&& !strictly_equal(v, needle) ==> search_up(h, pos, o, needle, k, n) == search_up(
                h,
                q,
                o,
                needle,
                k + 1,
                n,
            ) && search_down(h, pos, o, needle, k + 1) == search_down(h, q, o, needle, k)
        }),
{
}

/// The reply of a callback decides `some` and the finding methods where it is truthy, `every` where
/// it is falsy, and no other method.
pub proof fn law_reply_decides(item: Val, k: nat, r: Val)
    ensures
        decided(ArrOp::SomeOf, item, k, r) == (if truthy(r) {
            Some(Val::Bool(true))
        } else {
            None
        }),
        decided(ArrOp::Every, item, k, r) == (if truthy(r) {
            None
        } else {
            Some(Val::Bool(false))
        }),
        truthy(r) ==> decided(ArrOp::Find, item, k, r) == Some(item) && decided(
            ArrOp::FindIndex,
            item,
            k,
            r,
        ) == Some(Val::Num(num_of(k as int))),
        !truthy(r) ==> decided(ArrOp::Find, item, k, r) is None && decided(
            ArrOp::FindIndex,
            item,
            k,
            r,
        ) is None,
        decided(ArrOp::ForEach, item, k, r) is None,
        decided(ArrOp::Filter, item, k, r) is None,
        decided(ArrOp::MapEach, item, k, r) is None,
        decided(ArrOp::FlatMap, item, k, r) is None,
        undecided(ArrOp::SomeOf) == Val::Bool(false),
        undecided(ArrOp::Every) == Val::Bool(true),
        undecided(ArrOp::Find) is Undefined,
        undecided(ArrOp::FindIndex) == Val::Num(num_of(-1)),
        undecided(ArrOp::ForEach) is Undefined,
{
}

/// A callback gets the element, its index and the array; a reducer what it gave before in front of
/// them.
pub proof fn law_callback_arguments(acc: Val, item: Val, k: nat, o: Val)
    ensures
        callback_args(item, k, o) == seq![item, Val::Num(num_of(k as int)), o],
        reducer_args(acc, item, k, o) == seq![acc] + callback_args(item, k, o),
{
}

/// Elements from `i` down, with what the callback says of each.
pub open spec fn walks_down(
    h: Host,
    pos: nat,
    f: Val,
    this: Option<Val>,
    o: Val,
    items: Seq<Val>,
    replies: Seq<Val>,
    i: int,
) -> bool
    decreases i + 1,
{
    i >= 0 ==> {
        let g = get(h, pos, o, decimal(i as nat));
        &&& settles(g, items[i])
        &&& g.out is Ok ==> {
            let c = call(h, g.pos, f, this, seq![items[i], Val::Num(num_of(i)), o]);
            &&& settles(c, replies[i])
            &&& c.out is Ok ==> walks_down(h, c.pos, f, this, o, items, replies, i - 1)
        }
    }
}

/// `findLast` and `findLastIndex` give the last element with a truthy reply.
pub proof fn law_find_last(
    h: Host,
    pos: nat,
    f: Val,
    this: Option<Val>,
    o: Val,
    items: Seq<Val>,
    replies: Seq<Val>,
    i: int,
    j: int,
)
    requires
        walks_down(h, pos, f, this, o, items, replies, i),
        -1 <= j <= i,
        forall|m: int| j < m <= i ==> !truthy(#[trigger] replies[m]),
        j >= 0 ==> truthy(replies[j]),
    ensures
        settles(
            find_last(h, pos, true, f, this, o, i),
            Val::Num(num_of(j)),
        ),
        settles(
            find_last(h, pos, false, f, this, o, i),
            if j < 0 {
                Val::Undefined
            } else {
                items[j]
            },
        ),
    decreases i + 1,
{
    if i >= 0 {
        let g = get(h, pos, o, decimal(i as nat));
        if g.out is Ok {
            let c = call(h, g.pos, f, this, seq![items[i], Val::Num(num_of(i)), o]);
            assert(callback_args(items[i], i as nat, o) == seq![items[i], Val::Num(num_of(i)), o]);
            if c.out is Ok && i != j {
                assert(!truthy(replies[i]));
                law_find_last(h, c.pos, f, this, o, items, replies, i - 1, j);
            }
        }
    }
}

proof fn lemma_after_prefix(p: Seq<char>, a: Seq<char>, b: Seq<char>)
    ensures
        text_less(p + a, p + b) == text_less(a, b),
    decreases p.len(),
{
    if p.len() == 0 {
        assert(p + a =~= a && p + b =~= b);
    } else {
        assert((p + a).skip(1) =~= p.skip(1) + a);
        assert((p + b).skip(1) =~= p.skip(1) + b);
        lemma_after_prefix(p.skip(1), a, b);
    }
}

/// Texts are ordered by the first character in which they differ, and a text comes before one that
/// it begins.
pub proof fn law_text_order(p: Seq<char>, c: char, d: char, s: Seq<char>, t: Seq<char>)
    ensures
        c != d ==> (text_less(p + (seq![c] + s), p + (seq![d] + t)) <==> c < d),
        text_less(p, p + (seq![c] + s)),
        !text_less(p + s, p),
{
    lemma_after_prefix(p, seq![c] + s, seq![d] + t);
    lemma_after_prefix(p, Seq::empty(), seq![c] + s);
    lemma_after_prefix(p, s, Seq::empty());
    assert(p + Seq::<char>::empty() =~= p);
    assert((seq![c] + s)[0] == c && (seq![d] + t)[0] == d);
}

/// Undefined comes after everything but itself, and nothing comes after it.
pub proof fn law_undefined_comes_last(h: Host, order: OrderV, x: Val)
    ensures
        comes_after(h, 0, order, Val::Undefined, x) == done(!(x is Undefined), 0),
        comes_after(h, 0, order, x, Val::Undefined) == done(false, 0),
{
}

/// Without a comparator, values go by their texts; with one, by the sign of what it says of the two
/// in their order.
pub proof fn law_order(h: Host, f: Val, x: Val, y: Val, s: Seq<char>, t: Seq<char>, r: Val, n: Num)
    requires
        !(x is Undefined),
        !(y is Undefined),
        h.len >= 2,
    ensures
        (h.reply)(0, Question { op: Op::ToText, args: seq![x] }) == Answer::Value(Val::Str(s)) && (
        h.reply)(1, Question { op: Op::ToText, args: seq![y] }) == Answer::Value(Val::Str(t))
            ==> comes_after(h, 0, order_by(Val::Undefined, false), x, y) == done(
            text_less(t, s),
            2,
        ),
        !(f is Undefined) && (h.reply)(
            0,
            Question { op: Op::CallBare, args: seq![f] + seq![x, y] },
        ) == Answer::Value(r) && (h.reply)(1, Question { op: Op::ToNumber, args: seq![r] })
            == Answer::Value(Val::Num(n)) ==> comes_after(h, 0, order_by(f, false), x, y) == done(
            !n.nan() && !n.zero() && !n.negative(),
            2,
        ),
{
}

} // verus!
