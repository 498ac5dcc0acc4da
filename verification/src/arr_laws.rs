//! What the methods of arrays do to the elements.
use crate::arr_ops::{
    arr_change, arr_op_run, arr_slice, arr_with, array_push_run, concat_items, concat_one,
    flat_depth, flat_items, inserted, is_array_val, items_of, join_texts, slice_items, sparse_work,
    splice_end, work_on, LeftV, WorkV,
};
use crate::array_iter::collected;
use crate::array_live::{count_num, ArrOp};
use crate::array_search::{offset_of, Offset};
use crate::host::{ask_list, done, halted, settles, Answer, Halt, Host, Op, Question};
use crate::json::{later, room};
use crate::json_text::joined;
use crate::number::{law_safe_integers_exact, num_of, MAX_SAFE};
use crate::objects::Sparse;
use crate::str_ops::place_arg;
use crate::strings::{clamped, index_at, index_from, relative};
use crate::text::decimal;
use crate::value::{Kind, Val};
use vstd::prelude::*;

verus! {

/// Where an integer leads in something of this length: from the start, or from the end where it is
/// negative, and never out of it.
pub proof fn law_places(k: int, len: nat)
    requires
        -MAX_SAFE <= k <= MAX_SAFE,
    ensures
        ({
            let at = offset_of(num_of(k));
            &&& 0 <= k <= len ==> relative(at, len) == k && clamped(at, len) == k
            &&& k > len ==> relative(at, len) == len && clamped(at, len) == len
            &&& k < 0 ==> clamped(at, len) == 0
            &&& -len <= k < 0 ==> relative(at, len) == len + k
            &&& k < -len ==> relative(at, len) == 0
            &&& 0 <= k < len ==> index_from(at, len) == Some(k as nat) && index_at(at, len)
                == Some(k as nat)
            &&& -len <= k < 0 ==> index_from(at, len) == Some((len + k) as nat)
            &&& k >= len || k < -len ==> index_from(at, len) is None
            &&& k >= len || k < 0 ==> index_at(at, len) is None
        }),
{
    law_safe_integers_exact(k);
}

/// The engine says of an array at every time that these are its elements.
pub open spec fn holds(h: Host, els: spec_fn(Val) -> Seq<Val>) -> bool {
    forall|pos: nat, a: Val|
        (#[trigger] (h.reply)(pos, Question { op: Op::Elements, args: seq![a] })) == Answer::List(
            els(a),
        )
}

/// The elements with those of arrays in place of the arrays, down to a depth.
spec fn flat_of(els: spec_fn(Val) -> Seq<Val>, items: Seq<Val>, depth: nat) -> Seq<Val>
    decreases depth, items.len(),
{
    if items.len() == 0 {
        Seq::empty()
    } else {
        (if depth == 0 || !is_array_val(items[0]) {
            seq![items[0]]
        } else {
            flat_of(els, els(items[0]), (depth - 1) as nat)
        }) + flat_of(els, items.skip(1), depth)
    }
}

proof fn lemma_flat_items(
    h: Host,
    els: spec_fn(Val) -> Seq<Val>,
    pos: nat,
    items: Seq<Val>,
    i: int,
    depth: nat,
    out: Seq<Val>,
)
    requires
        holds(h, els),
        0 <= i <= items.len(),
    ensures
        settles(
            flat_items(h, pos, items, i, depth, out),
            out + flat_of(els, items.skip(i), depth),
        ),
    decreases room(h, pos), items.len() - i,
{
    let rest = items.skip(i);
    if i < items.len() {
        assert(rest[0] == items[i]);
        assert(rest.skip(1) =~= items.skip(i + 1));
        let tail = flat_of(els, items.skip(i + 1), depth);
        if depth == 0 || !is_array_val(items[i]) {
            lemma_flat_items(h, els, pos, items, i + 1, depth, out.push(items[i]));
            assert(out.push(items[i]) + tail =~= out + flat_of(els, rest, depth));
        } else {
            let q = Question { op: Op::Elements, args: seq![items[i]] };
            assert((h.reply)(pos, q) == Answer::List(els(items[i])));
            let l = ask_list(h, pos, Op::Elements, seq![items[i]]);
            if l.out is Ok {
                let inner = els(items[i]);
                let d = (depth - 1) as nat;
                lemma_flat_items(h, els, l.pos, inner, 0, d, out);
                assert(inner.skip(0) =~= inner);
                let f = flat_items(h, l.pos, inner, 0, d, out);
                if f.out is Ok {
                    let more = out + flat_of(els, inner, d);
                    lemma_flat_items(h, els, later(l.pos, f.pos), items, i + 1, depth, more);
                    assert(more + tail =~= out + flat_of(els, rest, depth));
                }
            }
        }
    } else {
        assert(rest =~= Seq::empty());
        assert(out + flat_of(els, rest, depth) =~= out);
    }
}

proof fn lemma_flat_zero(els: spec_fn(Val) -> Seq<Val>, items: Seq<Val>)
    ensures
        flat_of(els, items, 0) == items,
    decreases items.len(),
{
    if items.len() > 0 {
        lemma_flat_zero(els, items.skip(1));
        assert(seq![items[0]] + items.skip(1) =~= items);
    } else {
        assert(items =~= Seq::empty());
    }
}

proof fn lemma_flat_append(els: spec_fn(Val) -> Seq<Val>, a: Seq<Val>, b: Seq<Val>, depth: nat)
    ensures
        flat_of(els, a + b, depth) == flat_of(els, a, depth) + flat_of(els, b, depth),
    decreases a.len(),
{
    if a.len() > 0 {
        lemma_flat_append(els, a.skip(1), b, depth);
        assert((a + b)[0] == a[0]);
        assert((a + b).skip(1) =~= a.skip(1) + b);
        assert(flat_of(els, a + b, depth) =~= flat_of(els, a, depth) + flat_of(els, b, depth));
    } else {
        assert(a + b =~= b);
        assert(flat_of(els, a, depth) + flat_of(els, b, depth) =~= flat_of(els, b, depth));
    }
}

proof fn lemma_flat_again(els: spec_fn(Val) -> Seq<Val>, items: Seq<Val>, depth: nat)
    ensures
        flat_of(els, items, depth + 1) == flat_of(els, flat_of(els, items, 1), depth),
    decreases items.len(),
{
    if items.len() > 0 {
        let x = items[0];
        let first = if is_array_val(x) {
            flat_of(els, els(x), 0)
        } else {
            seq![x]
        };
        lemma_flat_again(els, items.skip(1), depth);
        lemma_flat_append(els, first, flat_of(els, items.skip(1), 1), depth);
        assert(flat_of(els, items, 1) == first + flat_of(els, items.skip(1), 1));
        if is_array_val(x) {
            lemma_flat_zero(els, els(x));
        } else {
            assert(seq![x].skip(1) =~= Seq::<Val>::empty());
            assert(flat_of(els, seq![x].skip(1), depth) =~= Seq::empty());
            assert(flat_of(els, seq![x], depth) =~= seq![x]);
        }
    } else {
        assert(flat_of(els, flat_of(els, items, 1), depth) =~= flat_of(els, items, depth + 1));
    }
}

/// `flat` goes down as deep as it is told: by no depth it gives the elements, and by one more depth
/// what it gives by one depth and then by the rest.
pub proof fn law_flat_deeper(
    h: Host,
    els: spec_fn(Val) -> Seq<Val>,
    items: Seq<Val>,
    depth: nat,
    p: nat,
    q: nat,
    r: nat,
    once: Seq<Val>,
    whole: Seq<Val>,
    rest: Seq<Val>,
)
    requires
        holds(h, els),
        flat_items(h, p, items, 0, 1, Seq::empty()).out == Ok::<Seq<Val>, Halt>(once),
        flat_items(h, q, items, 0, depth + 1, Seq::empty()).out == Ok::<Seq<Val>, Halt>(whole),
        flat_items(h, r, once, 0, depth, Seq::empty()).out == Ok::<Seq<Val>, Halt>(rest),
    ensures
        whole == rest,
        depth == 0 ==> rest == once,
{
    let none = Seq::<Val>::empty();
    lemma_flat_items(h, els, p, items, 0, 1, none);
    lemma_flat_items(h, els, q, items, 0, depth + 1, none);
    lemma_flat_items(h, els, r, once, 0, depth, none);
    lemma_flat_again(els, items, depth);
    assert(items.skip(0) =~= items && once.skip(0) =~= once);
    assert(none + flat_of(els, items, 1) =~= flat_of(els, items, 1));
    assert(none + flat_of(els, items, depth + 1) =~= flat_of(els, items, depth + 1));
    assert(none + flat_of(els, once, depth) =~= flat_of(els, once, depth));
    lemma_flat_zero(els, once);
}

/// `flat` by one depth gives the elements of the arrays among the elements, and the others as they
/// are: of one element after others, what comes of the others and then of this one.
pub proof fn law_flat_once(
    h: Host,
    els: spec_fn(Val) -> Seq<Val>,
    items: Seq<Val>,
    x: Val,
    p: nat,
    q: nat,
    before: Seq<Val>,
    all: Seq<Val>,
)
    requires
        holds(h, els),
        flat_items(h, p, items, 0, 1, Seq::empty()).out == Ok::<Seq<Val>, Halt>(before),
        flat_items(h, q, items.push(x), 0, 1, Seq::empty()).out == Ok::<Seq<Val>, Halt>(all),
    ensures
        x matches Val::Ref(Kind::Arr, _) ==> all == before + els(x),
        !(x matches Val::Ref(Kind::Arr, _)) ==> all == before.push(x),
{
    let none = Seq::<Val>::empty();
    lemma_flat_items(h, els, p, items, 0, 1, none);
    lemma_flat_items(h, els, q, items.push(x), 0, 1, none);
    assert(items.skip(0) =~= items && items.push(x).skip(0) =~= items.push(x));
    assert(items.push(x) =~= items + seq![x]);
    lemma_flat_append(els, items, seq![x], 1);
    assert(seq![x].skip(1) =~= none);
    lemma_flat_zero(els, els(x));
    assert(none + flat_of(els, items, 1) =~= flat_of(els, items, 1));
    assert(flat_of(els, none, 1) =~= none);
    if is_array_val(x) {
        assert(flat_of(els, seq![x], 1) =~= els(x));
        assert(all =~= before + els(x));
    } else {
        assert(flat_of(els, seq![x], 1) =~= seq![x]);
        assert(all =~= before.push(x));
    }
}

/// Arrays stand in these elements, in arrays among them and so on, but not deeper than this.
pub open spec fn nested_at_most(els: spec_fn(Val) -> Seq<Val>, items: Seq<Val>, depth: nat) -> bool
    decreases depth,
{
    forall|i: int|
        0 <= i < items.len() && is_array_val(#[trigger] items[i]) ==> depth > 0 && nested_at_most(
            els,
            els(items[i]),
            (depth - 1) as nat,
        )
}

proof fn lemma_flat_plain(els: spec_fn(Val) -> Seq<Val>, items: Seq<Val>, depth: nat, i: int)
    requires
        nested_at_most(els, items, depth),
        0 <= i < flat_of(els, items, depth).len(),
    ensures
        !is_array_val(flat_of(els, items, depth)[i]),
    decreases depth, items.len(),
{
    if items.len() > 0 {
        let x = items[0];
        let rest = items.skip(1);
        assert forall|j: int| 0 <= j < rest.len() && is_array_val(#[trigger] rest[j]) implies depth
            > 0 && nested_at_most(els, els(rest[j]), (depth - 1) as nat) by {
            assert(rest[j] == items[j + 1]);
        }
        let first = if depth == 0 || !is_array_val(x) {
            seq![x]
        } else {
            flat_of(els, els(x), (depth - 1) as nat)
        };
        if i < first.len() {
            if is_array_val(x) {
                lemma_flat_plain(els, els(x), (depth - 1) as nat, i);
            }
        } else {
            lemma_flat_plain(els, rest, depth, i - first.len());
        }
    }
}

/// By a depth that is not less than the nesting, `flat` leaves no array among the elements.
pub proof fn law_flat_all(
    h: Host,
    els: spec_fn(Val) -> Seq<Val>,
    pos: nat,
    items: Seq<Val>,
    depth: nat,
    all: Seq<Val>,
    i: int,
)
    requires
        holds(h, els),
        nested_at_most(els, items, depth),
        flat_items(h, pos, items, 0, depth, Seq::empty()).out == Ok::<Seq<Val>, Halt>(all),
        0 <= i < all.len(),
    ensures
        !(all[i] matches Val::Ref(Kind::Arr, _)),
{
    lemma_flat_items(h, els, pos, items, 0, depth, Seq::empty());
    assert(items.skip(0) =~= items);
    assert(all =~= flat_of(els, items, depth));
    lemma_flat_plain(els, items, depth, i);
}

/// The engine answers that an array can be changed and what stands in it.
pub open spec fn open_array(h: Host, a: Val, items: Seq<Val>) -> bool {
    &&& a matches Val::Ref(Kind::Arr, _)
    &&& h.len >= 3
    &&& (h.reply)(0, Question { op: Op::IsFrozen, args: seq![a] }) == Answer::Value(Val::Bool(false))
    &&& (h.reply)(1, Question { op: Op::HasHoles, args: seq![a] }) == Answer::Value(Val::Bool(false))
    &&& (h.reply)(2, Question { op: Op::Elements, args: seq![a] }) == Answer::List(items)
}

/// The run stores these elements in the array as its fourth question, and ends with `result`.
pub open spec fn stores(h: Host, op: ArrOp, a: Val, args: Seq<Val>, kept: Seq<Val>, result: Val) -> bool {
    &&& arr_op_run(Host { len: 3, reply: h.reply }, 0, op, Some(a), args).out == Err::<Val, _>(
        Halt::Ask(Question { op: Op::StoreElements, args: seq![a] + kept }),
    )
    &&& settles(arr_op_run(h, 0, op, Some(a), args), result)
    &&& arr_op_run(h, 0, op, Some(a), args).out is Ok
}

/// The engine stores what it is asked to store.
pub open spec fn storing(h: Host) -> bool {
    h.len >= 4 && forall|q: Question|
        q.op == Op::StoreElements ==> !((#[trigger] (h.reply)(3, q)) is Throw)
}

/// `pop` takes the last element away and gives it.
pub proof fn law_pop(h: Host, a: Val, kept: Seq<Val>, last: Val, args: Seq<Val>)
    requires
        open_array(h, a, kept.push(last)),
        storing(h),
    ensures
        stores(h, ArrOp::Pop, a, args, kept, last),
{
    assert(kept.push(last).drop_last() =~= kept);
    let q = Question { op: Op::StoreElements, args: seq![a] + kept };
    assert(!((h.reply)(3, q) is Throw));
}

/// `shift` takes the first element away and gives it.
pub proof fn law_shift(h: Host, a: Val, kept: Seq<Val>, first: Val, args: Seq<Val>)
    requires
        open_array(h, a, seq![first] + kept),
        storing(h),
    ensures
        stores(h, ArrOp::Shift, a, args, kept, first),
{
    assert((seq![first] + kept).skip(1) =~= kept);
    let q = Question { op: Op::StoreElements, args: seq![a] + kept };
    assert(!((h.reply)(3, q) is Throw));
}

/// `pop` and `shift` give undefined where there is nothing to take.
pub proof fn law_nothing_to_take(h: Host, a: Val, op: ArrOp, args: Seq<Val>)
    requires
        open_array(h, a, Seq::empty()),
        storing(h),
        op == ArrOp::Pop || op == ArrOp::Shift,
    ensures
        stores(h, op, a, args, Seq::empty(), Val::Undefined),
{
    let q = Question { op: Op::StoreElements, args: seq![a] + Seq::<Val>::empty() };
    assert(!((h.reply)(3, q) is Throw));
}

/// `unshift` puts its arguments before the elements, in their order, and gives the new length.
pub proof fn law_unshift(h: Host, a: Val, items: Seq<Val>, args: Seq<Val>)
    requires
        open_array(h, a, items),
        storing(h),
    ensures
        stores(
            h,
            ArrOp::Unshift,
            a,
            args,
            args + items,
            Val::Num(count_num((args + items).len())),
        ),
{
    let q = Question { op: Op::StoreElements, args: seq![a] + (args + items) };
    assert(!((h.reply)(3, q) is Throw));
}

/// `reverse` stores the elements the other way round and gives the array.
pub proof fn law_reverse(h: Host, a: Val, items: Seq<Val>, args: Seq<Val>)
    requires
        open_array(h, a, items),
        storing(h),
    ensures
        stores(
            h,
            ArrOp::Reverse,
            a,
            args,
            Seq::new(items.len(), |i: int| items[items.len() - 1 - i]),
            a,
        ),
{
    let kept = Seq::new(items.len(), |i: int| items[items.len() - 1 - i]);
    assert(items.reverse() =~= kept);
    let q = Question { op: Op::StoreElements, args: seq![a] + kept };
    assert(!((h.reply)(3, q) is Throw));
}

/// A frozen array stays as it is: a method that would change it gives the array and asks nothing
/// more.
pub proof fn law_frozen_array(h: Host, a: Val, op: ArrOp, args: Seq<Val>)
    requires
        a matches Val::Ref(Kind::Arr, _),
        op == ArrOp::Pop || op == ArrOp::Shift || op == ArrOp::Unshift || op == ArrOp::Reverse || op
            == ArrOp::Splice || op == ArrOp::Fill,
        h.len >= 1,
        (h.reply)(0, Question { op: Op::IsFrozen, args: seq![a] }) == Answer::Value(
            Val::Bool(true),
        ),
    ensures
        arr_op_run(h, 0, op, Some(a), args) == done(a, 1),
{
}

/// `push` puts its arguments behind the elements and gives the new length; an array that takes no
/// more keeps its length.
pub proof fn law_push(h: Host, a: Val, items: Seq<Val>, args: Seq<Val>, closed: bool)
    requires
        a matches Val::Ref(Kind::Arr, _),
        h.len == 2,
        (h.reply)(0, Question { op: Op::NonExtensible, args: seq![a] }) == Answer::Value(
            Val::Bool(closed),
        ),
        (h.reply)(1, Question { op: Op::Elements, args: seq![a] }) == Answer::List(items),
    ensures
        closed ==> array_push_run(h, 0, Some(a), args) == done(
            Val::Num(count_num(items.len())),
            2,
        ),
        !closed ==> array_push_run(h, 0, Some(a), args).out == Err::<Val, _>(
            Halt::Ask(Question { op: Op::AppendElements, args: seq![a] + args }),
        ),
        !closed && !((h.reply)(2, Question { op: Op::AppendElements, args: seq![a] + args })
            is Throw) ==> array_push_run(Host { len: 3, reply: h.reply }, 0, Some(a), args) == done(
            Val::Num(count_num(items.len() + args.len())),
            3,
        ),
{
}

/// The engine answers that an array has these elements, after one number was made of the first
/// argument.
pub open spec fn number_then_elements(h: Host, a: Val, x: Val, k: int, items: Seq<Val>) -> bool {
    &&& a matches Val::Ref(Kind::Arr, _)
    &&& -MAX_SAFE <= k <= MAX_SAFE
    &&& h.len >= 2
    &&& (h.reply)(0, Question { op: Op::ToInteger, args: seq![x] }) == Answer::Value(
        Val::Num(num_of(k)),
    )
    &&& (h.reply)(1, Question { op: Op::Elements, args: seq![a] }) == Answer::List(items)
}

/// `at` gives the element at a place, counted from the end where it is negative.
pub proof fn law_at(h: Host, a: Val, x: Val, k: int, items: Seq<Val>)
    requires
        number_then_elements(h, a, x, k, items),
    ensures
        arr_op_run(h, 0, ArrOp::At, Some(a), seq![x]) == done(
            if 0 <= k < items.len() {
                items[k]
            } else if -(items.len() as int) <= k < 0 {
                items[items.len() + k]
            } else {
                Val::Undefined
            },
            2,
        ),
{
    law_places(k, items.len());
}

/// `with` gives a new array in which one place holds another value.
#[verifier::spinoff_prover]
#[verifier::rlimit(80)]
pub proof fn law_with(h: Host, a: Val, x: Val, k: int, items: Seq<Val>, v: Val)
    requires
        number_then_elements(h, a, x, k, items),
        h.len == 2,
    ensures
        ({
            let r = arr_op_run(h, 0, ArrOp::With, Some(a), seq![x, v]);
            let i = if k < 0 {
                items.len() + k
            } else {
                k
            };
            if 0 <= i < items.len() {
                r.out == Err::<Val, _>(
                    Halt::Ask(
                        Question {
                            op: Op::NewArray,
                            args: items.take(i) + seq![v] + items.skip(i + 1),
                        },
                    ),
                )
            } else {
                r.out matches Err(Halt::Throw(_))
            }
        }),
{
    law_places(k, items.len());
    let args = seq![x, v];
    assert(args[0] == x && args[1] == v);
    let w = WorkV { real: Some(a), items: Seq::empty(), holes: Seq::empty() };
    assert(arr_op_run(h, 0, ArrOp::With, Some(a), args) == arr_with(h, 0, w, args));
    let i = if k < 0 {
        items.len() + k
    } else {
        k
    };
    if 0 <= i < items.len() {
        assert(items.update(i, v) =~= items.take(i) + seq![v] + items.skip(i + 1));
    }
}

/// The texts of the elements from the `i`-th on are these.
pub open spec fn texts_are(h: Host, pos: nat, items: Seq<Val>, i: int, texts: Seq<Seq<char>>) -> bool
    decreases items.len() - i,
{
    !(0 <= i < items.len()) || if items[i] is Undefined || items[i] is Null {
        texts[i] == Seq::<char>::empty() && texts_are(h, pos, items, i + 1, texts)
    } else {
        pos < h.len ==> (h.reply)(pos, Question { op: Op::ToText, args: seq![items[i]] })
            == Answer::Value(Val::Str(texts[i])) && texts_are(h, pos + 1, items, i + 1, texts)
    }
}

proof fn lemma_join_texts(h: Host, pos: nat, items: Seq<Val>, i: int, texts: Seq<Seq<char>>)
    requires
        0 <= i <= items.len(),
        texts.len() == items.len(),
        texts_are(h, pos, items, i, texts),
    ensures
        settles(join_texts(h, pos, items, i, texts.take(i)), texts),
    decreases items.len() - i,
{
    if i < items.len() {
        assert(texts.take(i + 1) =~= texts.take(i).push(texts[i]));
        if items[i] is Undefined || items[i] is Null {
            lemma_join_texts(h, pos, items, i + 1, texts);
        } else if pos < h.len {
            lemma_join_texts(h, pos + 1, items, i + 1, texts);
        }
    } else {
        assert(texts.take(i) =~= texts);
    }
}

/// `join` gives the texts of the elements, apart by a comma where nothing else is asked for, and
/// with an empty text for what is undefined or null.
pub proof fn law_join(h: Host, a: Val, items: Seq<Val>, texts: Seq<Seq<char>>)
    requires
        a matches Val::Ref(Kind::Arr, _),
        h.len >= 1,
        (h.reply)(0, Question { op: Op::Elements, args: seq![a] }) == Answer::List(items),
        texts.len() == items.len(),
        texts_are(h, 1, items, 0, texts),
    ensures
        settles(
            arr_op_run(h, 0, ArrOp::Join, Some(a), Seq::empty()),
            Val::Str(joined(texts, seq![','])),
        ),
{
    reveal_strlit(",");
    assert(","@ =~= seq![',']);
    lemma_join_texts(h, 1, items, 0, texts);
    assert(texts.take(0) =~= Seq::empty());
}

/// Texts with a separator between them: one more adds the separator and itself.
pub proof fn law_joined(parts: Seq<Seq<char>>, last: Seq<char>, sep: Seq<char>)
    ensures
        joined(Seq::empty(), sep) == Seq::<char>::empty(),
        joined(seq![last], sep) == last,
        parts.len() > 0 ==> joined(parts.push(last), sep) == joined(parts, sep) + sep + last,
{
    assert(parts.push(last).drop_last() =~= parts);
    assert(seq![last][0] == last);
}

/// No element is an accessor.
pub open spec fn plain_items(items: Seq<Val>) -> bool {
    forall|i: int| 0 <= i < items.len() ==> !((#[trigger] items[i]) matches Val::Ref(Kind::Accessor, _))
}

proof fn lemma_slice_items(
    h: Host,
    pos: nat,
    a: Val,
    items: Seq<Val>,
    start: nat,
    k: nat,
    end: nat,
)
    requires
        start <= k,
        k <= end || k == start,
        end <= items.len(),
        plain_items(items),
    ensures
        slice_items(
            h,
            pos,
            (WorkV { real: Some(a), items: Seq::empty(), holes: Seq::empty() }),
            a,
            items,
            false,
            k,
            end,
            items.subrange(start as int, k as int),
            Seq::empty(),
        ) == done(
            Sparse {
                items: if start <= end {
                    items.subrange(start as int, end as int)
                } else {
                    items.subrange(start as int, start as int)
                },
                holes: Seq::empty(),
            },
            pos,
        ),
    decreases end - k,
{
    if k < end {
        assert(!(items[k as int] matches Val::Ref(Kind::Accessor, _)));
        assert(items.subrange(start as int, k as int).push(items[k as int]) =~= items.subrange(
            start as int,
            (k + 1) as int,
        ));
        lemma_slice_items(h, pos, a, items, start, k + 1, end);
    }
}

/// The place that an integer leads to in a list of this length.
pub open spec fn place(k: int, len: nat) -> int {
    if k < 0 {
        if len + k < 0 {
            0
        } else {
            len + k
        }
    } else if k > len {
        len as int
    } else {
        k
    }
}

/// `slice` gives a new array of the elements from one place up to another.
#[verifier::spinoff_prover]
#[verifier::rlimit(100)]
pub proof fn law_slice(h: Host, a: Val, items: Seq<Val>, x: Val, y: Val, k: int, l: int)
    requires
        a matches Val::Ref(Kind::Arr, _),
        plain_items(items),
        -MAX_SAFE <= k <= MAX_SAFE,
        -MAX_SAFE <= l <= MAX_SAFE,
        !(x is Undefined),
        !(y is Undefined),
        h.len == 6,
        (h.reply)(0, Question { op: Op::Elements, args: seq![a] }) == Answer::List(items),
        (h.reply)(1, Question { op: Op::ToInteger, args: seq![x] }) == Answer::Value(
            Val::Num(num_of(k)),
        ),
        (h.reply)(2, Question { op: Op::ToInteger, args: seq![y] }) == Answer::Value(
            Val::Num(num_of(l)),
        ),
        (h.reply)(3, Question { op: Op::HasHoles, args: seq![a] }) == Answer::Value(
            Val::Bool(false),
        ),
        (h.reply)(4, Question { op: Op::Elements, args: seq![a] }) == Answer::List(items),
        (h.reply)(5, Question { op: Op::Get, args: seq![a, Val::Str("constructor"@)] })
            == Answer::Value(Val::Undefined),
    ensures
        ({
            let from = place(k, items.len());
            let to = place(l, items.len());
            arr_op_run(h, 0, ArrOp::Slice, Some(a), seq![x, y]).out == Err::<Val, _>(
                Halt::Ask(
                    Question {
                        op: Op::NewArray,
                        args: if from < to {
                            items.subrange(from, to)
                        } else {
                            Seq::empty()
                        },
                    },
                ),
            )
        }),
{
    law_places(k, items.len());
    law_places(l, items.len());
    let args = seq![x, y];
    assert(args[0] == x && args[1] == y);
    let from = place(k, items.len()) as nat;
    let to = place(l, items.len()) as nat;
    lemma_slice_start(h, a, items, x, y, k, l, args);
    let part = items.subrange(
        from as int,
        if from <= to {
            to as int
        } else {
            from as int
        },
    );
    assert(items.subrange(from as int, from as int) =~= Seq::empty());
    lemma_slice_items(h, 5, a, items, from, from, to);
    lemma_new_array(h, 5, a, part);
    if !(from < to) {
        assert(part =~= Seq::empty());
    }
}

/// What a method makes of an array whose constructor says nothing else is an array.
proof fn lemma_new_array(h: Host, pos: nat, a: Val, part: Seq<Val>)
    requires
        a matches Val::Ref(Kind::Arr, _),
        h.len == pos + 1,
        (h.reply)(pos, Question { op: Op::Get, args: seq![a, Val::Str("constructor"@)] })
            == Answer::Value(Val::Undefined),
    ensures
        collected(h, pos, a, part, Seq::empty()).out == Err::<Val, _>(
            Halt::Ask(Question { op: Op::NewArray, args: part }),
        ),
{
}

proof fn lemma_slice_start(
    h: Host,
    a: Val,
    items: Seq<Val>,
    x: Val,
    y: Val,
    k: int,
    l: int,
    args: Seq<Val>,
)
    requires
        a matches Val::Ref(Kind::Arr, _),
        !(x is Undefined),
        !(y is Undefined),
        args.len() == 2,
        args[0] == x,
        args[1] == y,
        h.len == 6,
        (h.reply)(0, Question { op: Op::Elements, args: seq![a] }) == Answer::List(items),
        (h.reply)(1, Question { op: Op::ToInteger, args: seq![x] }) == Answer::Value(
            Val::Num(num_of(k)),
        ),
        (h.reply)(2, Question { op: Op::ToInteger, args: seq![y] }) == Answer::Value(
            Val::Num(num_of(l)),
        ),
        (h.reply)(3, Question { op: Op::HasHoles, args: seq![a] }) == Answer::Value(
            Val::Bool(false),
        ),
        (h.reply)(4, Question { op: Op::Elements, args: seq![a] }) == Answer::List(items),
    ensures
        ({
            let w = WorkV { real: Some(a), items: Seq::empty(), holes: Seq::empty() };
            let s = slice_items(
                h,
                5,
                w,
                a,
                items,
                false,
                relative(offset_of(num_of(k)), items.len()),
                relative(offset_of(num_of(l)), items.len()),
                Seq::empty(),
                Seq::empty(),
            );
            s.out matches Ok(part) ==> arr_op_run(h, 0, ArrOp::Slice, Some(a), args) == collected(
                h,
                s.pos,
                a,
                part.items,
                part.holes,
            )
        }),
{
    let w = WorkV { real: Some(a), items: Seq::empty(), holes: Seq::empty() };
    assert(work_on(h, 0, ArrOp::Slice, a) == done(Some(w), 0));
    assert(arr_op_run(h, 0, ArrOp::Slice, Some(a), args) == arr_slice(h, 0, w, a, args));
    assert(items_of(h, 0, w) == done(items, 1));
    assert(place_arg(h, 1, args, 0, Offset::Forward(0)) == done(offset_of(num_of(k)), 2));
    assert(place_arg(h, 2, args, 1, Offset::Forward(items.len() as u64)) == done(
        offset_of(num_of(l)),
        3,
    ));
    assert(sparse_work(h, 3, w) == done(false, 4));
    assert(items_of(h, 4, w) == done(items, 5));
}

/// `splice` takes out elements and puts its other arguments in their place.
#[verifier::spinoff_prover]
#[verifier::rlimit(100)]
pub proof fn law_splice(h: Host, a: Val, items: Seq<Val>, x: Val, y: Val, k: int, l: int, put: Seq<Val>)
    requires
        open_array(h, a, items),
        -MAX_SAFE <= k <= MAX_SAFE,
        0 <= l <= items.len() - place(k, items.len()),
        l != put.len(),
        items.len() <= MAX_SAFE,
        h.len >= 9,
        (h.reply)(3, Question { op: Op::ToInteger, args: seq![x] }) == Answer::Value(
            Val::Num(num_of(k)),
        ),
        (h.reply)(4, Question { op: Op::ToInteger, args: seq![y] }) == Answer::Value(
            Val::Num(num_of(l)),
        ),
        (h.reply)(5, Question { op: Op::LengthWritable, args: seq![a] }) == Answer::Value(
            Val::Bool(true),
        ),
        (h.reply)(6, Question { op: Op::Elements, args: seq![a] }) == Answer::List(items),
        forall|q: Question|
            q.op == Op::StoreElements ==> !((#[trigger] (h.reply)(7, q)) is Throw),
        (h.reply)(8, Question { op: Op::Get, args: seq![a, Val::Str("constructor"@)] })
            == Answer::Value(Val::Undefined),
    ensures
        ({
            let i = place(k, items.len());
            let args = seq![x, y] + put;
            &&& arr_op_run(Host { len: 7, reply: h.reply }, 0, ArrOp::Splice, Some(a), args).out
                == Err::<Val, _>(
                Halt::Ask(
                    Question {
                        op: Op::StoreElements,
                        args: seq![a] + (items.take(i) + put + items.skip(i + l)),
                    },
                ),
            )
            &&& arr_op_run(Host { len: 9, reply: h.reply }, 0, ArrOp::Splice, Some(a), args).out
                == Err::<Val, _>(
                Halt::Ask(Question { op: Op::NewArray, args: items.subrange(i, i + l) }),
            )
        }),
{
    law_places(k, items.len());
    let i = place(k, items.len());
    law_places(l, (items.len() - i) as nat);
    let args = seq![x, y] + put;
    assert(args[0] == x && args[1] == y);
    assert(args.skip(2) =~= put);
    assert(inserted(args) =~= put);
    let w = WorkV { real: Some(a), items: Seq::empty(), holes: Seq::empty() };
    let kept = items.take(i) + put + items.skip(i + l);
    let g = Host { len: 7, reply: h.reply };
    let f = Host { len: 9, reply: h.reply };
    lemma_splice_end(g, a, items, i as nat, l as nat, args, put);
    lemma_splice_end(f, a, items, i as nat, l as nat, args, put);
    lemma_splice_start(g, a, items, x, y, k, l, args, put);
    lemma_splice_start(f, a, items, x, y, k, l, args, put);
}

proof fn lemma_splice_start(
    h: Host,
    a: Val,
    items: Seq<Val>,
    x: Val,
    y: Val,
    k: int,
    l: int,
    args: Seq<Val>,
    put: Seq<Val>,
)
    requires
        open_array(h, a, items),
        -MAX_SAFE <= k <= MAX_SAFE,
        0 <= l <= items.len() - place(k, items.len()),
        l != put.len(),
        items.len() <= MAX_SAFE,
        h.len >= 6,
        args.len() >= 2,
        args[0] == x,
        args[1] == y,
        inserted(args) == put,
        (h.reply)(3, Question { op: Op::ToInteger, args: seq![x] }) == Answer::Value(
            Val::Num(num_of(k)),
        ),
        (h.reply)(4, Question { op: Op::ToInteger, args: seq![y] }) == Answer::Value(
            Val::Num(num_of(l)),
        ),
        (h.reply)(5, Question { op: Op::LengthWritable, args: seq![a] }) == Answer::Value(
            Val::Bool(true),
        ),
    ensures
        ({
            let w = WorkV { real: Some(a), items: Seq::empty(), holes: Seq::empty() };
            arr_change(h, 2, ArrOp::Splice, w, a, args) == splice_end(
                h,
                6,
                w,
                a,
                args,
                place(k, items.len()) as nat,
                l as nat,
            )
        }),
        ({
            let w = WorkV { real: Some(a), items: Seq::empty(), holes: Seq::empty() };
            let c = arr_change(h, 2, ArrOp::Splice, w, a, args);
            match c.out {
                Ok(r) => arr_op_run(h, 0, ArrOp::Splice, Some(a), args) == done(r.result, c.pos),
                Err(e) => arr_op_run(h, 0, ArrOp::Splice, Some(a), args) == halted::<Val>(e, c.pos),
            }
        }),
{
    law_places(k, items.len());
    law_places(l, (items.len() - place(k, items.len())) as nat);
}

proof fn lemma_splice_end(
    h: Host,
    a: Val,
    items: Seq<Val>,
    i: nat,
    l: nat,
    args: Seq<Val>,
    put: Seq<Val>,
)
    requires
        i + l <= items.len(),
        h.len >= 7,
        inserted(args) == put,
        a matches Val::Ref(Kind::Arr, _),
        (h.reply)(6, Question { op: Op::Elements, args: seq![a] }) == Answer::List(items),
        h.len > 7 ==> forall|q: Question|
            q.op == Op::StoreElements ==> !((#[trigger] (h.reply)(7, q)) is Throw),
        h.len > 8 ==> (h.reply)(8, Question { op: Op::Get, args: seq![a, Val::Str("constructor"@)] })
            == Answer::Value(Val::Undefined),
    ensures
        ({
            let w = WorkV { real: Some(a), items: Seq::empty(), holes: Seq::empty() };
            let kept = items.take(i as int) + put + items.skip((i + l) as int);
            let r = splice_end(h, 6, w, a, args, i, l);
            &&& h.len == 7 ==> r.out == Err::<LeftV, _>(
                Halt::Ask(Question { op: Op::StoreElements, args: seq![a] + kept }),
            )
            &&& h.len == 9 ==> r.out == Err::<LeftV, _>(
                Halt::Ask(
                    Question {
                        op: Op::NewArray,
                        args: items.subrange(i as int, (i + l) as int),
                    },
                ),
            )
        }),
{
    let kept = items.take(i as int) + put + items.skip((i + l) as int);
    let q = Question { op: Op::StoreElements, args: seq![a] + kept };
    if h.len > 7 {
        assert(!((h.reply)(7, q) is Throw));
    }
}

/// What is not to be spread is one more element for `concat`.
pub proof fn law_concat_value(h: Host, pos: nat, item: Val, out: Sparse)
    requires
        h.len > pos,
        (h.reply)(pos, Question { op: Op::ConcatSpreadable, args: seq![item] }) == Answer::Value(
            Val::Bool(false),
        ),
    ensures
        concat_one(h, pos, item, out) == done(
            Sparse { items: out.items.push(item), holes: out.holes },
            pos + 1,
        ),
{
}

/// The engine has these elements under the indices from `k` on.
pub open spec fn reads(h: Host, pos: nat, item: Val, k: nat, vals: Seq<Val>) -> bool
    decreases vals.len() - k,
{
    k >= vals.len() || {
        let key = seq![item, Val::Str(decimal(k))];
        &&& pos < h.len ==> (h.reply)(pos, Question { op: Op::Has, args: key }) == Answer::Value(
            Val::Bool(true),
        )
        &&& pos + 1 < h.len ==> (h.reply)(pos + 1, Question { op: Op::Get, args: key })
            == Answer::Value(vals[k as int])
        &&& reads(h, pos + 2, item, k + 1, vals)
    }
}

/// Of what is to be spread, `concat` appends the elements, in order.
pub proof fn law_concat_elements(h: Host, pos: nat, item: Val, k: nat, vals: Seq<Val>, out: Sparse)
    requires
        k <= vals.len(),
        reads(h, pos, item, k, vals),
    ensures
        settles(
            concat_items(h, pos, item, k, vals.len(), out),
            Sparse { items: out.items + vals.skip(k as int), holes: out.holes },
        ),
    decreases vals.len() - k,
{
    if k < vals.len() {
        let next = Sparse { items: out.items.push(vals[k as int]), holes: out.holes };
        law_concat_elements(h, pos + 2, item, k + 1, vals, next);
        assert(out.items.push(vals[k as int]) + vals.skip((k + 1) as int) =~= out.items + vals.skip(
            k as int,
        ));
    } else {
        assert(out.items + vals.skip(k as int) =~= out.items);
    }
}

/// `flat` goes down by one depth where it is not told, and by the integer that it is told.
pub proof fn law_flat_depth(k: int)
    requires
        -MAX_SAFE <= k <= MAX_SAFE,
    ensures
        0 <= k <= 0x7fff_ffff ==> flat_depth(num_of(k)) == k,
        k < 0 ==> flat_depth(num_of(k)) == 0,
{
    law_safe_integers_exact(k);
}

} // verus!
