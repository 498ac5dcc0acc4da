//! What is copied, grouped and gathered.
use crate::array_live::count_num;
use crate::collect::{
    assign_sources, built, entry_pair, group_items, grouped, mapped_list, object_assign_run, GroupV,
};
use crate::host::{done, settles, Answer, Halt, Host, Op, Question};
use crate::value::{object, same_zero, Native, Val};
use vstd::prelude::*;

verus! {

/// An item joins the group of its key and no other: behind the items that are there, or in a new
/// group behind all others.
pub proof fn law_item_grouped(s: Seq<GroupV>, key: Val, item: Val, i: int)
    requires
        0 <= i < s.len(),
    ensures
        (same_zero(s[i].key, key) && forall|j: int|
            0 <= j < i ==> !same_zero((#[trigger] s[j]).key, key)) ==> grouped(s, key, item).len()
            == s.len() && grouped(s, key, item)[i].items == s[i].items.push(item) && grouped(
            s,
            key,
            item,
        )[i].key == s[i].key,
        !same_zero(s[i].key, key) ==> grouped(s, key, item)[i] == s[i],
        (forall|j: int| 0 <= j < s.len() ==> !same_zero((#[trigger] s[j]).key, key)) ==> grouped(
            s,
            key,
            item,
        ) == s.push(GroupV { key, items: seq![item] }),
{
    if same_zero(s[i].key, key) && forall|j: int|
        0 <= j < i ==> !same_zero((#[trigger] s[j]).key, key) {
        crate::collect::lemma_group_index(s, key, i as nat);
    }
    if forall|j: int| 0 <= j < s.len() ==> !same_zero((#[trigger] s[j]).key, key) {
        crate::collect::lemma_group_index(s, key, s.len());
    }
    crate::collect::lemma_group_found(s, key);
}

/// The key of an item is what the callback says of the item and its index.
pub proof fn law_grouped_by_callback(
    h: Host,
    pos: nat,
    cb: Val,
    items: Seq<Val>,
    i: int,
    out: Seq<GroupV>,
    key: Val,
)
    requires
        0 <= i < items.len(),
        h.len > pos,
        (h.reply)(
            pos,
            Question {
                op: Op::CallBare,
                args: seq![cb] + seq![items[i], Val::Num(count_num(i as nat))],
            },
        ) == Answer::Value(key),
    ensures
        group_items(h, pos, cb, false, items, i, out) == group_items(
            h,
            pos + 1,
            cb,
            false,
            items,
            i + 1,
            grouped(out, key, items[i]),
        ),
{
}

/// An entry is a key and a value: its first two elements.
pub proof fn law_entry(h: Host, pos: nat, entry: Val, k: Val, v: Val, key: Seq<char>)
    requires
        object(entry),
        h.len >= pos + 3,
        (h.reply)(pos, Question { op: Op::Get, args: seq![entry, Val::Str("0"@)] })
            == Answer::Value(k),
        (h.reply)(pos + 1, Question { op: Op::Get, args: seq![entry, Val::Str("1"@)] })
            == Answer::Value(v),
        (h.reply)(pos + 2, Question { op: Op::ToKey, args: seq![k] }) == Answer::Value(
            Val::Str(key),
        ),
    ensures
        entry_pair(h, pos, entry) == done((key, v), pos + 3),
{
}

/// `Object.assign` gives its first argument, and what is undefined or null among the others has no
/// properties.
pub proof fn law_assign_gives_target(h: Host, pos: nat, recv: Option<Val>, t: Val, a: Val)
    requires
        object(t),
        a is Undefined || a is Null,
    ensures
        object_assign_run(h, pos, recv, seq![t]) == done(t, pos),
        object_assign_run(h, pos, recv, seq![t, a]) == done(t, pos),
{
    let one = seq![t];
    let two = seq![t, a];
    assert(one[0] == t && two[0] == t && two[1] == a);
    reveal_with_fuel(assign_sources, 3);
}

/// The engine gives these results of the callback of `Array.from`, from the `i`-th item on.
pub open spec fn results_told(
    h: Host,
    pos: nat,
    f: Val,
    this: Val,
    items: Seq<Val>,
    i: int,
    r: Seq<Val>,
) -> bool
    decreases items.len() - i,
{
    !(0 <= i < items.len()) || (pos < h.len ==> (h.reply)(
        pos,
        Question {
            op: Op::Call,
            args: seq![f, this] + seq![items[i], Val::Num(count_num(i as nat))],
        },
    ) == Answer::Value(r[i]) && results_told(h, pos + 1, f, this, items, i + 1, r))
}

/// `Array.from` without a callback takes the items as they are, and with one what the callback gives
/// for each item and its index, in order.
pub proof fn law_from_items(
    h: Host,
    pos: nat,
    f: Val,
    this: Val,
    items: Seq<Val>,
    i: int,
    r: Seq<Val>,
)
    requires
        0 <= i <= items.len(),
        r.len() == items.len(),
        results_told(h, pos, f, this, items, i, r),
    ensures
        mapped_list(h, pos, None, this, items, i, items.take(i)) == done(items, pos),
        settles(mapped_list(h, pos, Some(f), this, items, i, r.take(i)), r),
    decreases items.len() - i,
{
    lemma_as_they_are(h, pos, this, items, i);
    if i < items.len() {
        assert(r.take(i + 1) =~= r.take(i).push(r[i]));
        if pos < h.len {
            law_from_items(h, pos + 1, f, this, items, i + 1, r);
        }
    } else {
        assert(r.take(i) =~= r);
    }
}

proof fn lemma_as_they_are(h: Host, pos: nat, this: Val, items: Seq<Val>, i: int)
    requires
        0 <= i <= items.len(),
    ensures
        mapped_list(h, pos, None, this, items, i, items.take(i)) == done(items, pos),
    decreases items.len() - i,
{
    if i < items.len() {
        assert(items.take(i + 1) =~= items.take(i).push(items[i]));
        lemma_as_they_are(h, pos, this, items, i + 1);
    } else {
        assert(items.take(i) =~= items);
    }
}

/// `Array.of` and `Array.from` of `Array` itself make an array of the items.
pub proof fn law_built_array(h: Host, this: Val, items: Seq<Val>, sized: bool)
    requires
        h.len == 1,
        (h.reply)(0, Question { op: Op::IsConstructor, args: seq![this] }) == Answer::Value(
            Val::Bool(this == Val::Native(Native::ArrayCtor)),
        ),
    ensures
        built(h, 0, this, items, sized).out == Err::<Val, _>(
            Halt::Ask(Question { op: Op::NewArray, args: items }),
        ),
{
}

} // verus!
