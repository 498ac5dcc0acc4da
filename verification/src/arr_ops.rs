//! The methods of `Array.prototype`.
use crate::array_iter::{
    collected, collects, decided, decided_exec, define_data, gather, hole_nums, iter_live, iterates,
    opt_arg, opt_arg_at, species, undecided, undecided_exec, Gathered,
};
use crate::array_live::{
    count_as_num, count_num, generic_length, inherited, is_mutating_arr_op, mutating, some_of,
    ArrOp,
};
use crate::array_search::{includes, index_search, offset_of, to_offset, Offset};
use crate::array_sort::{insertion, order_by, order_of, sort_generic, Order};
use crate::code_units::{utf16, utf16_text};
use crate::functions::{index_number, obj_to_string_run};
use crate::host::{
    ask_flag, ask_list, ask_number, ask_text, ask_value, call, chain, construct, done, fail, get,
    halted, has, list1, list2, list3, list4, opt_view, raised, run_list, run_plain, run_slot,
    run_value, text_value, Halt, Host, Interp, Op, Run, Stop,
};
use crate::json::{later, room, text_views};
use crate::json_text::joined;
use crate::number::{num_of, MAX_ARRAY_LEN, MAX_SAFE, Num};
use crate::number_format::{this_of, this_or_undefined};
use crate::objects::{array_read_sparse, is_nullish, snapshot_elem, to_object, Sparse};
use crate::str_ops::{index_val, place_arg};
use crate::strings::{
    clamped, clamped_place, index_from, index_from_place, relative, relative_place, units_between,
    units_of,
};
use crate::text::{append_text, decimal, decimal_text};
use crate::value::{
    arg, arg_at, callable, clone_values, is_callable, same_value_zero, same_zero, strict_eq,
    strictly_equal, to_bool, truthy, views, ErrorKind, Kind, Val, Value,
};
use vstd::prelude::*;

verus! {

/// What an array method works on: an array, or the elements read from another object.
pub struct Work {
    pub real: Option<Value>,
    pub items: Vec<Value>,
    pub holes: Vec<u64>,
}

/// The mathematical counterpart of `Work`.
#[verifier::ext_equal]
pub struct WorkV {
    pub real: Option<Val>,
    pub items: Seq<Val>,
    pub holes: Seq<u64>,
}

impl View for Work {
    type V = WorkV;

    open spec fn view(&self) -> WorkV {
        WorkV { real: opt_view(self.real), items: views(self.items@), holes: self.holes@ }
    }
}

pub open spec fn is_array_val(v: Val) -> bool {
    v matches Val::Ref(Kind::Arr, _)
}

pub open spec fn is_object_val(v: Val) -> bool {
    v matches Val::Ref(Kind::Obj, _)
}

/// Receivers whose elements are read one by one as they are needed.
pub open spec fn read_live(v: Val) -> bool {
    match v {
        Val::Ref(k, _) => k == Kind::Arr || k == Kind::Obj || k == Kind::Instance,
        _ => false,
    }
}

fn is_read_live(v: &Value) -> (r: bool)
    ensures
        r == read_live(v@),
{
    match v {
        Value::Ref(k, _) => match k {
            Kind::Arr | Kind::Obj | Kind::Instance => true,
            _ => false,
        },
        _ => false,
    }
}

/// Exchanges the elements at two places from both ends; a hole stays a hole.
pub open spec fn reverse_step(h: Host, pos: nat, o: Val, lower: nat, upper: nat) -> Run<()> {
    let lk = decimal(lower);
    let uk = decimal(upper);
    chain(
        live_slot(h, pos, o, lk),
        |lv: Option<Val>, p: nat|
            chain(
                live_slot(h, p, o, uk),
                |uv: Option<Val>, q: nat|
                    chain(
                        put_or_delete(h, q, o, lk, uv, lv is Some),
                        |u: (), r: nat| put_or_delete(h, r, o, uk, lv, uv is Some),
                    ),
            ),
    )
}

/// The element under a key, where there is one.
pub open spec fn live_slot(h: Host, pos: nat, o: Val, key: Seq<char>) -> Run<Option<Val>> {
    chain(
        has(h, pos, o, key),
        |b: bool, p: nat|
            if b {
                some_of(get(h, p, o, key))
            } else {
                done(None, p)
            },
    )
}

/// Stores a value, or removes what stands there where there is none to store.
pub open spec fn put_or_delete(
    h: Host,
    pos: nat,
    o: Val,
    key: Seq<char>,
    v: Option<Val>,
    there: bool,
) -> Run<()> {
    match v {
        Some(x) => chain(
            ask_value(h, pos, Op::SetOwn, seq![o, Val::Str(key), x]),
            |r: Val, p: nat| done((), p),
        ),
        None => if there {
            chain(
                ask_flag(h, pos, Op::Delete, seq![o, Val::Str(key)]),
                |b: bool, p: nat| done((), p),
            )
        } else {
            done((), pos)
        },
    }
}

/// `reverse` on an array-like object of this length, from `lower` on.
pub open spec fn reverse_from(h: Host, pos: nat, o: Val, lower: nat, len: nat) -> Run<Val>
    decreases len - lower,
{
    if lower >= len / 2 {
        done(o, pos)
    } else {
        let s = reverse_step(h, pos, o, lower, (len - lower - 1) as nat);
        match s.out {
            Err(e) => halted(e, s.pos),
            Ok(_) => reverse_from(h, s.pos, o, lower + 1, len),
        }
    }
}

pub open spec fn any_accessor(items: Seq<Val>) -> bool {
    exists|i: int| 0 <= i < items.len() && (#[trigger] items[i] matches Val::Ref(Kind::Accessor, _))
}

fn has_accessor(items: &Vec<Value>) -> (r: bool)
    ensures
        r == any_accessor(views(items@)),
{
    let mut i: usize = 0;
    while i < items.len()
        invariant
            i <= items@.len(),
            forall|j: int|
                0 <= j < i ==> !(#[trigger] views(items@)[j] matches Val::Ref(Kind::Accessor, _)),
        decreases items@.len() - i,
    {
        assert(views(items@)[i as int] == items@[i as int]@);
        if matches!(&items[i], Value::Ref(Kind::Accessor, _)) {
            return true;
        }
        i = i + 1;
    }
    false
}

/// Whether `sort` reads and assigns the elements one by one.
pub open spec fn sorts_live(h: Host, pos: nat, v: Val) -> Run<bool> {
    if is_object_val(v) {
        done(true, pos)
    } else if is_array_val(v) {
        chain(
            ask_flag(h, pos, Op::HasHoles, seq![v]),
            |b: bool, p: nat|
                if b {
                    done(true, p)
                } else {
                    chain(
                        ask_list(h, p, Op::Elements, seq![v]),
                        |l: Seq<Val>, q: nat| done(any_accessor(l), q),
                    )
                },
        )
    } else {
        done(false, pos)
    }
}

pub open spec fn bad_comparator(v: Val) -> bool {
    !(v is Undefined) && !callable(v)
}

/// What the method works on; none where the receiver is frozen and the method would change it.
pub open spec fn work_on(h: Host, pos: nat, op: ArrOp, v: Val) -> Run<Option<WorkV>> {
    if is_array_val(v) {
        chain(
            if mutating(op) {
                ask_flag(h, pos, Op::IsFrozen, seq![v])
            } else {
                done(false, pos)
            },
            |frozen: bool, p: nat|
                if frozen {
                    done(None, p)
                } else {
                    chain(
                        if mutating(op) {
                            filled_holes(h, p, v)
                        } else {
                            done((), p)
                        },
                        |u: (), q: nat|
                            done(
                                Some(
                                    WorkV {
                                        real: Some(v),
                                        items: Seq::empty(),
                                        holes: Seq::empty(),
                                    },
                                ),
                                q,
                            ),
                    )
                },
        )
    } else {
        match v {
            Val::Str(s) => done(
                Some(WorkV { real: None, items: unit_texts(s), holes: Seq::empty() }),
                pos,
            ),
            _ => chain(
                array_read_sparse(h, pos, v),
                |s: Sparse, p: nat|
                    done(Some(WorkV { real: None, items: s.items, holes: s.holes }), p),
            ),
        }
    }
}

/// The code units of a text, each as a text; half of a pair is the replacement character.
pub open spec fn unit_texts(s: Seq<char>) -> Seq<Val> {
    Seq::new(
        utf16(s).len(),
        |i: int| Val::Str(utf16_text(utf16(s).subrange(i, i + 1))),
    )
}

/// Makes an array's holes undefined elements.
pub open spec fn filled_holes(h: Host, pos: nat, a: Val) -> Run<()> {
    chain(
        ask_flag(h, pos, Op::HasHoles, seq![a]),
        |b: bool, p: nat|
            if b {
                chain(ask_value(h, p, Op::FillHoles, seq![a]), |v: Val, q: nat| done((), q))
            } else {
                done((), p)
            },
    )
}

/// The elements as they are now.
pub open spec fn items_of(h: Host, pos: nat, w: WorkV) -> Run<Seq<Val>> {
    match w.real {
        Some(a) => ask_list(h, pos, Op::Elements, seq![a]),
        None => done(w.items, pos),
    }
}

/// Whether there are holes among the elements.
pub open spec fn sparse_work(h: Host, pos: nat, w: WorkV) -> Run<bool> {
    match w.real {
        Some(a) => ask_flag(h, pos, Op::HasHoles, seq![a]),
        None => done(w.holes.len() > 0, pos),
    }
}

/// Whether a place is among the holes.
pub open spec fn is_hole(holes: Seq<u64>, i: nat) -> bool {
    exists|k: int| 0 <= k < holes.len() && #[trigger] holes[k] == i
}

/// The element at a place, where there is one: a hole may still be filled by inheritance.
pub open spec fn work_elem(
    h: Host,
    pos: nat,
    w: WorkV,
    o: Val,
    snapshot: Seq<Val>,
    i: nat,
    sparse: bool,
) -> Run<Option<Val>> {
    match w.real {
        Some(a) => snapshot_elem(h, pos, a, snapshot, i, sparse),
        None => if is_hole(w.holes, i) {
            chain(
                inherited(h, pos, decimal(i)),
                |b: bool, p: nat|
                    if b {
                        some_of(get(h, p, o, decimal(i)))
                    } else {
                        done(None, p)
                    },
            )
        } else if i < snapshot.len() {
            match snapshot[i as int] {
                Val::Ref(Kind::Accessor, _) => some_of(get(h, pos, o, decimal(i))),
                v => done(Some(v), pos),
            }
        } else {
            done(Some(Val::Undefined), pos)
        },
    }
}

/// Stores new elements in an array.
pub open spec fn commit(h: Host, pos: nat, w: WorkV, items: Seq<Val>) -> Run<()> {
    match w.real {
        Some(a) => chain(
            ask_value(h, pos, Op::StoreElements, seq![a] + items),
            |v: Val, p: nat| done((), p),
        ),
        None => done((), pos),
    }
}

/// A result, and the elements that a method has left.
#[verifier::ext_equal]
pub struct LeftV {
    pub result: Val,
    pub items: Seq<Val>,
}

pub struct Left {
    pub result: Value,
    pub items: Vec<Value>,
}

impl View for Left {
    type V = LeftV;

    open spec fn view(&self) -> LeftV {
        LeftV { result: self.result@, items: views(self.items@) }
    }
}

/// The result of a method that changes elements, once they are stored.
pub open spec fn changed(h: Host, pos: nat, w: WorkV, result: Val, items: Seq<Val>) -> Run<LeftV> {
    chain(commit(h, pos, w, items), |u: (), p: nat| done(LeftV { result, items }, p))
}

/// The texts of the elements from the `i`-th on; undefined and null are empty.
pub open spec fn join_texts(h: Host, pos: nat, items: Seq<Val>, i: int, out: Seq<Seq<char>>) -> Run<
    Seq<Seq<char>>,
>
    decreases items.len() - i,
{
    if !(0 <= i < items.len()) {
        done(out, pos)
    } else if items[i] is Undefined || items[i] is Null {
        join_texts(h, pos, items, i + 1, out.push(Seq::empty()))
    } else {
        let t = ask_text(h, pos, Op::ToText, seq![items[i]]);
        match t.out {
            Err(e) => halted(e, t.pos),
            Ok(s) => join_texts(h, t.pos, items, i + 1, out.push(s)),
        }
    }
}

/// `join`.
pub open spec fn arr_join(h: Host, pos: nat, w: WorkV, args: Seq<Val>) -> Run<Val> {
    chain(
        if arg(args, 0) is Undefined {
            done(","@, pos)
        } else {
            ask_text(h, pos, Op::ToText, seq![arg(args, 0)])
        },
        |sep: Seq<char>, p: nat|
            chain(
                items_of(h, p, w),
                |items: Seq<Val>, q: nat|
                    chain(
                        join_texts(h, q, items, 0, Seq::empty()),
                        |parts: Seq<Seq<char>>, r: nat| done(Val::Str(joined(parts, sep)), r),
                    ),
            ),
    )
}

/// `toString`.
pub open spec fn arr_to_string(h: Host, pos: nat, o: Val) -> Run<Val> {
    chain(
        get(h, pos, o, "join"@),
        |f: Val, p: nat|
            if callable(f) {
                call(h, p, f, Some(o), Seq::empty())
            } else {
                obj_to_string_run(h, p, Some(o), Seq::empty())
            },
    )
}

/// The first element from the `i`-th on that is strictly equal.
pub open spec fn snap_index_of(
    h: Host,
    pos: nat,
    w: WorkV,
    o: Val,
    items: Seq<Val>,
    needle: Val,
    i: nat,
) -> Run<Val>
    decreases items.len() - i,
{
    if i >= items.len() {
        done(index_val(None), pos)
    } else {
        let e = work_elem(h, pos, w, o, items, i, w.holes.len() > 0);
        match e.out {
            Err(x) => halted(x, e.pos),
            Ok(Some(v)) => if strictly_equal(v, needle) {
                done(index_val(Some(i)), e.pos)
            } else {
                snap_index_of(h, e.pos, w, o, items, needle, i + 1)
            },
            Ok(None) => snap_index_of(h, e.pos, w, o, items, needle, i + 1),
        }
    }
}

/// `indexOf` and `includes` on elements that were read beforehand.
pub open spec fn snap_search(h: Host, pos: nat, op: ArrOp, w: WorkV, o: Val, args: Seq<Val>) -> Run<Val> {
    chain(
        place_arg(h, pos, args, 1, Offset::Forward(0)),
        |from: Offset, p: nat|
            {
                let start = relative(from, w.items.len());
                if op == ArrOp::IndexOf {
                    snap_index_of(h, p, w, o, w.items, arg(args, 0), start)
                } else {
                    done(Val::Bool(includes_from(w.items, arg(args, 0), start)), p)
                }
            },
    )
}

pub open spec fn includes_from(items: Seq<Val>, needle: Val, start: nat) -> bool {
    exists|i: int| start <= i < items.len() && same_zero(#[trigger] items[i], needle)
}

/// The elements at the places from `k` to `end`, with the holes among them.
pub open spec fn slice_items(
    h: Host,
    pos: nat,
    w: WorkV,
    o: Val,
    snapshot: Seq<Val>,
    sparse: bool,
    k: nat,
    end: nat,
    out: Seq<Val>,
    holes: Seq<u64>,
) -> Run<Sparse>
    decreases end - k,
{
    if k >= end {
        done(Sparse { items: out, holes }, pos)
    } else {
        let e = work_elem(h, pos, w, o, snapshot, k, sparse);
        match e.out {
            Err(x) => halted(x, e.pos),
            Ok(Some(v)) => slice_items(
                h,
                e.pos,
                w,
                o,
                snapshot,
                sparse,
                k + 1,
                end,
                out.push(v),
                holes,
            ),
            Ok(None) => slice_items(
                h,
                e.pos,
                w,
                o,
                snapshot,
                sparse,
                k + 1,
                end,
                out.push(Val::Undefined),
                holes.push(out.len() as u64),
            ),
        }
    }
}

/// `slice`.
pub open spec fn arr_slice(h: Host, pos: nat, w: WorkV, o: Val, args: Seq<Val>) -> Run<Val> {
    chain(
        items_of(h, pos, w),
        |first: Seq<Val>, p0: nat|
            chain(
                place_arg(h, p0, args, 0, Offset::Forward(0)),
                |a: Offset, p1: nat|
                    chain(
                        place_arg(h, p1, args, 1, Offset::Forward(first.len() as u64)),
                        |b: Offset, p2: nat|
                            chain(
                                sparse_work(h, p2, w),
                                |sparse: bool, p3: nat|
                                    chain(
                                        items_of(h, p3, w),
                                        |items: Seq<Val>, p4: nat|
                                            chain(
                                                slice_items(
                                                    h,
                                                    p4,
                                                    w,
                                                    o,
                                                    items,
                                                    sparse,
                                                    relative(a, items.len()),
                                                    relative(b, items.len()),
                                                    Seq::empty(),
                                                    Seq::empty(),
                                                ),
                                                |s: Sparse, p5: nat|
                                                    collected(h, p5, o, s.items, s.holes),
                                            ),
                                    ),
                            ),
                    ),
            ),
    )
}

/// The arguments of a callback.
pub open spec fn visit_args(item: Val, i: nat, o: Val) -> Seq<Val> {
    seq![item, Val::Num(count_num(i)), o]
}

/// What a callback's result settles.
pub open spec fn decided_place(op: ArrOp, item: Val, i: nat, r: Val) -> Option<Val> {
    if op == ArrOp::FindIndex {
        if truthy(r) {
            Some(Val::Num(count_num(i)))
        } else {
            None
        }
    } else {
        decided(op, item, 0, r)
    }
}

/// A callback method on elements that were read beforehand, from the `i`-th on.
pub open spec fn snap_walk(
    h: Host,
    pos: nat,
    op: ArrOp,
    w: WorkV,
    o: Val,
    args: Seq<Val>,
    i: nat,
    out: Seq<Val>,
    holes: Seq<u64>,
) -> Run<Gathered>
    decreases w.items.len() - i,
{
    if i >= w.items.len() {
        done(Gathered::All(out, holes), pos)
    } else {
        let e = work_elem(h, pos, w, o, w.items, i, w.holes.len() > 0);
        match e.out {
            Err(x) => halted(x, e.pos),
            Ok(found) => if found is None && op == ArrOp::MapEach {
                snap_walk(
                    h,
                    e.pos,
                    op,
                    w,
                    o,
                    args,
                    i + 1,
                    out.push(Val::Undefined),
                    holes.push(out.len() as u64),
                )
            } else if found is None && op != ArrOp::Find && op != ArrOp::FindIndex {
                snap_walk(h, e.pos, op, w, o, args, i + 1, out, holes)
            } else {
                let item = match found {
                    Some(v) => v,
                    None => Val::Undefined,
                };
                let c = call(h, e.pos, arg(args, 0), opt_arg(args, 1), visit_args(item, i, o));
                match c.out {
                    Err(x) => halted(x, c.pos),
                    Ok(r) => match decided_place(op, item, i, r) {
                        Some(d) => done(Gathered::Decided(d), c.pos),
                        None => {
                            let g = gather(h, c.pos, op, item, r, out);
                            match g.out {
                                Err(x) => halted(x, g.pos),
                                Ok(more) => snap_walk(
                                    h,
                                    g.pos,
                                    op,
                                    w,
                                    o,
                                    args,
                                    i + 1,
                                    more,
                                    holes,
                                ),
                            }
                        },
                    },
                }
            },
        }
    }
}

/// An element that is there, and its place.
#[verifier::ext_equal]
pub struct PresentV {
    pub index: nat,
    pub value: Val,
}

pub struct Present {
    pub index: usize,
    pub value: Value,
}

pub open spec fn present_views(s: Seq<Present>) -> Seq<PresentV> {
    Seq::new(s.len(), |i: int| PresentV { index: s[i].index as nat, value: s[i].value@ })
}

/// The elements that are there, `n` of them left to look at; from the end where `backward` is set.
pub open spec fn snap_present(
    h: Host,
    pos: nat,
    w: WorkV,
    o: Val,
    backward: bool,
    n: nat,
    out: Seq<PresentV>,
) -> Run<Seq<PresentV>>
    decreases n,
{
    if n == 0 || n > w.items.len() {
        done(out, pos)
    } else {
        let i = if backward {
            (n - 1) as nat
        } else {
            (w.items.len() - n) as nat
        };
        let e = work_elem(h, pos, w, o, w.items, i, w.holes.len() > 0);
        match e.out {
            Err(x) => halted(x, e.pos),
            Ok(Some(v)) => snap_present(
                h,
                e.pos,
                w,
                o,
                backward,
                (n - 1) as nat,
                out.push(PresentV { index: i, value: v }),
            ),
            Ok(None) => snap_present(h, e.pos, w, o, backward, (n - 1) as nat, out),
        }
    }
}

/// Folds the elements from the `j`-th on into `acc`.
pub open spec fn snap_fold(h: Host, pos: nat, f: Val, o: Val, list: Seq<PresentV>, j: int, acc: Val) -> Run<
    Val,
>
    decreases list.len() - j,
{
    if !(0 <= j < list.len()) {
        done(acc, pos)
    } else {
        let c = call(h, pos, f, None, seq![acc] + visit_args(list[j].value, list[j].index, o));
        match c.out {
            Err(e) => halted(e, c.pos),
            Ok(v) => snap_fold(h, c.pos, f, o, list, j + 1, v),
        }
    }
}

/// `reduce` and `reduceRight` on elements that were read beforehand.
pub open spec fn snap_reduce(h: Host, pos: nat, w: WorkV, o: Val, args: Seq<Val>, backward: bool) -> Run<
    Val,
> {
    chain(
        snap_present(h, pos, w, o, backward, w.items.len(), Seq::empty()),
        |list: Seq<PresentV>, p: nat|
            if args.len() > 1 {
                snap_fold(h, p, arg(args, 0), o, list, 0, args[1])
            } else if list.len() == 0 {
                raised(ErrorKind::TypeError, "Reduce of empty array with no initial value"@, p)
            } else {
                snap_fold(h, p, arg(args, 0), o, list, 1, list[0].value)
            },
    )
}

/// The last element, among the first `n`, that the callback accepts.
pub open spec fn snap_find_last(
    h: Host,
    pos: nat,
    w: WorkV,
    o: Val,
    args: Seq<Val>,
    want_index: bool,
    n: nat,
) -> Run<Val>
    decreases n,
{
    if n == 0 || n > w.items.len() {
        done(
            if want_index {
                Val::Num(num_of(-1))
            } else {
                Val::Undefined
            },
            pos,
        )
    } else {
        let i = (n - 1) as nat;
        let c = call(
            h,
            pos,
            arg(args, 0),
            opt_arg(args, 1),
            visit_args(w.items[i as int], i, o),
        );
        match c.out {
            Err(e) => halted(e, c.pos),
            Ok(r) => if truthy(r) {
                done(
                    if want_index {
                        Val::Num(count_num(i))
                    } else {
                        w.items[i as int]
                    },
                    c.pos,
                )
            } else {
                snap_find_last(h, c.pos, w, o, args, want_index, i)
            },
        }
    }
}

/// A callback method on elements that were read beforehand.
pub open spec fn snap_iter(h: Host, pos: nat, op: ArrOp, w: WorkV, o: Val, args: Seq<Val>) -> Run<Val> {
    if !callable(arg(args, 0)) {
        raised(
            ErrorKind::TypeError,
            if op == ArrOp::FindLast || op == ArrOp::FindLastIndex {
                "predicate is not a function"@
            } else {
                "callback is not a function"@
            },
            pos,
        )
    } else if op == ArrOp::FindLast || op == ArrOp::FindLastIndex {
        snap_find_last(h, pos, w, o, args, op == ArrOp::FindLastIndex, w.items.len())
    } else if op == ArrOp::Reduce || op == ArrOp::ReduceRight {
        snap_reduce(h, pos, w, o, args, op == ArrOp::ReduceRight)
    } else {
        chain(
            snap_walk(h, pos, op, w, o, args, 0, Seq::empty(), Seq::empty()),
            |g: Gathered, p: nat|
                match g {
                    Gathered::Decided(d) => done(d, p),
                    Gathered::All(out, holes) => if collects(op) {
                        collected(h, p, o, out, holes)
                    } else {
                        done(undecided(op), p)
                    },
                },
        )
    }
}

/// A new array; with holes where there are any.
pub open spec fn new_array(h: Host, pos: nat, items: Seq<Val>, holes: Seq<u64>) -> Run<Val> {
    if holes.len() == 0 {
        ask_value(h, pos, Op::NewArray, items)
    } else {
        ask_value(
            h,
            pos,
            Op::NewSparseArray,
            seq![Val::Num(count_num(items.len()))] + items + hole_nums(holes),
        )
    }
}

/// The length of something whose elements `concat` takes.
pub open spec fn concat_length(h: Host, pos: nat, item: Val) -> Run<nat> {
    if is_array_val(item) {
        chain(
            ask_list(h, pos, Op::Elements, seq![item]),
            |l: Seq<Val>, p: nat| done(l.len(), p),
        )
    } else {
        generic_length(h, pos, item)
    }
}

/// The elements at the places from `k` to `n`, after `out`; a place without one is a hole.
pub open spec fn concat_items(h: Host, pos: nat, item: Val, k: nat, n: nat, out: Sparse) -> Run<Sparse>
    decreases n - k,
{
    if k >= n {
        done(out, pos)
    } else {
        let e = live_slot(h, pos, item, decimal(k));
        match e.out {
            Err(x) => halted(x, e.pos),
            Ok(Some(v)) => concat_items(
                h,
                e.pos,
                item,
                k + 1,
                n,
                Sparse { items: out.items.push(v), holes: out.holes },
            ),
            Ok(None) => concat_items(
                h,
                e.pos,
                item,
                k + 1,
                n,
                Sparse {
                    items: out.items.push(Val::Undefined),
                    holes: out.holes.push(out.items.len() as u64),
                },
            ),
        }
    }
}

/// One more value for `concat`.
pub open spec fn concat_one(h: Host, pos: nat, item: Val, out: Sparse) -> Run<Sparse> {
    chain(
        ask_flag(h, pos, Op::ConcatSpreadable, seq![item]),
        |spread: bool, p: nat|
            if !spread {
                done(Sparse { items: out.items.push(item), holes: out.holes }, p)
            } else {
                chain(
                    concat_length(h, p, item),
                    |n: nat, q: nat|
                        if out.items.len() + n > MAX_SAFE {
                            raised(
                                ErrorKind::TypeError,
                                "Array length exceeds the maximum safe integer"@,
                                q,
                            )
                        } else {
                            concat_items(h, q, item, 0, n, out)
                        },
                )
            },
    )
}

/// The values for `concat` from the `i`-th on.
pub open spec fn concat_all(h: Host, pos: nat, all: Seq<Val>, i: int, out: Sparse) -> Run<Sparse>
    decreases all.len() - i,
{
    if !(0 <= i < all.len()) {
        done(out, pos)
    } else {
        let e = concat_one(h, pos, all[i], out);
        match e.out {
            Err(x) => halted(x, e.pos),
            Ok(more) => concat_all(h, e.pos, all, i + 1, more),
        }
    }
}

/// Defines the elements from the `j`-th on that are no holes.
pub open spec fn define_present(
    h: Host,
    pos: nat,
    target: Val,
    items: Seq<Val>,
    holes: Seq<u64>,
    j: int,
) -> Run<()>
    decreases items.len() - j,
{
    if !(0 <= j < items.len()) {
        done((), pos)
    } else if is_hole(holes, j as nat) {
        define_present(h, pos, target, items, holes, j + 1)
    } else {
        let d = define_data(h, pos, target, decimal(j as nat), items[j]);
        match d.out {
            Err(e) => halted(e, d.pos),
            Ok(_) => define_present(h, d.pos, target, items, holes, j + 1),
        }
    }
}

/// The elements in an array of the receiver's kind that starts empty.
pub open spec fn gathered_in(h: Host, pos: nat, o: Val, s: Sparse) -> Run<Val> {
    chain(
        species(h, pos, o),
        |c: Option<Val>, p: nat|
            match c {
                Some(ctor) => chain(
                    construct(h, p, ctor, seq![Val::Num(num_of(0))]),
                    |a: Val, q: nat|
                        chain(
                            define_present(h, q, a, s.items, s.holes, 0),
                            |u: (), r: nat| done(a, r),
                        ),
                ),
                None => new_array(h, p, s.items, s.holes),
            },
    )
}

/// `concat`.
pub open spec fn arr_concat(h: Host, pos: nat, w: WorkV, o: Val, args: Seq<Val>) -> Run<Val> {
    chain(
        match w.real {
            Some(a) => done(a, pos),
            None => new_array(h, pos, w.items, w.holes),
        },
        |first: Val, p: nat|
            chain(
                concat_all(
                    h,
                    p,
                    seq![first] + args,
                    0,
                    Sparse { items: Seq::empty(), holes: Seq::empty() },
                ),
                |s: Sparse, q: nat| gathered_in(h, q, o, s),
            ),
    )
}

/// How deep `flat` goes.
pub open spec fn flat_depth(n: Num) -> nat {
    match offset_of(n) {
        Offset::Forward(k) => if k > 0x7fff_ffff {
            0x7fff_ffff
        } else {
            k as nat
        },
        Offset::PosInfinity => 0x7fff_ffff,
        _ => 0,
    }
}

/// The elements from the `i`-th on, those of arrays in place of the arrays, down to a depth.
pub open spec fn flat_items(h: Host, pos: nat, items: Seq<Val>, i: int, depth: nat, out: Seq<Val>) -> Run<
    Seq<Val>,
>
    decreases room(h, pos), items.len() - i,
{
    if !(0 <= i < items.len()) {
        done(out, pos)
    } else if depth == 0 || !is_array_val(items[i]) {
        flat_items(h, pos, items, i + 1, depth, out.push(items[i]))
    } else {
        let l = ask_list(h, pos, Op::Elements, seq![items[i]]);
        match l.out {
            Err(e) => halted(e, l.pos),
            Ok(inner) => if room(h, l.pos) < room(h, pos) {
                let f = flat_items(h, l.pos, inner, 0, (depth - 1) as nat, out);
                match f.out {
                    Err(e) => halted(e, f.pos),
                    Ok(more) => flat_items(
                        h,
                        later(l.pos, f.pos),
                        items,
                        i + 1,
                        depth,
                        more,
                    ),
                }
            } else {
                done(out, l.pos)
            },
        }
    }
}

/// `flat`.
pub open spec fn arr_flat(h: Host, pos: nat, w: WorkV, o: Val, args: Seq<Val>) -> Run<Val> {
    chain(
        if arg(args, 0) is Undefined {
            done(1, pos)
        } else {
            chain(
                ask_number(h, pos, Op::ToInteger, seq![arg(args, 0)]),
                |n: Num, p: nat| done(flat_depth(n), p),
            )
        },
        |depth: nat, p: nat|
            chain(
                items_of(h, p, w),
                |items: Seq<Val>, q: nat|
                    chain(
                        flat_items(h, q, items, 0, depth, Seq::empty()),
                        |out: Seq<Val>, r: nat|
                            gathered_in(h, r, o, Sparse { items: out, holes: Seq::empty() }),
                    ),
            ),
    )
}

/// The arguments from the third on.
pub open spec fn inserted(args: Seq<Val>) -> Seq<Val> {
    if args.len() > 2 {
        args.skip(2)
    } else {
        Seq::empty()
    }
}

/// How many elements a splice takes out: none without arguments, all that follow with one.
pub open spec fn splice_count(h: Host, pos: nat, args: Seq<Val>, left: nat) -> Run<nat> {
    if args.len() == 0 {
        done(0, pos)
    } else if args.len() == 1 {
        done(left, pos)
    } else {
        chain(
            ask_number(h, pos, Op::ToInteger, seq![args[1]]),
            |n: Num, p: nat| done(clamped(offset_of(n), left), p),
        )
    }
}

pub open spec fn at_most_nat(a: nat, b: nat) -> nat {
    if a <= b {
        a
    } else {
        b
    }
}

/// The elements after some were taken out and others put in their place.
pub open spec fn spliced(items: Seq<Val>, start: nat, del: nat, put: Seq<Val>) -> Seq<Val> {
    items.take(start as int) + put + items.skip((start + del) as int)
}

/// Whether a splice that changes the length is refused.
pub open spec fn splice_refused(h: Host, pos: nat, w: WorkV, del: nat, args: Seq<Val>) -> Run<bool> {
    match w.real {
        Some(a) => if del == inserted(args).len() {
            done(false, pos)
        } else {
            chain(
                ask_flag(h, pos, Op::LengthWritable, seq![a]),
                |b: bool, p: nat| done(!b, p),
            )
        },
        None => done(false, pos),
    }
}

/// `splice`.
pub open spec fn arr_splice(h: Host, pos: nat, w: WorkV, o: Val, args: Seq<Val>) -> Run<LeftV> {
    chain(
        items_of(h, pos, w),
        |first: Seq<Val>, p0: nat|
            chain(
                if args.len() == 0 {
                    done(0, p0)
                } else {
                    chain(
                        ask_number(h, p0, Op::ToInteger, seq![args[0]]),
                        |n: Num, p: nat| done(relative(offset_of(n), first.len()), p),
                    )
                },
                |start: nat, p1: nat|
                    chain(
                        splice_count(h, p1, args, (first.len() - start) as nat),
                        |del: nat, p2: nat|
                            chain(
                                splice_refused(h, p2, w, del, args),
                                |no: bool, p3: nat|
                                    if no {
                                        raised(
                                            ErrorKind::TypeError,
                                            "Cannot redefine property"@,
                                            p3,
                                        )
                                    } else {
                                        splice_end(h, p3, w, o, args, start, del)
                                    },
                            ),
                    ),
            ),
    )
}

pub open spec fn splice_end(
    h: Host,
    pos: nat,
    w: WorkV,
    o: Val,
    args: Seq<Val>,
    start: nat,
    del: nat,
) -> Run<LeftV> {
    chain(
        items_of(h, pos, w),
        |items: Seq<Val>, p: nat|
            {
                let a = at_most_nat(start, items.len());
                let d = at_most_nat(del, (items.len() - a) as nat);
                let left = spliced(items, a, d, inserted(args));
                chain(
                    commit(h, p, w, left),
                    |u: (), q: nat|
                        chain(
                            collected(
                                h,
                                q,
                                o,
                                items.subrange(a as int, (a + d) as int),
                                Seq::empty(),
                            ),
                            |r: Val, t: nat| done(LeftV { result: r, items: left }, t),
                        ),
                )
            },
    )
}

/// The elements with a value from one place up to another.
pub open spec fn filled_with(items: Seq<Val>, v: Val, start: nat, end: nat) -> Seq<Val> {
    Seq::new(
        items.len(),
        |i: int|
            if start <= i < end {
                v
            } else {
                items[i]
            },
    )
}

/// `fill`.
pub open spec fn arr_fill(h: Host, pos: nat, w: WorkV, o: Val, args: Seq<Val>) -> Run<LeftV> {
    chain(
        items_of(h, pos, w),
        |first: Seq<Val>, p0: nat|
            chain(
                place_arg(h, p0, args, 1, Offset::Forward(0)),
                |a: Offset, p1: nat|
                    chain(
                        place_arg(h, p1, args, 2, Offset::Forward(first.len() as u64)),
                        |b: Offset, p2: nat|
                            chain(
                                items_of(h, p2, w),
                                |items: Seq<Val>, p3: nat|
                                    changed(
                                        h,
                                        p3,
                                        w,
                                        o,
                                        filled_with(
                                            items,
                                            arg(args, 0),
                                            relative(a, items.len()),
                                            relative(b, items.len()),
                                        ),
                                    ),
                            ),
                    ),
            ),
    )
}

/// A plain number as a place; `none` where the argument is missing.
pub open spec fn plain_place(h: Host, pos: nat, args: Seq<Val>, i: int) -> Run<Offset> {
    if 0 <= i < args.len() {
        chain(
            ask_number(h, pos, Op::PlainNumber, seq![args[i]]),
            |n: Num, p: nat| done(offset_of(n), p),
        )
    } else {
        done(Offset::Forward(0), pos)
    }
}

/// `toSpliced`.
pub open spec fn arr_to_spliced(h: Host, pos: nat, w: WorkV, args: Seq<Val>) -> Run<Val> {
    chain(
        items_of(h, pos, w),
        |items: Seq<Val>, p0: nat|
            chain(
                plain_place(h, p0, args, 0),
                |a: Offset, p1: nat|
                    {
                        let start = relative(a, items.len());
                        let left = (items.len() - start) as nat;
                        chain(
                            if args.len() == 0 {
                                done(0, p1)
                            } else if args.len() == 1 {
                                done(left, p1)
                            } else {
                                chain(
                                    plain_place(h, p1, args, 1),
                                    |b: Offset, p: nat| done(clamped(b, left), p),
                                )
                            },
                            |skip: nat, p2: nat|
                                ask_value(
                                    h,
                                    p2,
                                    Op::NewArray,
                                    spliced(items, start, skip, inserted(args)),
                                ),
                        )
                    },
            ),
    )
}

/// `at`.
pub open spec fn arr_at(h: Host, pos: nat, w: WorkV, args: Seq<Val>) -> Run<Val> {
    chain(
        ask_number(h, pos, Op::ToInteger, seq![arg(args, 0)]),
        |n: Num, p: nat|
            chain(
                items_of(h, p, w),
                |items: Seq<Val>, q: nat|
                    done(
                        match index_from(offset_of(n), items.len()) {
                            Some(i) => items[i as int],
                            None => Val::Undefined,
                        },
                        q,
                    ),
            ),
    )
}

/// `with`.
pub open spec fn arr_with(h: Host, pos: nat, w: WorkV, args: Seq<Val>) -> Run<Val> {
    chain(
        ask_number(h, pos, Op::ToInteger, seq![arg(args, 0)]),
        |n: Num, p: nat|
            chain(
                items_of(h, p, w),
                |items: Seq<Val>, q: nat|
                    match index_from(offset_of(n), items.len()) {
                        Some(i) => ask_value(
                            h,
                            q,
                            Op::NewArray,
                            items.update(i as int, arg(args, 1)),
                        ),
                        None => raised(ErrorKind::RangeError, "Invalid index"@, q),
                    },
            ),
    )
}

/// `sort` on elements that need no care.
pub open spec fn arr_sort(h: Host, pos: nat, w: WorkV, args: Seq<Val>) -> Run<LeftV> {
    if bad_comparator(arg(args, 0)) {
        raised(
            ErrorKind::TypeError,
            "The comparison function must be either a function or undefined"@,
            pos,
        )
    } else {
        chain(
            items_of(h, pos, w),
            |items: Seq<Val>, p: nat|
                chain(
                    insertion(
                        h,
                        p,
                        order_by(arg(args, 0), true),
                        items,
                        1,
                        items.len() as int,
                    ),
                    |sorted: Seq<Val>, q: nat|
                        chain(
                            commit(h, q, w, sorted),
                            |u: (), r: nat|
                                match w.real {
                                    Some(a) => done(LeftV { result: a, items: sorted }, r),
                                    None => chain(
                                        ask_value(h, r, Op::NewArray, sorted),
                                        |a: Val, t: nat|
                                            done(LeftV { result: a, items: sorted }, t),
                                    ),
                                },
                        ),
                ),
        )
    }
}

/// The places of `n` elements.
pub open spec fn place_vals(n: nat) -> Seq<Val> {
    Seq::new(n, |i: int| Val::Num(count_num(i as nat)))
}

/// Arrays of each place and its element, from the `i`-th on.
pub open spec fn entry_pairs(h: Host, pos: nat, items: Seq<Val>, i: int, out: Seq<Val>) -> Run<Seq<Val>>
    decreases items.len() - i,
{
    if !(0 <= i < items.len()) {
        done(out, pos)
    } else {
        let a = ask_value(h, pos, Op::NewArray, seq![Val::Num(count_num(i as nat)), items[i]]);
        match a.out {
            Err(e) => halted(e, a.pos),
            Ok(v) => entry_pairs(h, a.pos, items, i + 1, out.push(v)),
        }
    }
}

/// A method that changes the elements.
pub open spec fn arr_change(h: Host, pos: nat, op: ArrOp, w: WorkV, o: Val, args: Seq<Val>) -> Run<LeftV> {
    match op {
        ArrOp::Splice => arr_splice(h, pos, w, o, args),
        ArrOp::Fill => arr_fill(h, pos, w, o, args),
        ArrOp::Sort => arr_sort(h, pos, w, args),
        _ => chain(
            items_of(h, pos, w),
            |items: Seq<Val>, p: nat|
                match op {
                    ArrOp::Pop => if items.len() == 0 {
                        changed(h, p, w, Val::Undefined, items)
                    } else {
                        changed(h, p, w, items.last(), items.drop_last())
                    },
                    ArrOp::Shift => if items.len() == 0 {
                        changed(h, p, w, Val::Undefined, items)
                    } else {
                        changed(h, p, w, items[0], items.skip(1))
                    },
                    ArrOp::Unshift => changed(
                        h,
                        p,
                        w,
                        Val::Num(count_num(args.len() + items.len())),
                        args + items,
                    ),
                    _ => changed(h, p, w, o, items.reverse()),
                },
        ),
    }
}

/// A method that leaves the elements as they are.
pub open spec fn arr_read(h: Host, pos: nat, op: ArrOp, w: WorkV, o: Val, args: Seq<Val>) -> Run<Val> {
    match op {
        ArrOp::ArrToString => arr_to_string(h, pos, o),
        ArrOp::Join => arr_join(h, pos, w, args),
        ArrOp::IndexOf => snap_search(h, pos, op, w, o, args),
        ArrOp::Includes => snap_search(h, pos, op, w, o, args),
        ArrOp::Slice => arr_slice(h, pos, w, o, args),
        ArrOp::Concat => arr_concat(h, pos, w, o, args),
        ArrOp::Flat => arr_flat(h, pos, w, o, args),
        ArrOp::At => arr_at(h, pos, w, args),
        ArrOp::With => arr_with(h, pos, w, args),
        ArrOp::ToSpliced => arr_to_spliced(h, pos, w, args),
        ArrOp::Keys => chain(
            items_of(h, pos, w),
            |items: Seq<Val>, p: nat|
                ask_value(h, p, Op::NewIterator, place_vals(items.len())),
        ),
        ArrOp::Values => chain(
            items_of(h, pos, w),
            |items: Seq<Val>, p: nat| ask_value(h, p, Op::NewIterator, items),
        ),
        ArrOp::Entries => chain(
            items_of(h, pos, w),
            |items: Seq<Val>, p: nat|
                chain(
                    entry_pairs(h, p, items, 0, Seq::empty()),
                    |l: Seq<Val>, q: nat| ask_value(h, q, Op::NewIterator, l),
                ),
        ),
        _ => if iterates(op) {
            snap_iter(h, pos, op, w, o, args)
        } else {
            done(Val::Undefined, pos)
        },
    }
}

/// A method on what it works on.
pub open spec fn arr_work(h: Host, pos: nat, op: ArrOp, v: Val, args: Seq<Val>) -> Run<Val> {
    chain(
        work_on(h, pos, op, v),
        |work: Option<WorkV>, p: nat|
            match work {
                None => done(v, p),
                Some(w) => chain(
                    to_object(h, p, v),
                    |o: Val, q: nat|
                        if mutating(op) {
                            chain(
                                arr_change(h, q, op, w, o, args),
                                |l: LeftV, r: nat|
                                    if is_object_val(v) {
                                        chain(
                                            ask_value(h, r, Op::WriteBack, seq![v] + l.items),
                                            |u: Val, t: nat| done(l.result, t),
                                        )
                                    } else {
                                        done(l.result, r)
                                    },
                            )
                        } else {
                            arr_read(h, q, op, w, o, args)
                        },
                ),
            },
    )
}

/// `reverse` on a plain object; none where the object is too long for that.
pub open spec fn reverse_object(h: Host, pos: nat, op: ArrOp, v: Val, args: Seq<Val>) -> Run<Val> {
    chain(
        generic_length(h, pos, v),
        |n: nat, p: nat|
            if n <= MAX_ARRAY_LEN {
                reverse_from(h, p, v, 0, n)
            } else {
                arr_work(h, p, op, v, args)
            },
    )
}

/// `sort`, element by element where that is needed.
pub open spec fn sort_any(h: Host, pos: nat, op: ArrOp, v: Val, args: Seq<Val>) -> Run<Val> {
    chain(
        sorts_live(h, pos, v),
        |live: bool, p: nat|
            if !live {
                arr_work(h, p, op, v, args)
            } else if bad_comparator(arg(args, 0)) {
                raised(
                    ErrorKind::TypeError,
                    "The comparison function must be either a function or undefined"@,
                    p,
                )
            } else {
                sort_generic(h, p, v, arg(args, 0))
            },
    )
}

/// A method of `Array.prototype`.
pub open spec fn arr_op_run(h: Host, pos: nat, op: ArrOp, recv: Option<Val>, args: Seq<Val>) -> Run<
    Val,
> {
    let v = this_of(recv);
    if v is Undefined || v is Null {
        raised(
            ErrorKind::TypeError,
            "Array.prototype method called on null or undefined"@,
            pos,
        )
    } else if read_live(v) && op == ArrOp::IndexOf {
        index_search(h, pos, false, v, args)
    } else if read_live(v) && op == ArrOp::Includes {
        includes(h, pos, v, args)
    } else if op == ArrOp::Reverse && is_object_val(v) {
        reverse_object(h, pos, op, v, args)
    } else if op == ArrOp::Sort {
        sort_any(h, pos, op, v, args)
    } else if iterates(op) && read_live(v) {
        iter_live(h, pos, op, v, args)
    } else {
        arr_work(h, pos, op, v, args)
    }
}

/// `push`.
pub open spec fn array_push_run(h: Host, pos: nat, recv: Option<Val>, args: Seq<Val>) -> Run<Val> {
    let v = this_of(recv);
    if is_array_val(v) {
        chain(
            ask_flag(h, pos, Op::NonExtensible, seq![v]),
            |closed: bool, p: nat|
                chain(
                    ask_list(h, p, Op::Elements, seq![v]),
                    |items: Seq<Val>, q: nat|
                        if closed {
                            done(Val::Num(count_num(items.len())), q)
                        } else {
                            chain(
                                ask_value(h, q, Op::AppendElements, seq![v] + args),
                                |u: Val, r: nat|
                                    done(Val::Num(count_num((items + args).len())), r),
                            )
                        },
                ),
        )
    } else if is_object_val(v) {
        chain(
            ask_flag(h, pos, Op::IsArrayLike, seq![v]),
            |like: bool, p: nat|
                if !like {
                    raised(ErrorKind::Error, "push 는 배열 메서드"@, p)
                } else {
                    chain(
                        ask_list(h, p, Op::ArrayLikeItems, seq![v]),
                        |items: Seq<Val>, q: nat|
                            chain(
                                ask_value(h, q, Op::WriteBack, seq![v] + (items + args)),
                                |u: Val, r: nat|
                                    done(Val::Num(count_num((items + args).len())), r),
                            ),
                    )
                },
        )
    } else {
        raised(ErrorKind::Error, "push 는 배열 메서드"@, pos)
    }
}

pub open spec fn work_run(r: Result<Option<Work>, Stop>, it: Interp) -> Run<Option<WorkV>> {
    match r {
        Ok(Some(w)) => done(Some(w@), it.pos as nat),
        Ok(None) => done(None, it.pos as nat),
        Err(e) => halted(e@, it.pos as nat),
    }
}

pub open spec fn left_run(r: Result<Left, Stop>, it: Interp) -> Run<LeftV> {
    match r {
        Ok(w) => done(w@, it.pos as nat),
        Err(e) => halted(e@, it.pos as nat),
    }
}

pub open spec fn sparse_run(r: Result<(Vec<Value>, Vec<u64>), Stop>, it: Interp) -> Run<Sparse> {
    match r {
        Ok(w) => done(Sparse { items: views(w.0@), holes: w.1@ }, it.pos as nat),
        Err(e) => halted(e@, it.pos as nat),
    }
}

pub open spec fn present_run(r: Result<Vec<Present>, Stop>, it: Interp) -> Run<Seq<PresentV>> {
    match r {
        Ok(w) => done(present_views(w@), it.pos as nat),
        Err(e) => halted(e@, it.pos as nat),
    }
}

pub open spec fn texts_run(r: Result<Vec<String>, Stop>, it: Interp) -> Run<Seq<Seq<char>>> {
    match r {
        Ok(w) => done(text_views(w@), it.pos as nat),
        Err(e) => halted(e@, it.pos as nat),
    }
}

pub open spec fn count_run(r: Result<usize, Stop>, it: Interp) -> Run<nat> {
    match r {
        Ok(w) => done(w as nat, it.pos as nat),
        Err(e) => halted(e@, it.pos as nat),
    }
}

enum Walked {
    Decided(Value),
    All(Vec<Value>, Vec<u64>),
}

spec fn walked_run(r: Result<Walked, Stop>, it: Interp) -> Run<Gathered> {
    match r {
        Ok(Walked::Decided(v)) => done(Gathered::Decided(v@), it.pos as nat),
        Ok(Walked::All(out, holes)) => done(Gathered::All(views(out@), holes@), it.pos as nat),
        Err(e) => halted(e@, it.pos as nat),
    }
}

/// Whether a number is among some.
pub fn contains_place(s: &Vec<u64>, i: u64) -> (r: bool)
    ensures
        r == is_hole(s@, i as nat),
{
    let mut k: usize = 0;
    while k < s.len()
        invariant
            k <= s@.len(),
            forall|j: int| 0 <= j < k ==> #[trigger] s@[j] != i,
        decreases s@.len() - k,
    {
        if s[k] == i {
            return true;
        }
        k = k + 1;
    }
    false
}

fn no_items() -> (r: Vec<Value>)
    ensures
        views(r@) == Seq::<Val>::empty(),
{
    let v: Vec<Value> = Vec::new();
    assert(views(v@) =~= Seq::<Val>::empty());
    v
}

fn with_front(a: Value, items: &Vec<Value>) -> (r: Vec<Value>)
    ensures
        views(r@) == seq![a@] + views(items@),
{
    let mut out: Vec<Value> = list1(a);
    let ghost front = views(out@);
    let mut rest: Vec<Value> = clone_values(items);
    let ghost back = views(rest@);
    out.append(&mut rest);
    assert(views(out@) =~= front + back);
    out
}

fn join_lists(a: &Vec<Value>, b: &Vec<Value>) -> (r: Vec<Value>)
    ensures
        views(r@) == views(a@) + views(b@),
{
    let mut out: Vec<Value> = clone_values(a);
    let ghost front = views(out@);
    let mut rest: Vec<Value> = clone_values(b);
    let ghost back = views(rest@);
    out.append(&mut rest);
    assert(views(out@) =~= front + back);
    out
}

fn part_of(items: &Vec<Value>, from: usize, to: usize) -> (r: Vec<Value>)
    requires
        from <= to <= items@.len(),
    ensures
        views(r@) == views(items@).subrange(from as int, to as int),
{
    let mut out: Vec<Value> = no_items();
    let mut i: usize = from;
    while i < to
        invariant
            from <= i <= to <= items@.len(),
            views(out@) == views(items@).subrange(from as int, i as int),
        decreases to - i,
    {
        let ghost before = views(out@);
        out.push(items[i].clone());
        assert(views(out@) =~= before.push(items@[i as int]@));
        i = i + 1;
        assert(views(out@) =~= views(items@).subrange(from as int, i as int));
    }
    out
}

fn inserted_of(args: &Vec<Value>) -> (r: Vec<Value>)
    ensures
        views(r@) == inserted(views(args@)),
{
    if args.len() > 2 {
        let r: Vec<Value> = part_of(args, 2, args.len());
        assert(views(r@) =~= views(args@).skip(2));
        r
    } else {
        no_items()
    }
}

fn splice_items(items: &Vec<Value>, start: usize, del: usize, put: &Vec<Value>) -> (r: Vec<Value>)
    requires
        start + del <= items@.len(),
    ensures
        views(r@) == spliced(views(items@), start as nat, del as nat, views(put@)),
{
    let n: usize = items.len();
    let a: Vec<Value> = part_of(items, 0, start);
    let b: Vec<Value> = part_of(items, start + del, n);
    assert(views(a@) =~= views(items@).take(start as int));
    assert(views(b@) =~= views(items@).skip((start + del) as int));
    let front: Vec<Value> = join_lists(&a, put);
    join_lists(&front, &b)
}

fn fill_items(items: &Vec<Value>, v: &Value, start: usize, end: usize) -> (r: Vec<Value>)
    ensures
        views(r@) == filled_with(views(items@), v@, start as nat, end as nat),
{
    let ghost goal = filled_with(views(items@), v@, start as nat, end as nat);
    let mut out: Vec<Value> = no_items();
    let mut i: usize = 0;
    while i < items.len()
        invariant
            i <= items@.len(),
            goal == filled_with(views(items@), v@, start as nat, end as nat),
            views(out@) == goal.take(i as int),
        decreases items@.len() - i,
    {
        let ghost before = views(out@);
        let x: Value = if start <= i && i < end {
            v.clone()
        } else {
            items[i].clone()
        };
        out.push(x);
        assert(views(out@) =~= before.push(goal[i as int]));
        i = i + 1;
        assert(views(out@) =~= goal.take(i as int));
    }
    assert(goal.take(i as int) =~= goal);
    out
}

fn reversed_items(items: &Vec<Value>) -> (r: Vec<Value>)
    ensures
        views(r@) == views(items@).reverse(),
{
    let ghost goal = views(items@).reverse();
    let mut out: Vec<Value> = no_items();
    let n: usize = items.len();
    let mut i: usize = 0;
    while i < n
        invariant
            i <= n,
            n == items@.len(),
            goal == views(items@).reverse(),
            views(out@) == goal.take(i as int),
        decreases n - i,
    {
        let ghost before = views(out@);
        out.push(items[n - 1 - i].clone());
        assert(views(out@) =~= before.push(goal[i as int]));
        i = i + 1;
        assert(views(out@) =~= goal.take(i as int));
    }
    assert(goal.take(i as int) =~= goal);
    out
}

fn unit_values(s: &str) -> (r: Vec<Value>)
    ensures
        views(r@) == unit_texts(s@),
{
    let u: Vec<u16> = units_of(s);
    let ghost goal = unit_texts(s@);
    let mut out: Vec<Value> = no_items();
    let mut i: usize = 0;
    while i < u.len()
        invariant
            i <= u@.len(),
            u@ == utf16(s@),
            goal == unit_texts(s@),
            views(out@) == goal.take(i as int),
        decreases u@.len() - i,
    {
        let ghost before = views(out@);
        out.push(Value::Str(units_between(&u, i, i + 1)));
        assert(views(out@) =~= before.push(goal[i as int]));
        i = i + 1;
        assert(views(out@) =~= goal.take(i as int));
    }
    assert(views(out@) =~= goal);
    out
}

fn place_values(n: usize) -> (r: Vec<Value>)
    ensures
        views(r@) == place_vals(n as nat),
{
    let mut out: Vec<Value> = no_items();
    let mut i: usize = 0;
    while i < n
        invariant
            i <= n,
            views(out@) == place_vals(n as nat).take(i as int),
        decreases n - i,
    {
        let ghost before = views(out@);
        out.push(Value::Num(count_as_num(i)));
        assert(views(out@) =~= before.push(Val::Num(count_num(i as nat))));
        i = i + 1;
        assert(views(out@) =~= place_vals(n as nat).take(i as int));
    }
    assert(views(out@) =~= place_vals(n as nat));
    out
}

pub fn texts_joined(parts: &Vec<String>, sep: &str) -> (r: String)
    ensures
        r@ == joined(text_views(parts@), sep@),
{
    let ghost all = text_views(parts@);
    let mut out: String = String::new();
    let mut i: usize = 0;
    assert(all.take(0) =~= Seq::<Seq<char>>::empty());
    assert(out@ =~= joined(all.take(0), sep@));
    while i < parts.len()
        invariant
            i <= parts@.len(),
            all == text_views(parts@),
            out@ == joined(all.take(i as int), sep@),
        decreases parts@.len() - i,
    {
        let ghost before = out@;
        assert(all.take(i + 1).drop_last() =~= all.take(i as int));
        assert(all.take(i + 1).last() == parts@[i as int]@);
        if i > 0 {
            append_text(&mut out, sep);
        } else {
            assert(out@ =~= Seq::<char>::empty());
        }
        append_text(&mut out, parts[i].as_str());
        i = i + 1;
        assert(out@ =~= joined(all.take(i as int), sep@));
    }
    assert(all.take(i as int) =~= all);
    out
}

fn depth_of(n: Num) -> (r: u32)
    ensures
        r == flat_depth(n),
{
    match to_offset(n) {
        Offset::Forward(k) => if k > 0x7fff_ffff {
            0x7fff_ffff
        } else {
            k as u32
        },
        Offset::PosInfinity => 0x7fff_ffff,
        _ => 0,
    }
}

impl Interp {
    fn live_slot(&mut self, o: &Value, key: &str) -> (r: Result<Option<Value>, Stop>)
        requires
            old(self).wf(),
        ensures
            final(self).follows(*old(self)),
            run_slot(r, *final(self)) == live_slot(
                old(self).host(),
                old(self).pos as nat,
                o@,
                key@,
            ),
    {
        if self.has_property(o, key)? {
            let v: Value = self.member_get(o, key)?;
            Ok(Some(v))
        } else {
            Ok(None)
        }
    }

    fn put_or_delete(&mut self, o: &Value, key: &str, v: Option<Value>, there: bool) -> (r: Result<(), Stop>)
        requires
            old(self).wf(),
        ensures
            final(self).follows(*old(self)),
            run_plain(r, *final(self)) == put_or_delete(
                old(self).host(),
                old(self).pos as nat,
                o@,
                key@,
                opt_view(v),
                there,
            ),
    {
        match v {
            Some(x) => {
                let r: Value = self.ask_value(Op::SetOwn, list3(o.clone(), text_value(key), x))?;
                Ok(())
            },
            None => {
                if there {
                    let b: bool = self.ask_flag(Op::Delete, list2(o.clone(), text_value(key)))?;
                }
                Ok(())
            },
        }
    }

    fn reverse_step(&mut self, o: &Value, lower: u64, upper: u64) -> (r: Result<(), Stop>)
        requires
            old(self).wf(),
        ensures
            final(self).follows(*old(self)),
            run_plain(r, *final(self)) == reverse_step(
                old(self).host(),
                old(self).pos as nat,
                o@,
                lower as nat,
                upper as nat,
            ),
    {
        let lk: String = decimal_text(lower);
        let uk: String = decimal_text(upper);
        let lv: Option<Value> = self.live_slot(o, lk.as_str())?;
        let uv: Option<Value> = self.live_slot(o, uk.as_str())?;
        let there: bool = lv.is_some();
        let above: bool = uv.is_some();
        self.put_or_delete(o, lk.as_str(), uv, there)?;
        self.put_or_delete(o, uk.as_str(), lv, above)
    }

    #[verifier::loop_isolation(false)]
    fn reverse_from(&mut self, o: &Value, len: u64) -> (r: Result<Value, Stop>)
        requires
            old(self).wf(),
        ensures
            final(self).follows(*old(self)),
            run_value(r, *final(self)) == reverse_from(
                old(self).host(),
                old(self).pos as nat,
                o@,
                0,
                len as nat,
            ),
    {
        let ghost goal = reverse_from(self.host(), self.pos as nat, o@, 0, len as nat);
        let mut lower: u64 = 0;
        while lower < len / 2
            invariant
                lower <= len / 2,
                self.follows(*old(self)),
                goal == reverse_from(self.host(), self.pos as nat, o@, lower as nat, len as nat),
            decreases len - lower,
        {
            self.reverse_step(o, lower, len - lower - 1)?;
            lower = lower + 1;
        }
        Ok(o.clone())
    }

    fn sorts_live(&mut self, v: &Value) -> (r: Result<bool, Stop>)
        requires
            old(self).wf(),
        ensures
            final(self).follows(*old(self)),
            run_plain(r, *final(self)) == sorts_live(
                old(self).host(),
                old(self).pos as nat,
                v@,
            ),
    {
        if matches!(v, Value::Ref(Kind::Obj, _)) {
            return Ok(true);
        }
        if !matches!(v, Value::Ref(Kind::Arr, _)) {
            return Ok(false);
        }
        if self.ask_flag(Op::HasHoles, list1(v.clone()))? {
            return Ok(true);
        }
        let l: Vec<Value> = self.ask_list(Op::Elements, list1(v.clone()))?;
        Ok(has_accessor(&l))
    }

    fn filled_holes(&mut self, a: &Value) -> (r: Result<(), Stop>)
        requires
            old(self).wf(),
        ensures
            final(self).follows(*old(self)),
            run_plain(r, *final(self)) == filled_holes(
                old(self).host(),
                old(self).pos as nat,
                a@,
            ),
    {
        if self.ask_flag(Op::HasHoles, list1(a.clone()))? {
            let v: Value = self.ask_value(Op::FillHoles, list1(a.clone()))?;
        }
        Ok(())
    }

    fn work_on(&mut self, op: ArrOp, v: &Value) -> (r: Result<Option<Work>, Stop>)
        requires
            old(self).wf(),
        ensures
            final(self).follows(*old(self)),
            work_run(r, *final(self)) == work_on(old(self).host(), old(self).pos as nat, op, v@),
            r matches Ok(Some(w)) ==> (!is_array_val(v@) ==> w.real is None),
    {
        match v {
            Value::Ref(Kind::Arr, _) => {
                let changes: bool = is_mutating_arr_op(op);
                if changes {
                    if self.ask_flag(Op::IsFrozen, list1(v.clone()))? {
                        return Ok(None);
                    }
                    self.filled_holes(v)?;
                }
                let w: Work = Work { real: Some(v.clone()), items: no_items(), holes: Vec::new() };
                assert(w@ =~= WorkV {
                    real: Some(v@),
                    items: Seq::empty(),
                    holes: Seq::empty(),
                });
                Ok(Some(w))
            },
            Value::Str(s) => {
                let w: Work = Work {
                    real: None,
                    items: unit_values(s.as_str()),
                    holes: Vec::new(),
                };
                assert(w@ =~= WorkV {
                    real: None,
                    items: unit_texts(s@),
                    holes: Seq::empty(),
                });
                Ok(Some(w))
            },
            _ => {
                let (items, holes): (Vec<Value>, Vec<u64>) = self.generic_array_read_sparse(v)?;
                Ok(Some(Work { real: None, items, holes }))
            },
        }
    }

    fn items_of(&mut self, w: &Work) -> (r: Result<Vec<Value>, Stop>)
        requires
            old(self).wf(),
        ensures
            final(self).follows(*old(self)),
            run_list(r, *final(self)) == items_of(
                old(self).host(),
                old(self).pos as nat,
                w@,
            ),
    {
        match &w.real {
            Some(a) => self.ask_list(Op::Elements, list1(a.clone())),
            None => Ok(clone_values(&w.items)),
        }
    }

    fn sparse_work(&mut self, w: &Work) -> (r: Result<bool, Stop>)
        requires
            old(self).wf(),
        ensures
            final(self).follows(*old(self)),
            run_plain(r, *final(self)) == sparse_work(
                old(self).host(),
                old(self).pos as nat,
                w@,
            ),
    {
        match &w.real {
            Some(a) => self.ask_flag(Op::HasHoles, list1(a.clone())),
            None => Ok(w.holes.len() > 0),
        }
    }

    fn work_elem(&mut self, w: &Work, o: &Value, snapshot: &Vec<Value>, i: usize, sparse: bool) -> (r: Result<Option<Value>, Stop>)
        requires
            old(self).wf(),
        ensures
            final(self).follows(*old(self)),
            run_slot(r, *final(self)) == work_elem(
                old(self).host(),
                old(self).pos as nat,
                w@,
                o@,
                views(snapshot@),
                i as nat,
                sparse,
            ),
    {
        match &w.real {
            Some(a) => self.arr_elem(a, snapshot, i as u64, sparse),
            None => {
                let key: String = decimal_text(i as u64);
                if contains_place(&w.holes, i as u64) {
                    if self.inherited(key.as_str())? {
                        let v: Value = self.member_get(o, key.as_str())?;
                        return Ok(Some(v));
                    }
                    return Ok(None);
                }
                if i < snapshot.len() {
                    assert(views(snapshot@)[i as int] == snapshot@[i as int]@);
                    if matches!(&snapshot[i], Value::Ref(Kind::Accessor, _)) {
                        let v: Value = self.member_get(o, key.as_str())?;
                        Ok(Some(v))
                    } else {
                        Ok(Some(snapshot[i].clone()))
                    }
                } else {
                    Ok(Some(Value::Undefined))
                }
            },
        }
    }

    fn commit(&mut self, w: &Work, items: &Vec<Value>) -> (r: Result<(), Stop>)
        requires
            old(self).wf(),
        ensures
            final(self).follows(*old(self)),
            run_plain(r, *final(self)) == commit(
                old(self).host(),
                old(self).pos as nat,
                w@,
                views(items@),
            ),
    {
        match &w.real {
            Some(a) => {
                let v: Value = self.ask_value(Op::StoreElements, with_front(a.clone(), items))?;
                Ok(())
            },
            None => Ok(()),
        }
    }

    fn changed(&mut self, w: &Work, result: Value, items: Vec<Value>) -> (r: Result<Left, Stop>)
        requires
            old(self).wf(),
        ensures
            final(self).follows(*old(self)),
            left_run(r, *final(self)) == changed(
                old(self).host(),
                old(self).pos as nat,
                w@,
                result@,
                views(items@),
            ),
    {
        self.commit(w, &items)?;
        Ok(Left { result, items })
    }

    #[verifier::loop_isolation(false)]
    fn join_texts(&mut self, items: &Vec<Value>) -> (r: Result<Vec<String>, Stop>)
        requires
            old(self).wf(),
        ensures
            final(self).follows(*old(self)),
            texts_run(r, *final(self)) == join_texts(
                old(self).host(),
                old(self).pos as nat,
                views(items@),
                0,
                Seq::empty(),
            ),
    {
        let ghost all = views(items@);
        let ghost goal = join_texts(self.host(), self.pos as nat, all, 0, Seq::empty());
        let mut out: Vec<String> = Vec::new();
        let mut i: usize = 0;
        assert(text_views(out@) =~= Seq::<Seq<char>>::empty());
        while i < items.len()
            invariant
                i <= items@.len(),
                self.follows(*old(self)),
                goal == join_texts(self.host(), self.pos as nat, all, i as int, text_views(out@)),
            decreases items@.len() - i,
        {
            assert(all[i as int] == items@[i as int]@);
            let ghost before = text_views(out@);
            let t: String = if is_nullish(&items[i]) {
                let e: String = String::new();
                assert(e@ =~= Seq::<char>::empty());
                e
            } else {
                self.ask_text(Op::ToText, list1(items[i].clone()))?
            };
            out.push(t);
            assert(text_views(out@) =~= before.push(t@));
            i = i + 1;
        }
        Ok(out)
    }

    fn arr_join(&mut self, w: &Work, args: &Vec<Value>) -> (r: Result<Value, Stop>)
        requires
            old(self).wf(),
        ensures
            final(self).follows(*old(self)),
            run_value(r, *final(self)) == arr_join(
                old(self).host(),
                old(self).pos as nat,
                w@,
                views(args@),
            ),
    {
        let a: Value = arg_at(args, 0);
        let sep: String = if matches!(a, Value::Undefined) {
            ",".to_owned()
        } else {
            self.ask_text(Op::ToText, list1(a))?
        };
        let items: Vec<Value> = self.items_of(w)?;
        let parts: Vec<String> = self.join_texts(&items)?;
        Ok(Value::Str(texts_joined(&parts, sep.as_str())))
    }

    fn arr_to_string(&mut self, o: &Value) -> (r: Result<Value, Stop>)
        requires
            old(self).wf(),
        ensures
            final(self).follows(*old(self)),
            run_value(r, *final(self)) == arr_to_string(
                old(self).host(),
                old(self).pos as nat,
                o@,
            ),
    {
        let f: Value = self.member_get(o, "join")?;
        if is_callable(&f) {
            return self.call_value(f, Some(o.clone()), no_items());
        }
        self.obj_to_string(&Some(o.clone()), &no_items())
    }

    #[verifier::loop_isolation(false)]
    fn snap_index_of(&mut self, w: &Work, o: &Value, needle: &Value, start: usize) -> (r: Result<Value, Stop>)
        requires
            old(self).wf(),
        ensures
            final(self).follows(*old(self)),
            run_value(r, *final(self)) == snap_index_of(
                old(self).host(),
                old(self).pos as nat,
                w@,
                o@,
                w@.items,
                needle@,
                start as nat,
            ),
    {
        let ghost goal = snap_index_of(
            self.host(),
            self.pos as nat,
            w@,
            o@,
            w@.items,
            needle@,
            start as nat,
        );
        let sparse: bool = w.holes.len() > 0;
        let mut i: usize = start;
        while i < w.items.len()
            invariant
                start <= i,
                self.follows(*old(self)),
                goal == snap_index_of(
                    self.host(),
                    self.pos as nat,
                    w@,
                    o@,
                    w@.items,
                    needle@,
                    i as nat,
                ),
            decreases w.items@.len() - i,
        {
            match self.work_elem(w, o, &w.items, i, sparse)? {
                Some(v) => {
                    if strict_eq(&v, needle) {
                        return Ok(Value::Num(count_as_num(i)));
                    }
                },
                None => {},
            }
            i = i + 1;
        }
        Ok(Value::Num(Num::from_i64(-1)))
    }

    #[verifier::loop_isolation(false)]
    fn snap_search(&mut self, op: ArrOp, w: &Work, o: &Value, args: &Vec<Value>) -> (r: Result<Value, Stop>)
        requires
            old(self).wf(),
        ensures
            final(self).follows(*old(self)),
            run_value(r, *final(self)) == snap_search(
                old(self).host(),
                old(self).pos as nat,
                op,
                w@,
                o@,
                views(args@),
            ),
    {
        let from: Offset = self.place_arg(args, 1, Offset::Forward(0))?;
        let start: usize = relative_place(from, w.items.len());
        let needle: Value = arg_at(args, 0);
        if op == ArrOp::IndexOf {
            return self.snap_index_of(w, o, &needle, start);
        }
        let ghost all = views(w.items@);
        let mut i: usize = start;
        while i < w.items.len()
            invariant
                start <= i <= all.len(),
                all == views(w.items@),
                forall|j: int| start <= j < i ==> !same_zero(#[trigger] all[j], needle@),
            decreases w.items@.len() - i,
        {
            assert(all[i as int] == w.items@[i as int]@);
            if same_value_zero(&w.items[i], &needle) {
                return Ok(Value::Bool(true));
            }
            i = i + 1;
        }
        Ok(Value::Bool(false))
    }

    #[verifier::loop_isolation(false)]
    fn slice_items(
        &mut self,
        w: &Work,
        o: &Value,
        snapshot: &Vec<Value>,
        sparse: bool,
        start: usize,
        end: usize,
    ) -> (r: Result<(Vec<Value>, Vec<u64>), Stop>)
        requires
            old(self).wf(),
        ensures
            final(self).follows(*old(self)),
            sparse_run(r, *final(self)) == slice_items(
                old(self).host(),
                old(self).pos as nat,
                w@,
                o@,
                views(snapshot@),
                sparse,
                start as nat,
                end as nat,
                Seq::empty(),
                Seq::empty(),
            ),
    {
        let ghost goal = slice_items(
            self.host(),
            self.pos as nat,
            w@,
            o@,
            views(snapshot@),
            sparse,
            start as nat,
            end as nat,
            Seq::empty(),
            Seq::empty(),
        );
        let mut out: Vec<Value> = no_items();
        let mut holes: Vec<u64> = Vec::new();
        assert(holes@ =~= Seq::<u64>::empty());
        let mut k: usize = start;
        while k < end
            invariant
                start <= k,
                self.follows(*old(self)),
                goal == slice_items(
                    self.host(),
                    self.pos as nat,
                    w@,
                    o@,
                    views(snapshot@),
                    sparse,
                    k as nat,
                    end as nat,
                    views(out@),
                    holes@,
                ),
            decreases end - k,
        {
            let ghost before = views(out@);
            match self.work_elem(w, o, snapshot, k, sparse)? {
                Some(v) => {
                    out.push(v);
                    assert(views(out@) =~= before.push(v@));
                },
                None => {
                    let n: usize = out.len();
                    holes.push(n as u64);
                    out.push(Value::Undefined);
                    assert(views(out@) =~= before.push(Val::Undefined));
                },
            }
            k = k + 1;
        }
        Ok((out, holes))
    }

    fn arr_slice(&mut self, w: &Work, o: &Value, args: &Vec<Value>) -> (r: Result<Value, Stop>)
        requires
            old(self).wf(),
        ensures
            final(self).follows(*old(self)),
            run_value(r, *final(self)) == arr_slice(
                old(self).host(),
                old(self).pos as nat,
                w@,
                o@,
                views(args@),
            ),
    {
        let first: Vec<Value> = self.items_of(w)?;
        let a: Offset = self.place_arg(args, 0, Offset::Forward(0))?;
        let n: usize = first.len();
        let b: Offset = self.place_arg(args, 1, Offset::Forward(n as u64))?;
        let sparse: bool = self.sparse_work(w)?;
        let items: Vec<Value> = self.items_of(w)?;
        let start: usize = relative_place(a, items.len());
        let end: usize = relative_place(b, items.len());
        let (out, holes): (Vec<Value>, Vec<u64>) = self.slice_items(
            w,
            o,
            &items,
            sparse,
            start,
            end,
        )?;
        self.collected(o, out, holes)
    }

    #[verifier::loop_isolation(false)]
    fn snap_walk(&mut self, op: ArrOp, w: &Work, o: &Value, args: &Vec<Value>) -> (r: Result<
        Walked,
        Stop,
    >)
        requires
            old(self).wf(),
            w.real is None,
        ensures
            final(self).follows(*old(self)),
            walked_run(r, *final(self)) == snap_walk(
                old(self).host(),
                old(self).pos as nat,
                op,
                w@,
                o@,
                views(args@),
                0,
                Seq::empty(),
                Seq::empty(),
            ),
    {
        let ghost goal = snap_walk(
            self.host(),
            self.pos as nat,
            op,
            w@,
            o@,
            views(args@),
            0,
            Seq::empty(),
            Seq::empty(),
        );
        let f: Value = arg_at(args, 0);
        let this: Option<Value> = opt_arg_at(args, 1);
        let sparse: bool = w.holes.len() > 0;
        let mut out: Vec<Value> = no_items();
        let mut holes: Vec<u64> = Vec::new();
        assert(holes@ =~= Seq::<u64>::empty());
        let n: usize = w.items.len();
        let mut i: usize = 0;
        while i < n
            invariant
                i <= n,
                n == w.items@.len(),
                self.follows(*old(self)),
                goal == snap_walk(
                    self.host(),
                    self.pos as nat,
                    op,
                    w@,
                    o@,
                    views(args@),
                    i as nat,
                    views(out@),
                    holes@,
                ),
            decreases n - i,
        {
            let found: Option<Value> = self.work_elem(w, o, &w.items, i, sparse)?;
            if found.is_none() && op == ArrOp::MapEach {
                let ghost before = views(out@);
                let k: usize = out.len();
                holes.push(k as u64);
                out.push(Value::Undefined);
                assert(views(out@) =~= before.push(Val::Undefined));
            } else if found.is_none() && op != ArrOp::Find && op != ArrOp::FindIndex {
            } else {
                let item: Value = match found {
                    Some(v) => v,
                    None => Value::Undefined,
                };
                let r: Value = self.call_value(
                    f.clone(),
                    crate::host::clone_opt(&this),
                    list3(item.clone(), Value::Num(count_as_num(i)), o.clone()),
                )?;
                match decided_at(op, &item, i, &r) {
                    Some(d) => {
                        return Ok(Walked::Decided(d));
                    },
                    None => {},
                }
                self.gather(op, item, r, &mut out)?;
            }
            i = i + 1;
        }
        Ok(Walked::All(out, holes))
    }

    #[verifier::loop_isolation(false)]
    fn snap_present(&mut self, w: &Work, o: &Value, backward: bool) -> (r: Result<Vec<Present>, Stop>)
        requires
            old(self).wf(),
        ensures
            final(self).follows(*old(self)),
            present_run(r, *final(self)) == snap_present(
                old(self).host(),
                old(self).pos as nat,
                w@,
                o@,
                backward,
                w@.items.len(),
                Seq::empty(),
            ),
    {
        let ghost goal = snap_present(
            self.host(),
            self.pos as nat,
            w@,
            o@,
            backward,
            w@.items.len(),
            Seq::empty(),
        );
        let sparse: bool = w.holes.len() > 0;
        let len: usize = w.items.len();
        let mut out: Vec<Present> = Vec::new();
        assert(present_views(out@) =~= Seq::<PresentV>::empty());
        let mut n: usize = len;
        while n > 0
            invariant
                n <= len,
                len == w.items@.len(),
                self.follows(*old(self)),
                goal == snap_present(
                    self.host(),
                    self.pos as nat,
                    w@,
                    o@,
                    backward,
                    n as nat,
                    present_views(out@),
                ),
            decreases n,
        {
            let i: usize = if backward {
                n - 1
            } else {
                len - n
            };
            match self.work_elem(w, o, &w.items, i, sparse)? {
                Some(v) => {
                    let ghost before = present_views(out@);
                    out.push(Present { index: i, value: v });
                    assert(present_views(out@) =~= before.push(
                        PresentV { index: i as nat, value: v@ },
                    ));
                },
                None => {},
            }
            n = n - 1;
        }
        Ok(out)
    }

    #[verifier::loop_isolation(false)]
    fn snap_fold(&mut self, f: &Value, o: &Value, list: &Vec<Present>, start: usize, acc: Value) -> (r: Result<Value, Stop>)
        requires
            old(self).wf(),
        ensures
            final(self).follows(*old(self)),
            run_value(r, *final(self)) == snap_fold(
                old(self).host(),
                old(self).pos as nat,
                f@,
                o@,
                present_views(list@),
                start as int,
                acc@,
            ),
    {
        let ghost all = present_views(list@);
        let ghost goal = snap_fold(self.host(), self.pos as nat, f@, o@, all, start as int, acc@);
        let mut acc: Value = acc;
        let mut j: usize = start;
        while j < list.len()
            invariant
                start <= j,
                self.follows(*old(self)),
                goal == snap_fold(self.host(), self.pos as nat, f@, o@, all, j as int, acc@),
            decreases list@.len() - j,
        {
            assert(all[j as int] == PresentV {
                index: list@[j as int].index as nat,
                value: list@[j as int].value@,
            });
            let ghost given = seq![acc@] + visit_args(all[j as int].value, all[j as int].index, o@);
            assert(given =~= seq![
                acc@,
                list@[j as int].value@,
                Val::Num(count_num(list@[j as int].index as nat)),
                o@,
            ]);
            acc = self.call_value(
                f.clone(),
                None,
                list4(
                    acc,
                    list[j].value.clone(),
                    Value::Num(count_as_num(list[j].index)),
                    o.clone(),
                ),
            )?;
            j = j + 1;
        }
        Ok(acc)
    }

    fn snap_reduce(&mut self, w: &Work, o: &Value, args: &Vec<Value>, backward: bool) -> (r: Result<Value, Stop>)
        requires
            old(self).wf(),
        ensures
            final(self).follows(*old(self)),
            run_value(r, *final(self)) == snap_reduce(
                old(self).host(),
                old(self).pos as nat,
                w@,
                o@,
                views(args@),
                backward,
            ),
    {
        let list: Vec<Present> = self.snap_present(w, o, backward)?;
        let f: Value = arg_at(args, 0);
        if args.len() > 1 {
            return self.snap_fold(&f, o, &list, 0, args[1].clone());
        }
        if list.len() == 0 {
            return Err(
                fail(ErrorKind::TypeError, "Reduce of empty array with no initial value"),
            );
        }
        let acc: Value = list[0].value.clone();
        self.snap_fold(&f, o, &list, 1, acc)
    }

    #[verifier::loop_isolation(false)]
    fn snap_find_last(&mut self, w: &Work, o: &Value, args: &Vec<Value>, want_index: bool) -> (r: Result<Value, Stop>)
        requires
            old(self).wf(),
        ensures
            final(self).follows(*old(self)),
            run_value(r, *final(self)) == snap_find_last(
                old(self).host(),
                old(self).pos as nat,
                w@,
                o@,
                views(args@),
                want_index,
                w@.items.len(),
            ),
    {
        let ghost goal = snap_find_last(
            self.host(),
            self.pos as nat,
            w@,
            o@,
            views(args@),
            want_index,
            w@.items.len(),
        );
        let f: Value = arg_at(args, 0);
        let this: Option<Value> = opt_arg_at(args, 1);
        let mut n: usize = w.items.len();
        while n > 0
            invariant
                n <= w.items@.len(),
                self.follows(*old(self)),
                goal == snap_find_last(
                    self.host(),
                    self.pos as nat,
                    w@,
                    o@,
                    views(args@),
                    want_index,
                    n as nat,
                ),
            decreases n,
        {
            let i: usize = n - 1;
            assert(w@.items[i as int] == w.items@[i as int]@);
            let r: Value = self.call_value(
                f.clone(),
                crate::host::clone_opt(&this),
                list3(w.items[i].clone(), Value::Num(count_as_num(i)), o.clone()),
            )?;
            if to_bool(&r) {
                return Ok(
                    if want_index {
                        Value::Num(count_as_num(i))
                    } else {
                        w.items[i].clone()
                    },
                );
            }
            n = i;
        }
        Ok(
            if want_index {
                Value::Num(Num::from_i64(-1))
            } else {
                Value::Undefined
            },
        )
    }

    fn snap_iter(&mut self, op: ArrOp, w: &Work, o: &Value, args: &Vec<Value>) -> (r: Result<Value, Stop>)
        requires
            old(self).wf(),
            w.real is None,
        ensures
            final(self).follows(*old(self)),
            run_value(r, *final(self)) == snap_iter(
                old(self).host(),
                old(self).pos as nat,
                op,
                w@,
                o@,
                views(args@),
            ),
    {
        let last: bool = op == ArrOp::FindLast || op == ArrOp::FindLastIndex;
        if !is_callable(&arg_at(args, 0)) {
            let message: &str = if last {
                "predicate is not a function"
            } else {
                "callback is not a function"
            };
            return Err(fail(ErrorKind::TypeError, message));
        }
        if last {
            return self.snap_find_last(w, o, args, op == ArrOp::FindLastIndex);
        }
        if op == ArrOp::Reduce || op == ArrOp::ReduceRight {
            return self.snap_reduce(w, o, args, op == ArrOp::ReduceRight);
        }
        match self.snap_walk(op, w, o, args)? {
            Walked::Decided(d) => Ok(d),
            Walked::All(out, holes) => {
                if op == ArrOp::MapEach || op == ArrOp::Filter || op == ArrOp::FlatMap {
                    self.collected(o, out, holes)
                } else {
                    Ok(undecided_exec(op))
                }
            },
        }
    }

    #[verifier::loop_isolation(false)]
    fn new_array(&mut self, items: &Vec<Value>, holes: &Vec<u64>) -> (r: Result<Value, Stop>)
        requires
            old(self).wf(),
        ensures
            final(self).follows(*old(self)),
            run_value(r, *final(self)) == new_array(
                old(self).host(),
                old(self).pos as nat,
                views(items@),
                holes@,
            ),
    {
        if holes.len() == 0 {
            return self.ask_value(Op::NewArray, clone_values(items));
        }
        let n: usize = items.len();
        let mut all: Vec<Value> = with_front(Value::Num(count_as_num(n)), items);
        let ghost front = views(all@);
        let mut i: usize = 0;
        assert(views(all@) =~= front + hole_nums(holes@).take(0));
        while i < holes.len()
            invariant
                i <= holes@.len(),
                views(all@) == front + hole_nums(holes@).take(i as int),
            decreases holes@.len() - i,
        {
            let ghost before = views(all@);
            let v: Value = Value::Num(index_number(holes[i]));
            all.push(v);
            assert(views(all@) =~= before.push(hole_nums(holes@)[i as int]));
            i = i + 1;
            assert(views(all@) =~= front + hole_nums(holes@).take(i as int));
        }
        assert(hole_nums(holes@).take(i as int) =~= hole_nums(holes@));
        self.ask_value(Op::NewSparseArray, all)
    }

    fn concat_length(&mut self, item: &Value) -> (r: Result<u64, Stop>)
        requires
            old(self).wf(),
        ensures
            final(self).follows(*old(self)),
            crate::array_live::length_run(r, *final(self)) == concat_length(
                old(self).host(),
                old(self).pos as nat,
                item@,
            ),
    {
        match item {
            Value::Ref(Kind::Arr, _) => {
                let l: Vec<Value> = self.ask_list(Op::Elements, list1(item.clone()))?;
                let n: usize = l.len();
                Ok(n as u64)
            },
            _ => self.generic_length(item),
        }
    }

    #[verifier::loop_isolation(false)]
    fn concat_items(&mut self, item: &Value, n: u64, out: &mut Vec<Value>, holes: &mut Vec<u64>) -> (r:
        Result<(), Stop>)
        requires
            old(self).wf(),
        ensures
            final(self).follows(*old(self)),
            ({
                let s = concat_items(
                    old(self).host(),
                    old(self).pos as nat,
                    item@,
                    0,
                    n as nat,
                    Sparse { items: views(old(out)@), holes: old(holes)@ },
                );
                &&& s.pos == final(self).pos
                &&& match r {
                    Ok(_) => s.out == Ok::<Sparse, Halt>(
                        Sparse { items: views(final(out)@), holes: final(holes)@ },
                    ),
                    Err(e) => s.out == Err::<Sparse, Halt>(e@),
                }
            }),
    {
        let ghost goal = concat_items(
            self.host(),
            self.pos as nat,
            item@,
            0,
            n as nat,
            Sparse { items: views(out@), holes: holes@ },
        );
        let mut k: u64 = 0;
        while k < n
            invariant
                k <= n,
                self.follows(*old(self)),
                goal == concat_items(
                    self.host(),
                    self.pos as nat,
                    item@,
                    k as nat,
                    n as nat,
                    Sparse { items: views(out@), holes: holes@ },
                ),
            decreases n - k,
        {
            let ghost before = views(out@);
            match self.live_slot(item, decimal_text(k).as_str())? {
                Some(v) => {
                    out.push(v);
                    assert(views(out@) =~= before.push(v@));
                },
                None => {
                    let m: usize = out.len();
                    holes.push(m as u64);
                    out.push(Value::Undefined);
                    assert(views(out@) =~= before.push(Val::Undefined));
                },
            }
            k = k + 1;
        }
        Ok(())
    }

    fn concat_one(&mut self, item: &Value, out: &mut Vec<Value>, holes: &mut Vec<u64>) -> (r: Result<
        (),
        Stop,
    >)
        requires
            old(self).wf(),
        ensures
            final(self).follows(*old(self)),
            ({
                let s = concat_one(
                    old(self).host(),
                    old(self).pos as nat,
                    item@,
                    Sparse { items: views(old(out)@), holes: old(holes)@ },
                );
                &&& s.pos == final(self).pos
                &&& match r {
                    Ok(_) => s.out == Ok::<Sparse, Halt>(
                        Sparse { items: views(final(out)@), holes: final(holes)@ },
                    ),
                    Err(e) => s.out == Err::<Sparse, Halt>(e@),
                }
            }),
    {
        if !self.ask_flag(Op::ConcatSpreadable, list1(item.clone()))? {
            let ghost before = views(out@);
            out.push(item.clone());
            assert(views(out@) =~= before.push(item@));
            return Ok(());
        }
        let n: u64 = self.concat_length(item)?;
        let have: usize = out.len();
        if have as u128 + n as u128 > MAX_SAFE as u128 {
            return Err(
                fail(ErrorKind::TypeError, "Array length exceeds the maximum safe integer"),
            );
        }
        self.concat_items(item, n, out, holes)
    }

    #[verifier::loop_isolation(false)]
    fn concat_all(&mut self, all: &Vec<Value>) -> (r: Result<(Vec<Value>, Vec<u64>), Stop>)
        requires
            old(self).wf(),
        ensures
            final(self).follows(*old(self)),
            sparse_run(r, *final(self)) == concat_all(
                old(self).host(),
                old(self).pos as nat,
                views(all@),
                0,
                Sparse { items: Seq::empty(), holes: Seq::empty() },
            ),
    {
        let ghost list = views(all@);
        let ghost goal = concat_all(
            self.host(),
            self.pos as nat,
            list,
            0,
            Sparse { items: Seq::empty(), holes: Seq::empty() },
        );
        let mut out: Vec<Value> = no_items();
        let mut holes: Vec<u64> = Vec::new();
        assert(holes@ =~= Seq::<u64>::empty());
        let mut i: usize = 0;
        while i < all.len()
            invariant
                i <= all@.len(),
                self.follows(*old(self)),
                goal == concat_all(
                    self.host(),
                    self.pos as nat,
                    list,
                    i as int,
                    Sparse { items: views(out@), holes: holes@ },
                ),
            decreases all@.len() - i,
        {
            assert(list[i as int] == all@[i as int]@);
            self.concat_one(&all[i], &mut out, &mut holes)?;
            i = i + 1;
        }
        Ok((out, holes))
    }

    #[verifier::loop_isolation(false)]
    pub fn define_present(&mut self, target: &Value, items: &Vec<Value>, holes: &Vec<u64>) -> (r: Result<(), Stop>)
        requires
            old(self).wf(),
        ensures
            final(self).follows(*old(self)),
            run_plain(r, *final(self)) == define_present(
                old(self).host(),
                old(self).pos as nat,
                target@,
                views(items@),
                holes@,
                0,
            ),
    {
        let ghost all = views(items@);
        let ghost goal = define_present(self.host(), self.pos as nat, target@, all, holes@, 0);
        let mut j: usize = 0;
        while j < items.len()
            invariant
                j <= items@.len(),
                self.follows(*old(self)),
                goal == define_present(self.host(), self.pos as nat, target@, all, holes@, j as int),
            decreases items@.len() - j,
        {
            assert(all[j as int] == items@[j as int]@);
            if !contains_place(holes, j as u64) {
                self.define_data(
                    target,
                    decimal_text(j as u64).as_str(),
                    items[j].clone(),
                )?;
            }
            j = j + 1;
        }
        Ok(())
    }

    fn gathered_in(&mut self, o: &Value, items: &Vec<Value>, holes: &Vec<u64>) -> (r: Result<Value, Stop>)
        requires
            old(self).wf(),
        ensures
            final(self).follows(*old(self)),
            run_value(r, *final(self)) == gathered_in(
                old(self).host(),
                old(self).pos as nat,
                o@,
                Sparse { items: views(items@), holes: holes@ },
            ),
    {
        match self.array_species_ctor(o)? {
            Some(ctor) => {
                let a: Value = self.construct(ctor, list1(Value::Num(Num::from_u64(0))))?;
                self.define_present(&a, items, holes)?;
                Ok(a)
            },
            None => self.new_array(items, holes),
        }
    }

    fn arr_concat(&mut self, w: &Work, o: &Value, args: &Vec<Value>) -> (r: Result<Value, Stop>)
        requires
            old(self).wf(),
        ensures
            final(self).follows(*old(self)),
            run_value(r, *final(self)) == arr_concat(
                old(self).host(),
                old(self).pos as nat,
                w@,
                o@,
                views(args@),
            ),
    {
        let first: Value = match &w.real {
            Some(a) => a.clone(),
            None => self.new_array(&w.items, &w.holes)?,
        };
        let all: Vec<Value> = with_front(first, args);
        let (items, holes): (Vec<Value>, Vec<u64>) = self.concat_all(&all)?;
        self.gathered_in(o, &items, &holes)
    }

    #[verifier::loop_isolation(false)]
    fn flat_items(&mut self, items: &Vec<Value>, depth: u32, out: &mut Vec<Value>) -> (r: Result<(), Stop>)
        requires
            old(self).wf(),
        ensures
            final(self).follows(*old(self)),
            ({
                let s = flat_items(
                    old(self).host(),
                    old(self).pos as nat,
                    views(items@),
                    0,
                    depth as nat,
                    views(old(out)@),
                );
                &&& s.pos == final(self).pos
                &&& match r {
                    Ok(_) => s.out == Ok::<Seq<Val>, Halt>(views(final(out)@)),
                    Err(e) => s.out == Err::<Seq<Val>, Halt>(e@),
                }
            }),
        decreases room(old(self).host(), old(self).pos as nat), depth,
    {
        let ghost all = views(items@);
        let ghost h = self.host();
        let ghost start = self.pos as nat;
        let ghost goal = flat_items(h, self.pos as nat, all, 0, depth as nat, views(out@));
        let mut i: usize = 0;
        while i < items.len()
            invariant
                i <= items@.len(),
                all == views(items@),
                h == self.host(),
                h == old(self).host(),
                start == old(self).pos as nat,
                start <= self.pos,
                self.follows(*old(self)),
                goal == flat_items(
                    h,
                    self.pos as nat,
                    all,
                    i as int,
                    depth as nat,
                    views(out@),
                ),
            decreases items@.len() - i,
        {
            assert(all[i as int] == items@[i as int]@);
            let nested: bool = matches!(&items[i], Value::Ref(Kind::Arr, _));
            if depth == 0 || !nested {
                let ghost before = views(out@);
                out.push(items[i].clone());
                assert(views(out@) =~= before.push(items@[i as int]@));
            } else {
                let ghost before = self.pos as nat;
                let inner: Vec<Value> = self.ask_list(Op::Elements, list1(items[i].clone()))?;
                assert(room(h, self.pos as nat) < room(h, before));
                assert(room(h, self.pos as nat) < room(h, start));
                self.flat_items(&inner, depth - 1, out)?;
            }
            i = i + 1;
        }
        Ok(())
    }

    fn arr_flat(&mut self, w: &Work, o: &Value, args: &Vec<Value>) -> (r: Result<Value, Stop>)
        requires
            old(self).wf(),
        ensures
            final(self).follows(*old(self)),
            run_value(r, *final(self)) == arr_flat(
                old(self).host(),
                old(self).pos as nat,
                w@,
                o@,
                views(args@),
            ),
    {
        let a: Value = arg_at(args, 0);
        let depth: u32 = if matches!(a, Value::Undefined) {
            1
        } else {
            let n: Num = self.ask_number(Op::ToInteger, list1(a))?;
            depth_of(n)
        };
        let items: Vec<Value> = self.items_of(w)?;
        let mut out: Vec<Value> = no_items();
        self.flat_items(&items, depth, &mut out)?;
        let none: Vec<u64> = Vec::new();
        assert(none@ =~= Seq::<u64>::empty());
        self.gathered_in(o, &out, &none)
    }

    fn splice_count(&mut self, args: &Vec<Value>, left: usize) -> (r: Result<usize, Stop>)
        requires
            old(self).wf(),
        ensures
            final(self).follows(*old(self)),
            count_run(r, *final(self)) == splice_count(
                old(self).host(),
                old(self).pos as nat,
                views(args@),
                left as nat,
            ),
    {
        if args.len() == 0 {
            return Ok(0);
        }
        if args.len() == 1 {
            return Ok(left);
        }
        let n: Num = self.ask_number(Op::ToInteger, list1(args[1].clone()))?;
        Ok(clamped_place(to_offset(n), left))
    }

    fn splice_refused(&mut self, w: &Work, del: usize, args: &Vec<Value>) -> (r: Result<bool, Stop>)
        requires
            old(self).wf(),
        ensures
            final(self).follows(*old(self)),
            run_plain(r, *final(self)) == splice_refused(
                old(self).host(),
                old(self).pos as nat,
                w@,
                del as nat,
                views(args@),
            ),
    {
        match &w.real {
            Some(a) => {
                let put: usize = inserted_of(args).len();
                if del == put {
                    return Ok(false);
                }
                let b: bool = self.ask_flag(Op::LengthWritable, list1(a.clone()))?;
                Ok(!b)
            },
            None => Ok(false),
        }
    }

    fn splice_end(&mut self, w: &Work, o: &Value, args: &Vec<Value>, start: usize, del: usize) -> (r: Result<Left, Stop>)
        requires
            old(self).wf(),
        ensures
            final(self).follows(*old(self)),
            left_run(r, *final(self)) == splice_end(
                old(self).host(),
                old(self).pos as nat,
                w@,
                o@,
                views(args@),
                start as nat,
                del as nat,
            ),
    {
        let items: Vec<Value> = self.items_of(w)?;
        let n: usize = items.len();
        let a: usize = if start <= n {
            start
        } else {
            n
        };
        let d: usize = if del <= n - a {
            del
        } else {
            n - a
        };
        let left: Vec<Value> = splice_items(&items, a, d, &inserted_of(args));
        self.commit(w, &left)?;
        let none: Vec<u64> = Vec::new();
        assert(none@ =~= Seq::<u64>::empty());
        let r: Value = self.collected(o, part_of(&items, a, a + d), none)?;
        Ok(Left { result: r, items: left })
    }

    fn arr_splice(&mut self, w: &Work, o: &Value, args: &Vec<Value>) -> (r: Result<Left, Stop>)
        requires
            old(self).wf(),
        ensures
            final(self).follows(*old(self)),
            left_run(r, *final(self)) == arr_splice(
                old(self).host(),
                old(self).pos as nat,
                w@,
                o@,
                views(args@),
            ),
    {
        let first: Vec<Value> = self.items_of(w)?;
        let len: usize = first.len();
        let start: usize = if args.len() == 0 {
            0
        } else {
            let n: Num = self.ask_number(Op::ToInteger, list1(args[0].clone()))?;
            relative_place(to_offset(n), len)
        };
        let del: usize = self.splice_count(args, len - start)?;
        if self.splice_refused(w, del, args)? {
            return Err(fail(ErrorKind::TypeError, "Cannot redefine property"));
        }
        self.splice_end(w, o, args, start, del)
    }

    fn arr_fill(&mut self, w: &Work, o: &Value, args: &Vec<Value>) -> (r: Result<Left, Stop>)
        requires
            old(self).wf(),
        ensures
            final(self).follows(*old(self)),
            left_run(r, *final(self)) == arr_fill(
                old(self).host(),
                old(self).pos as nat,
                w@,
                o@,
                views(args@),
            ),
    {
        let first: Vec<Value> = self.items_of(w)?;
        let n: usize = first.len();
        let a: Offset = self.place_arg(args, 1, Offset::Forward(0))?;
        let b: Offset = self.place_arg(args, 2, Offset::Forward(n as u64))?;
        let items: Vec<Value> = self.items_of(w)?;
        let start: usize = relative_place(a, items.len());
        let end: usize = relative_place(b, items.len());
        let filled: Vec<Value> = fill_items(&items, &arg_at(args, 0), start, end);
        self.changed(w, o.clone(), filled)
    }

    fn plain_place(&mut self, args: &Vec<Value>, i: usize) -> (r: Result<Offset, Stop>)
        requires
            old(self).wf(),
        ensures
            final(self).follows(*old(self)),
            run_plain(r, *final(self)) == plain_place(
                old(self).host(),
                old(self).pos as nat,
                views(args@),
                i as int,
            ),
    {
        if i < args.len() {
            let n: Num = self.ask_number(Op::PlainNumber, list1(args[i].clone()))?;
            Ok(to_offset(n))
        } else {
            Ok(Offset::Forward(0))
        }
    }

    fn arr_to_spliced(&mut self, w: &Work, args: &Vec<Value>) -> (r: Result<Value, Stop>)
        requires
            old(self).wf(),
        ensures
            final(self).follows(*old(self)),
            run_value(r, *final(self)) == arr_to_spliced(
                old(self).host(),
                old(self).pos as nat,
                w@,
                views(args@),
            ),
    {
        let items: Vec<Value> = self.items_of(w)?;
        let a: Offset = self.plain_place(args, 0)?;
        let n: usize = items.len();
        let start: usize = relative_place(a, n);
        let left: usize = n - start;
        let skip: usize = if args.len() == 0 {
            0
        } else if args.len() == 1 {
            left
        } else {
            let b: Offset = self.plain_place(args, 1)?;
            clamped_place(b, left)
        };
        self.ask_value(Op::NewArray, splice_items(&items, start, skip, &inserted_of(args)))
    }

    fn arr_at(&mut self, w: &Work, args: &Vec<Value>) -> (r: Result<Value, Stop>)
        requires
            old(self).wf(),
        ensures
            final(self).follows(*old(self)),
            run_value(r, *final(self)) == arr_at(
                old(self).host(),
                old(self).pos as nat,
                w@,
                views(args@),
            ),
    {
        let n: Num = self.ask_number(Op::ToInteger, list1(arg_at(args, 0)))?;
        let items: Vec<Value> = self.items_of(w)?;
        match index_from_place(to_offset(n), items.len()) {
            Some(i) => Ok(items[i].clone()),
            None => Ok(Value::Undefined),
        }
    }

    fn arr_with(&mut self, w: &Work, args: &Vec<Value>) -> (r: Result<Value, Stop>)
        requires
            old(self).wf(),
        ensures
            final(self).follows(*old(self)),
            run_value(r, *final(self)) == arr_with(
                old(self).host(),
                old(self).pos as nat,
                w@,
                views(args@),
            ),
    {
        let n: Num = self.ask_number(Op::ToInteger, list1(arg_at(args, 0)))?;
        let mut items: Vec<Value> = self.items_of(w)?;
        match index_from_place(to_offset(n), items.len()) {
            Some(i) => {
                let ghost before = views(items@);
                let v: Value = arg_at(args, 1);
                items.set(i, v);
                assert(views(items@) =~= before.update(i as int, v@));
                self.ask_value(Op::NewArray, items)
            },
            None => Err(fail(ErrorKind::RangeError, "Invalid index")),
        }
    }

    fn arr_sort(&mut self, w: &Work, args: &Vec<Value>) -> (r: Result<Left, Stop>)
        requires
            old(self).wf(),
        ensures
            final(self).follows(*old(self)),
            left_run(r, *final(self)) == arr_sort(
                old(self).host(),
                old(self).pos as nat,
                w@,
                views(args@),
            ),
    {
        let c: Value = arg_at(args, 0);
        if !matches!(c, Value::Undefined) && !is_callable(&c) {
            return Err(
                fail(
                    ErrorKind::TypeError,
                    "The comparison function must be either a function or undefined",
                ),
            );
        }
        let items: Vec<Value> = self.items_of(w)?;
        let order: Order = order_of(&c, true);
        let sorted: Vec<Value> = self.insertion_sort(&order, items)?;
        self.commit(w, &sorted)?;
        match &w.real {
            Some(a) => Ok(Left { result: a.clone(), items: sorted }),
            None => {
                let a: Value = self.ask_value(Op::NewArray, clone_values(&sorted))?;
                Ok(Left { result: a, items: sorted })
            },
        }
    }

    #[verifier::loop_isolation(false)]
    fn entry_pairs(&mut self, items: &Vec<Value>) -> (r: Result<Vec<Value>, Stop>)
        requires
            old(self).wf(),
        ensures
            final(self).follows(*old(self)),
            run_list(r, *final(self)) == entry_pairs(
                old(self).host(),
                old(self).pos as nat,
                views(items@),
                0,
                Seq::empty(),
            ),
    {
        let ghost all = views(items@);
        let ghost goal = entry_pairs(self.host(), self.pos as nat, all, 0, Seq::empty());
        let mut out: Vec<Value> = no_items();
        let mut i: usize = 0;
        while i < items.len()
            invariant
                i <= items@.len(),
                self.follows(*old(self)),
                goal == entry_pairs(self.host(), self.pos as nat, all, i as int, views(out@)),
            decreases items@.len() - i,
        {
            assert(all[i as int] == items@[i as int]@);
            let ghost before = views(out@);
            let v: Value = self.ask_value(
                Op::NewArray,
                list2(Value::Num(count_as_num(i)), items[i].clone()),
            )?;
            out.push(v);
            assert(views(out@) =~= before.push(v@));
            i = i + 1;
        }
        Ok(out)
    }

    fn arr_change(&mut self, op: ArrOp, w: &Work, o: &Value, args: &Vec<Value>) -> (r: Result<Left, Stop>)
        requires
            old(self).wf(),
            mutating(op),
        ensures
            final(self).follows(*old(self)),
            left_run(r, *final(self)) == arr_change(
                old(self).host(),
                old(self).pos as nat,
                op,
                w@,
                o@,
                views(args@),
            ),
    {
        match op {
            ArrOp::Splice => {
                return self.arr_splice(w, o, args);
            },
            ArrOp::Fill => {
                return self.arr_fill(w, o, args);
            },
            ArrOp::Sort => {
                return self.arr_sort(w, args);
            },
            _ => {},
        }
        let items: Vec<Value> = self.items_of(w)?;
        let n: usize = items.len();
        match op {
            ArrOp::Pop => {
                if n == 0 {
                    return self.changed(w, Value::Undefined, items);
                }
                let last: Value = items[n - 1].clone();
                let left: Vec<Value> = part_of(&items, 0, n - 1);
                assert(views(left@) =~= views(items@).drop_last());
                self.changed(w, last, left)
            },
            ArrOp::Shift => {
                if n == 0 {
                    return self.changed(w, Value::Undefined, items);
                }
                let first: Value = items[0].clone();
                let left: Vec<Value> = part_of(&items, 1, n);
                assert(views(left@) =~= views(items@).skip(1));
                self.changed(w, first, left)
            },
            ArrOp::Unshift => {
                let all: Vec<Value> = join_lists(args, &items);
                assert(views(all@).len() == views(args@).len() + views(items@).len());
                let count: usize = all.len();
                self.changed(w, Value::Num(count_as_num(count)), all)
            },
            _ => {
                let back: Vec<Value> = reversed_items(&items);
                self.changed(w, o.clone(), back)
            },
        }
    }

    fn arr_read(&mut self, op: ArrOp, w: &Work, o: &Value, args: &Vec<Value>) -> (r: Result<Value, Stop>)
        requires
            old(self).wf(),
            iterates(op) || op == ArrOp::IndexOf || op == ArrOp::Includes ==> w.real is None,
        ensures
            final(self).follows(*old(self)),
            run_value(r, *final(self)) == arr_read(
                old(self).host(),
                old(self).pos as nat,
                op,
                w@,
                o@,
                views(args@),
            ),
    {
        match op {
            ArrOp::ArrToString => self.arr_to_string(o),
            ArrOp::Join => self.arr_join(w, args),
            ArrOp::IndexOf | ArrOp::Includes => self.snap_search(op, w, o, args),
            ArrOp::Slice => self.arr_slice(w, o, args),
            ArrOp::Concat => self.arr_concat(w, o, args),
            ArrOp::Flat => self.arr_flat(w, o, args),
            ArrOp::At => self.arr_at(w, args),
            ArrOp::With => self.arr_with(w, args),
            ArrOp::ToSpliced => self.arr_to_spliced(w, args),
            ArrOp::Keys => {
                let items: Vec<Value> = self.items_of(w)?;
                self.ask_value(Op::NewIterator, place_values(items.len()))
            },
            ArrOp::Values => {
                let items: Vec<Value> = self.items_of(w)?;
                self.ask_value(Op::NewIterator, items)
            },
            ArrOp::Entries => {
                let items: Vec<Value> = self.items_of(w)?;
                let l: Vec<Value> = self.entry_pairs(&items)?;
                self.ask_value(Op::NewIterator, l)
            },
            ArrOp::MapEach
            | ArrOp::Filter
            | ArrOp::FlatMap
            | ArrOp::Reduce
            | ArrOp::ReduceRight
            | ArrOp::SomeOf
            | ArrOp::Every
            | ArrOp::Find
            | ArrOp::FindIndex
            | ArrOp::FindLast
            | ArrOp::FindLastIndex
            | ArrOp::ForEach => self.snap_iter(op, w, o, args),
            _ => Ok(Value::Undefined),
        }
    }

    fn arr_work(&mut self, op: ArrOp, v: &Value, args: &Vec<Value>) -> (r: Result<Value, Stop>)
        requires
            old(self).wf(),
            iterates(op) || op == ArrOp::IndexOf || op == ArrOp::Includes ==> !is_array_val(v@),
        ensures
            final(self).follows(*old(self)),
            run_value(r, *final(self)) == arr_work(
                old(self).host(),
                old(self).pos as nat,
                op,
                v@,
                views(args@),
            ),
    {
        let w: Work = match self.work_on(op, v)? {
            None => {
                return Ok(v.clone());
            },
            Some(w) => w,
        };
        let o: Value = self.to_object_value(v.clone())?;
        if !is_mutating_arr_op(op) {
            return self.arr_read(op, &w, &o, args);
        }
        let l: Left = self.arr_change(op, &w, &o, args)?;
        if matches!(v, Value::Ref(Kind::Obj, _)) {
            let u: Value = self.ask_value(Op::WriteBack, with_front(v.clone(), &l.items))?;
        }
        Ok(l.result)
    }

    /// A method of `Array.prototype`.
    pub fn arr_op(&mut self, op: ArrOp, recv: &Option<Value>, args: &Vec<Value>) -> (r: Result<Value, Stop>)
        requires
            old(self).wf(),
        ensures
            final(self).follows(*old(self)),
            run_value(r, *final(self)) == arr_op_run(
                old(self).host(),
                old(self).pos as nat,
                op,
                opt_view(*recv),
                views(args@),
            ),
    {
        let v: Value = this_or_undefined(recv);
        if is_nullish(&v) {
            return Err(
                fail(ErrorKind::TypeError, "Array.prototype method called on null or undefined"),
            );
        }
        let live: bool = is_read_live(&v);
        if live && op == ArrOp::IndexOf {
            return self.array_index_search_live(false, &v, args);
        }
        if live && op == ArrOp::Includes {
            return self.array_includes_live(&v, args);
        }
        if op == ArrOp::Reverse && matches!(v, Value::Ref(Kind::Obj, _)) {
            let n: u64 = self.generic_length(&v)?;
            if n <= MAX_ARRAY_LEN {
                return self.reverse_from(&v, n);
            }
            return self.arr_work(op, &v, args);
        }
        if op == ArrOp::Sort {
            if !self.sorts_live(&v)? {
                return self.arr_work(op, &v, args);
            }
            let c: Value = arg_at(args, 0);
            if !matches!(c, Value::Undefined) && !is_callable(&c) {
                return Err(
                    fail(
                        ErrorKind::TypeError,
                        "The comparison function must be either a function or undefined",
                    ),
                );
            }
            return self.array_sort_generic(&v, &c);
        }
        match op {
            ArrOp::MapEach
            | ArrOp::Filter
            | ArrOp::FlatMap
            | ArrOp::Reduce
            | ArrOp::ReduceRight
            | ArrOp::SomeOf
            | ArrOp::Every
            | ArrOp::Find
            | ArrOp::FindIndex
            | ArrOp::FindLast
            | ArrOp::FindLastIndex
            | ArrOp::ForEach => {
                if live {
                    return self.array_iter_live(op, &v, args);
                }
            },
            _ => {},
        }
        self.arr_work(op, &v, args)
    }

    /// `push`.
    pub fn array_push(&mut self, recv: &Option<Value>, args: &Vec<Value>) -> (r: Result<Value, Stop>)
        requires
            old(self).wf(),
        ensures
            final(self).follows(*old(self)),
            run_value(r, *final(self)) == array_push_run(
                old(self).host(),
                old(self).pos as nat,
                opt_view(*recv),
                views(args@),
            ),
    {
        let v: Value = this_or_undefined(recv);
        match &v {
            Value::Ref(Kind::Arr, _) => {
                let closed: bool = self.ask_flag(Op::NonExtensible, list1(v.clone()))?;
                let items: Vec<Value> = self.ask_list(Op::Elements, list1(v.clone()))?;
                if closed {
                    return Ok(Value::Num(count_as_num(items.len())));
                }
                let n: u128 = items.len() as u128 + args.len() as u128;
                let u: Value = self.ask_value(Op::AppendElements, with_front(v.clone(), args))?;
                Ok(Value::Num(crate::replace::units_as_num(n)))
            },
            Value::Ref(Kind::Obj, _) => {
                if !self.ask_flag(Op::IsArrayLike, list1(v.clone()))? {
                    return Err(fail(ErrorKind::Error, "push 는 배열 메서드"));
                }
                let items: Vec<Value> = self.ask_list(Op::ArrayLikeItems, list1(v.clone()))?;
                let all: Vec<Value> = join_lists(&items, args);
                assert(views(all@).len() == all@.len());
                let n: usize = all.len();
                let u: Value = self.ask_value(Op::WriteBack, with_front(v.clone(), &all))?;
                Ok(Value::Num(count_as_num(n)))
            },
            _ => Err(fail(ErrorKind::Error, "push 는 배열 메서드")),
        }
    }
}

fn decided_at(op: ArrOp, item: &Value, i: usize, r: &Value) -> (d: Option<Value>)
    ensures
        opt_view(d) == decided_place(op, item@, i as nat, r@),
{
    if op == ArrOp::FindIndex {
        if to_bool(r) {
            return Some(Value::Num(count_as_num(i)));
        }
        return None;
    }
    decided_exec(op, item, 0, r)
}

/// Splicing takes out what it returns and puts the new elements in its place: undoing it gives the
/// elements back.
pub proof fn law_splice_undone(items: Seq<Val>, start: nat, del: nat, put: Seq<Val>)
    requires
        start + del <= items.len(),
    ensures
        spliced(
            spliced(items, start, del, put),
            start,
            put.len(),
            items.subrange(start as int, (start + del) as int),
        ) == items,
        spliced(items, start, del, put).len() == items.len() - del + put.len(),
{
    let s = spliced(items, start, del, put);
    assert(s.take(start as int) =~= items.take(start as int));
    assert(s.skip((start + put.len()) as int) =~= items.skip((start + del) as int));
    assert(items.take(start as int) + items.subrange(start as int, (start + del) as int)
        + items.skip((start + del) as int) =~= items);
}

/// Reversing twice gives the elements back.
pub proof fn law_reverse_twice(items: Seq<Val>)
    ensures
        items.reverse().reverse() == items,
{
    assert(items.reverse().reverse() =~= items);
}

/// What `fill` writes stands where it was asked for, and nothing else changes.
pub proof fn law_fill(items: Seq<Val>, v: Val, start: nat, end: nat, i: int)
    requires
        0 <= i < items.len(),
    ensures
        filled_with(items, v, start, end).len() == items.len(),
        start <= i < end ==> filled_with(items, v, start, end)[i] == v,
        !(start <= i < end) ==> filled_with(items, v, start, end)[i] == items[i],
{
}

} // verus!
