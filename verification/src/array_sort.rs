//! `sort` on array-like objects.
use crate::array_live::{generic_length, live_get};
use crate::host::{
    ask_flag, ask_number, ask_text, call, done, fail, halted, list1, list2, list4, opt_view, raised,
    run_list, run_plain, run_value, settles, Halt, Host, Interp, Op, Run, Stop,
};
use crate::number::{MAX_ARRAY_LEN, Num};
use crate::text::{chars_of, decimal, decimal_text};
use crate::value::{views, ErrorKind, Val, Value};
use vstd::prelude::*;

verus! {

/// The order of strings: by the first character in which they differ, a prefix first.
pub open spec fn text_less(a: Seq<char>, b: Seq<char>) -> bool
    decreases a.len(),
{
    if b.len() == 0 {
        false
    } else if a.len() == 0 {
        true
    } else if a[0] != b[0] {
        a[0] < b[0]
    } else {
        text_less(a.skip(1), b.skip(1))
    }
}

/// No text comes before one that it comes after.
pub proof fn lemma_text_order(a: Seq<char>, b: Seq<char>)
    ensures
        text_less(a, b) ==> !text_less(b, a),
    decreases a.len(),
{
    if a.len() > 0 && b.len() > 0 && a[0] == b[0] {
        lemma_text_order(a.skip(1), b.skip(1));
    }
}

/// What does not come before a text that does not come before a third does not come before the
/// third either.
pub proof fn lemma_text_chain(a: Seq<char>, b: Seq<char>, c: Seq<char>)
    ensures
        !text_less(a, b) && !text_less(b, c) ==> !text_less(a, c),
    decreases a.len(),
{
    if a.len() > 0 && b.len() > 0 && c.len() > 0 && a[0] == b[0] && b[0] == c[0] {
        lemma_text_chain(a.skip(1), b.skip(1), c.skip(1));
    }
}

pub fn is_text_less(a: &str, b: &str) -> (r: bool)
    ensures
        r == text_less(a@, b@),
{
    let x: Vec<char> = chars_of(a);
    let y: Vec<char> = chars_of(b);
    let mut i: usize = 0;
    assert(a@.skip(0) =~= a@);
    assert(b@.skip(0) =~= b@);
    while i < x.len() && i < y.len()
        invariant
            x@ == a@,
            y@ == b@,
            i <= x@.len(),
            i <= y@.len(),
            text_less(a@, b@) == text_less(a@.skip(i as int), b@.skip(i as int)),
        decreases x@.len() - i,
    {
        if x[i] != y[i] {
            return x[i] < y[i];
        }
        assert(a@.skip(i as int).skip(1) =~= a@.skip(i + 1));
        assert(b@.skip(i as int).skip(1) =~= b@.skip(i + 1));
        i = i + 1;
    }
    i < y.len()
}

/// How values are ordered: by a comparator, or by their strings. A plain order takes numbers and
/// strings without running any code of the program.
pub struct Order {
    pub comparator: Option<Value>,
    pub plain: bool,
}

/// The mathematical counterpart of `Order`.
#[verifier::ext_equal]
pub struct OrderV {
    pub comparator: Option<Val>,
    pub plain: bool,
}

impl View for Order {
    type V = OrderV;

    open spec fn view(&self) -> OrderV {
        OrderV { comparator: opt_view(self.comparator), plain: self.plain }
    }
}

impl OrderV {
    pub open spec fn number_op(self) -> Op {
        if self.plain {
            Op::PlainNumber
        } else {
            Op::ToNumber
        }
    }

    pub open spec fn text_op(self) -> Op {
        if self.plain {
            Op::Display
        } else {
            Op::ToText
        }
    }
}

impl Order {
    fn number_op(&self) -> (r: Op)
        ensures
            r == self@.number_op(),
    {
        if self.plain {
            Op::PlainNumber
        } else {
            Op::ToNumber
        }
    }

    fn text_op(&self) -> (r: Op)
        ensures
            r == self@.text_op(),
    {
        if self.plain {
            Op::Display
        } else {
            Op::ToText
        }
    }
}

/// Whether `x` has to come after `y`. Undefined comes last; other values go by the comparator
/// where there is one, and by their strings where there is none.
pub open spec fn comes_after(h: Host, pos: nat, order: OrderV, x: Val, y: Val) -> Run<bool> {
    if x == Val::Undefined || y == Val::Undefined {
        done(x == Val::Undefined && y != Val::Undefined, pos)
    } else {
        match order.comparator {
            Some(f) => {
                let c = call(h, pos, f, None, seq![x, y]);
                match c.out {
                    Err(e) => halted(e, c.pos),
                    Ok(r) => {
                        let n = ask_number(h, c.pos, order.number_op(), seq![r]);
                        match n.out {
                            Err(e) => halted(e, n.pos),
                            Ok(v) => done(v.positive(), n.pos),
                        }
                    },
                }
            },
            None => {
                let a = ask_text(h, pos, order.text_op(), seq![x]);
                match a.out {
                    Err(e) => halted(e, a.pos),
                    Ok(s) => {
                        let b = ask_text(h, a.pos, order.text_op(), seq![y]);
                        match b.out {
                            Err(e) => halted(e, b.pos),
                            Ok(t) => done(text_less(t, s), b.pos),
                        }
                    },
                }
            },
        }
    }
}

pub open spec fn swapped(items: Seq<Val>, i: int, j: int) -> Seq<Val> {
    items.update(i, items[j]).update(j, items[i])
}

/// Moves the item at `j` down until it does not have to come before its neighbour.
pub open spec fn sift(h: Host, pos: nat, order: OrderV, items: Seq<Val>, j: int) -> Run<Seq<Val>>
    decreases j,
{
    if !(0 < j < items.len()) {
        done(items, pos)
    } else {
        let c = comes_after(h, pos, order, items[j - 1], items[j]);
        match c.out {
            Err(e) => halted(e, c.pos),
            Ok(true) => sift(h, c.pos, order, swapped(items, j - 1, j), j - 1),
            Ok(false) => done(items, c.pos),
        }
    }
}

/// Sorts the items from `i` on into those before.
pub open spec fn insertion(h: Host, pos: nat, order: OrderV, items: Seq<Val>, i: int, n: int) -> Run<
    Seq<Val>,
>
    decreases n - i,
{
    if !(0 <= i < n) {
        done(items, pos)
    } else {
        let s = sift(h, pos, order, items, i);
        match s.out {
            Err(e) => halted(e, s.pos),
            Ok(more) => insertion(h, s.pos, order, more, i + 1, n),
        }
    }
}

/// The elements at the indices `k..n` that are there, after `out`.
pub open spec fn present_items(h: Host, pos: nat, o: Val, k: nat, n: nat, out: Seq<Val>) -> Run<Seq<Val>>
    decreases n - k,
{
    if k >= n {
        done(out, pos)
    } else {
        let g = live_get(h, pos, o, k);
        match g.out {
            Err(e) => halted(e, g.pos),
            Ok(Some(v)) => present_items(h, g.pos, o, k + 1, n, out.push(v)),
            Ok(None) => present_items(h, g.pos, o, k + 1, n, out),
        }
    }
}

/// Assigns the items from `j` on back to their indices.
pub open spec fn put_back(h: Host, pos: nat, o: Val, items: Seq<Val>, j: int) -> Run<()>
    decreases items.len() - j,
{
    if !(0 <= j < items.len()) {
        done((), pos)
    } else {
        let s = ask_flag(h, pos, Op::Assign, seq![o, Val::Str(decimal(j as nat)), items[j], o]);
        match s.out {
            Err(e) => halted(e, s.pos),
            Ok(true) => put_back(h, s.pos, o, items, j + 1),
            Ok(false) => raised(
                ErrorKind::TypeError,
                "Cannot assign to read only property during sort"@,
                s.pos,
            ),
        }
    }
}

/// Deletes the indices `j..n`.
pub open spec fn clear_tail(h: Host, pos: nat, o: Val, j: nat, n: nat) -> Run<()>
    decreases n - j,
{
    if j >= n {
        done((), pos)
    } else {
        let d = ask_flag(h, pos, Op::Delete, seq![o, Val::Str(decimal(j))]);
        match d.out {
            Err(e) => halted(e, d.pos),
            Ok(true) => clear_tail(h, d.pos, o, j + 1, n),
            Ok(false) => raised(
                ErrorKind::TypeError,
                "Cannot delete property during sort"@,
                d.pos,
            ),
        }
    }
}

/// The order of a comparator; by strings where it is undefined.
pub open spec fn order_by(comparator: Val, plain: bool) -> OrderV {
    OrderV {
        comparator: if comparator == Val::Undefined {
            None
        } else {
            Some(comparator)
        },
        plain,
    }
}

pub fn order_of(comparator: &Value, plain: bool) -> (r: Order)
    ensures
        r@ == order_by(comparator@, plain),
{
    Order {
        comparator: if is_undefined(comparator) {
            None
        } else {
            Some(comparator.clone())
        },
        plain,
    }
}

/// `sort`: the elements that are there are read, ordered, and assigned from index zero on; what is
/// left of the indices is deleted.
pub open spec fn sort_generic(h: Host, pos: nat, o: Val, comparator: Val) -> Run<Val> {
    let l = generic_length(h, pos, o);
    match l.out {
        Err(e) => halted(e, l.pos),
        Ok(n) => {
            if n > MAX_ARRAY_LEN {
                raised(ErrorKind::RangeError, "Invalid array length"@, l.pos)
            } else {
                let order = order_by(comparator, false);
                let c = present_items(h, l.pos, o, 0, n, Seq::empty());
                match c.out {
                    Err(e) => halted(e, c.pos),
                    Ok(items) => {
                        let s = insertion(h, c.pos, order, items, 1, items.len() as int);
                        match s.out {
                            Err(e) => halted(e, s.pos),
                            Ok(sorted) => {
                                let p = put_back(h, s.pos, o, sorted, 0);
                                match p.out {
                                    Err(e) => halted(e, p.pos),
                                    Ok(_) => {
                                        let d = clear_tail(h, p.pos, o, sorted.len(), n);
                                        match d.out {
                                            Err(e) => halted(e, d.pos),
                                            Ok(_) => done(o, d.pos),
                                        }
                                    },
                                }
                            },
                        }
                    },
                }
            }
        },
    }
}

fn is_undefined(v: &Value) -> (r: bool)
    ensures
        r == (v@ == Val::Undefined),
{
    match v {
        Value::Undefined => true,
        _ => false,
    }
}

/// Swaps two neighbours.
fn swap_items(items: &mut Vec<Value>, j: usize)
    requires
        0 < j < old(items)@.len(),
    ensures
        views(final(items)@) == swapped(views(old(items)@), j - 1, j as int),
{
    let ghost before = items@;
    let b: Value = items.remove(j);
    items.insert(j - 1, b);
    assert(items@ =~= before.update(j - 1, before[j as int]).update(j as int, before[j - 1]));
    assert(views(items@) =~= swapped(views(before), j - 1, j as int));
}

impl Interp {
    fn comes_after(&mut self, order: &Order, x: &Value, y: &Value) -> (r: Result<bool, Stop>)
        requires
            old(self).wf(),
        ensures
            final(self).follows(*old(self)),
            run_plain(r, *final(self)) == comes_after(
                old(self).host(),
                old(self).pos as nat,
                order@,
                x@,
                y@,
            ),
    {
        if is_undefined(x) || is_undefined(y) {
            return Ok(is_undefined(x) && !is_undefined(y));
        }
        match &order.comparator {
            Some(f) => {
                let r: Value = self.call_value(f.clone(), None, list2(x.clone(), y.clone()))?;
                let n: Num = self.ask_number(order.number_op(), list1(r))?;
                Ok(n.is_positive())
            },
            None => {
                let s: String = self.ask_text(order.text_op(), list1(x.clone()))?;
                let t: String = self.ask_text(order.text_op(), list1(y.clone()))?;
                Ok(is_text_less(t.as_str(), s.as_str()))
            },
        }
    }

    #[verifier::loop_isolation(false)]
    fn sift(&mut self, order: &Order, items: &mut Vec<Value>, i: usize) -> (r: Result<(), Stop>)
        requires
            old(self).wf(),
            i < old(items)@.len(),
        ensures
            final(self).follows(*old(self)),
            final(items)@.len() == old(items)@.len(),
            ({
                let s = sift(
                    old(self).host(),
                    old(self).pos as nat,
                    order@,
                    views(old(items)@),
                    i as int,
                );
                &&& s.pos == final(self).pos
                &&& match r {
                    Ok(_) => s.out == Ok::<Seq<Val>, Halt>(views(final(items)@)),
                    Err(e) => s.out == Err::<Seq<Val>, Halt>(e@),
                }
            }),
    {
        let ghost goal = sift(
            self.host(),
            self.pos as nat,
            order@,
            views(items@),
            i as int,
        );
        let mut j: usize = i;
        while j > 0
            invariant
                j <= i < items@.len(),
                items@.len() == old(items)@.len(),
                self.follows(*old(self)),
                goal == sift(
                    self.host(),
                    self.pos as nat,
                    order@,
                    views(items@),
                    j as int,
                ),
            decreases j,
        {
            let x: Value = items[j - 1].clone();
            let y: Value = items[j].clone();
            if !self.comes_after(order, &x, &y)? {
                return Ok(());
            }
            swap_items(items, j);
            j = j - 1;
        }
        Ok(())
    }

    /// The items in order.
    #[verifier::loop_isolation(false)]
    pub fn insertion_sort(&mut self, order: &Order, items: Vec<Value>) -> (r: Result<
        Vec<Value>,
        Stop,
    >)
        requires
            old(self).wf(),
        ensures
            final(self).follows(*old(self)),
            run_list(r, *final(self)) == insertion(
                old(self).host(),
                old(self).pos as nat,
                order@,
                views(items@),
                1,
                items@.len() as int,
            ),
    {
        let mut items: Vec<Value> = items;
        let m: usize = items.len();
        let ghost sorting = insertion(
            self.host(),
            self.pos as nat,
            order@,
            views(items@),
            1,
            m as int,
        );
        let mut i: usize = 1;
        while i < m
            invariant
                1 <= i,
                items@.len() == m,
                self.follows(*old(self)),
                sorting == insertion(
                    self.host(),
                    self.pos as nat,
                    order@,
                    views(items@),
                    i as int,
                    m as int,
                ),
            decreases m - i,
        {
            self.sift(order, &mut items, i)?;
            i = i + 1;
        }
        Ok(items)
    }

    /// `sort` on an array-like object.
    #[verifier::loop_isolation(false)]
    pub fn array_sort_generic(&mut self, o: &Value, comparator: &Value) -> (r: Result<Value, Stop>)
        requires
            old(self).wf(),
        ensures
            final(self).follows(*old(self)),
            run_value(r, *final(self)) == sort_generic(
                old(self).host(),
                old(self).pos as nat,
                o@,
                comparator@,
            ),
    {
        let n: u64 = self.generic_length(o)?;
        if n > MAX_ARRAY_LEN {
            return Err(fail(ErrorKind::RangeError, "Invalid array length"));
        }
        let order: Order = order_of(comparator, false);
        let items: Vec<Value> = self.present_items(o, n)?;
        let items: Vec<Value> = self.insertion_sort(&order, items)?;
        let m: usize = items.len();
        self.put_back(o, &items)?;
        self.clear_tail(o, m as u64, n)?;
        Ok(o.clone())
    }

    #[verifier::loop_isolation(false)]
    fn present_items(&mut self, o: &Value, n: u64) -> (r: Result<Vec<Value>, Stop>)
        requires
            old(self).wf(),
        ensures
            final(self).follows(*old(self)),
            run_list(r, *final(self)) == present_items(
                old(self).host(),
                old(self).pos as nat,
                o@,
                0,
                n as nat,
                Seq::empty(),
            ),
    {
        let ghost goal = present_items(
            self.host(),
            self.pos as nat,
            o@,
            0,
            n as nat,
            Seq::empty(),
        );
        let mut out: Vec<Value> = Vec::new();
        let mut k: u64 = 0;
        assert(views(out@) =~= Seq::<Val>::empty());
        while k < n
            invariant
                k <= n,
                self.follows(*old(self)),
                goal == present_items(
                    self.host(),
                    self.pos as nat,
                    o@,
                    k as nat,
                    n as nat,
                    views(out@),
                ),
            decreases n - k,
        {
            match self.array_like_live_get(o, k)? {
                Some(v) => {
                    let ghost before = views(out@);
                    out.push(v);
                    assert(views(out@) =~= before.push(v@));
                },
                None => {},
            }
            k = k + 1;
        }
        Ok(out)
    }

    #[verifier::loop_isolation(false)]
    fn put_back(&mut self, o: &Value, items: &Vec<Value>) -> (r: Result<(), Stop>)
        requires
            old(self).wf(),
        ensures
            final(self).follows(*old(self)),
            run_plain(r, *final(self)) == put_back(
                old(self).host(),
                old(self).pos as nat,
                o@,
                views(items@),
                0,
            ),
    {
        let ghost goal = put_back(self.host(), self.pos as nat, o@, views(items@), 0);
        let mut j: usize = 0;
        while j < items.len()
            invariant
                j <= items@.len(),
                self.follows(*old(self)),
                goal == put_back(self.host(), self.pos as nat, o@, views(items@), j as int),
            decreases items@.len() - j,
        {
            let key: String = decimal_text(j as u64);
            if !self.ask_flag(
                Op::Assign,
                list4(o.clone(), Value::Str(key), items[j].clone(), o.clone()),
            )? {
                return Err(
                    fail(
                        ErrorKind::TypeError,
                        "Cannot assign to read only property during sort",
                    ),
                );
            }
            j = j + 1;
        }
        Ok(())
    }

    #[verifier::loop_isolation(false)]
    fn clear_tail(&mut self, o: &Value, from: u64, n: u64) -> (r: Result<(), Stop>)
        requires
            old(self).wf(),
        ensures
            final(self).follows(*old(self)),
            run_plain(r, *final(self)) == clear_tail(
                old(self).host(),
                old(self).pos as nat,
                o@,
                from as nat,
                n as nat,
            ),
    {
        let ghost goal = clear_tail(self.host(), self.pos as nat, o@, from as nat, n as nat);
        let mut j: u64 = from;
        while j < n
            invariant
                self.follows(*old(self)),
                goal == clear_tail(self.host(), self.pos as nat, o@, j as nat, n as nat),
            decreases n - j,
        {
            let key: String = decimal_text(j);
            if !self.ask_flag(Op::Delete, list2(o.clone(), Value::Str(key)))? {
                return Err(fail(ErrorKind::TypeError, "Cannot delete property during sort"));
            }
            j = j + 1;
        }
        Ok(())
    }
}

/// Sifting rearranges the items and changes none, whatever the comparator says.
proof fn lemma_sift_permutes(h: Host, pos: nat, order: OrderV, items: Seq<Val>, j: int)
    requires
        sift(h, pos, order, items, j).out is Ok,
    ensures
        sift(h, pos, order, items, j).out->Ok_0.to_multiset() == items.to_multiset(),
        sift(h, pos, order, items, j).out->Ok_0.len() == items.len(),
    decreases j,
{
    if 0 < j < items.len() {
        let c = comes_after(h, pos, order, items[j - 1], items[j]);
        if c.out == Ok::<bool, Halt>(true) {
            lemma_sift_permutes(h, c.pos, order, swapped(items, j - 1, j), j - 1);
            lemma_swap_permutes(items, j - 1, j);
        }
    }
}

proof fn lemma_swap_permutes(items: Seq<Val>, i: int, j: int)
    requires
        0 <= i < j < items.len(),
    ensures
        swapped(items, i, j).to_multiset() == items.to_multiset(),
{
    broadcast use vstd::seq_lib::group_to_multiset_ensures;

    let a = items.update(i, items[j]);
    vstd::seq_lib::to_multiset_update(items, i, items[j]);
    vstd::seq_lib::to_multiset_update(a, j, items[i]);
    assert(swapped(items, i, j).to_multiset() =~= items.to_multiset()) by {
        assert(items.contains(items[i]));
        assert(items.contains(items[j]));
    }
}

/// Sorting keeps every value as often as it was there: the sorted items are a rearrangement of
/// the ones that were read, whatever the comparator says.
pub proof fn law_sort_permutes(h: Host, pos: nat, order: OrderV, items: Seq<Val>, i: int, n: int)
    requires
        insertion(h, pos, order, items, i, n).out is Ok,
    ensures
        insertion(h, pos, order, items, i, n).out->Ok_0.to_multiset() == items.to_multiset(),
        insertion(h, pos, order, items, i, n).out->Ok_0.len() == items.len(),
    decreases n - i,
{
    if 0 <= i < n {
        let s = sift(h, pos, order, items, i);
        lemma_sift_permutes(h, pos, order, items, i);
        law_sort_permutes(h, s.pos, order, s.out->Ok_0, i + 1, n);
    }
}

/// `after` orders all values: no two come after each other, and what does not come after a value
/// does not come after anything that value does not come after.
pub open spec fn weak_order(after: spec_fn(Val, Val) -> bool) -> bool {
    &&& forall|x: Val, y: Val| #[trigger] after(x, y) ==> !after(y, x)
    &&& forall|x: Val, y: Val, z: Val|
        !#[trigger] after(x, y) && !#[trigger] after(y, z) ==> !after(x, z)
}

/// No item before index `n` comes after a later one.
pub open spec fn ordered(after: spec_fn(Val, Val) -> bool, items: Seq<Val>, n: int) -> bool {
    forall|a: int, b: int| 0 <= a < b < n ==> !after(#[trigger] items[a], #[trigger] items[b])
}

spec fn ordered_but(after: spec_fn(Val, Val) -> bool, items: Seq<Val>, j: int, n: int) -> bool {
    &&& forall|a: int, b: int|
        0 <= a < b < n && a != j && b != j ==> !after(#[trigger] items[a], #[trigger] items[b])
    &&& forall|b: int| j < b < n ==> !after(items[j], #[trigger] items[b])
}

/// While an item sinks to its place, the comparator answers as `after` has it.
pub open spec fn sifts_by(
    h: Host,
    pos: nat,
    order: OrderV,
    after: spec_fn(Val, Val) -> bool,
    items: Seq<Val>,
    j: int,
) -> bool
    decreases j,
{
    0 < j < items.len() ==> {
        let c = comes_after(h, pos, order, items[j - 1], items[j]);
        &&& settles(c, after(items[j - 1], items[j]))
        &&& c.out == Ok::<bool, Halt>(true) ==> sifts_by(
            h,
            c.pos,
            order,
            after,
            swapped(items, j - 1, j),
            j - 1,
        )
    }
}

/// While the items from the `i`-th on are sorted in, the comparator answers as `after` has it.
pub open spec fn sorts_by(
    h: Host,
    pos: nat,
    order: OrderV,
    after: spec_fn(Val, Val) -> bool,
    items: Seq<Val>,
    i: int,
    n: int,
) -> bool
    decreases n - i,
{
    0 <= i < n ==> {
        let s = sift(h, pos, order, items, i);
        &&& sifts_by(h, pos, order, after, items, i)
        &&& s.out is Ok ==> sorts_by(h, s.pos, order, after, s.out->Ok_0, i + 1, n)
    }
}

proof fn lemma_sift_orders(
    h: Host,
    pos: nat,
    order: OrderV,
    after: spec_fn(Val, Val) -> bool,
    items: Seq<Val>,
    j: int,
    n: int,
)
    requires
        weak_order(after),
        sifts_by(h, pos, order, after, items, j),
        0 <= j < n <= items.len(),
        ordered_but(after, items, j, n),
        sift(h, pos, order, items, j).out is Ok,
    ensures
        ordered(after, sift(h, pos, order, items, j).out->Ok_0, n),
        sift(h, pos, order, items, j).out->Ok_0.len() == items.len(),
    decreases j,
{
    if j > 0 {
        let c = comes_after(h, pos, order, items[j - 1], items[j]);
        assert(settles(c, after(items[j - 1], items[j])));
        if after(items[j - 1], items[j]) {
            let next = swapped(items, j - 1, j);
            assert(ordered_but(after, next, j - 1, n)) by {
                assert forall|a: int, b: int|
                    0 <= a < b < n && a != j - 1 && b != j - 1 implies !after(
                    #[trigger] next[a],
                    #[trigger] next[b],
                ) by {
                    let x = if a == j {
                        j - 1
                    } else {
                        a
                    };
                    let y = if b == j {
                        j - 1
                    } else {
                        b
                    };
                    assert(next[a] == items[x] && next[b] == items[y]);
                }
                assert forall|b: int| j - 1 < b < n implies !after(
                    next[j - 1],
                    #[trigger] next[b],
                ) by {
                    assert(next[j - 1] == items[j]);
                    if b == j {
                        assert(next[b] == items[j - 1]);
                    } else {
                        assert(next[b] == items[b]);
                    }
                }
            }
            lemma_sift_orders(h, c.pos, order, after, next, j - 1, n);
        } else {
            assert forall|a: int, b: int| 0 <= a < b < n implies !after(
                #[trigger] items[a],
                #[trigger] items[b],
            ) by {
                if b == j && a < j - 1 {
                    assert(!after(items[a], items[j - 1]));
                    assert(!after(items[j - 1], items[j]));
                }
            }
        }
    }
}

/// Sorting orders: where the comparator's answers, while the sort runs, are those of an order of
/// all values, no sorted item comes after a later one.
pub proof fn law_sort_orders(
    h: Host,
    pos: nat,
    order: OrderV,
    after: spec_fn(Val, Val) -> bool,
    items: Seq<Val>,
    i: int,
)
    requires
        weak_order(after),
        sorts_by(h, pos, order, after, items, i, items.len() as int),
        0 <= i,
        ordered(after, items, i),
        insertion(h, pos, order, items, i, items.len() as int).out is Ok,
    ensures
        ordered(
            after,
            insertion(h, pos, order, items, i, items.len() as int).out->Ok_0,
            items.len() as int,
        ),
    decreases items.len() - i,
{
    if i < items.len() {
        let s = sift(h, pos, order, items, i);
        lemma_sift_orders(h, pos, order, after, items, i, i + 1);
        let more = s.out->Ok_0;
        law_sort_orders(h, s.pos, order, after, more, i + 1);
    }
}

/// The items that come neither before nor after `x`, in order.
pub open spec fn ties(after: spec_fn(Val, Val) -> bool, x: Val, items: Seq<Val>) -> Seq<Val>
    decreases items.len(),
{
    if items.len() == 0 {
        Seq::empty()
    } else {
        let front = ties(after, x, items.drop_last());
        if !after(x, items.last()) && !after(items.last(), x) {
            front.push(items.last())
        } else {
            front
        }
    }
}

proof fn lemma_ties_add(after: spec_fn(Val, Val) -> bool, x: Val, a: Seq<Val>, b: Seq<Val>)
    ensures
        ties(after, x, a + b) == ties(after, x, a) + ties(after, x, b),
    decreases b.len(),
{
    if b.len() == 0 {
        assert(a + b =~= a);
        assert(ties(after, x, a) + ties(after, x, b) =~= ties(after, x, a));
    } else {
        assert((a + b).drop_last() =~= a + b.drop_last());
        assert((a + b).last() == b.last());
        lemma_ties_add(after, x, a, b.drop_last());
        assert(ties(after, x, a + b) =~= ties(after, x, a) + ties(after, x, b));
    }
}

proof fn lemma_swap_keeps_ties(after: spec_fn(Val, Val) -> bool, x: Val, items: Seq<Val>, j: int)
    requires
        weak_order(after),
        0 < j < items.len(),
        after(items[j - 1], items[j]),
    ensures
        ties(after, x, swapped(items, j - 1, j)) == ties(after, x, items),
{
    let next = swapped(items, j - 1, j);
    let (a, b) = (items[j - 1], items[j]);
    let (pre, post) = (items.take(j - 1), items.skip(j + 1));
    assert(items =~= pre + seq![a, b] + post);
    assert(next =~= pre + seq![b, a] + post);
    lemma_ties_add(after, x, pre + seq![a, b], post);
    lemma_ties_add(after, x, pre, seq![a, b]);
    lemma_ties_add(after, x, pre + seq![b, a], post);
    lemma_ties_add(after, x, pre, seq![b, a]);
    assert(ties(after, x, seq![a, b]) == ties(after, x, seq![b, a])) by {
        reveal_with_fuel(ties, 3);
        assert(seq![a, b].drop_last() =~= seq![a]);
        assert(seq![b, a].drop_last() =~= seq![b]);
        assert(seq![a].drop_last() =~= Seq::<Val>::empty());
        assert(seq![b].drop_last() =~= Seq::<Val>::empty());
        if !after(a, x) && !after(x, b) {
            assert(!after(a, b));
        }
    }
}

proof fn lemma_sift_keeps_ties(
    h: Host,
    pos: nat,
    order: OrderV,
    after: spec_fn(Val, Val) -> bool,
    x: Val,
    items: Seq<Val>,
    j: int,
)
    requires
        weak_order(after),
        sifts_by(h, pos, order, after, items, j),
        sift(h, pos, order, items, j).out is Ok,
    ensures
        ties(after, x, sift(h, pos, order, items, j).out->Ok_0) == ties(after, x, items),
    decreases j,
{
    if 0 < j < items.len() {
        let c = comes_after(h, pos, order, items[j - 1], items[j]);
        if c.out == Ok::<bool, Halt>(true) {
            lemma_swap_keeps_ties(after, x, items, j);
            lemma_sift_keeps_ties(
                h,
                c.pos,
                order,
                after,
                x,
                swapped(items, j - 1, j),
                j - 1,
            );
        }
    }
}

/// Sorting is stable: items that come neither before nor after each other keep their order.
pub proof fn law_sort_stable(
    h: Host,
    pos: nat,
    order: OrderV,
    after: spec_fn(Val, Val) -> bool,
    x: Val,
    items: Seq<Val>,
    i: int,
    n: int,
)
    requires
        weak_order(after),
        sorts_by(h, pos, order, after, items, i, n),
        insertion(h, pos, order, items, i, n).out is Ok,
    ensures
        ties(after, x, insertion(h, pos, order, items, i, n).out->Ok_0) == ties(after, x, items),
    decreases n - i,
{
    if 0 <= i < n {
        let s = sift(h, pos, order, items, i);
        lemma_sift_keeps_ties(h, pos, order, after, x, items, i);
        law_sort_stable(h, s.pos, order, after, x, s.out->Ok_0, i + 1, n);
    }
}

/// No undefined item before index `n` stands before a defined one.
pub open spec fn undefined_last(items: Seq<Val>, n: int) -> bool {
    forall|a: int, b: int|
        0 <= a < b < n && #[trigger] items[a] == Val::Undefined ==> #[trigger] items[b]
            == Val::Undefined
}

spec fn undefined_last_but(items: Seq<Val>, j: int, n: int) -> bool {
    &&& forall|a: int, b: int|
        0 <= a < b < n && a != j && b != j && #[trigger] items[a] == Val::Undefined
            ==> #[trigger] items[b] == Val::Undefined
    &&& forall|b: int|
        j < b < n && items[j] == Val::Undefined ==> #[trigger] items[b] == Val::Undefined
}

proof fn lemma_sift_undefined(h: Host, pos: nat, order: OrderV, items: Seq<Val>, j: int, n: int)
    requires
        0 <= j < n <= items.len(),
        undefined_last_but(items, j, n),
        sift(h, pos, order, items, j).out is Ok,
    ensures
        undefined_last(sift(h, pos, order, items, j).out->Ok_0, n),
        sift(h, pos, order, items, j).out->Ok_0.len() == items.len(),
    decreases j,
{
    if j > 0 {
        let c = comes_after(h, pos, order, items[j - 1], items[j]);
        if c.out == Ok::<bool, Halt>(true) {
            let next = swapped(items, j - 1, j);
            assert(undefined_last_but(next, j - 1, n)) by {
                assert forall|a: int, b: int|
                    0 <= a < b < n && a != j - 1 && b != j - 1 && #[trigger] next[a]
                        == Val::Undefined implies #[trigger] next[b] == Val::Undefined by {
                    let x = if a == j {
                        j - 1
                    } else {
                        a
                    };
                    let y = if b == j {
                        j - 1
                    } else {
                        b
                    };
                    assert(next[a] == items[x] && next[b] == items[y]);
                }
                assert forall|b: int|
                    j - 1 < b < n && next[j - 1] == Val::Undefined implies #[trigger] next[b]
                    == Val::Undefined by {
                    assert(next[j - 1] == items[j]);
                }
            }
            lemma_sift_undefined(h, c.pos, order, next, j - 1, n);
        } else {
            assert forall|a: int, b: int|
                0 <= a < b < n && #[trigger] items[a] == Val::Undefined implies #[trigger] items[b]
                == Val::Undefined by {
                if b == j && a < j - 1 {
                    assert(items[j - 1] == Val::Undefined);
                }
            }
        }
    }
}

/// Undefined sorts last, whatever the comparator says.
pub proof fn law_sort_undefined_last(h: Host, pos: nat, order: OrderV, items: Seq<Val>, i: int)
    requires
        0 <= i,
        undefined_last(items, i),
        insertion(h, pos, order, items, i, items.len() as int).out is Ok,
    ensures
        undefined_last(
            insertion(h, pos, order, items, i, items.len() as int).out->Ok_0,
            items.len() as int,
        ),
    decreases items.len() - i,
{
    if i < items.len() {
        let s = sift(h, pos, order, items, i);
        lemma_sift_undefined(h, pos, order, items, i, i + 1);
        law_sort_undefined_last(h, s.pos, order, s.out->Ok_0, i + 1);
    }
}

} // verus!
