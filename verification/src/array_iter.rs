//! `reduce`, `some`, `find`, `map` and the other methods that call back for each element.
use crate::arr_ops::define_present;
use crate::array_live::{
    count_as_num, count_num, is_array, is_array_ref, is_plain, is_plain_ref, live_get, live_length,
    ArrOp,
};
use crate::descriptors::object_define_property_run;
use crate::functions::index_number;
use crate::host::{
    ask_flag, ask_list, ask_value, call, clone_opt, construct, done, fail, get, halted, has, list1,
    list3, list4, opt_view, raised, run_plain, run_slot, run_value, settles, text_value, Halt, Host,
    Interp, Op, Run, Stop,
};
use crate::number::{num_of, MAX_ARRAY_LEN, MAX_SAFE, Num};
use crate::text::{decimal, decimal_text, index_in, parse_index};
use crate::value::{
    arg, arg_at, callable, is_callable, is_object, object, to_bool, truthy, views, ErrorKind,
    Native, Val, Value,
};
use vstd::prelude::*;

verus! {

/// Inserts `k` into an increasing list, unless it is there.
pub open spec fn insert_index(s: Seq<u64>, k: u64) -> Seq<u64>
    decreases s.len(),
{
    if s.len() == 0 {
        seq![k]
    } else if s.last() < k {
        s.push(k)
    } else if s.last() == k {
        s
    } else {
        insert_index(s.drop_last(), k).push(s.last())
    }
}

/// The index below `len` that a key is, if it is one.
pub open spec fn index_below(key: Val, len: nat) -> Option<u64> {
    match key {
        Val::Str(s) => match index_in(s) {
            Some(k) if k < len => Some(k),
            _ => None,
        },
        _ => None,
    }
}

/// The indices below `len` among `keys`, in increasing order and each once.
pub open spec fn indices_among(keys: Seq<Val>, len: nat) -> Seq<u64>
    decreases keys.len(),
{
    if keys.len() == 0 {
        Seq::empty()
    } else {
        let rest = indices_among(keys.drop_last(), len);
        match index_below(keys.last(), len) {
            Some(k) => insert_index(rest, k),
            None => rest,
        }
    }
}

pub open spec fn increasing(s: Seq<u64>) -> bool {
    forall|i: int, j: int| 0 <= i < j < s.len() ==> s[i] < s[j]
}

pub proof fn lemma_insert_index(s: Seq<u64>, k: u64)
    requires
        increasing(s),
    ensures
        increasing(insert_index(s, k)),
        forall|x: u64| #[trigger] insert_index(s, k).contains(x) <==> s.contains(x) || x == k,
    decreases s.len(),
{
    let r = insert_index(s, k);
    if s.len() == 0 {
        assert(r.len() == 1 && r[0] == k);
        assert forall|x: u64| r.contains(x) <==> s.contains(x) || x == k by {
            if x == k {
                assert(r[0] == x);
            }
        }
    } else if s.last() < k {
        assert forall|x: u64| r.contains(x) <==> s.contains(x) || x == k by {
            if s.contains(x) {
                let i = choose|i: int| 0 <= i < s.len() && s[i] == x;
                assert(r[i] == x);
            }
            if x == k {
                assert(r[s.len() as int] == x);
            }
        }
    } else if s.last() == k {
        assert(s[s.len() - 1] == k);
    } else {
        let t = s.drop_last();
        lemma_insert_index(t, k);
        let u = insert_index(t, k);
        assert forall|i: int, j: int| 0 <= i < j < r.len() implies r[i] < r[j] by {
            if j == r.len() - 1 {
                assert(u.contains(u[i]));
                if t.contains(u[i]) {
                    let m = choose|m: int| 0 <= m < t.len() && t[m] == u[i];
                    assert(s[m] < s[s.len() - 1]);
                }
            }
        }
        assert forall|x: u64| r.contains(x) <==> s.contains(x) || x == k by {
            if r.contains(x) {
                let i = choose|i: int| 0 <= i < r.len() && r[i] == x;
                if i < u.len() {
                    assert(u[i] == x);
                    assert(u.contains(x));
                    if t.contains(x) {
                        let m = choose|m: int| 0 <= m < t.len() && t[m] == x;
                        assert(s[m] == x);
                    }
                } else {
                    assert(s[s.len() - 1] == x);
                }
            }
            if s.contains(x) || x == k {
                if x == s.last() {
                    assert(r[r.len() - 1] == x);
                } else {
                    if s.contains(x) {
                        let m = choose|m: int| 0 <= m < s.len() && s[m] == x;
                        assert(m < t.len());
                        assert(t[m] == x);
                        assert(t.contains(x));
                    }
                    assert(u.contains(x));
                    let i = choose|i: int| 0 <= i < u.len() && u[i] == x;
                    assert(r[i] == x);
                }
            }
        }
    }
}

/// The walk over a huge array-like object visits its own indices below the length, each once and in
/// increasing order, and no others.
pub proof fn law_indices_among(keys: Seq<Val>, len: nat)
    ensures
        increasing(indices_among(keys, len)),
        forall|k: u64|
            #![trigger indices_among(keys, len).contains(k)]
            indices_among(keys, len).contains(k) <==> exists|i: int|
                0 <= i < keys.len() && index_below(#[trigger] keys[i], len) == Some(k),
    decreases keys.len(),
{
    if keys.len() > 0 {
        let front = keys.drop_last();
        law_indices_among(front, len);
        let rest = indices_among(front, len);
        let all = indices_among(keys, len);
        let last = index_below(keys.last(), len);
        if last is Some {
            lemma_insert_index(rest, last->0);
            assert(all == insert_index(rest, last->0));
        } else {
            assert(all == rest);
        }
        assert forall|k: u64|
            #![trigger all.contains(k)]
            all.contains(k) implies exists|i: int|
                0 <= i < keys.len() && index_below(#[trigger] keys[i], len) == Some(k) by {
            if last == Some(k) {
                assert(index_below(keys[keys.len() - 1], len) == Some(k));
            } else {
                assert(rest.contains(k));
                let i = choose|i: int|
                    0 <= i < front.len() && index_below(#[trigger] front[i], len) == Some(k);
                assert(index_below(keys[i], len) == Some(k));
            }
        }
        assert forall|k: u64, i: int|
            0 <= i < keys.len() && index_below(#[trigger] keys[i], len) == Some(k) implies
            #[trigger] all.contains(k) by {
            if i < front.len() {
                assert(front[i] == keys[i]);
                assert(rest.contains(k));
            } else {
                assert(keys[i] == keys.last());
                assert(last == Some(k));
            }
            if last is Some {
                assert(insert_index(rest, last->0).contains(k));
            }
        }
    }
}

pub fn insert_index_exec(v: &mut Vec<u64>, k: u64)
    ensures
        final(v)@ == insert_index(old(v)@, k),
{
    let mut p: usize = v.len();
    assert(v@ =~= v@.take(p as int));
    while p > 0 && v[p - 1] > k
        invariant
            p <= v@.len(),
            insert_index(v@, k) == insert_index(v@.take(p as int), k) + v@.skip(p as int),
            v@ == old(v)@,
        decreases p,
    {
        assert(v@.take(p as int).drop_last() =~= v@.take(p - 1));
        assert(insert_index(v@.take(p as int), k) + v@.skip(p as int) =~= insert_index(
            v@.take(p - 1),
            k,
        ) + v@.skip(p - 1));
        p = p - 1;
    }
    if p > 0 && v[p - 1] == k {
        assert(v@.take(p as int) + v@.skip(p as int) =~= v@);
        return ;
    }
    v.insert(p, k);
    assert(v@ =~= insert_index(old(v)@.take(p as int), k) + old(v)@.skip(p as int));
}

pub fn indices_among_exec(keys: &Vec<Value>, len: u64) -> (r: Vec<u64>)
    ensures
        r@ == indices_among(views(keys@), len as nat),
{
    let mut out: Vec<u64> = Vec::new();
    let ghost all = views(keys@);
    let mut i: usize = 0;
    assert(all.take(0) =~= Seq::<Val>::empty());
    while i < keys.len()
        invariant
            i <= keys@.len(),
            all == views(keys@),
            out@ == indices_among(all.take(i as int), len as nat),
        decreases keys@.len() - i,
    {
        assert(all.take(i + 1).drop_last() =~= all.take(i as int));
        assert(all.take(i + 1).last() == keys@[i as int]@);
        match &keys[i] {
            Value::Str(s) => match parse_index(s.as_str()) {
                Some(k) => {
                    if k < len {
                        insert_index_exec(&mut out, k);
                    }
                },
                None => {},
            },
            _ => {},
        }
        i = i + 1;
    }
    assert(all.take(all.len() as int) =~= all);
    out
}

/// The own indices of a huge array-like object. Only a plain object lists any.
pub open spec fn huge_indices(h: Host, pos: nat, o: Val, len: nat) -> Run<Seq<u64>> {
    if is_plain(o) {
        let ks = ask_list(h, pos, Op::StoredKeys, seq![o]);
        match ks.out {
            Err(e) => halted(e, ks.pos),
            Ok(keys) => done(indices_among(keys, len), ks.pos),
        }
    } else {
        done(Seq::empty(), pos)
    }
}

pub open spec fn indices_run(r: Result<Vec<u64>, Stop>, it: Interp) -> Run<Seq<u64>> {
    match r {
        Ok(v) => done(v@, it.pos as nat),
        Err(e) => halted(e@, it.pos as nat),
    }
}

impl Interp {
    pub fn huge_indices(&mut self, o: &Value, len: u64) -> (r: Result<Vec<u64>, Stop>)
        requires
            old(self).wf(),
        ensures
            final(self).follows(*old(self)),
            indices_run(r, *final(self)) == huge_indices(
                old(self).host(),
                old(self).pos as nat,
                o@,
                len as nat,
            ),
    {
        if is_plain_ref(o) {
            let keys: Vec<Value> = self.ask_list(Op::StoredKeys, list1(o.clone()))?;
            Ok(indices_among_exec(&keys, len))
        } else {
            Ok(Vec::new())
        }
    }
}

/// The arguments of a callback: the element, its index and the receiver.
pub open spec fn callback_args(item: Val, k: nat, o: Val) -> Seq<Val> {
    seq![item, Val::Num(num_of(k as int)), o]
}

/// The arguments of a reducer: the accumulator before those of a callback.
pub open spec fn reducer_args(acc: Val, item: Val, k: nat, o: Val) -> Seq<Val> {
    seq![acc, item, Val::Num(num_of(k as int)), o]
}

/// `findLast` and `findLastIndex` from index `i` down.
pub open spec fn find_last(
    h: Host,
    pos: nat,
    want_index: bool,
    f: Val,
    this: Option<Val>,
    o: Val,
    i: int,
) -> Run<Val>
    decreases i + 1,
{
    if i < 0 {
        done(
            if want_index {
                Val::Num(num_of(-1))
            } else {
                Val::Undefined
            },
            pos,
        )
    } else {
        let g = get(h, pos, o, decimal(i as nat));
        match g.out {
            Err(e) => halted(e, g.pos),
            Ok(item) => {
                let c = call(h, g.pos, f, this, callback_args(item, i as nat, o));
                match c.out {
                    Err(e) => halted(e, c.pos),
                    Ok(r) => {
                        if truthy(r) {
                            done(
                                if want_index {
                                    Val::Num(num_of(i))
                                } else {
                                    item
                                },
                                c.pos,
                            )
                        } else {
                            find_last(h, c.pos, want_index, f, this, o, i - 1)
                        }
                    },
                }
            },
        }
    }
}

/// One step of a reduction: the first element starts it, any other goes through the reducer.
pub open spec fn reduce_step(
    h: Host,
    pos: nat,
    f: Val,
    o: Val,
    k: nat,
    acc: Option<Val>,
    item: Val,
) -> Run<Val> {
    match acc {
        Some(a) => call(h, pos, f, None, reducer_args(a, item, k, o)),
        None => done(item, pos),
    }
}

/// The end of a reduction.
pub open spec fn reduce_end(acc: Option<Val>, pos: nat) -> Run<Val> {
    match acc {
        Some(a) => done(a, pos),
        None => raised(
            ErrorKind::TypeError,
            "Reduce of empty array with no initial value"@,
            pos,
        ),
    }
}

/// A reduction over the indices `i, i + 1, .., n - 1`, or over `i, i - 1, .., 0`.
pub open spec fn reduce_from(
    h: Host,
    pos: nat,
    reverse: bool,
    f: Val,
    o: Val,
    i: int,
    n: int,
    acc: Option<Val>,
) -> Run<Val>
    decreases
            if reverse {
                i + 1
            } else {
                n - i
            },
{
    if !(0 <= i < n) {
        reduce_end(acc, pos)
    } else {
        let next = if reverse {
            i - 1
        } else {
            i + 1
        };
        let g = live_get(h, pos, o, i as nat);
        match g.out {
            Err(e) => halted(e, g.pos),
            Ok(None) => reduce_from(h, g.pos, reverse, f, o, next, n, acc),
            Ok(Some(item)) => {
                let s = reduce_step(h, g.pos, f, o, i as nat, acc, item);
                match s.out {
                    Err(e) => halted(e, s.pos),
                    Ok(a) => reduce_from(h, s.pos, reverse, f, o, next, n, Some(a)),
                }
            },
        }
    }
}

/// A reduction over the own indices of a huge array-like object, from the `j`-th on in the
/// direction of the walk. An index that is gone by the time of its turn is passed over.
pub open spec fn reduce_keys(
    h: Host,
    pos: nat,
    reverse: bool,
    f: Val,
    o: Val,
    keys: Seq<u64>,
    j: int,
    acc: Option<Val>,
) -> Run<Val>
    decreases keys.len() - j,
{
    if !(0 <= j < keys.len()) {
        reduce_end(acc, pos)
    } else {
        let k = if reverse {
            keys[keys.len() - 1 - j]
        } else {
            keys[j]
        };
        let p = has(h, pos, o, decimal(k as nat));
        match p.out {
            Err(e) => halted(e, p.pos),
            Ok(false) => reduce_keys(h, p.pos, reverse, f, o, keys, j + 1, acc),
            Ok(true) => {
                let g = get(h, p.pos, o, decimal(k as nat));
                match g.out {
                    Err(e) => halted(e, g.pos),
                    Ok(item) => {
                        let s = reduce_step(h, g.pos, f, o, k as nat, acc, item);
                        match s.out {
                            Err(e) => halted(e, s.pos),
                            Ok(a) => reduce_keys(h, s.pos, reverse, f, o, keys, j + 1, Some(a)),
                        }
                    },
                }
            },
        }
    }
}

/// The result that a callback's reply decides at once: `some` on a truthy one, `every` on a falsy
/// one, `find` and `findIndex` on a truthy one.
pub open spec fn decided(op: ArrOp, item: Val, k: nat, r: Val) -> Option<Val> {
    match op {
        ArrOp::SomeOf => if truthy(r) {
            Some(Val::Bool(true))
        } else {
            None
        },
        ArrOp::Every => if truthy(r) {
            None
        } else {
            Some(Val::Bool(false))
        },
        ArrOp::Find => if truthy(r) {
            Some(item)
        } else {
            None
        },
        ArrOp::FindIndex => if truthy(r) {
            Some(Val::Num(num_of(k as int)))
        } else {
            None
        },
        _ => None,
    }
}

/// The result of a walk that nothing decided, for the methods that collect nothing.
pub open spec fn undecided(op: ArrOp) -> Val {
    match op {
        ArrOp::SomeOf => Val::Bool(false),
        ArrOp::Every => Val::Bool(true),
        ArrOp::FindIndex => Val::Num(num_of(-1)),
        _ => Val::Undefined,
    }
}

/// `some`, `every` and `forEach` over the own indices of a huge array-like object.
pub open spec fn visit_keys(
    h: Host,
    pos: nat,
    op: ArrOp,
    f: Val,
    this: Option<Val>,
    o: Val,
    keys: Seq<u64>,
    j: int,
) -> Run<Val>
    decreases keys.len() - j,
{
    if !(0 <= j < keys.len()) {
        done(undecided(op), pos)
    } else {
        let k = keys[j] as nat;
        let p = has(h, pos, o, decimal(k));
        match p.out {
            Err(e) => halted(e, p.pos),
            Ok(false) => visit_keys(h, p.pos, op, f, this, o, keys, j + 1),
            Ok(true) => {
                let g = get(h, p.pos, o, decimal(k));
                match g.out {
                    Err(e) => halted(e, g.pos),
                    Ok(item) => {
                        let c = call(h, g.pos, f, this, callback_args(item, k, o));
                        match c.out {
                            Err(e) => halted(e, c.pos),
                            Ok(r) => match decided(op, item, k, r) {
                                Some(v) => done(v, c.pos),
                                None => visit_keys(h, c.pos, op, f, this, o, keys, j + 1),
                            },
                        }
                    },
                }
            },
        }
    }
}

/// What a walk has gathered.
#[verifier::ext_equal]
pub enum Gathered {
    /// The result is decided.
    Decided(Val),
    /// The walk reached the end: the elements, and the indices among them that are holes.
    All(Seq<Val>, Seq<u64>),
}

/// What `visit` looks at for index `k`: `find` and `findIndex` read every index, the others pass
/// over an index that is not there.
pub open spec fn visited_item(h: Host, pos: nat, op: ArrOp, o: Val, k: nat) -> Run<Option<Val>> {
    if op == ArrOp::Find || op == ArrOp::FindIndex {
        crate::array_live::some_of(get(h, pos, o, decimal(k)))
    } else {
        live_get(h, pos, o, k)
    }
}

/// What one reply of the callback adds to the gathered elements.
pub open spec fn gather(h: Host, pos: nat, op: ArrOp, item: Val, r: Val, out: Seq<Val>) -> Run<Seq<Val>> {
    match op {
        ArrOp::MapEach => done(out.push(r), pos),
        ArrOp::Filter => done(
            if truthy(r) {
                out.push(item)
            } else {
                out
            },
            pos,
        ),
        ArrOp::FlatMap => {
            if is_array(r) {
                let l = ask_list(h, pos, Op::Elements, seq![r]);
                match l.out {
                    Err(e) => halted(e, l.pos),
                    Ok(more) => done(out + more, l.pos),
                }
            } else {
                done(out.push(r), pos)
            }
        },
        _ => done(out, pos),
    }
}

/// The walk over the indices `k..n`.
pub open spec fn visit(
    h: Host,
    pos: nat,
    op: ArrOp,
    f: Val,
    this: Option<Val>,
    o: Val,
    k: nat,
    n: nat,
    out: Seq<Val>,
    holes: Seq<u64>,
) -> Run<Gathered>
    decreases n - k,
{
    if k >= n {
        done(Gathered::All(out, holes), pos)
    } else {
        let g = visited_item(h, pos, op, o, k);
        match g.out {
            Err(e) => halted(e, g.pos),
            Ok(None) => {
                if op == ArrOp::MapEach {
                    visit(
                        h,
                        g.pos,
                        op,
                        f,
                        this,
                        o,
                        k + 1,
                        n,
                        out.push(Val::Undefined),
                        holes.push(k as u64),
                    )
                } else {
                    visit(h, g.pos, op, f, this, o, k + 1, n, out, holes)
                }
            },
            Ok(Some(item)) => {
                let c = call(h, g.pos, f, this, callback_args(item, k, o));
                match c.out {
                    Err(e) => halted(e, c.pos),
                    Ok(r) => match decided(op, item, k, r) {
                        Some(v) => done(Gathered::Decided(v), c.pos),
                        None => {
                            let a = gather(h, c.pos, op, item, r, out);
                            match a.out {
                                Err(e) => halted(e, a.pos),
                                Ok(more) => visit(h, a.pos, op, f, this, o, k + 1, n, more, holes),
                            }
                        },
                    },
                }
            },
        }
    }
}

/// The constructor that an array's results are made with, or none where that is `Array` itself.
pub open spec fn species(h: Host, pos: nat, original: Val) -> Run<Option<Val>> {
    if !is_array(original) {
        done(None, pos)
    } else {
        let c = get(h, pos, original, "constructor"@);
        match c.out {
            Err(e) => halted(e, c.pos),
            Ok(ctor) => {
                if object(ctor) {
                    let s = get(h, c.pos, ctor, "\0@@species"@);
                    match s.out {
                        Err(e) => halted(e, s.pos),
                        Ok(sp) => species_end(
                            h,
                            s.pos,
                            if sp == Val::Null {
                                Val::Undefined
                            } else {
                                sp
                            },
                        ),
                    }
                } else {
                    species_end(h, c.pos, ctor)
                }
            },
        }
    }
}

pub open spec fn species_end(h: Host, pos: nat, c: Val) -> Run<Option<Val>> {
    if c == Val::Undefined || c == Val::Native(Native::ArrayCtor) {
        done(None, pos)
    } else {
        let k = ask_flag(h, pos, Op::IsConstructor, seq![c]);
        match k.out {
            Err(e) => halted(e, k.pos),
            Ok(true) => done(Some(c), k.pos),
            Ok(false) => raised(ErrorKind::TypeError, "Array species is not a constructor"@, k.pos),
        }
    }
}

/// The fields of a descriptor `{ value: v, writable: true, enumerable: true, configurable: true }`.
pub open spec fn data_descriptor(v: Val) -> Seq<Val> {
    seq![
        Val::Str("value"@),
        v,
        Val::Str("writable"@),
        Val::Bool(true),
        Val::Str("enumerable"@),
        Val::Bool(true),
        Val::Str("configurable"@),
        Val::Bool(true),
    ]
}

/// Defines an own data property.
pub open spec fn define_data(h: Host, pos: nat, target: Val, key: Seq<char>, v: Val) -> Run<()> {
    let d = ask_value(h, pos, Op::NewObject, data_descriptor(v));
    match d.out {
        Err(e) => halted(e, d.pos),
        Ok(desc) => {
            let r = object_define_property_run(
                h,
                d.pos,
                None,
                seq![target, Val::Str(key), desc],
            );
            match r.out {
                Err(e) => halted(e, r.pos),
                Ok(_) => done((), r.pos),
            }
        },
    }
}

/// Defines the elements `j..` of `items` on `target`.
pub open spec fn define_items(h: Host, pos: nat, target: Val, items: Seq<Val>, j: int) -> Run<()>
    decreases items.len() - j,
{
    if !(0 <= j < items.len()) {
        done((), pos)
    } else {
        let d = define_data(h, pos, target, decimal(j as nat), items[j]);
        match d.out {
            Err(e) => halted(e, d.pos),
            Ok(_) => define_items(h, d.pos, target, items, j + 1),
        }
    }
}

/// The indices of the holes, as numbers.
pub open spec fn hole_nums(holes: Seq<u64>) -> Seq<Val> {
    Seq::new(holes.len(), |i: int| Val::Num(count_num(holes[i] as nat)))
}

/// The array that a walk has gathered, made by the receiver's species. A hole stays one.
pub open spec fn collected(h: Host, pos: nat, o: Val, out: Seq<Val>, holes: Seq<u64>) -> Run<Val> {
    let s = species(h, pos, o);
    match s.out {
        Err(e) => halted(e, s.pos),
        Ok(Some(ctor)) => {
            let a = construct(h, s.pos, ctor, seq![Val::Num(count_num(out.len()))]);
            match a.out {
                Err(e) => halted(e, a.pos),
                Ok(target) => {
                    let d = define_present(h, a.pos, target, out, holes, 0);
                    match d.out {
                        Err(e) => halted(e, d.pos),
                        Ok(_) => done(target, d.pos),
                    }
                },
            }
        },
        Ok(None) => {
            if holes.len() == 0 {
                ask_value(h, s.pos, Op::NewArray, out)
            } else {
                ask_value(
                    h,
                    s.pos,
                    Op::NewSparseArray,
                    seq![Val::Num(count_num(out.len()))] + out + hole_nums(holes),
                )
            }
        },
    }
}

pub open spec fn opt_arg(args: Seq<Val>, i: int) -> Option<Val> {
    if 0 <= i < args.len() {
        Some(args[i])
    } else {
        None
    }
}

pub open spec fn collects(op: ArrOp) -> bool {
    op == ArrOp::MapEach || op == ArrOp::Filter || op == ArrOp::FlatMap
}

/// The callback methods that this module runs.
pub open spec fn iterates(op: ArrOp) -> bool {
    collects(op) || op == ArrOp::Reduce || op == ArrOp::ReduceRight || op == ArrOp::SomeOf || op
        == ArrOp::Every || op == ArrOp::Find || op == ArrOp::FindIndex || op == ArrOp::FindLast || op
        == ArrOp::FindLastIndex || op == ArrOp::ForEach
}

/// A callback method on an array-like object with more elements than an array can have: only its
/// own indices are visited, and the methods that would have to visit or build every index refuse.
pub open spec fn iter_huge(h: Host, pos: nat, op: ArrOp, o: Val, args: Seq<Val>, len: nat) -> Run<Val> {
    if collects(op) || op == ArrOp::Find || op == ArrOp::FindIndex {
        raised(ErrorKind::RangeError, "Invalid array length"@, pos)
    } else {
        let ks = huge_indices(h, pos, o, len);
        match ks.out {
            Err(e) => halted(e, ks.pos),
            Ok(keys) => {
                if op == ArrOp::Reduce || op == ArrOp::ReduceRight {
                    reduce_keys(
                        h,
                        ks.pos,
                        op == ArrOp::ReduceRight,
                        arg(args, 0),
                        o,
                        keys,
                        0,
                        opt_arg(args, 1),
                    )
                } else {
                    visit_keys(h, ks.pos, op, arg(args, 0), opt_arg(args, 1), o, keys, 0)
                }
            },
        }
    }
}

/// A callback method on an array or an array-like object.
pub open spec fn iter_live(h: Host, pos: nat, op: ArrOp, o: Val, args: Seq<Val>) -> Run<Val> {
    let l = live_length(h, pos, o);
    match l.out {
        Err(e) => halted(e, l.pos),
        Ok(len) => {
            let f = arg(args, 0);
            if !callable(f) {
                raised(ErrorKind::TypeError, "callback is not a function"@, l.pos)
            } else if op == ArrOp::FindLast || op == ArrOp::FindLastIndex {
                find_last(h, l.pos, op == ArrOp::FindLastIndex, f, opt_arg(args, 1), o, len - 1)
            } else if len > MAX_ARRAY_LEN {
                iter_huge(h, l.pos, op, o, args, len)
            } else if op == ArrOp::Reduce {
                reduce_from(h, l.pos, false, f, o, 0, len as int, opt_arg(args, 1))
            } else if op == ArrOp::ReduceRight {
                reduce_from(h, l.pos, true, f, o, len - 1, len as int, opt_arg(args, 1))
            } else {
                let v = visit(
                    h,
                    l.pos,
                    op,
                    f,
                    opt_arg(args, 1),
                    o,
                    0,
                    len,
                    Seq::empty(),
                    Seq::empty(),
                );
                match v.out {
                    Err(e) => halted(e, v.pos),
                    Ok(Gathered::Decided(r)) => done(r, v.pos),
                    Ok(Gathered::All(out, holes)) => {
                        if collects(op) {
                            collected(h, v.pos, o, out, holes)
                        } else {
                            done(undecided(op), v.pos)
                        }
                    },
                }
            }
        },
    }
}

/// The result of an exec walk.
enum Walk {
    Decided(Value),
    All(Vec<Value>, Vec<u64>),
}

impl Walk {
    spec fn gathered(self) -> Gathered {
        match self {
            Walk::Decided(v) => Gathered::Decided(v@),
            Walk::All(out, holes) => Gathered::All(views(out@), holes@),
        }
    }
}

spec fn walk_run(r: Result<Walk, Stop>, it: Interp) -> Run<Gathered> {
    match r {
        Ok(w) => done(w.gathered(), it.pos as nat),
        Err(e) => halted(e@, it.pos as nat),
    }
}

/// The optional argument at `i`.
pub fn opt_arg_at(args: &Vec<Value>, i: usize) -> (r: Option<Value>)
    ensures
        opt_view(r) == opt_arg(views(args@), i as int),
{
    if i < args.len() {
        Some(args[i].clone())
    } else {
        None
    }
}

pub fn decided_exec(op: ArrOp, item: &Value, k: u64, r: &Value) -> (d: Option<Value>)
    requires
        k <= MAX_SAFE,
    ensures
        opt_view(d) == decided(op, item@, k as nat, r@),
{
    match op {
        ArrOp::SomeOf => if to_bool(r) {
            Some(Value::Bool(true))
        } else {
            None
        },
        ArrOp::Every => if to_bool(r) {
            None
        } else {
            Some(Value::Bool(false))
        },
        ArrOp::Find => if to_bool(r) {
            Some(item.clone())
        } else {
            None
        },
        ArrOp::FindIndex => if to_bool(r) {
            Some(Value::Num(Num::from_u64(k)))
        } else {
            None
        },
        _ => None,
    }
}

pub fn undecided_exec(op: ArrOp) -> (r: Value)
    ensures
        r@ == undecided(op),
{
    match op {
        ArrOp::SomeOf => Value::Bool(false),
        ArrOp::Every => Value::Bool(true),
        ArrOp::FindIndex => Value::Num(Num::from_i64(-1)),
        _ => Value::Undefined,
    }
}

impl Interp {
    fn find_last(
        &mut self,
        want_index: bool,
        f: &Value,
        this: &Option<Value>,
        o: &Value,
        len: u64,
    ) -> (r: Result<Value, Stop>)
        requires
            old(self).wf(),
            len <= MAX_SAFE,
        ensures
            final(self).follows(*old(self)),
            run_value(r, *final(self)) == find_last(
                old(self).host(),
                old(self).pos as nat,
                want_index,
                f@,
                opt_view(*this),
                o@,
                len - 1,
            ),
    {
        let ghost h = self.host();
        let mut i: u64 = len;
        while i > 0
            invariant
                i <= len <= MAX_SAFE,
                self.follows(*old(self)),
                h == old(self).host(),
                find_last(h, self.pos as nat, want_index, f@, opt_view(*this), o@, i - 1)
                    == find_last(
                    h,
                    old(self).pos as nat,
                    want_index,
                    f@,
                    opt_view(*this),
                    o@,
                    len - 1,
                ),
            decreases i,
        {
            let k: u64 = i - 1;
            let key: String = decimal_text(k);
            let item: Value = self.member_get(o, key.as_str())?;
            let r: Value = self.call_value(
                f.clone(),
                clone_opt(this),
                list3(item.clone(), Value::Num(Num::from_u64(k)), o.clone()),
            )?;
            if to_bool(&r) {
                return Ok(
                    if want_index {
                        Value::Num(Num::from_u64(k))
                    } else {
                        item
                    },
                );
            }
            i = k;
        }
        Ok(
            if want_index {
                Value::Num(Num::from_i64(-1))
            } else {
                Value::Undefined
            },
        )
    }

    fn reduce_step(
        &mut self,
        f: &Value,
        o: &Value,
        k: u64,
        acc: Option<Value>,
        item: Value,
    ) -> (r: Result<Value, Stop>)
        requires
            old(self).wf(),
            k <= MAX_SAFE,
        ensures
            final(self).follows(*old(self)),
            run_value(r, *final(self)) == reduce_step(
                old(self).host(),
                old(self).pos as nat,
                f@,
                o@,
                k as nat,
                opt_view(acc),
                item@,
            ),
    {
        match acc {
            Some(a) => self.call_value(
                f.clone(),
                None,
                list4(a, item, Value::Num(Num::from_u64(k)), o.clone()),
            ),
            None => Ok(item),
        }
    }

    fn reduce_end(acc: Option<Value>) -> (r: Result<Value, Stop>)
        ensures
            match r {
                Ok(v) => reduce_end(opt_view(acc), 0) == done(v@, 0),
                Err(e) => reduce_end(opt_view(acc), 0) == halted::<Val>(e@, 0),
            },
    {
        match acc {
            Some(a) => Ok(a),
            None => Err(
                fail(ErrorKind::TypeError, "Reduce of empty array with no initial value"),
            ),
        }
    }

    #[verifier::loop_isolation(false)]
    fn reduce_from(
        &mut self,
        reverse: bool,
        f: &Value,
        o: &Value,
        n: u64,
        init: Option<Value>,
    ) -> (r: Result<Value, Stop>)
        requires
            old(self).wf(),
            n <= MAX_SAFE,
        ensures
            final(self).follows(*old(self)),
            run_value(r, *final(self)) == reduce_from(
                old(self).host(),
                old(self).pos as nat,
                reverse,
                f@,
                o@,
                if reverse {
                    n - 1
                } else {
                    0
                },
                n as int,
                opt_view(init),
            ),
    {
        let ghost h = self.host();
        let ghost goal = reduce_from(
            h,
            self.pos as nat,
            reverse,
            f@,
            o@,
            if reverse {
                n - 1
            } else {
                0
            },
            n as int,
            opt_view(init),
        );
        let mut acc: Option<Value> = init;
        let mut visited: u64 = 0;
        while visited < n
            invariant
                visited <= n <= MAX_SAFE,
                self.follows(*old(self)),
                h == old(self).host(),
                goal == reduce_from(
                    h,
                    self.pos as nat,
                    reverse,
                    f@,
                    o@,
                    if reverse {
                        n - 1 - visited
                    } else {
                        visited as int
                    },
                    n as int,
                    opt_view(acc),
                ),
            decreases n - visited,
        {
            let k: u64 = if reverse {
                n - 1 - visited
            } else {
                visited
            };
            match self.array_like_live_get(o, k) {
                Err(e) => {
                    return Err(e);
                },
                Ok(None) => {},
                Ok(Some(item)) => {
                    let cur: Option<Value> = acc;
                    acc = None;
                    match self.reduce_step(f, o, k, cur, item) {
                        Err(e) => {
                            return Err(e);
                        },
                        Ok(a) => {
                            acc = Some(a);
                        },
                    }
                },
            }
            visited = visited + 1;
        }
        Interp::reduce_end(acc)
    }

    #[verifier::loop_isolation(false)]
    fn reduce_keys(
        &mut self,
        reverse: bool,
        f: &Value,
        o: &Value,
        keys: &Vec<u64>,
        init: Option<Value>,
    ) -> (r: Result<Value, Stop>)
        requires
            old(self).wf(),
            forall|i: int| 0 <= i < keys@.len() ==> keys@[i] <= MAX_SAFE,
        ensures
            final(self).follows(*old(self)),
            run_value(r, *final(self)) == reduce_keys(
                old(self).host(),
                old(self).pos as nat,
                reverse,
                f@,
                o@,
                keys@,
                0,
                opt_view(init),
            ),
    {
        let ghost h = self.host();
        let ghost goal = reduce_keys(h, self.pos as nat, reverse, f@, o@, keys@, 0, opt_view(init));
        let mut acc: Option<Value> = init;
        let mut j: usize = 0;
        while j < keys.len()
            invariant
                j <= keys@.len(),
                forall|i: int| 0 <= i < keys@.len() ==> keys@[i] <= MAX_SAFE,
                self.follows(*old(self)),
                h == old(self).host(),
                goal == reduce_keys(
                    h,
                    self.pos as nat,
                    reverse,
                    f@,
                    o@,
                    keys@,
                    j as int,
                    opt_view(acc),
                ),
            decreases keys@.len() - j,
        {
            let k: u64 = if reverse {
                keys[keys.len() - 1 - j]
            } else {
                keys[j]
            };
            let key: String = decimal_text(k);
            if self.has_property(o, key.as_str())? {
                let item: Value = self.member_get(o, key.as_str())?;
                let cur: Option<Value> = acc;
                acc = None;
                match self.reduce_step(f, o, k, cur, item) {
                    Err(e) => {
                        return Err(e);
                    },
                    Ok(a) => {
                        acc = Some(a);
                    },
                }
            }
            j = j + 1;
        }
        Interp::reduce_end(acc)
    }

    #[verifier::loop_isolation(false)]
    fn visit_keys(
        &mut self,
        op: ArrOp,
        f: &Value,
        this: &Option<Value>,
        o: &Value,
        keys: &Vec<u64>,
    ) -> (r: Result<Value, Stop>)
        requires
            old(self).wf(),
            forall|i: int| 0 <= i < keys@.len() ==> keys@[i] <= MAX_SAFE,
        ensures
            final(self).follows(*old(self)),
            run_value(r, *final(self)) == visit_keys(
                old(self).host(),
                old(self).pos as nat,
                op,
                f@,
                opt_view(*this),
                o@,
                keys@,
                0,
            ),
    {
        let ghost h = self.host();
        let ghost goal = visit_keys(h, self.pos as nat, op, f@, opt_view(*this), o@, keys@, 0);
        let mut j: usize = 0;
        while j < keys.len()
            invariant
                j <= keys@.len(),
                forall|i: int| 0 <= i < keys@.len() ==> keys@[i] <= MAX_SAFE,
                self.follows(*old(self)),
                h == old(self).host(),
                goal == visit_keys(
                    h,
                    self.pos as nat,
                    op,
                    f@,
                    opt_view(*this),
                    o@,
                    keys@,
                    j as int,
                ),
            decreases keys@.len() - j,
        {
            let k: u64 = keys[j];
            let key: String = decimal_text(k);
            if self.has_property(o, key.as_str())? {
                let item: Value = self.member_get(o, key.as_str())?;
                let r: Value = self.call_value(
                    f.clone(),
                    clone_opt(this),
                    list3(item.clone(), Value::Num(Num::from_u64(k)), o.clone()),
                )?;
                match decided_exec(op, &item, k, &r) {
                    Some(v) => {
                        return Ok(v);
                    },
                    None => {},
                }
            }
            j = j + 1;
        }
        Ok(undecided_exec(op))
    }

    fn visited_item(&mut self, op: ArrOp, o: &Value, k: u64) -> (r: Result<Option<Value>, Stop>)
        requires
            old(self).wf(),
        ensures
            final(self).follows(*old(self)),
            run_slot(r, *final(self)) == visited_item(
                old(self).host(),
                old(self).pos as nat,
                op,
                o@,
                k as nat,
            ),
    {
        if op == ArrOp::Find || op == ArrOp::FindIndex {
            let key: String = decimal_text(k);
            Ok(Some(self.member_get(o, key.as_str())?))
        } else {
            self.array_like_live_get(o, k)
        }
    }

    pub fn gather(&mut self, op: ArrOp, item: Value, r: Value, out: &mut Vec<Value>) -> (res: Result<
        (),
        Stop,
    >)
        requires
            old(self).wf(),
        ensures
            final(self).follows(*old(self)),
            ({
                let g = gather(
                    old(self).host(),
                    old(self).pos as nat,
                    op,
                    item@,
                    r@,
                    views(old(out)@),
                );
                &&& g.pos == final(self).pos
                &&& match res {
                    Ok(_) => g.out == Ok::<Seq<Val>, Halt>(views(final(out)@)),
                    Err(e) => g.out == Err::<Seq<Val>, Halt>(e@),
                }
            }),
    {
        let ghost before = views(out@);
        match op {
            ArrOp::MapEach => {
                out.push(r);
                assert(views(out@) =~= before.push(r@));
            },
            ArrOp::Filter => {
                if to_bool(&r) {
                    out.push(item);
                    assert(views(out@) =~= before.push(item@));
                }
            },
            ArrOp::FlatMap => {
                if is_array_ref(&r) {
                    let mut more: Vec<Value> = self.ask_list(Op::Elements, list1(r))?;
                    let ghost added = views(more@);
                    out.append(&mut more);
                    assert(views(out@) =~= before + added);
                } else {
                    out.push(r);
                    assert(views(out@) =~= before.push(r@));
                }
            },
            _ => {},
        }
        Ok(())
    }

    #[verifier::loop_isolation(false)]
    fn visit(&mut self, op: ArrOp, f: &Value, this: &Option<Value>, o: &Value, n: u64) -> (r: Result<
        Walk,
        Stop,
    >)
        requires
            old(self).wf(),
            n <= MAX_ARRAY_LEN,
        ensures
            final(self).follows(*old(self)),
            walk_run(r, *final(self)) == visit(
                old(self).host(),
                old(self).pos as nat,
                op,
                f@,
                opt_view(*this),
                o@,
                0,
                n as nat,
                Seq::empty(),
                Seq::empty(),
            ),
            r matches Ok(Walk::All(_, holes)) ==> forall|i: int|
                0 <= i < holes@.len() ==> holes@[i] <= MAX_SAFE,
    {
        let ghost h = self.host();
        let ghost goal = visit(
            h,
            self.pos as nat,
            op,
            f@,
            opt_view(*this),
            o@,
            0,
            n as nat,
            Seq::empty(),
            Seq::empty(),
        );
        let mut out: Vec<Value> = Vec::new();
        let mut holes: Vec<u64> = Vec::new();
        let mut k: u64 = 0;
        assert(views(out@) =~= Seq::<Val>::empty());
        assert(holes@ =~= Seq::<u64>::empty());
        while k < n
            invariant
                k <= n <= MAX_ARRAY_LEN,
                self.follows(*old(self)),
                h == old(self).host(),
                forall|i: int| 0 <= i < holes@.len() ==> holes@[i] <= MAX_SAFE,
                goal == visit(
                    h,
                    self.pos as nat,
                    op,
                    f@,
                    opt_view(*this),
                    o@,
                    k as nat,
                    n as nat,
                    views(out@),
                    holes@,
                ),
            decreases n - k,
        {
            match self.visited_item(op, o, k)? {
                None => {
                    if op == ArrOp::MapEach {
                        let ghost before = views(out@);
                        holes.push(k);
                        out.push(Value::Undefined);
                        assert(views(out@) =~= before.push(Val::Undefined));
                    }
                },
                Some(item) => {
                    let r: Value = self.call_value(
                        f.clone(),
                        clone_opt(this),
                        list3(item.clone(), Value::Num(Num::from_u64(k)), o.clone()),
                    )?;
                    match decided_exec(op, &item, k, &r) {
                        Some(v) => {
                            return Ok(Walk::Decided(v));
                        },
                        None => {
                            self.gather(op, item, r, &mut out)?;
                        },
                    }
                },
            }
            k = k + 1;
        }
        Ok(Walk::All(out, holes))
    }

    /// ArraySpeciesCreate's choice of a constructor.
    pub fn array_species_ctor(&mut self, original: &Value) -> (r: Result<Option<Value>, Stop>)
        requires
            old(self).wf(),
        ensures
            final(self).follows(*old(self)),
            run_slot(r, *final(self)) == species(
                old(self).host(),
                old(self).pos as nat,
                original@,
            ),
    {
        if !is_array_ref(original) {
            return Ok(None);
        }
        let c: Value = self.member_get(original, "constructor")?;
        let c: Value = if is_object(&c) {
            match self.member_get(&c, "\0@@species")? {
                Value::Null => Value::Undefined,
                s => s,
            }
        } else {
            c
        };
        let plain: bool = match &c {
            Value::Undefined => true,
            Value::Native(n) => *n == Native::ArrayCtor,
            _ => false,
        };
        if plain {
            return Ok(None);
        }
        if !self.ask_flag(Op::IsConstructor, list1(c.clone()))? {
            return Err(fail(ErrorKind::TypeError, "Array species is not a constructor"));
        }
        Ok(Some(c))
    }

    /// A new descriptor of a data property that allows everything.
    pub fn new_data_descriptor(&mut self, v: Value) -> (r: Result<Value, Stop>)
        requires
            old(self).wf(),
        ensures
            final(self).follows(*old(self)),
            run_value(r, *final(self)) == ask_value(
                old(self).host(),
                old(self).pos as nat,
                Op::NewObject,
                data_descriptor(v@),
            ),
    {
        let ghost given = v@;
        let mut fields: Vec<Value> = list4(
            text_value("value"),
            v,
            text_value("writable"),
            Value::Bool(true),
        );
        let mut more: Vec<Value> = list4(
            text_value("enumerable"),
            Value::Bool(true),
            text_value("configurable"),
            Value::Bool(true),
        );
        let ghost (front, back) = (views(fields@), views(more@));
        fields.append(&mut more);
        assert(views(fields@) =~= front + back);
        assert(front + back =~= data_descriptor(given));
        self.ask_value(Op::NewObject, fields)
    }

    pub fn define_data(&mut self, target: &Value, key: &str, v: Value) -> (r: Result<(), Stop>)
        requires
            old(self).wf(),
        ensures
            final(self).follows(*old(self)),
            run_plain(r, *final(self)) == define_data(
                old(self).host(),
                old(self).pos as nat,
                target@,
                key@,
                v@,
            ),
    {
        let desc: Value = self.new_data_descriptor(v)?;
        self.object_define_property(&None, &list3(target.clone(), text_value(key), desc))?;
        Ok(())
    }

    /// CreateDataPropertyOrThrow at an index.
    pub fn create_data_property_or_throw(&mut self, target: &Value, key: u64, v: Value) -> (r: Result<
        (),
        Stop,
    >)
        requires
            old(self).wf(),
        ensures
            final(self).follows(*old(self)),
            run_plain(r, *final(self)) == define_data(
                old(self).host(),
                old(self).pos as nat,
                target@,
                decimal(key as nat),
                v@,
            ),
    {
        let k: String = decimal_text(key);
        self.create_data_property_str(target, k.as_str(), v)
    }

    /// CreateDataPropertyOrThrow.
    pub fn create_data_property_str(&mut self, target: &Value, key: &str, v: Value) -> (r: Result<
        (),
        Stop,
    >)
        requires
            old(self).wf(),
        ensures
            final(self).follows(*old(self)),
            run_plain(r, *final(self)) == define_data(
                old(self).host(),
                old(self).pos as nat,
                target@,
                key@,
                v@,
            ),
    {
        self.define_data(target, key, v)
    }

    #[verifier::loop_isolation(false)]
    pub fn define_items(&mut self, target: &Value, items: &Vec<Value>) -> (r: Result<(), Stop>)
        requires
            old(self).wf(),
        ensures
            final(self).follows(*old(self)),
            run_plain(r, *final(self)) == define_items(
                old(self).host(),
                old(self).pos as nat,
                target@,
                views(items@),
                0,
            ),
    {
        let ghost h = self.host();
        let ghost goal = define_items(h, self.pos as nat, target@, views(items@), 0);
        let mut j: usize = 0;
        while j < items.len()
            invariant
                j <= items@.len(),
                self.follows(*old(self)),
                h == old(self).host(),
                goal == define_items(h, self.pos as nat, target@, views(items@), j as int),
            decreases items@.len() - j,
        {
            self.create_data_property_or_throw(target, j as u64, items[j].clone())?;
            j = j + 1;
        }
        Ok(())
    }

    pub fn collected(&mut self, o: &Value, out: Vec<Value>, holes: Vec<u64>) -> (r: Result<Value, Stop>)
        requires
            old(self).wf(),
        ensures
            final(self).follows(*old(self)),
            run_value(r, *final(self)) == collected(
                old(self).host(),
                old(self).pos as nat,
                o@,
                views(out@),
                holes@,
            ),
    {
        match self.array_species_ctor(o)? {
            Some(ctor) => {
                let a: Value = self.construct(ctor, list1(Value::Num(count_as_num(out.len()))))?;
                self.define_present(&a, &out, &holes)?;
                Ok(a)
            },
            None => {
                if holes.len() == 0 {
                    self.ask_value(Op::NewArray, out)
                } else {
                    let ghost elems = views(out@);
                    let mut all: Vec<Value> = list1(Value::Num(count_as_num(out.len())));
                    let ghost front = views(all@);
                    let mut out: Vec<Value> = out;
                    all.append(&mut out);
                    assert(views(all@) =~= front + elems);
                    let mut i: usize = 0;
                    assert(hole_nums(holes@.take(0)) =~= Seq::<Val>::empty());
                    while i < holes.len()
                        invariant
                            i <= holes@.len(),
                            views(all@) == front + elems + hole_nums(holes@.take(i as int)),
                        decreases holes@.len() - i,
                    {
                        let ghost before = views(all@);
                        all.push(Value::Num(index_number(holes[i])));
                        i = i + 1;
                        assert(views(all@) =~= before.push(Val::Num(count_num(holes@[i - 1] as nat))));
                        assert(hole_nums(holes@.take(i as int)) =~= hole_nums(
                            holes@.take(i - 1),
                        ).push(Val::Num(count_num(holes@[i - 1] as nat))));
                        assert(views(all@) =~= front + elems + hole_nums(holes@.take(i as int)));
                    }
                    assert(holes@.take(holes@.len() as int) =~= holes@);
                    self.ask_value(Op::NewSparseArray, all)
                }
            },
        }
    }

    fn iter_huge(&mut self, op: ArrOp, o: &Value, args: &Vec<Value>, len: u64) -> (r: Result<
        Value,
        Stop,
    >)
        requires
            old(self).wf(),
            len <= MAX_SAFE,
        ensures
            final(self).follows(*old(self)),
            run_value(r, *final(self)) == iter_huge(
                old(self).host(),
                old(self).pos as nat,
                op,
                o@,
                views(args@),
                len as nat,
            ),
    {
        match op {
            ArrOp::MapEach | ArrOp::Filter | ArrOp::FlatMap | ArrOp::Find | ArrOp::FindIndex => {
                return Err(fail(ErrorKind::RangeError, "Invalid array length"));
            },
            _ => {},
        }
        let ghost h = self.host();
        let ghost p = self.pos as nat;
        let keys: Vec<u64> = self.huge_indices(o, len)?;
        proof {
            assert forall|i: int| 0 <= i < keys@.len() implies keys@[i] <= MAX_SAFE by {
                lemma_huge_below(h, p, o@, len as nat, keys@, i);
            }
        }
        let f: Value = arg_at(args, 0);
        if op == ArrOp::Reduce || op == ArrOp::ReduceRight {
            self.reduce_keys(op == ArrOp::ReduceRight, &f, o, &keys, opt_arg_at(args, 1))
        } else {
            self.visit_keys(op, &f, &opt_arg_at(args, 1), o, &keys)
        }
    }

    /// Runs a callback method on an array or an array-like object.
    pub fn array_iter_live(&mut self, op: ArrOp, o: &Value, args: &Vec<Value>) -> (r: Result<
        Value,
        Stop,
    >)
        requires
            old(self).wf(),
            iterates(op),
        ensures
            final(self).follows(*old(self)),
            run_value(r, *final(self)) == iter_live(
                old(self).host(),
                old(self).pos as nat,
                op,
                o@,
                views(args@),
            ),
    {
        let len: u64 = self.live_length(o)?;
        let f: Value = arg_at(args, 0);
        if !is_callable(&f) {
            return Err(fail(ErrorKind::TypeError, "callback is not a function"));
        }
        if op == ArrOp::FindLast || op == ArrOp::FindLastIndex {
            let this: Option<Value> = opt_arg_at(args, 1);
            return self.find_last(op == ArrOp::FindLastIndex, &f, &this, o, len);
        }
        if len > MAX_ARRAY_LEN {
            return self.iter_huge(op, o, args, len);
        }
        if op == ArrOp::Reduce || op == ArrOp::ReduceRight {
            return self.reduce_from(op == ArrOp::ReduceRight, &f, o, len, opt_arg_at(args, 1));
        }
        let this: Option<Value> = opt_arg_at(args, 1);
        match self.visit(op, &f, &this, o, len)? {
            Walk::Decided(v) => Ok(v),
            Walk::All(out, holes) => match op {
                ArrOp::MapEach | ArrOp::Filter | ArrOp::FlatMap => self.collected(o, out, holes),
                _ => Ok(undecided_exec(op)),
            },
        }
    }
}

proof fn lemma_huge_below(h: Host, pos: nat, o: Val, len: nat, keys: Seq<u64>, i: int)
    requires
        len <= MAX_SAFE,
        huge_indices(h, pos, o, len).out == Ok::<Seq<u64>, Halt>(keys),
        0 <= i < keys.len(),
    ensures
        keys[i] <= MAX_SAFE,
{
    let ks = ask_list(h, pos, Op::StoredKeys, seq![o]);
    let all = ks.out->Ok_0;
    law_indices_among(all, len);
    assert(keys.contains(keys[i]));
}

/// What the walk reads from `k` on, up to where it ends, are `items`, and the callback answers
/// `reply` for each of them.
pub open spec fn walks(
    h: Host,
    pos: nat,
    op: ArrOp,
    f: Val,
    this: Option<Val>,
    o: Val,
    k: nat,
    n: nat,
    items: spec_fn(nat) -> Option<Val>,
    reply: spec_fn(nat) -> Val,
) -> bool
    decreases n - k,
{
    k < n ==> {
        let g = visited_item(h, pos, op, o, k);
        &&& settles(g, items(k))
        &&& g.out is Ok ==> match items(k) {
            None => walks(h, g.pos, op, f, this, o, k + 1, n, items, reply),
            Some(v) => {
                let c = call(h, g.pos, f, this, callback_args(v, k, o));
                &&& settles(c, reply(k))
                &&& c.out is Ok && (collects(op) || decided(op, v, k, reply(k)) is None) ==> walks(
                    h,
                    c.pos,
                    op,
                    f,
                    this,
                    o,
                    k + 1,
                    n,
                    items,
                    reply,
                )
            },
        }
    }
}

/// The callback's reply for `k` decides the method.
pub open spec fn decides(
    op: ArrOp,
    items: spec_fn(nat) -> Option<Val>,
    reply: spec_fn(nat) -> Val,
    k: nat,
) -> bool {
    items(k) is Some && decided(op, items(k)->0, k, reply(k)) is Some
}

/// Over the elements that they read, `some`, `every`, `find`, `findIndex` and `forEach` go by
/// the first element whose reply decides: `some` is true exactly where a reply is truthy, `every`
/// false exactly where one is falsy, `find` and `findIndex` give the first element with a truthy
/// reply.
pub proof fn law_first_decides(
    h: Host,
    pos: nat,
    op: ArrOp,
    f: Val,
    this: Option<Val>,
    o: Val,
    k: nat,
    n: nat,
    items: spec_fn(nat) -> Option<Val>,
    reply: spec_fn(nat) -> Val,
)
    requires
        !collects(op),
        walks(h, pos, op, f, this, o, k, n, items, reply),
    ensures
        match visit(h, pos, op, f, this, o, k, n, Seq::empty(), Seq::empty()).out {
            Ok(Gathered::Decided(v)) => exists|i: nat|
                k <= i < n && #[trigger] decides(op, items, reply, i) && v == decided(
                    op,
                    items(i)->0,
                    i,
                    reply(i),
                )->0 && forall|m: nat| k <= m < i ==> !#[trigger] decides(op, items, reply, m),
            Ok(Gathered::All(_, _)) => forall|m: nat|
                k <= m < n ==> !#[trigger] decides(op, items, reply, m),
            Err(e) => e is Ask,
        },
    decreases n - k,
{
    if k < n {
        let g = visited_item(h, pos, op, o, k);
        assert(settles(g, items(k)));
        if g.out is Ok {
            if items(k) is None {
                law_first_decides(h, g.pos, op, f, this, o, k + 1, n, items, reply);
            } else {
                let c = call(h, g.pos, f, this, callback_args(items(k)->0, k, o));
                assert(settles(c, reply(k)));
                if c.out is Ok && !decides(op, items, reply, k) {
                    law_first_decides(h, c.pos, op, f, this, o, k + 1, n, items, reply);
                }
            }
        }
        assert(decides(op, items, reply, k) ==> k < n);
    }
}

/// The elements at `k..n` whose reply is truthy.
pub open spec fn kept(
    items: spec_fn(nat) -> Option<Val>,
    reply: spec_fn(nat) -> Val,
    k: nat,
    n: nat,
) -> Seq<Val>
    decreases n - k,
{
    if k >= n {
        Seq::empty()
    } else if items(k) is Some && truthy(reply(k)) {
        seq![items(k)->0] + kept(items, reply, k + 1, n)
    } else {
        kept(items, reply, k + 1, n)
    }
}

/// Over the elements that it reads, `filter` keeps exactly the elements with a truthy
/// reply, in their order.
pub proof fn law_filter_keeps(
    h: Host,
    pos: nat,
    f: Val,
    this: Option<Val>,
    o: Val,
    k: nat,
    n: nat,
    items: spec_fn(nat) -> Option<Val>,
    reply: spec_fn(nat) -> Val,
    out: Seq<Val>,
)
    requires
        walks(h, pos, ArrOp::Filter, f, this, o, k, n, items, reply),
    ensures
        settles(
            visit(h, pos, ArrOp::Filter, f, this, o, k, n, out, Seq::empty()),
            Gathered::All(out + kept(items, reply, k, n), Seq::empty()),
        ),
    decreases n - k,
{
    if k < n {
        let g = visited_item(h, pos, ArrOp::Filter, o, k);
        assert(settles(g, items(k)));
        if g.out is Ok {
            if items(k) is None {
                law_filter_keeps(h, g.pos, f, this, o, k + 1, n, items, reply, out);
            } else {
                let c = call(h, g.pos, f, this, callback_args(items(k)->0, k, o));
                assert(settles(c, reply(k)));
                if c.out is Ok {
                    let more = if truthy(reply(k)) {
                        out.push(items(k)->0)
                    } else {
                        out
                    };
                    law_filter_keeps(h, c.pos, f, this, o, k + 1, n, items, reply, more);
                    assert(more + kept(items, reply, k + 1, n) =~= out + kept(items, reply, k, n));
                }
            }
        }
    } else {
        assert(out + kept(items, reply, k, n) =~= out);
    }
}

/// What `map` makes of the elements below `n`: the reply for an element, and undefined for a hole.
pub open spec fn mapped(
    items: spec_fn(nat) -> Option<Val>,
    reply: spec_fn(nat) -> Val,
    n: nat,
) -> Seq<Val> {
    Seq::new(
        n,
        |i: int|
            if items(i as nat) is Some {
                reply(i as nat)
            } else {
                Val::Undefined
            },
    )
}

/// The holes among the elements below `n`.
pub open spec fn holes_below(items: spec_fn(nat) -> Option<Val>, n: nat) -> Seq<u64>
    decreases n,
{
    if n == 0 {
        Seq::empty()
    } else {
        let rest = holes_below(items, (n - 1) as nat);
        if items((n - 1) as nat) is None {
            rest.push((n - 1) as u64)
        } else {
            rest
        }
    }
}

/// Over the elements that it reads, `map` has one result per element, and holes exactly
/// where there was no element.
pub proof fn law_map_keeps_shape(
    h: Host,
    pos: nat,
    f: Val,
    this: Option<Val>,
    o: Val,
    k: nat,
    n: nat,
    items: spec_fn(nat) -> Option<Val>,
    reply: spec_fn(nat) -> Val,
)
    requires
        k <= n,
        walks(h, pos, ArrOp::MapEach, f, this, o, k, n, items, reply),
    ensures
        settles(
            visit(
                h,
                pos,
                ArrOp::MapEach,
                f,
                this,
                o,
                k,
                n,
                mapped(items, reply, k),
                holes_below(items, k),
            ),
            Gathered::All(mapped(items, reply, n), holes_below(items, n)),
        ),
    decreases n - k,
{
    if k < n {
        let g = visited_item(h, pos, ArrOp::MapEach, o, k);
        assert(settles(g, items(k)));
        if g.out is Ok {
            if items(k) is None {
                assert(mapped(items, reply, k + 1) =~= mapped(items, reply, k).push(
                    Val::Undefined,
                ));
                law_map_keeps_shape(h, g.pos, f, this, o, k + 1, n, items, reply);
            } else {
                let c = call(h, g.pos, f, this, callback_args(items(k)->0, k, o));
                assert(settles(c, reply(k)));
                if c.out is Ok {
                    assert(mapped(items, reply, k + 1) =~= mapped(items, reply, k).push(reply(k)));
                    law_map_keeps_shape(h, c.pos, f, this, o, k + 1, n, items, reply);
                }
            }
        }
    }
}

/// The fold of the elements at `k..n` from the left; a first element starts it where there is no
/// accumulator.
pub open spec fn fold(
    items: spec_fn(nat) -> Option<Val>,
    combine: spec_fn(Val, Val, nat) -> Val,
    k: nat,
    n: nat,
    acc: Option<Val>,
) -> Option<Val>
    decreases n - k,
{
    if k >= n {
        acc
    } else {
        match items(k) {
            None => fold(items, combine, k + 1, n, acc),
            Some(v) => fold(
                items,
                combine,
                k + 1,
                n,
                Some(
                    match acc {
                        Some(a) => combine(a, v, k),
                        None => v,
                    },
                ),
            ),
        }
    }
}

/// What a reduction reads from `i` on, in the direction of its walk, are `items`, and the reducer
/// answers as `combine` has it.
pub open spec fn reduces(
    h: Host,
    pos: nat,
    reverse: bool,
    f: Val,
    o: Val,
    i: int,
    n: int,
    items: spec_fn(nat) -> Option<Val>,
    combine: spec_fn(Val, Val, nat) -> Val,
    acc: Option<Val>,
) -> bool
    decreases
            if reverse {
                i + 1
            } else {
                n - i
            },
{
    0 <= i < n ==> {
        let next = if reverse {
            i - 1
        } else {
            i + 1
        };
        let g = live_get(h, pos, o, i as nat);
        &&& settles(g, items(i as nat))
        &&& g.out is Ok ==> match (items(i as nat), acc) {
            (None, _) => reduces(h, g.pos, reverse, f, o, next, n, items, combine, acc),
            (Some(v), None) => reduces(
                h,
                g.pos,
                reverse,
                f,
                o,
                next,
                n,
                items,
                combine,
                Some(v),
            ),
            (Some(v), Some(a)) => {
                let c = call(h, g.pos, f, None, reducer_args(a, v, i as nat, o));
                &&& settles(c, combine(a, v, i as nat))
                &&& c.out is Ok ==> reduces(
                    h,
                    c.pos,
                    reverse,
                    f,
                    o,
                    next,
                    n,
                    items,
                    combine,
                    Some(combine(a, v, i as nat)),
                )
            },
        }
    }
}

/// Over the elements that it reads, `reduce` is the left fold of the reducer, and a type
/// error exactly where there is no element and no initial value.
pub proof fn law_reduce_folds(
    h: Host,
    pos: nat,
    f: Val,
    o: Val,
    k: nat,
    n: nat,
    items: spec_fn(nat) -> Option<Val>,
    combine: spec_fn(Val, Val, nat) -> Val,
    acc: Option<Val>,
)
    requires
        reduces(h, pos, false, f, o, k as int, n as int, items, combine, acc),
    ensures
        match reduce_from(h, pos, false, f, o, k as int, n as int, acc).out {
            Ok(v) => fold(items, combine, k, n, acc) == Some(v),
            Err(e) => e is Ask || (fold(items, combine, k, n, acc) is None && e == Halt::Throw(
                crate::host::Thrown::Error(
                    ErrorKind::TypeError,
                    "Reduce of empty array with no initial value"@,
                ),
            )),
        },
    decreases n - k,
{
    if k < n {
        let g = live_get(h, pos, o, k);
        assert(settles(g, items(k)));
        if g.out is Ok {
            if items(k) is None {
                law_reduce_folds(h, g.pos, f, o, k + 1, n, items, combine, acc);
            } else {
                let v = items(k)->0;
                let s = reduce_step(h, g.pos, f, o, k, acc, v);
                if acc is Some {
                    let c = call(h, g.pos, f, None, reducer_args(acc->0, v, k, o));
                    assert(settles(c, combine(acc->0, v, k)));
                }
                if s.out is Ok {
                    law_reduce_folds(
                        h,
                        s.pos,
                        f,
                        o,
                        k + 1,
                        n,
                        items,
                        combine,
                        Some(s.out->Ok_0),
                    );
                }
            }
        }
    }
}

/// The fold of the elements below `k` from the right; a first element starts it where there is no
/// accumulator.
pub open spec fn fold_right(
    items: spec_fn(nat) -> Option<Val>,
    combine: spec_fn(Val, Val, nat) -> Val,
    k: nat,
    acc: Option<Val>,
) -> Option<Val>
    decreases k,
{
    if k == 0 {
        acc
    } else {
        let i = (k - 1) as nat;
        match items(i) {
            None => fold_right(items, combine, i, acc),
            Some(v) => fold_right(
                items,
                combine,
                i,
                Some(
                    match acc {
                        Some(a) => combine(a, v, i),
                        None => v,
                    },
                ),
            ),
        }
    }
}

/// Over the elements that it reads, `reduceRight` is the right fold of the reducer, and a type
/// error exactly where there is no element and no initial value.
pub proof fn law_reduce_right_folds(
    h: Host,
    pos: nat,
    f: Val,
    o: Val,
    k: nat,
    n: nat,
    items: spec_fn(nat) -> Option<Val>,
    combine: spec_fn(Val, Val, nat) -> Val,
    acc: Option<Val>,
)
    requires
        k <= n,
        reduces(h, pos, true, f, o, k - 1, n as int, items, combine, acc),
    ensures
        match reduce_from(h, pos, true, f, o, k - 1, n as int, acc).out {
            Ok(v) => fold_right(items, combine, k, acc) == Some(v),
            Err(e) => e is Ask || (fold_right(items, combine, k, acc) is None && e == Halt::Throw(
                crate::host::Thrown::Error(
                    ErrorKind::TypeError,
                    "Reduce of empty array with no initial value"@,
                ),
            )),
        },
    decreases k,
{
    if k > 0 {
        let i = (k - 1) as nat;
        let g = live_get(h, pos, o, i);
        assert(settles(g, items(i)));
        if g.out is Ok {
            if items(i) is None {
                law_reduce_right_folds(h, g.pos, f, o, i, n, items, combine, acc);
            } else {
                let v = items(i)->0;
                let s = reduce_step(h, g.pos, f, o, i, acc, v);
                if acc is Some {
                    let c = call(h, g.pos, f, None, reducer_args(acc->0, v, i, o));
                    assert(settles(c, combine(acc->0, v, i)));
                }
                if s.out is Ok {
                    law_reduce_right_folds(
                        h,
                        s.pos,
                        f,
                        o,
                        i,
                        n,
                        items,
                        combine,
                        Some(s.out->Ok_0),
                    );
                }
            }
        }
    }
}

} // verus!
