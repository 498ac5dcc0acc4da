//! Built-ins that insist on the kind of their receiver: collections, symbols, errors, big integers.
use crate::canvas::{cat, empty_list};
use crate::entries::{collection_in, recv_map_data, recv_set_data, Collection};
use crate::host::{
    ask_flag, ask_list, ask_number, ask_slot, ask_text, ask_value, chain, done, fail, halted, list1,
    list2, opt_view, raised, run_list, run_slot, run_value, Host, Interp, Op, PrimBrand, Run, Stop,
};
use crate::number::Num;
use crate::number_format::{this_of, this_or_undefined, unwrapped_run};
use crate::text::{chars_of, concat_text};
use crate::value::{
    arg, arg_at, clone_values, opt_text, views, ErrorKind, Kind, SymbolData, Val, Value,
};
use vstd::prelude::*;

verus! {

/// The collection that a method works on: the receiver, or what it keeps in its slot for one.
pub open spec fn this_collection(h: Host, pos: nat, recv: Option<Val>, c: Collection) -> Run<Option<Val>> {
    match this_of(recv) {
        Val::Ref(Kind::Instance, _) => chain(
            ask_slot(h, pos, Op::CollectionSlot, seq![this_of(recv)]),
            |s: Option<Val>, p: nat| done(collection_in(recv, s, c), p),
        ),
        Val::Ref(Kind::Obj, _) => chain(
            ask_slot(h, pos, Op::CollectionSlot, seq![this_of(recv)]),
            |s: Option<Val>, p: nat| done(collection_in(recv, s, c), p),
        ),
        _ => done(collection_in(recv, None, c), pos),
    }
}

/// The methods of maps.
pub open spec fn map_proto_run(h: Host, pos: nat, op: u64, recv: Option<Val>, args: Seq<Val>) -> Run<Val> {
    chain(
        this_collection(h, pos, recv, Collection::MapLike),
        |m: Option<Val>, p: nat|
            match m {
                Some(v) => ask_value(h, p, Op::MapMethod(op), seq![v] + args),
                None => raised(
                    ErrorKind::TypeError,
                    "Map.prototype method called on incompatible receiver"@,
                    p,
                ),
            },
    )
}

/// The methods of sets.
pub open spec fn set_proto_run(h: Host, pos: nat, op: u64, recv: Option<Val>, args: Seq<Val>) -> Run<Val> {
    chain(
        this_collection(h, pos, recv, Collection::SetLike),
        |m: Option<Val>, p: nat|
            match m {
                Some(v) => ask_value(h, p, Op::SetMethod(op), seq![v] + args),
                None => raised(
                    ErrorKind::TypeError,
                    "Set.prototype method called on incompatible receiver"@,
                    p,
                ),
            },
    )
}

pub open spec fn size_of(h: Host, pos: nat, v: Val) -> Run<Val> {
    chain(
        ask_number(h, pos, Op::CollectionSize, seq![v]),
        |n: Num, p: nat| done(Val::Num(n), p),
    )
}

/// `size` of a map.
pub open spec fn map_size_run(h: Host, pos: nat, recv: Option<Val>, args: Seq<Val>) -> Run<Val> {
    chain(
        this_collection(h, pos, recv, Collection::MapLike),
        |m: Option<Val>, p: nat|
            match m {
                Some(v) => size_of(h, p, v),
                None => raised(
                    ErrorKind::TypeError,
                    "get Map.prototype.size called on incompatible receiver"@,
                    p,
                ),
            },
    )
}

/// `size` of a set.
pub open spec fn set_size_run(h: Host, pos: nat, recv: Option<Val>, args: Seq<Val>) -> Run<Val> {
    chain(
        this_collection(h, pos, recv, Collection::SetLike),
        |m: Option<Val>, p: nat|
            match m {
                Some(v) => size_of(h, p, v),
                None => raised(
                    ErrorKind::TypeError,
                    "get Set.prototype.size called on incompatible receiver"@,
                    p,
                ),
            },
    )
}

/// `Map` called as a function: only where a class extends it.
pub open spec fn map_ctor_run(h: Host, pos: nat, recv: Option<Val>, args: Seq<Val>) -> Run<Val> {
    chain(
        ask_flag(h, pos, Op::HasNewTarget, Seq::empty()),
        |t: bool, p: nat|
            if t {
                ask_value(h, p, Op::MakeMap, args)
            } else {
                raised(ErrorKind::TypeError, "Constructor Map requires 'new'"@, p)
            },
    )
}

/// `Set` called as a function: only where a class extends it.
pub open spec fn set_ctor_run(h: Host, pos: nat, recv: Option<Val>, args: Seq<Val>) -> Run<Val> {
    chain(
        ask_flag(h, pos, Op::HasNewTarget, Seq::empty()),
        |t: bool, p: nat|
            if t {
                ask_value(h, p, Op::MakeSet, args)
            } else {
                raised(ErrorKind::TypeError, "Constructor Set requires 'new'"@, p)
            },
    )
}

/// `Error` and its kinds, called without `new`.
pub open spec fn error_ctor_run(
    h: Host,
    pos: nat,
    kind: ErrorKind,
    recv: Option<Val>,
    args: Seq<Val>,
) -> Run<Val> {
    chain(
        if arg(args, 0) is Undefined {
            done(Val::Undefined, pos)
        } else {
            chain(
                ask_text(h, pos, Op::Display, seq![arg(args, 0)]),
                |s: Seq<char>, p: nat| done(Val::Str(s), p),
            )
        },
        |message: Val, p0: nat|
            chain(
                ask_value(h, p0, Op::MakeError(kind), seq![message]),
                |e: Val, p1: nat|
                    chain(
                        ask_value(h, p1, Op::InstallCause, seq![e] + args),
                        |u: Val, p2: nat| done(e, p2),
                    ),
            ),
    )
}

pub open spec fn description(d: Option<Seq<char>>) -> Val {
    match d {
        Some(s) => Val::Str(s),
        None => Val::Undefined,
    }
}

/// `description` of a symbol or of an object that wraps one.
pub open spec fn symbol_desc_get_run(h: Host, pos: nat, recv: Option<Val>, args: Seq<Val>) -> Run<Val> {
    match this_of(recv) {
        Val::Symbol(_, d) => done(description(d), pos),
        v => chain(
            ask_slot(h, pos, Op::Wrapped, seq![v]),
            |s: Option<Val>, p: nat|
                match s {
                    Some(Val::Symbol(_, d)) => done(description(d), p),
                    _ => raised(
                        ErrorKind::TypeError,
                        "get Symbol.prototype.description called on incompatible receiver"@,
                        p,
                    ),
                },
        ),
    }
}

/// `valueOf` of the prototypes of wrapper objects.
pub open spec fn prim_value_of_run(
    h: Host,
    pos: nat,
    brand: PrimBrand,
    recv: Option<Val>,
    args: Seq<Val>,
) -> Run<Val> {
    ask_value(h, pos, Op::ThisPrimitive(brand), seq![this_of(recv)])
}

/// `valueOf` of any value.
pub open spec fn value_of_self_run(h: Host, pos: nat, recv: Option<Val>, args: Seq<Val>) -> Run<Val> {
    unwrapped_run(h, pos, this_of(recv))
}

/// The big integer that a value stands for, or none.
pub open spec fn as_big_int(h: Host, pos: nat, v: Val) -> Run<Option<Val>> {
    match v {
        Val::BigInt(_) => done(Some(v), pos),
        Val::Num(_) => ask_slot(h, pos, Op::BigIntOfNumber, seq![v]),
        Val::Bool(b) => done(
            Some(
                Val::BigInt(
                    if b {
                        "1"@
                    } else {
                        "0"@
                    },
                ),
            ),
            pos,
        ),
        Val::Str(_) => ask_slot(h, pos, Op::BigIntOfText, seq![v]),
        _ => done(None, pos),
    }
}

/// `BigInt`.
pub open spec fn big_int_ctor_run(h: Host, pos: nat, recv: Option<Val>, args: Seq<Val>) -> Run<Val> {
    chain(
        as_big_int(h, pos, arg(args, 0)),
        |b: Option<Val>, p: nat|
            match b {
                Some(v) => done(v, p),
                None => chain(
                    ask_text(h, p, Op::Display, seq![arg(args, 0)]),
                    |s: Seq<char>, q: nat|
                        raised(
                            ErrorKind::RangeError,
                            s + " 은(는) BigInt 로 변환할 수 없음"@,
                            q,
                        ),
                ),
            },
    )
}

/// The characters of a text, each as a text.
pub open spec fn single_chars(s: Seq<char>) -> Seq<Val> {
    Seq::new(s.len(), |i: int| Val::Str(seq![s[i]]))
}

/// Arrays of a key and a value each, from the `i`-th on.
pub open spec fn entry_rows(h: Host, pos: nat, l: Seq<Val>, i: int, out: Seq<Val>) -> Run<Seq<Val>>
    decreases l.len() - i,
{
    if !(0 <= i && i + 1 < l.len()) {
        done(out, pos)
    } else {
        let a = ask_value(h, pos, Op::NewArray, seq![l[i], l[i + 1]]);
        match a.out {
            Err(e) => halted(e, a.pos),
            Ok(row) => entry_rows(h, a.pos, l, i + 2, out.push(row)),
        }
    }
}

/// What iterating over a value gives.
pub open spec fn iterated_items(h: Host, pos: nat, v: Val) -> Run<Seq<Val>> {
    match v {
        Val::Ref(Kind::Arr, _) => ask_list(h, pos, Op::Elements, seq![v]),
        Val::Str(s) => done(single_chars(s), pos),
        Val::Ref(Kind::SetVal, _) => ask_list(h, pos, Op::SetItems, seq![v]),
        Val::Ref(Kind::MapVal, _) => chain(
            ask_list(h, pos, Op::MapEntries, seq![v]),
            |l: Seq<Val>, p: nat| entry_rows(h, p, l, 0, Seq::empty()),
        ),
        _ => done(Seq::empty(), pos),
    }
}

/// `@@iterator` of arrays, strings, sets and maps.
pub open spec fn make_iter_run(h: Host, pos: nat, recv: Option<Val>, args: Seq<Val>) -> Run<Val> {
    chain(
        iterated_items(h, pos, this_of(recv)),
        |l: Seq<Val>, p: nat| ask_value(h, p, Op::NewIterator, l),
    )
}

/// `Proxy` called without `new`.
pub open spec fn proxy_ctor_run(h: Host, pos: nat, recv: Option<Val>, args: Seq<Val>) -> Run<Val> {
    raised(ErrorKind::Error, "Proxy 는 new 로 생성해야 함"@, pos)
}

impl Interp {
    fn this_collection(&mut self, recv: &Option<Value>, c: Collection) -> (r: Result<Option<Value>, Stop>)
        requires
            old(self).wf(),
        ensures
            final(self).follows(*old(self)),
            run_slot(r, *final(self)) == this_collection(
                old(self).host(),
                old(self).pos as nat,
                opt_view(*recv),
                c,
            ),
    {
        let slot: Option<Value> = match recv {
            Some(Value::Ref(k, i)) => {
                if *k == Kind::Instance || *k == Kind::Obj {
                    self.ask_slot(Op::CollectionSlot, list1(Value::Ref(*k, *i)))?
                } else {
                    None
                }
            },
            _ => None,
        };
        match c {
            Collection::MapLike => Ok(recv_map_data(recv, &slot)),
            Collection::SetLike => Ok(recv_set_data(recv, &slot)),
        }
    }

    /// The methods of maps.
    pub fn map_proto(&mut self, op: u64, recv: &Option<Value>, args: &Vec<Value>) -> (r: Result<Value, Stop>)
        requires
            old(self).wf(),
        ensures
            final(self).follows(*old(self)),
            run_value(r, *final(self)) == map_proto_run(
                old(self).host(),
                old(self).pos as nat,
                op,
                opt_view(*recv),
                views(args@),
            ),
    {
        match self.this_collection(recv, Collection::MapLike)? {
            Some(v) => self.ask_value(Op::MapMethod(op), cat(list1(v), args)),
            None => Err(fail(ErrorKind::TypeError, "Map.prototype method called on incompatible receiver")),
        }
    }

    /// The methods of sets.
    pub fn set_proto(&mut self, op: u64, recv: &Option<Value>, args: &Vec<Value>) -> (r: Result<Value, Stop>)
        requires
            old(self).wf(),
        ensures
            final(self).follows(*old(self)),
            run_value(r, *final(self)) == set_proto_run(
                old(self).host(),
                old(self).pos as nat,
                op,
                opt_view(*recv),
                views(args@),
            ),
    {
        match self.this_collection(recv, Collection::SetLike)? {
            Some(v) => self.ask_value(Op::SetMethod(op), cat(list1(v), args)),
            None => Err(fail(ErrorKind::TypeError, "Set.prototype method called on incompatible receiver")),
        }
    }

    /// `size` of a map.
    pub fn map_size(&mut self, recv: &Option<Value>, args: &Vec<Value>) -> (r: Result<Value, Stop>)
        requires
            old(self).wf(),
        ensures
            final(self).follows(*old(self)),
            run_value(r, *final(self)) == map_size_run(
                old(self).host(),
                old(self).pos as nat,
                opt_view(*recv),
                views(args@),
            ),
    {
        match self.this_collection(recv, Collection::MapLike)? {
            Some(v) => {
                let n: Num = self.ask_number(Op::CollectionSize, list1(v))?;
                Ok(Value::Num(n))
            },
            None => Err(fail(ErrorKind::TypeError, "get Map.prototype.size called on incompatible receiver")),
        }
    }

    /// `size` of a set.
    pub fn set_size(&mut self, recv: &Option<Value>, args: &Vec<Value>) -> (r: Result<Value, Stop>)
        requires
            old(self).wf(),
        ensures
            final(self).follows(*old(self)),
            run_value(r, *final(self)) == set_size_run(
                old(self).host(),
                old(self).pos as nat,
                opt_view(*recv),
                views(args@),
            ),
    {
        match self.this_collection(recv, Collection::SetLike)? {
            Some(v) => {
                let n: Num = self.ask_number(Op::CollectionSize, list1(v))?;
                Ok(Value::Num(n))
            },
            None => Err(fail(ErrorKind::TypeError, "get Set.prototype.size called on incompatible receiver")),
        }
    }

    /// Called as a function: only where a class extends it.
    pub fn map_ctor(&mut self, recv: &Option<Value>, args: &Vec<Value>) -> (r: Result<Value, Stop>)
        requires
            old(self).wf(),
        ensures
            final(self).follows(*old(self)),
            run_value(r, *final(self)) == map_ctor_run(
                old(self).host(),
                old(self).pos as nat,
                opt_view(*recv),
                views(args@),
            ),
    {
        let none: Vec<Value> = empty_list();
        assert(views(none@) =~= Seq::empty());
        if self.ask_flag(Op::HasNewTarget, none)? {
            self.ask_value(Op::MakeMap, clone_values(args))
        } else {
            Err(fail(ErrorKind::TypeError, "Constructor Map requires 'new'"))
        }
    }

    /// Called as a function: only where a class extends it.
    pub fn set_ctor(&mut self, recv: &Option<Value>, args: &Vec<Value>) -> (r: Result<Value, Stop>)
        requires
            old(self).wf(),
        ensures
            final(self).follows(*old(self)),
            run_value(r, *final(self)) == set_ctor_run(
                old(self).host(),
                old(self).pos as nat,
                opt_view(*recv),
                views(args@),
            ),
    {
        let none: Vec<Value> = empty_list();
        assert(views(none@) =~= Seq::empty());
        if self.ask_flag(Op::HasNewTarget, none)? {
            self.ask_value(Op::MakeSet, clone_values(args))
        } else {
            Err(fail(ErrorKind::TypeError, "Constructor Set requires 'new'"))
        }
    }

    /// `Error` and its kinds, called without `new`.
    pub fn error_ctor(&mut self, kind: ErrorKind, recv: &Option<Value>, args: &Vec<Value>) -> (r: Result<Value, Stop>)
        requires
            old(self).wf(),
        ensures
            final(self).follows(*old(self)),
            run_value(r, *final(self)) == error_ctor_run(
                old(self).host(),
                old(self).pos as nat,
                kind,
                opt_view(*recv),
                views(args@),
            ),
    {
        let given: Value = arg_at(args, 0);
        let message: Value = if matches!(given, Value::Undefined) {
            Value::Undefined
        } else {
            let s: String = self.ask_text(Op::Display, list1(given))?;
            Value::Str(s)
        };
        let e: Value = self.ask_value(Op::MakeError(kind), list1(message))?;
        let u: Value = self.ask_value(Op::InstallCause, cat(list1(e.clone()), args))?;
        Ok(e)
    }

    /// `description` of a symbol or of an object that wraps one.
    pub fn symbol_desc_get(&mut self, recv: &Option<Value>, args: &Vec<Value>) -> (r: Result<Value, Stop>)
        requires
            old(self).wf(),
        ensures
            final(self).follows(*old(self)),
            run_value(r, *final(self)) == symbol_desc_get_run(
                old(self).host(),
                old(self).pos as nat,
                opt_view(*recv),
                views(args@),
            ),
    {
        match this_or_undefined(recv) {
            Value::Symbol(d) => Ok(text_of_description(&d)),
            v => {
                match self.ask_slot(Op::Wrapped, list1(v))? {
                    Some(Value::Symbol(d)) => Ok(text_of_description(&d)),
                    _ => Err(
                        fail(
                            ErrorKind::TypeError,
                            "get Symbol.prototype.description called on incompatible receiver",
                        ),
                    ),
                }
            },
        }
    }

    /// `valueOf` of the prototypes of wrapper objects.
    pub fn prim_value_of(&mut self, brand: PrimBrand, recv: &Option<Value>, args: &Vec<Value>) -> (r: Result<Value, Stop>)
        requires
            old(self).wf(),
        ensures
            final(self).follows(*old(self)),
            run_value(r, *final(self)) == prim_value_of_run(
                old(self).host(),
                old(self).pos as nat,
                brand,
                opt_view(*recv),
                views(args@),
            ),
    {
        self.ask_value(Op::ThisPrimitive(brand), list1(this_or_undefined(recv)))
    }

    /// `valueOf` of any value.
    pub fn value_of_self(&mut self, recv: &Option<Value>, args: &Vec<Value>) -> (r: Result<Value, Stop>)
        requires
            old(self).wf(),
        ensures
            final(self).follows(*old(self)),
            run_value(r, *final(self)) == value_of_self_run(
                old(self).host(),
                old(self).pos as nat,
                opt_view(*recv),
                views(args@),
            ),
    {
        self.wrapper_primitive(this_or_undefined(recv))
    }

    fn as_big_int(&mut self, v: &Value) -> (r: Result<Option<Value>, Stop>)
        requires
            old(self).wf(),
        ensures
            final(self).follows(*old(self)),
            run_slot(r, *final(self)) == as_big_int(
                old(self).host(),
                old(self).pos as nat,
                v@,
            ),
    {
        match v {
            Value::BigInt(_) => Ok(Some(v.clone())),
            Value::Num(_) => self.ask_slot(Op::BigIntOfNumber, list1(v.clone())),
            Value::Bool(b) => {
                let digit: &str = if *b {
                    "1"
                } else {
                    "0"
                };
                Ok(Some(Value::BigInt(digit.to_owned())))
            },
            Value::Str(_) => self.ask_slot(Op::BigIntOfText, list1(v.clone())),
            _ => Ok(None),
        }
    }

    /// `BigInt`.
    pub fn big_int_ctor(&mut self, recv: &Option<Value>, args: &Vec<Value>) -> (r: Result<Value, Stop>)
        requires
            old(self).wf(),
        ensures
            final(self).follows(*old(self)),
            run_value(r, *final(self)) == big_int_ctor_run(
                old(self).host(),
                old(self).pos as nat,
                opt_view(*recv),
                views(args@),
            ),
    {
        let v: Value = arg_at(args, 0);
        match self.as_big_int(&v)? {
            Some(b) => Ok(b),
            None => {
                let s: String = self.ask_text(Op::Display, list1(v))?;
                let m: String = concat_text(s.as_str(), " 은(는) BigInt 로 변환할 수 없음");
                Err(fail(ErrorKind::RangeError, m.as_str()))
            },
        }
    }

    #[verifier::loop_isolation(false)]
    fn entry_rows(&mut self, l: &Vec<Value>) -> (r: Result<Vec<Value>, Stop>)
        requires
            old(self).wf(),
        ensures
            final(self).follows(*old(self)),
            run_list(r, *final(self)) == entry_rows(
                old(self).host(),
                old(self).pos as nat,
                views(l@),
                0,
                Seq::empty(),
            ),
    {
        let ghost all = views(l@);
        let ghost goal = entry_rows(self.host(), self.pos as nat, all, 0, Seq::empty());
        let mut out: Vec<Value> = empty_list();
        assert(views(out@) =~= Seq::empty());
        let size: usize = l.len();
        let mut i: usize = 0;
        while i < size && size - i > 1
            invariant
                i <= size,
                size == l@.len(),
                self.follows(*old(self)),
                goal == entry_rows(self.host(), self.pos as nat, all, i as int, views(out@)),
            decreases size - i,
        {
            assert(all[i as int] == l@[i as int]@ && all[i + 1] == l@[i + 1]@);
            let ghost before = views(out@);
            let row: Value = self.ask_value(Op::NewArray, list2(l[i].clone(), l[i + 1].clone()))?;
            out.push(row);
            assert(views(out@) =~= before.push(row@));
            i = i + 2;
        }
        Ok(out)
    }

    fn iterated_items(&mut self, v: &Value) -> (r: Result<Vec<Value>, Stop>)
        requires
            old(self).wf(),
        ensures
            final(self).follows(*old(self)),
            run_list(r, *final(self)) == iterated_items(
                old(self).host(),
                old(self).pos as nat,
                v@,
            ),
    {
        match v {
            Value::Ref(Kind::Arr, _) => self.ask_list(Op::Elements, list1(v.clone())),
            Value::Str(s) => Ok(chars_as_values(s.as_str())),
            Value::Ref(Kind::SetVal, _) => self.ask_list(Op::SetItems, list1(v.clone())),
            Value::Ref(Kind::MapVal, _) => {
                let l: Vec<Value> = self.ask_list(Op::MapEntries, list1(v.clone()))?;
                self.entry_rows(&l)
            },
            _ => {
                let none: Vec<Value> = empty_list();
                assert(views(none@) =~= Seq::empty());
                Ok(none)
            },
        }
    }

    /// `@@iterator` of arrays, strings, sets and maps.
    pub fn make_iter(&mut self, recv: &Option<Value>, args: &Vec<Value>) -> (r: Result<Value, Stop>)
        requires
            old(self).wf(),
        ensures
            final(self).follows(*old(self)),
            run_value(r, *final(self)) == make_iter_run(
                old(self).host(),
                old(self).pos as nat,
                opt_view(*recv),
                views(args@),
            ),
    {
        let l: Vec<Value> = self.iterated_items(&this_or_undefined(recv))?;
        self.ask_value(Op::NewIterator, l)
    }

    /// `Proxy` called without `new`.
    pub fn proxy_ctor(&mut self, recv: &Option<Value>, args: &Vec<Value>) -> (r: Result<Value, Stop>)
        requires
            old(self).wf(),
        ensures
            final(self).follows(*old(self)),
            run_value(r, *final(self)) == proxy_ctor_run(
                old(self).host(),
                old(self).pos as nat,
                opt_view(*recv),
                views(args@),
            ),
    {
        Err(fail(ErrorKind::Error, "Proxy 는 new 로 생성해야 함"))
    }
}

fn text_of_description(d: &SymbolData) -> (r: Value)
    ensures
        r@ == description(opt_text(d.desc)),
{
    match &d.desc {
        Some(s) => Value::Str(s.clone()),
        None => Value::Undefined,
    }
}

fn chars_as_values(s: &str) -> (r: Vec<Value>)
    ensures
        views(r@) == single_chars(s@),
{
    let cs: Vec<char> = chars_of(s);
    let mut out: Vec<Value> = empty_list();
    let mut i: usize = 0;
    assert(views(out@) =~= single_chars(s@).take(0));
    while i < cs.len()
        invariant
            i <= cs@.len(),
            cs@ == s@,
            views(out@) == single_chars(s@).take(i as int),
        decreases cs@.len() - i,
    {
        let ghost before = views(out@);
        let t: String = crate::text::string_of_range(&cs, i, i + 1);
        assert(t@ =~= seq![s@[i as int]]);
        out.push(Value::Str(t));
        assert(views(out@) =~= before.push(single_chars(s@)[i as int]));
        i = i + 1;
        assert(views(out@) =~= single_chars(s@).take(i as int));
    }
    assert(single_chars(s@).take(i as int) =~= single_chars(s@));
    out
}

} // verus!
