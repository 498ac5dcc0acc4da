//! Array methods that read their receiver anew at every index.
//!
//! A callback or a getter may change the array while it is walked. So nothing is copied up front:
//! the length is read once, and every element is looked up when its turn comes.
use crate::host::{
    ask_flag, ask_number, ask_slot, ask_value, done, get, halted, has, list1, list2, run_plain,
    run_slot, text_value, Host, Interp, Intrinsic, Op, Run, Stop,
};
use crate::number::{length_of, num_of, to_length, MAX_SAFE, Num};
use crate::text::{decimal, decimal_text};
use crate::value::{views, Kind, Val, Value};
use vstd::prelude::*;

verus! {

/// The array methods.
#[derive(Clone, Copy, Debug, PartialEq, Eq, Structural)]
pub enum ArrOp {
    ArrToString,
    At,
    Concat,
    Entries,
    Every,
    Fill,
    Filter,
    Find,
    FindIndex,
    FindLast,
    FindLastIndex,
    Flat,
    FlatMap,
    ForEach,
    Includes,
    IndexOf,
    Join,
    Keys,
    MapEach,
    Pop,
    Reduce,
    ReduceRight,
    Reverse,
    Shift,
    Slice,
    SomeOf,
    Sort,
    Splice,
    ToSpliced,
    Unshift,
    Values,
    With,
}

/// The methods that change an array-like receiver in place.
pub open spec fn mutating(op: ArrOp) -> bool {
    op == ArrOp::Pop || op == ArrOp::Splice || op == ArrOp::Shift || op == ArrOp::Unshift || op
        == ArrOp::Reverse || op == ArrOp::Sort || op == ArrOp::Fill
}

pub fn is_mutating_arr_op(op: ArrOp) -> (r: bool)
    ensures
        r == mutating(op),
{
    match op {
        ArrOp::Pop
        | ArrOp::Splice
        | ArrOp::Shift
        | ArrOp::Unshift
        | ArrOp::Reverse
        | ArrOp::Sort
        | ArrOp::Fill => true,
        _ => false,
    }
}

pub open spec fn is_array(o: Val) -> bool {
    o matches Val::Ref(k, _) && k == Kind::Arr
}

pub fn is_array_ref(o: &Value) -> (r: bool)
    ensures
        r == is_array(o@),
{
    match o {
        Value::Ref(k, _) => *k == Kind::Arr,
        _ => false,
    }
}

pub open spec fn is_plain(o: Val) -> bool {
    o matches Val::Ref(k, _) && k == Kind::Obj
}

pub fn is_plain_ref(o: &Value) -> (r: bool)
    ensures
        r == is_plain(o@),
{
    match o {
        Value::Ref(k, _) => *k == Kind::Obj,
        _ => false,
    }
}

/// The number of elements in a list, as a number. No list in memory is longer than the largest safe
/// integer.
pub open spec fn count_num(n: nat) -> Num {
    if n <= MAX_SAFE {
        num_of(n as int)
    } else {
        num_of(MAX_SAFE as int)
    }
}

pub fn count_as_num(n: usize) -> (r: Num)
    ensures
        r == count_num(n as nat),
{
    if n as u64 <= MAX_SAFE {
        Num::from_u64(n as u64)
    } else {
        Num::from_u64(MAX_SAFE)
    }
}

/// LengthOfArrayLike(o) for anything but an array: ToLength(ToNumber(Get(o, "length"))).
pub open spec fn generic_length(h: Host, pos: nat, o: Val) -> Run<nat> {
    let l = get(h, pos, o, "length"@);
    match l.out {
        Err(e) => halted(e, l.pos),
        Ok(v) => {
            let n = ask_number(h, l.pos, Op::ToNumber, seq![v]);
            match n.out {
                Err(e) => halted(e, n.pos),
                Ok(x) => done(length_of(x), n.pos),
            }
        },
    }
}

/// The length of an array, or of an array-like object.
pub open spec fn live_length(h: Host, pos: nat, o: Val) -> Run<nat> {
    if is_array(o) {
        let n = ask_number(h, pos, Op::ArrayLen, seq![o]);
        match n.out {
            Err(e) => halted(e, n.pos),
            Ok(x) => done(length_of(x), n.pos),
        }
    } else {
        generic_length(h, pos, o)
    }
}

/// Whether `Array.prototype` has the property.
pub open spec fn inherited(h: Host, pos: nat, key: Seq<char>) -> Run<bool> {
    let ns = ask_value(h, pos, Op::Intrinsic(Intrinsic::Array), Seq::empty());
    match ns.out {
        Err(e) => halted(e, ns.pos),
        Ok(a) => {
            let p = get(h, ns.pos, a, "prototype"@);
            match p.out {
                Err(e) => halted(e, p.pos),
                Ok(proto) => has(h, p.pos, proto, key),
            }
        },
    }
}

/// What a read of a hole at `key` gives: an own property that was defined there or one that
/// `Array.prototype` has, and nothing where there is neither.
pub open spec fn through_hole(h: Host, pos: nat, o: Val, key: Seq<char>) -> Run<Option<Val>> {
    let i = inherited(h, pos, key);
    match i.out {
        Err(e) => halted(e, i.pos),
        Ok(inh) => {
            let s = ask_slot(h, i.pos, Op::OwnSlot, seq![o, Val::Str(key)]);
            match s.out {
                Err(e) => halted(e, s.pos),
                Ok(slot) => {
                    if slot is Some || inh {
                        some_of(get(h, s.pos, o, key))
                    } else {
                        done(None, s.pos)
                    }
                },
            }
        },
    }
}

/// The run that wraps its value.
pub open spec fn some_of(r: Run<Val>) -> Run<Option<Val>> {
    match r.out {
        Ok(v) => done(Some(v), r.pos),
        Err(e) => halted(e, r.pos),
    }
}

/// The element at `k`, or nothing where the object has no such property.
pub open spec fn live_get(h: Host, pos: nat, o: Val, k: nat) -> Run<Option<Val>> {
    let key = decimal(k);
    if is_array(o) {
        let p = ask_flag(h, pos, Op::ArrayPresent, seq![o, Val::Str(key)]);
        match p.out {
            Err(e) => halted(e, p.pos),
            Ok(present) => {
                if present {
                    some_of(get(h, p.pos, o, key))
                } else {
                    through_hole(h, p.pos, o, key)
                }
            },
        }
    } else {
        let p = has(h, pos, o, key);
        match p.out {
            Err(e) => halted(e, p.pos),
            Ok(present) => {
                if present {
                    some_of(get(h, p.pos, o, key))
                } else {
                    done(None, p.pos)
                }
            },
        }
    }
}

impl Interp {
    pub fn generic_length(&mut self, o: &Value) -> (r: Result<u64, Stop>)
        requires
            old(self).wf(),
        ensures
            final(self).follows(*old(self)),
            length_run(r, *final(self)) == generic_length(
                old(self).host(),
                old(self).pos as nat,
                o@,
            ),
            r matches Ok(n) ==> n <= MAX_SAFE,
    {
        let l: Value = self.member_get(o, "length")?;
        let n: Num = self.ask_number(Op::ToNumber, list1(l))?;
        Ok(to_length(n))
    }

    pub fn live_length(&mut self, o: &Value) -> (r: Result<u64, Stop>)
        requires
            old(self).wf(),
        ensures
            final(self).follows(*old(self)),
            length_run(r, *final(self)) == live_length(old(self).host(), old(self).pos as nat, o@),
            r matches Ok(n) ==> n <= MAX_SAFE,
    {
        if is_array_ref(o) {
            let n: Num = self.ask_number(Op::ArrayLen, list1(o.clone()))?;
            Ok(to_length(n))
        } else {
            self.generic_length(o)
        }
    }

    pub fn inherited(&mut self, key: &str) -> (r: Result<bool, Stop>)
        requires
            old(self).wf(),
        ensures
            final(self).follows(*old(self)),
            run_plain(r, *final(self)) == inherited(old(self).host(), old(self).pos as nat, key@),
    {
        let none: Vec<Value> = Vec::new();
        assert(views(none@) =~= Seq::empty());
        let ns: Value = self.ask_value(Op::Intrinsic(Intrinsic::Array), none)?;
        let proto: Value = self.member_get(&ns, "prototype")?;
        self.has_property(&proto, key)
    }

    pub fn through_hole(&mut self, o: &Value, key: &str) -> (r: Result<Option<Value>, Stop>)
        requires
            old(self).wf(),
        ensures
            final(self).follows(*old(self)),
            run_slot(r, *final(self)) == through_hole(
                old(self).host(),
                old(self).pos as nat,
                o@,
                key@,
            ),
    {
        let inh: bool = self.inherited(key)?;
        let slot: Option<Value> = self.ask_slot(Op::OwnSlot, list2(o.clone(), text_value(key)))?;
        if slot.is_some() || inh {
            Ok(Some(self.member_get(o, key)?))
        } else {
            Ok(None)
        }
    }

    /// The element at `k`, own or inherited, or nothing where there is none.
    pub fn array_like_live_get(&mut self, o: &Value, k: u64) -> (r: Result<Option<Value>, Stop>)
        requires
            old(self).wf(),
        ensures
            final(self).follows(*old(self)),
            run_slot(r, *final(self)) == live_get(
                old(self).host(),
                old(self).pos as nat,
                o@,
                k as nat,
            ),
    {
        let key: String = decimal_text(k);
        if is_array_ref(o) {
            let present: bool = self.ask_flag(
                Op::ArrayPresent,
                list2(o.clone(), text_value(key.as_str())),
            )?;
            if present {
                Ok(Some(self.member_get(o, key.as_str())?))
            } else {
                self.through_hole(o, key.as_str())
            }
        } else if self.has_property(o, key.as_str())? {
            Ok(Some(self.member_get(o, key.as_str())?))
        } else {
            Ok(None)
        }
    }
}

pub open spec fn length_run(r: Result<u64, Stop>, it: Interp) -> Run<nat> {
    match r {
        Ok(n) => done(n as nat, it.pos as nat),
        Err(e) => halted(e@, it.pos as nat),
    }
}

} // verus!
