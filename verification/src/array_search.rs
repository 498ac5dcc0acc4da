//! `indexOf`, `lastIndexOf` and `includes`.
use crate::array_iter::{huge_indices, law_indices_among, opt_arg};
use crate::array_live::{live_get, live_length};
use crate::host::{
    ask_list, ask_number, done, get, halted, has, list1, run_plain, run_value, settles, Halt, Host,
    Interp, Op, Run, Stop,
};
use crate::number::{num_of, MAX_ARRAY_LEN, MAX_SAFE, Num};
use crate::text::{decimal, decimal_text};
use crate::value::{
    arg, arg_at, same_value_zero, same_zero, strict_eq, strictly_equal, views, Val, Value,
};
use vstd::prelude::*;

verus! {

/// An integer, or an infinity.
#[derive(Clone, Copy, Debug, PartialEq, Eq, Structural)]
pub enum Offset {
    NegInfinity,
    /// An integer that is at least zero; one above `u64::MAX` counts as that.
    Forward(u64),
    /// The absolute value, above zero, of a negative integer; one above `u64::MAX` counts as that.
    Backward(u64),
    PosInfinity,
}

pub open spec fn capped(n: nat) -> u64 {
    if n <= u64::MAX {
        n as u64
    } else {
        u64::MAX
    }
}

/// The offset that an integral number or an infinity gives.
pub open spec fn offset_of(n: Num) -> Offset {
    if n.nan() {
        Offset::Forward(0)
    } else if !n.finite() {
        if n.negative() {
            Offset::NegInfinity
        } else {
            Offset::PosInfinity
        }
    } else if n.negative() && n.magnitude() > 0 {
        Offset::Backward(capped(n.magnitude()))
    } else {
        Offset::Forward(capped(n.magnitude()))
    }
}

pub fn to_offset(n: Num) -> (r: Offset)
    ensures
        r == offset_of(n),
{
    if n.is_nan() {
        Offset::Forward(0)
    } else if !n.is_finite() {
        if n.is_negative() {
            Offset::NegInfinity
        } else {
            Offset::PosInfinity
        }
    } else {
        let w: u64 = n.whole();
        if n.is_negative() && w > 0 {
            Offset::Backward(w)
        } else {
            Offset::Forward(w)
        }
    }
}

/// Where a forward search through `len` elements starts, if it has anything to look at: an
/// offset counts from the front, a negative one from the end.
pub open spec fn forward_start(at: Offset, len: nat) -> Option<nat> {
    match at {
        Offset::PosInfinity => None,
        Offset::NegInfinity => Some(0),
        Offset::Forward(n) => Some(n as nat),
        Offset::Backward(n) => Some(
            if n <= len {
                (len - n) as nat
            } else {
                0
            },
        ),
    }
}

/// Where a backward search through `len` elements starts, if it has anything to look at.
pub open spec fn backward_start(at: Offset, len: nat) -> Option<nat>
    recommends
        len > 0,
{
    match at {
        Offset::NegInfinity => None,
        Offset::PosInfinity => Some((len - 1) as nat),
        Offset::Forward(n) => Some(
            if n < len {
                n as nat
            } else {
                (len - 1) as nat
            },
        ),
        Offset::Backward(n) => if 0 < n <= len {
            Some((len - n) as nat)
        } else {
            None
        },
    }
}

pub fn forward_start_at(at: Offset, len: u64) -> (r: Option<u64>)
    ensures
        r is Some <==> forward_start(at, len as nat) is Some,
        r matches Some(s) ==> s as nat == forward_start(at, len as nat)->0,
{
    match at {
        Offset::PosInfinity => None,
        Offset::NegInfinity => Some(0),
        Offset::Forward(n) => Some(n),
        Offset::Backward(n) => Some(
            if n <= len {
                len - n
            } else {
                0
            },
        ),
    }
}

pub fn backward_start_at(at: Offset, len: u64) -> (r: Option<u64>)
    requires
        len > 0,
    ensures
        r is Some <==> backward_start(at, len as nat) is Some,
        r matches Some(s) ==> s as nat == backward_start(at, len as nat)->0 && s < len,
{
    match at {
        Offset::NegInfinity => None,
        Offset::PosInfinity => Some(len - 1),
        Offset::Forward(n) => Some(
            if n < len {
                n
            } else {
                len - 1
            },
        ),
        Offset::Backward(n) => if 0 < n && n <= len {
            Some(len - n)
        } else {
            None
        },
    }
}

/// The start offset that the second argument asks for; `none` where it is missing or undefined.
pub open spec fn offset_arg(h: Host, pos: nat, args: Seq<Val>, none: Offset) -> Run<Offset> {
    match opt_arg(args, 1) {
        None => done(none, pos),
        Some(Val::Undefined) => done(none, pos),
        Some(v) => {
            let n = ask_number(h, pos, Op::ToInteger, seq![v]);
            match n.out {
                Err(e) => halted(e, n.pos),
                Ok(x) => done(offset_of(x), n.pos),
            }
        },
    }
}

/// The index that a search has found, or `-1`.
pub open spec fn index_value(i: Option<nat>) -> Val {
    match i {
        Some(k) => Val::Num(num_of(k as int)),
        None => Val::Num(num_of(-1)),
    }
}

/// The least index at or above `k` and below `n` whose element is `needle`.
pub open spec fn search_up(h: Host, pos: nat, o: Val, needle: Val, k: nat, n: nat) -> Run<Option<nat>>
    decreases n - k,
{
    if k >= n {
        done(None, pos)
    } else {
        let g = live_get(h, pos, o, k);
        match g.out {
            Err(e) => halted(e, g.pos),
            Ok(Some(v)) => {
                if strictly_equal(v, needle) {
                    done(Some(k), g.pos)
                } else {
                    search_up(h, g.pos, o, needle, k + 1, n)
                }
            },
            Ok(None) => search_up(h, g.pos, o, needle, k + 1, n),
        }
    }
}

/// The greatest index below `k` whose element is `needle`.
pub open spec fn search_down(h: Host, pos: nat, o: Val, needle: Val, k: nat) -> Run<Option<nat>>
    decreases k,
{
    if k == 0 {
        done(None, pos)
    } else {
        let i = (k - 1) as nat;
        let g = live_get(h, pos, o, i);
        match g.out {
            Err(e) => halted(e, g.pos),
            Ok(Some(v)) => {
                if strictly_equal(v, needle) {
                    done(Some(i), g.pos)
                } else {
                    search_down(h, g.pos, o, needle, i)
                }
            },
            Ok(None) => search_down(h, g.pos, o, needle, i),
        }
    }
}

/// A search through the own indices of a huge array-like object, from the `j`-th on in the
/// direction of the search; those before the start are passed over.
pub open spec fn search_keys(
    h: Host,
    pos: nat,
    reverse: bool,
    o: Val,
    needle: Val,
    start: nat,
    keys: Seq<u64>,
    j: int,
) -> Run<Option<nat>>
    decreases keys.len() - j,
{
    if !(0 <= j < keys.len()) {
        done(None, pos)
    } else {
        let k = if reverse {
            keys[keys.len() - 1 - j] as nat
        } else {
            keys[j] as nat
        };
        if (!reverse && k < start) || (reverse && k > start) {
            search_keys(h, pos, reverse, o, needle, start, keys, j + 1)
        } else {
            let p = has(h, pos, o, decimal(k));
            match p.out {
                Err(e) => halted(e, p.pos),
                Ok(false) => search_keys(h, p.pos, reverse, o, needle, start, keys, j + 1),
                Ok(true) => {
                    let g = get(h, p.pos, o, decimal(k));
                    match g.out {
                        Err(e) => halted(e, g.pos),
                        Ok(v) => {
                            if strictly_equal(v, needle) {
                                done(Some(k), g.pos)
                            } else {
                                search_keys(h, g.pos, reverse, o, needle, start, keys, j + 1)
                            }
                        },
                    }
                },
            }
        }
    }
}

pub open spec fn index_run(r: Run<Option<nat>>) -> Run<Val> {
    match r.out {
        Ok(i) => done(index_value(i), r.pos),
        Err(e) => halted(e, r.pos),
    }
}

/// `indexOf`, or `lastIndexOf` where `reverse` is set.
pub open spec fn index_search(h: Host, pos: nat, reverse: bool, o: Val, args: Seq<Val>) -> Run<Val> {
    let needle = arg(args, 0);
    let l = live_length(h, pos, o);
    match l.out {
        Err(e) => halted(e, l.pos),
        Ok(len) => {
            if len == 0 {
                done(index_value(None), l.pos)
            } else {
                let a = offset_arg(
                    h,
                    l.pos,
                    args,
                    if reverse {
                        Offset::PosInfinity
                    } else {
                        Offset::Forward(0)
                    },
                );
                match a.out {
                    Err(e) => halted(e, a.pos),
                    Ok(at) => {
                        let start = if reverse {
                            backward_start(at, len)
                        } else {
                            forward_start(at, len)
                        };
                        match start {
                            None => done(index_value(None), a.pos),
                            Some(s) => {
                                if len > MAX_ARRAY_LEN {
                                    let ks = huge_indices(h, a.pos, o, len);
                                    match ks.out {
                                        Err(e) => halted(e, ks.pos),
                                        Ok(keys) => index_run(
                                            search_keys(h, ks.pos, reverse, o, needle, s, keys, 0),
                                        ),
                                    }
                                } else if reverse {
                                    index_run(search_down(h, a.pos, o, needle, s + 1))
                                } else {
                                    index_run(search_up(h, a.pos, o, needle, s, len))
                                }
                            },
                        }
                    },
                }
            }
        },
    }
}

/// Whether an element at an index of `k..n` is `needle`; every index is read, also a hole.
pub open spec fn includes_up(h: Host, pos: nat, o: Val, needle: Val, k: nat, n: nat) -> Run<bool>
    decreases n - k,
{
    if k >= n {
        done(false, pos)
    } else {
        let g = get(h, pos, o, decimal(k));
        match g.out {
            Err(e) => halted(e, g.pos),
            Ok(v) => {
                if same_zero(v, needle) {
                    done(true, g.pos)
                } else {
                    includes_up(h, g.pos, o, needle, k + 1, n)
                }
            },
        }
    }
}

/// Whether an element at one of the own indices from the `j`-th on and at or above `start` is
/// `needle`.
pub open spec fn includes_keys(
    h: Host,
    pos: nat,
    o: Val,
    needle: Val,
    start: nat,
    keys: Seq<u64>,
    j: int,
) -> Run<bool>
    decreases keys.len() - j,
{
    if !(0 <= j < keys.len()) {
        done(false, pos)
    } else {
        let k = keys[j] as nat;
        if k < start {
            includes_keys(h, pos, o, needle, start, keys, j + 1)
        } else {
            let g = get(h, pos, o, decimal(k));
            match g.out {
                Err(e) => halted(e, g.pos),
                Ok(v) => {
                    if same_zero(v, needle) {
                        done(true, g.pos)
                    } else {
                        includes_keys(h, g.pos, o, needle, start, keys, j + 1)
                    }
                },
            }
        }
    }
}

pub open spec fn bool_run(r: Run<bool>) -> Run<Val> {
    match r.out {
        Ok(b) => done(Val::Bool(b), r.pos),
        Err(e) => halted(e, r.pos),
    }
}

/// `includes`. A huge array-like object has an absent index, so it includes undefined.
pub open spec fn includes(h: Host, pos: nat, o: Val, args: Seq<Val>) -> Run<Val> {
    let needle = arg(args, 0);
    let l = live_length(h, pos, o);
    match l.out {
        Err(e) => halted(e, l.pos),
        Ok(len) => {
            if len == 0 {
                done(Val::Bool(false), l.pos)
            } else {
                let a = offset_arg(h, l.pos, args, Offset::Forward(0));
                match a.out {
                    Err(e) => halted(e, a.pos),
                    Ok(at) => match forward_start(at, len) {
                        None => done(Val::Bool(false), a.pos),
                        Some(s) => {
                            if len > MAX_ARRAY_LEN {
                                if s < len && needle == Val::Undefined {
                                    done(Val::Bool(true), a.pos)
                                } else {
                                    let ks = huge_indices(h, a.pos, o, len);
                                    match ks.out {
                                        Err(e) => halted(e, ks.pos),
                                        Ok(keys) => bool_run(
                                            includes_keys(h, ks.pos, o, needle, s, keys, 0),
                                        ),
                                    }
                                }
                            } else {
                                bool_run(includes_up(h, a.pos, o, needle, s, len))
                            }
                        },
                    },
                }
            }
        },
    }
}

spec fn found(r: Result<Option<u64>, Stop>, it: Interp) -> Run<Option<nat>> {
    match r {
        Ok(Some(k)) => done(Some(k as nat), it.pos as nat),
        Ok(None) => done(None, it.pos as nat),
        Err(e) => halted(e@, it.pos as nat),
    }
}

fn index_value_of(i: Option<u64>) -> (r: Value)
    requires
        i matches Some(k) ==> k <= MAX_SAFE,
    ensures
        r@ == index_value(
            match i {
                Some(k) => Some(k as nat),
                None => None,
            },
        ),
{
    match i {
        Some(k) => Value::Num(Num::from_u64(k)),
        None => Value::Num(Num::from_i64(-1)),
    }
}

impl Interp {
    pub fn offset_arg(&mut self, args: &Vec<Value>, none: Offset) -> (r: Result<Offset, Stop>)
        requires
            old(self).wf(),
        ensures
            final(self).follows(*old(self)),
            run_plain(r, *final(self)) == offset_arg(
                old(self).host(),
                old(self).pos as nat,
                views(args@),
                none,
            ),
    {
        if args.len() <= 1 {
            return Ok(none);
        }
        match &args[1] {
            Value::Undefined => Ok(none),
            v => {
                let n: Num = self.ask_number(Op::ToInteger, list1(v.clone()))?;
                Ok(to_offset(n))
            },
        }
    }

    #[verifier::loop_isolation(false)]
    fn search_up(&mut self, o: &Value, needle: &Value, start: u64, n: u64) -> (r: Result<
        Option<u64>,
        Stop,
    >)
        requires
            old(self).wf(),
            n <= MAX_SAFE,
        ensures
            final(self).follows(*old(self)),
            found(r, *final(self)) == search_up(
                old(self).host(),
                old(self).pos as nat,
                o@,
                needle@,
                start as nat,
                n as nat,
            ),
            r matches Ok(Some(k)) ==> k < n,
    {
        let ghost goal = search_up(
            self.host(),
            self.pos as nat,
            o@,
            needle@,
            start as nat,
            n as nat,
        );
        let mut k: u64 = start;
        while k < n
            invariant
                self.follows(*old(self)),
                goal == search_up(self.host(), self.pos as nat, o@, needle@, k as nat, n as nat),
            decreases n - k,
        {
            match self.array_like_live_get(o, k)? {
                Some(v) => {
                    if strict_eq(&v, needle) {
                        return Ok(Some(k));
                    }
                },
                None => {},
            }
            k = k + 1;
        }
        Ok(None)
    }

    #[verifier::loop_isolation(false)]
    fn search_down(&mut self, o: &Value, needle: &Value, start: u64) -> (r: Result<
        Option<u64>,
        Stop,
    >)
        requires
            old(self).wf(),
        ensures
            final(self).follows(*old(self)),
            found(r, *final(self)) == search_down(
                old(self).host(),
                old(self).pos as nat,
                o@,
                needle@,
                start as nat,
            ),
            r matches Ok(Some(k)) ==> k < start,
    {
        let ghost goal = search_down(self.host(), self.pos as nat, o@, needle@, start as nat);
        let mut k: u64 = start;
        while k > 0
            invariant
                k <= start,
                self.follows(*old(self)),
                goal == search_down(self.host(), self.pos as nat, o@, needle@, k as nat),
            decreases k,
        {
            let i: u64 = k - 1;
            match self.array_like_live_get(o, i)? {
                Some(v) => {
                    if strict_eq(&v, needle) {
                        return Ok(Some(i));
                    }
                },
                None => {},
            }
            k = i;
        }
        Ok(None)
    }

    #[verifier::loop_isolation(false)]
    fn search_keys(
        &mut self,
        reverse: bool,
        o: &Value,
        needle: &Value,
        start: u64,
        keys: &Vec<u64>,
    ) -> (r: Result<Option<u64>, Stop>)
        requires
            old(self).wf(),
        ensures
            final(self).follows(*old(self)),
            found(r, *final(self)) == search_keys(
                old(self).host(),
                old(self).pos as nat,
                reverse,
                o@,
                needle@,
                start as nat,
                keys@,
                0,
            ),
            r matches Ok(Some(k)) ==> keys@.contains(k),
    {
        let ghost goal = search_keys(
            self.host(),
            self.pos as nat,
            reverse,
            o@,
            needle@,
            start as nat,
            keys@,
            0,
        );
        let mut j: usize = 0;
        while j < keys.len()
            invariant
                j <= keys@.len(),
                self.follows(*old(self)),
                goal == search_keys(
                    self.host(),
                    self.pos as nat,
                    reverse,
                    o@,
                    needle@,
                    start as nat,
                    keys@,
                    j as int,
                ),
            decreases keys@.len() - j,
        {
            let k: u64 = if reverse {
                keys[keys.len() - 1 - j]
            } else {
                keys[j]
            };
            assert(keys@.contains(k));
            let passed: bool = (!reverse && k < start) || (reverse && k > start);
            if !passed {
                let key: String = decimal_text(k);
                if self.has_property(o, key.as_str())? {
                    let v: Value = self.member_get(o, key.as_str())?;
                    if strict_eq(&v, needle) {
                        return Ok(Some(k));
                    }
                }
            }
            j = j + 1;
        }
        Ok(None)
    }

    /// `indexOf`, or `lastIndexOf` where `reverse` is set.
    pub fn array_index_search_live(&mut self, reverse: bool, o: &Value, args: &Vec<Value>) -> (r:
        Result<Value, Stop>)
        requires
            old(self).wf(),
        ensures
            final(self).follows(*old(self)),
            run_value(r, *final(self)) == index_search(
                old(self).host(),
                old(self).pos as nat,
                reverse,
                o@,
                views(args@),
            ),
    {
        let needle: Value = arg_at(args, 0);
        let len: u64 = self.live_length(o)?;
        if len == 0 {
            return Ok(index_value_of(None));
        }
        let none: Offset = if reverse {
            Offset::PosInfinity
        } else {
            Offset::Forward(0)
        };
        let at: Offset = self.offset_arg(args, none)?;
        let start: Option<u64> = if reverse {
            backward_start_at(at, len)
        } else {
            forward_start_at(at, len)
        };
        let start: u64 = match start {
            None => {
                return Ok(index_value_of(None));
            },
            Some(s) => s,
        };
        if len > MAX_ARRAY_LEN {
            let ghost h = self.host();
            let ghost p = self.pos as nat;
            let keys: Vec<u64> = self.huge_indices(o, len)?;
            let i: Option<u64> = self.search_keys(reverse, o, &needle, start, &keys)?;
            proof {
                if let Some(k) = i {
                    lemma_huge_member(h, p, o@, len as nat, keys@, k);
                }
            }
            Ok(index_value_of(i))
        } else if reverse {
            let i: Option<u64> = self.search_down(o, &needle, start + 1)?;
            Ok(index_value_of(i))
        } else {
            let i: Option<u64> = self.search_up(o, &needle, start, len)?;
            Ok(index_value_of(i))
        }
    }

    #[verifier::loop_isolation(false)]
    fn includes_up(&mut self, o: &Value, needle: &Value, start: u64, n: u64) -> (r: Result<bool, Stop>)
        requires
            old(self).wf(),
        ensures
            final(self).follows(*old(self)),
            run_plain(r, *final(self)) == includes_up(
                old(self).host(),
                old(self).pos as nat,
                o@,
                needle@,
                start as nat,
                n as nat,
            ),
    {
        let ghost goal = includes_up(
            self.host(),
            self.pos as nat,
            o@,
            needle@,
            start as nat,
            n as nat,
        );
        let mut k: u64 = start;
        while k < n
            invariant
                self.follows(*old(self)),
                goal == includes_up(self.host(), self.pos as nat, o@, needle@, k as nat, n as nat),
            decreases n - k,
        {
            let key: String = decimal_text(k);
            let v: Value = self.member_get(o, key.as_str())?;
            if same_value_zero(&v, needle) {
                return Ok(true);
            }
            k = k + 1;
        }
        Ok(false)
    }

    #[verifier::loop_isolation(false)]
    fn includes_keys(&mut self, o: &Value, needle: &Value, start: u64, keys: &Vec<u64>) -> (r: Result<
        bool,
        Stop,
    >)
        requires
            old(self).wf(),
        ensures
            final(self).follows(*old(self)),
            run_plain(r, *final(self)) == includes_keys(
                old(self).host(),
                old(self).pos as nat,
                o@,
                needle@,
                start as nat,
                keys@,
                0,
            ),
    {
        let ghost goal = includes_keys(
            self.host(),
            self.pos as nat,
            o@,
            needle@,
            start as nat,
            keys@,
            0,
        );
        let mut j: usize = 0;
        while j < keys.len()
            invariant
                j <= keys@.len(),
                self.follows(*old(self)),
                goal == includes_keys(
                    self.host(),
                    self.pos as nat,
                    o@,
                    needle@,
                    start as nat,
                    keys@,
                    j as int,
                ),
            decreases keys@.len() - j,
        {
            let k: u64 = keys[j];
            if k >= start {
                let key: String = decimal_text(k);
                let v: Value = self.member_get(o, key.as_str())?;
                if same_value_zero(&v, needle) {
                    return Ok(true);
                }
            }
            j = j + 1;
        }
        Ok(false)
    }

    /// `includes`.
    pub fn array_includes_live(&mut self, o: &Value, args: &Vec<Value>) -> (r: Result<Value, Stop>)
        requires
            old(self).wf(),
        ensures
            final(self).follows(*old(self)),
            run_value(r, *final(self)) == includes(
                old(self).host(),
                old(self).pos as nat,
                o@,
                views(args@),
            ),
    {
        let needle: Value = arg_at(args, 0);
        let len: u64 = self.live_length(o)?;
        if len == 0 {
            return Ok(Value::Bool(false));
        }
        let at: Offset = self.offset_arg(args, Offset::Forward(0))?;
        let start: u64 = match forward_start_at(at, len) {
            None => {
                return Ok(Value::Bool(false));
            },
            Some(s) => s,
        };
        if len > MAX_ARRAY_LEN {
            let wants_undefined: bool = match &needle {
                Value::Undefined => true,
                _ => false,
            };
            if start < len && wants_undefined {
                return Ok(Value::Bool(true));
            }
            let keys: Vec<u64> = self.huge_indices(o, len)?;
            let b: bool = self.includes_keys(o, &needle, start, &keys)?;
            Ok(Value::Bool(b))
        } else {
            let b: bool = self.includes_up(o, &needle, start, len)?;
            Ok(Value::Bool(b))
        }
    }
}

proof fn lemma_huge_member(h: Host, pos: nat, o: Val, len: nat, keys: Seq<u64>, k: u64)
    requires
        len <= MAX_SAFE,
        huge_indices(h, pos, o, len).out == Ok::<Seq<u64>, Halt>(keys),
        keys.contains(k),
    ensures
        k <= MAX_SAFE,
{
    let ks = ask_list(h, pos, Op::StoredKeys, seq![o]);
    law_indices_among(ks.out->Ok_0, len);
}

/// The element at `k` is there and is `needle`.
pub open spec fn hit(items: spec_fn(nat) -> Option<Val>, needle: Val, k: nat) -> bool {
    items(k) matches Some(v) && strictly_equal(v, needle)
}

/// What a search upwards reads, from `k` on up to where it ends, are these elements.
pub open spec fn reads_up(
    h: Host,
    pos: nat,
    o: Val,
    items: spec_fn(nat) -> Option<Val>,
    needle: Val,
    k: nat,
    n: nat,
) -> bool
    decreases n - k,
{
    k < n ==> {
        let g = live_get(h, pos, o, k);
        &&& settles(g, items(k))
        &&& g.out is Ok && !hit(items, needle, k) ==> reads_up(
            h,
            g.pos,
            o,
            items,
            needle,
            k + 1,
            n,
        )
    }
}

/// What a search downwards reads, below `k` down to where it ends, are these elements.
pub open spec fn reads_down(
    h: Host,
    pos: nat,
    o: Val,
    items: spec_fn(nat) -> Option<Val>,
    needle: Val,
    k: nat,
) -> bool
    decreases k,
{
    k > 0 ==> {
        let g = live_get(h, pos, o, (k - 1) as nat);
        &&& settles(g, items((k - 1) as nat))
        &&& g.out is Ok && !hit(items, needle, (k - 1) as nat) ==> reads_down(
            h,
            g.pos,
            o,
            items,
            needle,
            (k - 1) as nat,
        )
    }
}

/// What `includes` reads, from `k` on up to where it ends, are these elements.
pub open spec fn gets_up(
    h: Host,
    pos: nat,
    o: Val,
    items: spec_fn(nat) -> Val,
    needle: Val,
    k: nat,
    n: nat,
) -> bool
    decreases n - k,
{
    k < n ==> {
        let g = get(h, pos, o, decimal(k));
        &&& settles(g, items(k))
        &&& g.out is Ok && !same_zero(items(k), needle) ==> gets_up(
            h,
            g.pos,
            o,
            items,
            needle,
            k + 1,
            n,
        )
    }
}

/// Over the elements that it reads, `indexOf` finds the least index at or above the start
/// whose element is there and strictly equals the one searched for, and nothing where there is
/// none.
pub proof fn law_index_of_is_least(
    h: Host,
    pos: nat,
    o: Val,
    items: spec_fn(nat) -> Option<Val>,
    needle: Val,
    k: nat,
    n: nat,
)
    requires
        reads_up(h, pos, o, items, needle, k, n),
    ensures
        match search_up(h, pos, o, needle, k, n).out {
            Ok(Some(i)) => k <= i < n && hit(items, needle, i) && forall|m: nat|
                k <= m < i ==> !#[trigger] hit(items, needle, m),
            Ok(None) => forall|m: nat| k <= m < n ==> !#[trigger] hit(items, needle, m),
            Err(e) => e is Ask,
        },
    decreases n - k,
{
    if k < n {
        let g = live_get(h, pos, o, k);
        assert(settles(g, items(k)));
        if g.out is Ok && !hit(items, needle, k) {
            law_index_of_is_least(h, g.pos, o, items, needle, k + 1, n);
        }
    }
}

/// Over the elements that it reads, `lastIndexOf` finds the greatest index at or below the
/// start whose element is there and strictly equals the one searched for, and nothing where there
/// is none.
pub proof fn law_last_index_of_is_greatest(
    h: Host,
    pos: nat,
    o: Val,
    items: spec_fn(nat) -> Option<Val>,
    needle: Val,
    k: nat,
)
    requires
        reads_down(h, pos, o, items, needle, k),
    ensures
        match search_down(h, pos, o, needle, k).out {
            Ok(Some(i)) => i < k && hit(items, needle, i) && forall|m: nat|
                i < m < k ==> !#[trigger] hit(items, needle, m),
            Ok(None) => forall|m: nat| m < k ==> !#[trigger] hit(items, needle, m),
            Err(e) => e is Ask,
        },
    decreases k,
{
    if k > 0 {
        let i = (k - 1) as nat;
        let g = live_get(h, pos, o, i);
        assert(settles(g, items(i)));
        if g.out is Ok && !hit(items, needle, i) {
            law_last_index_of_is_greatest(h, g.pos, o, items, needle, i);
        }
    }
}

/// Over the elements that it reads, `includes` holds exactly where an element at or above
/// the start equals the one searched for, NaN and holes counted.
pub proof fn law_includes(
    h: Host,
    pos: nat,
    o: Val,
    items: spec_fn(nat) -> Val,
    needle: Val,
    k: nat,
    n: nat,
)
    requires
        gets_up(h, pos, o, items, needle, k, n),
    ensures
        match includes_up(h, pos, o, needle, k, n).out {
            Ok(b) => b <==> exists|m: nat| k <= m < n && same_zero(#[trigger] items(m), needle),
            Err(e) => e is Ask,
        },
    decreases n - k,
{
    if k < n {
        let g = get(h, pos, o, decimal(k));
        assert(settles(g, items(k)));
        if g.out is Ok {
            if same_zero(items(k), needle) {
            } else {
                law_includes(h, g.pos, o, items, needle, k + 1, n);
                if exists|m: nat| k <= m < n && same_zero(#[trigger] items(m), needle) {
                    let m = choose|m: nat| k <= m < n && same_zero(#[trigger] items(m), needle);
                    assert(k + 1 <= m);
                }
            }
        }
    }
}

} // verus!
