//! Promises, generators, and the responses that a page reads by promises.
use crate::canvas::{cat, ctx_store, display_arg, empty_list};
use crate::functions::plain_slot;
use crate::host::{
    ask_flag, ask_list, ask_number, ask_slot, ask_text, ask_value, call_quietly, chain, construct,
    done, fail, get_quietly, halted, key_of_thrown, list1, list2, list4, opt_view, raised, run_list,
    run_plain, run_text, run_value, text_value, thrown_key, Halt, Host, Interp, Op, Resume, Run,
    Stop,
};
use crate::number::{count_of_num, num_of, num_to_count, Num};
use crate::number_format::{this_of, this_or_undefined};
use crate::text::{concat_text, same_text};
use crate::value::{
    arg, arg_at, callable, clone_values, is_callable, strict_eq, strictly_equal, to_bool, truthy,
    views, ErrorKind, Kind, Native, Val, Value,
};
use vstd::prelude::*;

verus! {

/// Resolves a promise that is still open with a value, or rejects it.
pub open spec fn settle(h: Host, pos: nat, resolve: bool, p: Val, v: Val) -> Run<()> {
    chain(
        ask_value(
            h,
            pos,
            if resolve {
                Op::ResolvePromise
            } else {
                Op::RejectPromise
            },
            seq![p, v],
        ),
        |u: Val, q: nat| done((), q),
    )
}

/// A new promise that is settled at once.
pub open spec fn settled_promise(h: Host, pos: nat, resolve: bool, v: Val) -> Run<Val> {
    chain(
        ask_value(h, pos, Op::NewPromise, Seq::empty()),
        |p: Val, q: nat| chain(settle(h, q, resolve, p, v), |u: (), r: nat| done(p, r)),
    )
}

/// The functions that an executor gets: only the first call settles the promise.
pub open spec fn promise_settle_run(
    h: Host,
    pos: nat,
    resolve: bool,
    recv: Option<Val>,
    args: Seq<Val>,
) -> Run<Val> {
    let p = this_of(recv);
    chain(
        plain_slot(h, pos, p, "\0state"@),
        |s: Option<Val>, q: nat|
            if s == Some(Val::Str("pending"@)) {
                chain(settle(h, q, resolve, p, arg(args, 0)), |u: (), r: nat| done(Val::Undefined, r))
            } else {
                done(Val::Undefined, q)
            },
    )
}

/// Whether a promise is of the constructor's making.
pub open spec fn own_promise(h: Host, pos: nat, v: Val, c: Val) -> Run<bool> {
    if c == Val::Native(Native::PromiseCtor) {
        done(true, pos)
    } else {
        chain(
            get_quietly(h, pos, v, "constructor"@),
            |x: Val, p: nat| done(strictly_equal(x, c), p),
        )
    }
}

/// `Promise.resolve`: a promise of the same constructor is the result itself.
pub open spec fn promise_resolve_run(h: Host, pos: nat, recv: Option<Val>, args: Seq<Val>) -> Run<Val> {
    let v = arg(args, 0);
    chain(
        ask_flag(h, pos, Op::IsPromise, seq![v]),
        |already: bool, p: nat|
            if !already {
                settled_promise(h, p, true, v)
            } else {
                chain(
                    match recv {
                        Some(c) => done(c, p),
                        None => ask_value(h, p, Op::GlobalValue, seq![Val::Str("Promise"@)]),
                    },
                    |c: Val, q: nat|
                        chain(
                            own_promise(h, q, v, c),
                            |own: bool, r: nat|
                                if own {
                                    done(v, r)
                                } else {
                                    settled_promise(h, r, true, v)
                                },
                        ),
                )
            },
    )
}

/// `Promise.reject`: no reaction runs, since nobody can have asked for one yet.
pub open spec fn promise_reject_run(h: Host, pos: nat, recv: Option<Val>, args: Seq<Val>) -> Run<Val> {
    chain(
        ask_value(h, pos, Op::NewPromise, Seq::empty()),
        |p: Val, q: nat|
            if p matches Val::Ref(Kind::Obj, _) {
                chain(
                    ctx_store(h, q, p, "\0state"@, Val::Str("rejected"@)),
                    |a: (), r: nat|
                        chain(
                            ctx_store(h, r, p, "\0value"@, arg(args, 0)),
                            |b: (), t: nat| done(p, t),
                        ),
                )
            } else {
                done(p, q)
            },
    )
}

/// The items of an array argument; none where it is no array.
pub open spec fn listed_items(h: Host, pos: nat, v: Val) -> Run<Seq<Val>> {
    if v matches Val::Ref(Kind::Arr, _) {
        ask_list(h, pos, Op::Elements, seq![v])
    } else {
        done(Seq::empty(), pos)
    }
}

/// What `allSettled` reports of an item.
pub open spec fn report_fields(state: Seq<Val>) -> Seq<Val> {
    if truthy(arg(state, 0)) {
        seq![
            Val::Str("status"@),
            Val::Str("fulfilled"@),
            Val::Str("value"@),
            arg(state, 1),
        ]
    } else {
        seq![
            Val::Str("status"@),
            Val::Str("rejected"@),
            Val::Str("reason"@),
            arg(state, 1),
        ]
    }
}

/// `Promise.all` from the `i`-th item on: the first rejected item rejects the promise.
pub open spec fn all_from(h: Host, pos: nat, p: Val, items: Seq<Val>, i: int, out: Seq<Val>) -> Run<Val>
    decreases items.len() - i,
{
    if !(0 <= i < items.len()) {
        chain(
            ask_value(h, pos, Op::NewArray, out),
            |a: Val, q: nat| chain(settle(h, q, true, p, a), |u: (), r: nat| done(p, r)),
        )
    } else {
        let s = ask_list(h, pos, Op::SettleState, seq![items[i]]);
        match s.out {
            Err(e) => halted(e, s.pos),
            Ok(state) => if truthy(arg(state, 0)) {
                all_from(h, s.pos, p, items, i + 1, out.push(arg(state, 1)))
            } else {
                chain(
                    settle(h, s.pos, false, p, arg(state, 1)),
                    |u: (), r: nat| done(p, r),
                )
            },
        }
    }
}

/// `Promise.allSettled` from the `i`-th item on.
pub open spec fn all_settled_from(
    h: Host,
    pos: nat,
    p: Val,
    items: Seq<Val>,
    i: int,
    out: Seq<Val>,
) -> Run<Val>
    decreases items.len() - i,
{
    if !(0 <= i < items.len()) {
        chain(
            ask_value(h, pos, Op::NewArray, out),
            |a: Val, q: nat| chain(settle(h, q, true, p, a), |u: (), r: nat| done(p, r)),
        )
    } else {
        let s = ask_list(h, pos, Op::SettleState, seq![items[i]]);
        match s.out {
            Err(e) => halted(e, s.pos),
            Ok(state) => {
                let o = ask_value(h, s.pos, Op::NewObject, report_fields(state));
                match o.out {
                    Err(e) => halted(e, o.pos),
                    Ok(x) => all_settled_from(h, o.pos, p, items, i + 1, out.push(x)),
                }
            },
        }
    }
}

/// `Promise.all` and `Promise.allSettled`.
pub open spec fn promise_all_run(
    h: Host,
    pos: nat,
    all_settled: bool,
    recv: Option<Val>,
    args: Seq<Val>,
) -> Run<Val> {
    chain(
        listed_items(h, pos, arg(args, 0)),
        |items: Seq<Val>, p0: nat|
            chain(
                ask_value(h, p0, Op::NewPromise, Seq::empty()),
                |p: Val, p1: nat|
                    if all_settled {
                        all_settled_from(h, p1, p, items, 0, Seq::empty())
                    } else {
                        all_from(h, p1, p, items, 0, Seq::empty())
                    },
            ),
    )
}

/// `Promise.race`: the first item decides; without one the promise stays open.
pub open spec fn promise_race_run(h: Host, pos: nat, recv: Option<Val>, args: Seq<Val>) -> Run<Val> {
    chain(
        listed_items(h, pos, arg(args, 0)),
        |items: Seq<Val>, p0: nat|
            chain(
                ask_value(h, p0, Op::NewPromise, Seq::empty()),
                |p: Val, p1: nat|
                    if items.len() == 0 {
                        done(p, p1)
                    } else {
                        chain(
                            ask_list(h, p1, Op::SettleState, seq![items[0]]),
                            |state: Seq<Val>, p2: nat|
                                chain(
                                    settle(h, p2, truthy(arg(state, 0)), p, arg(state, 1)),
                                    |u: (), p3: nat| done(p, p3),
                                ),
                        )
                    },
            ),
    )
}

/// Adds reactions to a promise.
pub open spec fn react(h: Host, pos: nat, p: Val, on_f: Val, on_r: Val) -> Run<Val> {
    chain(
        ask_value(h, pos, Op::NewPromise, Seq::empty()),
        |dep: Val, q: nat| ask_value(h, q, Op::PromiseThen, seq![p, on_f, on_r, dep]),
    )
}

/// `then` of a promise.
pub open spec fn promise_then_run(h: Host, pos: nat, recv: Option<Val>, args: Seq<Val>) -> Run<Val> {
    react(h, pos, this_of(recv), arg(args, 0), arg(args, 1))
}

/// `catch` of a promise.
pub open spec fn promise_catch_run(h: Host, pos: nat, recv: Option<Val>, args: Seq<Val>) -> Run<Val> {
    react(h, pos, this_of(recv), Val::Undefined, arg(args, 0))
}

/// `finally` of a promise: the callback runs once the promise is settled, and what it does changes
/// nothing.
pub open spec fn promise_finally_run(h: Host, pos: nat, recv: Option<Val>, args: Seq<Val>) -> Run<Val> {
    let p = this_of(recv);
    if args.len() > 0 && callable(args[0]) {
        chain(
            ask_value(h, pos, Op::DrainMicrotasks, Seq::empty()),
            |u: Val, q: nat|
                chain(
                    call_quietly(h, q, args[0], None, Seq::empty()),
                    |v: (), r: nat| done(p, r),
                ),
        )
    } else {
        done(p, pos)
    }
}

/// `Promise.withResolvers`.
pub open spec fn promise_with_resolvers_run(h: Host, pos: nat, recv: Option<Val>, args: Seq<Val>) -> Run<
    Val,
> {
    chain(
        ask_flag(h, pos, Op::IsConstructor, seq![this_of(recv)]),
        |c: bool, p0: nat|
            if !c {
                raised(
                    ErrorKind::TypeError,
                    "Promise.withResolvers called on non-constructor"@,
                    p0,
                )
            } else {
                chain(
                    ask_value(h, p0, Op::NewPromise, Seq::empty()),
                    |p: Val, p1: nat| resolvers(h, p1, p),
                )
            },
    )
}

pub open spec fn resolvers(h: Host, pos: nat, p: Val) -> Run<Val> {
    chain(
        ask_value(h, pos, Op::NewBound, seq![Val::Native(Native::PromiseSettleResolve), p]),
        |resolve: Val, p1: nat|
            chain(
                ask_value(h, p1, Op::NewBound, seq![Val::Native(Native::PromiseSettleReject), p]),
                |reject: Val, p2: nat|
                    ask_value(
                        h,
                        p2,
                        Op::NewObject,
                        seq![
                            Val::Str("promise"@),
                            p,
                            Val::Str("resolve"@),
                            resolve,
                            Val::Str("reject"@),
                            reject,
                        ],
                    ),
            ),
    )
}

/// `Promise` called without `new`.
pub open spec fn promise_ctor_run(h: Host, pos: nat, recv: Option<Val>, args: Seq<Val>) -> Run<Val> {
    construct(h, pos, Val::Native(Native::PromiseCtor), args)
}

/// Rejects a promise with what was thrown.
pub open spec fn reject_thrown(h: Host, pos: nat, p: Val, t: crate::host::Thrown) -> Run<Val> {
    chain(
        ask_value(h, pos, Op::ThrownValue, seq![thrown_key(t)]),
        |v: Val, q: nat| chain(settle(h, q, false, p, v), |u: (), r: nat| done(p, r)),
    )
}

/// A step of an asynchronous generator: its result is awaited; where that fails, the generator has
/// ended.
pub open spec fn async_step(h: Host, pos: nat, gen: Val, mode: Resume, v: Val) -> Run<Val> {
    chain(
        ask_value(h, pos, Op::NewPromise, Seq::empty()),
        |p: Val, p0: nat|
            {
                let s = ask_value(h, p0, Op::GenResume(mode), seq![gen, v]);
                match s.out {
                    Err(Halt::Throw(t)) => reject_thrown(h, s.pos, p, t),
                    Err(e) => halted(e, s.pos),
                    Ok(res) => awaited(h, s.pos, gen, p, res),
                }
            },
    )
}

pub open spec fn awaited(h: Host, pos: nat, gen: Val, p: Val, res: Val) -> Run<Val> {
    let a = ask_value(h, pos, Op::AwaitResult, seq![res]);
    match a.out {
        Err(Halt::Throw(t)) => chain(
            ask_value(h, a.pos, Op::GenDone, seq![gen]),
            |u: Val, q: nat| reject_thrown(h, q, p, t),
        ),
        Err(e) => halted(e, a.pos),
        Ok(v) => chain(settle(h, a.pos, true, p, v), |u: (), r: nat| done(p, r)),
    }
}

/// `next`, `return` and `throw` of a generator.
pub open spec fn generator_step_run(
    h: Host,
    pos: nat,
    mode: Resume,
    recv: Option<Val>,
    args: Seq<Val>,
) -> Run<Val> {
    let gen = this_of(recv);
    match gen {
        Val::Ref(Kind::Gen, _) => chain(
            ask_flag(h, pos, Op::IsAsyncGen, seq![gen]),
            |a: bool, p: nat|
                if a {
                    async_step(h, p, gen, mode, arg(args, 0))
                } else {
                    ask_value(h, p, Op::GenResume(mode), seq![gen, arg(args, 0)])
                },
        ),
        _ => done(Val::Undefined, pos),
    }
}

/// A dynamic import: a promise of a module's namespace.
pub open spec fn dynamic_import_run(h: Host, pos: nat, recv: Option<Val>, args: Seq<Val>) -> Run<Val> {
    chain(
        display_arg(h, pos, args, 0),
        |spec: Seq<char>, p0: nat|
            chain(
                ask_text(h, p0, Op::AbsoluteUrl, seq![Val::Str(spec)]),
                |url: Seq<char>, p1: nat|
                    chain(
                        ask_value(h, p1, Op::NewPromise, Seq::empty()),
                        |p: Val, p2: nat| imported(h, p2, p, url),
                    ),
            ),
    )
}

pub open spec fn imported(h: Host, pos: nat, p: Val, url: Seq<char>) -> Run<Val> {
    let m = ask_value(h, pos, Op::RunModule, seq![Val::Str(url)]);
    match m.out {
        Ok(ns) => chain(settle(h, m.pos, true, p, ns), |u: (), r: nat| done(p, r)),
        Err(Halt::Throw(t)) => chain(
            ask_text(h, m.pos, Op::ThrownMessage, seq![thrown_key(t)]),
            |why: Seq<char>, q: nat|
                chain(
                    settle(h, q, false, p, Val::Str("동적 import 실패: "@ + why)),
                    |u: (), r: nat| done(p, r),
                ),
        ),
        Err(e) => halted(e, m.pos),
    }
}

/// The text of a response.
pub open spec fn body_text(h: Host, pos: nat, recv: Option<Val>) -> Run<Seq<char>> {
    chain(
        plain_slot(h, pos, this_of(recv), "\0body"@),
        |s: Option<Val>, p: nat|
            done(
                match s {
                    Some(Val::Str(t)) => t,
                    _ => Seq::empty(),
                },
                p,
            ),
    )
}

/// `text` of a response.
pub open spec fn response_text_run(h: Host, pos: nat, recv: Option<Val>, args: Seq<Val>) -> Run<Val> {
    chain(
        body_text(h, pos, recv),
        |t: Seq<char>, p: nat| settled_promise(h, p, true, Val::Str(t)),
    )
}

/// `json` of a response; null where the text is no JSON.
pub open spec fn response_json_run(h: Host, pos: nat, recv: Option<Val>, args: Seq<Val>) -> Run<Val> {
    chain(
        body_text(h, pos, recv),
        |t: Seq<char>, p: nat|
            {
                let j = ask_value(h, p, Op::ParseJson, seq![Val::Str(t)]);
                match j.out {
                    Err(Halt::Throw(_)) => settled_promise(h, j.pos, true, Val::Null),
                    Err(e) => halted(e, j.pos),
                    Ok(v) => settled_promise(h, j.pos, true, v),
                }
            },
    )
}

/// `arrayBuffer` of a response.
pub open spec fn response_array_buffer_run(h: Host, pos: nat, recv: Option<Val>, args: Seq<Val>) -> Run<
    Val,
> {
    chain(
        plain_slot(h, pos, this_of(recv), "\0raw"@),
        |s: Option<Val>, p: nat|
            match s {
                Some(Val::Num(n)) => chain(
                    ask_slot(h, p, Op::BodyBuffer, seq![Val::Num(n)]),
                    |b: Option<Val>, q: nat|
                        match b {
                            Some(v) => settled_promise(h, q, true, v),
                            None => raised(
                                ErrorKind::Error,
                                "arrayBuffer: 원본 바이트가 없다"@,
                                q,
                            ),
                        },
                ),
                _ => raised(ErrorKind::Error, "arrayBuffer: 원본 바이트가 없다"@, p),
            },
    )
}

/// The greatest number of bytes that an array buffer holds.
pub const MAX_BUFFER: u64 = 536870912;

/// The bytes of a new array buffer: so many zeros.
pub open spec fn zero_bytes_run(h: Host, pos: nat, recv: Option<Val>, args: Seq<Val>) -> Run<Val> {
    chain(
        if args.len() == 0 {
            done(num_of(0), pos)
        } else {
            ask_number(h, pos, Op::DelayOf, seq![args[0]])
        },
        |n: Num, p: nat|
            if count_of_num(n) > MAX_BUFFER {
                raised(ErrorKind::RangeError, "Invalid array buffer length"@, p)
            } else {
                ask_value(
                    h,
                    p,
                    Op::Zeros,
                    seq![Val::Num(crate::array_live::count_num(count_of_num(n) as nat))],
                )
            },
    )
}

impl Interp {
    fn settle(&mut self, resolve: bool, p: &Value, v: Value) -> (r: Result<(), Stop>)
        requires
            old(self).wf(),
        ensures
            final(self).follows(*old(self)),
            run_plain(r, *final(self)) == settle(
                old(self).host(),
                old(self).pos as nat,
                resolve,
                p@,
                v@,
            ),
    {
        let op: Op = if resolve {
            Op::ResolvePromise
        } else {
            Op::RejectPromise
        };
        let u: Value = self.ask_value(op, list2(p.clone(), v))?;
        Ok(())
    }

    fn settled_promise(&mut self, resolve: bool, v: Value) -> (r: Result<Value, Stop>)
        requires
            old(self).wf(),
        ensures
            final(self).follows(*old(self)),
            run_value(r, *final(self)) == settled_promise(
                old(self).host(),
                old(self).pos as nat,
                resolve,
                v@,
            ),
    {
        let p: Value = self.ask_value(Op::NewPromise, empty_list())?;
        self.settle(resolve, &p, v)?;
        Ok(p)
    }

    /// The functions that an executor gets: only the first call settles the promise.
    pub fn promise_settle(&mut self, resolve: bool, recv: &Option<Value>, args: &Vec<Value>) -> (r: Result<Value, Stop>)
        requires
            old(self).wf(),
        ensures
            final(self).follows(*old(self)),
            run_value(r, *final(self)) == promise_settle_run(
                old(self).host(),
                old(self).pos as nat,
                resolve,
                opt_view(*recv),
                views(args@),
            ),
    {
        let p: Value = this_or_undefined(recv);
        let pending: bool = match self.plain_slot(&p, "\0state")? {
            Some(Value::Str(s)) => same_text(s.as_str(), "pending"),
            _ => false,
        };
        if pending {
            self.settle(resolve, &p, arg_at(args, 0))?;
        }
        Ok(Value::Undefined)
    }

    fn own_promise(&mut self, v: &Value, c: &Value) -> (r: Result<bool, Stop>)
        requires
            old(self).wf(),
        ensures
            final(self).follows(*old(self)),
            run_plain(r, *final(self)) == own_promise(
                old(self).host(),
                old(self).pos as nat,
                v@,
                c@,
            ),
    {
        if matches!(c, Value::Native(Native::PromiseCtor)) {
            return Ok(true);
        }
        let x: Value = self.member_get_quietly(v, "constructor")?;
        Ok(strict_eq(&x, c))
    }

    /// `Promise.resolve`.
    pub fn promise_resolve(&mut self, recv: &Option<Value>, args: &Vec<Value>) -> (r: Result<Value, Stop>)
        requires
            old(self).wf(),
        ensures
            final(self).follows(*old(self)),
            run_value(r, *final(self)) == promise_resolve_run(
                old(self).host(),
                old(self).pos as nat,
                opt_view(*recv),
                views(args@),
            ),
    {
        let v: Value = arg_at(args, 0);
        if !self.ask_flag(Op::IsPromise, list1(v.clone()))? {
            return self.settled_promise(true, v);
        }
        let c: Value = match recv {
            Some(c) => c.clone(),
            None => self.ask_value(Op::GlobalValue, list1(text_value("Promise")))?,
        };
        if self.own_promise(&v, &c)? {
            Ok(v)
        } else {
            self.settled_promise(true, v)
        }
    }

    /// `Promise.reject`.
    pub fn promise_reject(&mut self, recv: &Option<Value>, args: &Vec<Value>) -> (r: Result<Value, Stop>)
        requires
            old(self).wf(),
        ensures
            final(self).follows(*old(self)),
            run_value(r, *final(self)) == promise_reject_run(
                old(self).host(),
                old(self).pos as nat,
                opt_view(*recv),
                views(args@),
            ),
    {
        let p: Value = self.ask_value(Op::NewPromise, empty_list())?;
        if let Value::Ref(Kind::Obj, _) = &p {
            self.ctx_store(&p, "\0state", text_value("rejected"))?;
            self.ctx_store(&p, "\0value", arg_at(args, 0))?;
        }
        Ok(p)
    }

    fn listed_items(&mut self, v: &Value) -> (r: Result<Vec<Value>, Stop>)
        requires
            old(self).wf(),
        ensures
            final(self).follows(*old(self)),
            run_list(r, *final(self)) == listed_items(
                old(self).host(),
                old(self).pos as nat,
                v@,
            ),
    {
        match v {
            Value::Ref(Kind::Arr, _) => self.ask_list(Op::Elements, list1(v.clone())),
            _ => {
                let none: Vec<Value> = empty_list();
                assert(views(none@) =~= Seq::empty());
                Ok(none)
            },
        }
    }

    #[verifier::loop_isolation(false)]
    fn all_from(&mut self, p: &Value, items: &Vec<Value>) -> (r: Result<Value, Stop>)
        requires
            old(self).wf(),
        ensures
            final(self).follows(*old(self)),
            run_value(r, *final(self)) == all_from(
                old(self).host(),
                old(self).pos as nat,
                p@,
                views(items@),
                0,
                Seq::empty(),
            ),
    {
        let ghost all = views(items@);
        let ghost goal = all_from(self.host(), self.pos as nat, p@, all, 0, Seq::empty());
        let mut out: Vec<Value> = empty_list();
        let mut i: usize = 0;
        while i < items.len()
            invariant
                i <= items@.len(),
                self.follows(*old(self)),
                goal == all_from(self.host(), self.pos as nat, p@, all, i as int, views(out@)),
            decreases items@.len() - i,
        {
            assert(all[i as int] == items@[i as int]@);
            let state: Vec<Value> = self.ask_list(Op::SettleState, list1(items[i].clone()))?;
            let ghost before = views(out@);
            if !to_bool(&arg_at(&state, 0)) {
                self.settle(false, p, arg_at(&state, 1))?;
                return Ok(p.clone());
            }
            let x: Value = arg_at(&state, 1);
            out.push(x);
            assert(views(out@) =~= before.push(x@));
            i = i + 1;
        }
        let a: Value = self.ask_value(Op::NewArray, out)?;
        self.settle(true, p, a)?;
        Ok(p.clone())
    }

    #[verifier::loop_isolation(false)]
    fn all_settled_from(&mut self, p: &Value, items: &Vec<Value>) -> (r: Result<Value, Stop>)
        requires
            old(self).wf(),
        ensures
            final(self).follows(*old(self)),
            run_value(r, *final(self)) == all_settled_from(
                old(self).host(),
                old(self).pos as nat,
                p@,
                views(items@),
                0,
                Seq::empty(),
            ),
    {
        let ghost all = views(items@);
        let ghost goal = all_settled_from(self.host(), self.pos as nat, p@, all, 0, Seq::empty());
        let mut out: Vec<Value> = empty_list();
        let mut i: usize = 0;
        while i < items.len()
            invariant
                i <= items@.len(),
                self.follows(*old(self)),
                goal == all_settled_from(self.host(), self.pos as nat, p@, all, i as int, views(out@)),
            decreases items@.len() - i,
        {
            assert(all[i as int] == items@[i as int]@);
            let state: Vec<Value> = self.ask_list(Op::SettleState, list1(items[i].clone()))?;
            let ghost before = views(out@);
            let x: Value = self.ask_value(Op::NewObject, report_of(&state))?;
            out.push(x);
            assert(views(out@) =~= before.push(x@));
            i = i + 1;
        }
        let a: Value = self.ask_value(Op::NewArray, out)?;
        self.settle(true, p, a)?;
        Ok(p.clone())
    }

    /// `Promise.all` and `Promise.allSettled`.
    pub fn promise_all(&mut self, all_settled: bool, recv: &Option<Value>, args: &Vec<Value>) -> (r: Result<Value, Stop>)
        requires
            old(self).wf(),
        ensures
            final(self).follows(*old(self)),
            run_value(r, *final(self)) == promise_all_run(
                old(self).host(),
                old(self).pos as nat,
                all_settled,
                opt_view(*recv),
                views(args@),
            ),
    {
        let items: Vec<Value> = self.listed_items(&arg_at(args, 0))?;
        let p: Value = self.ask_value(Op::NewPromise, empty_list())?;
        if all_settled {
            self.all_settled_from(&p, &items)
        } else {
            self.all_from(&p, &items)
        }
    }

    /// `Promise.race`.
    pub fn promise_race(&mut self, recv: &Option<Value>, args: &Vec<Value>) -> (r: Result<Value, Stop>)
        requires
            old(self).wf(),
        ensures
            final(self).follows(*old(self)),
            run_value(r, *final(self)) == promise_race_run(
                old(self).host(),
                old(self).pos as nat,
                opt_view(*recv),
                views(args@),
            ),
    {
        let items: Vec<Value> = self.listed_items(&arg_at(args, 0))?;
        let p: Value = self.ask_value(Op::NewPromise, empty_list())?;
        if items.len() > 0 {
            let state: Vec<Value> = self.ask_list(Op::SettleState, list1(items[0].clone()))?;
            self.settle(to_bool(&arg_at(&state, 0)), &p, arg_at(&state, 1))?;
        }
        Ok(p)
    }

    fn react(&mut self, p: Value, on_f: Value, on_r: Value) -> (r: Result<Value, Stop>)
        requires
            old(self).wf(),
        ensures
            final(self).follows(*old(self)),
            run_value(r, *final(self)) == react(
                old(self).host(),
                old(self).pos as nat,
                p@,
                on_f@,
                on_r@,
            ),
    {
        let dep: Value = self.ask_value(Op::NewPromise, empty_list())?;
        self.ask_value(Op::PromiseThen, list4(p, on_f, on_r, dep))
    }

    /// `then` of a promise.
    pub fn promise_then(&mut self, recv: &Option<Value>, args: &Vec<Value>) -> (r: Result<Value, Stop>)
        requires
            old(self).wf(),
        ensures
            final(self).follows(*old(self)),
            run_value(r, *final(self)) == promise_then_run(
                old(self).host(),
                old(self).pos as nat,
                opt_view(*recv),
                views(args@),
            ),
    {
        self.react(this_or_undefined(recv), arg_at(args, 0), arg_at(args, 1))
    }

    /// `catch` of a promise.
    pub fn promise_catch(&mut self, recv: &Option<Value>, args: &Vec<Value>) -> (r: Result<Value, Stop>)
        requires
            old(self).wf(),
        ensures
            final(self).follows(*old(self)),
            run_value(r, *final(self)) == promise_catch_run(
                old(self).host(),
                old(self).pos as nat,
                opt_view(*recv),
                views(args@),
            ),
    {
        self.react(this_or_undefined(recv), Value::Undefined, arg_at(args, 0))
    }

    /// `finally` of a promise.
    pub fn promise_finally(&mut self, recv: &Option<Value>, args: &Vec<Value>) -> (r: Result<Value, Stop>)
        requires
            old(self).wf(),
        ensures
            final(self).follows(*old(self)),
            run_value(r, *final(self)) == promise_finally_run(
                old(self).host(),
                old(self).pos as nat,
                opt_view(*recv),
                views(args@),
            ),
    {
        let p: Value = this_or_undefined(recv);
        if args.len() > 0 && is_callable(&args[0]) {
            let u: Value = self.ask_value(Op::DrainMicrotasks, empty_list())?;
            let none: Vec<Value> = empty_list();
            assert(views(none@) =~= Seq::empty());
            self.call_quietly(args[0].clone(), None, none)?;
        }
        Ok(p)
    }

    /// `Promise.withResolvers`.
    pub fn promise_with_resolvers(&mut self, recv: &Option<Value>, args: &Vec<Value>) -> (r: Result<Value, Stop>)
        requires
            old(self).wf(),
        ensures
            final(self).follows(*old(self)),
            run_value(r, *final(self)) == promise_with_resolvers_run(
                old(self).host(),
                old(self).pos as nat,
                opt_view(*recv),
                views(args@),
            ),
    {
        if !self.ask_flag(Op::IsConstructor, list1(this_or_undefined(recv)))? {
            return Err(
                fail(ErrorKind::TypeError, "Promise.withResolvers called on non-constructor"),
            );
        }
        let p: Value = self.ask_value(Op::NewPromise, empty_list())?;
        self.resolvers(p)
    }

    fn resolvers(&mut self, p: Value) -> (r: Result<Value, Stop>)
        requires
            old(self).wf(),
        ensures
            final(self).follows(*old(self)),
            run_value(r, *final(self)) == resolvers(
                old(self).host(),
                old(self).pos as nat,
                p@,
            ),
    {
        let resolve: Value = self.ask_value(
            Op::NewBound,
            list2(Value::Native(Native::PromiseSettleResolve), p.clone()),
        )?;
        let reject: Value = self.ask_value(
            Op::NewBound,
            list2(Value::Native(Native::PromiseSettleReject), p.clone()),
        )?;
        let fields: Vec<Value> = cat(
            list4(text_value("promise"), p, text_value("resolve"), resolve),
            &list2(text_value("reject"), reject),
        );
        assert(views(fields@) =~= seq![
            Val::Str("promise"@),
            p@,
            Val::Str("resolve"@),
            resolve@,
            Val::Str("reject"@),
            reject@,
        ]);
        self.ask_value(Op::NewObject, fields)
    }

    /// `Promise` called without `new`.
    pub fn promise_ctor(&mut self, recv: &Option<Value>, args: &Vec<Value>) -> (r: Result<Value, Stop>)
        requires
            old(self).wf(),
        ensures
            final(self).follows(*old(self)),
            run_value(r, *final(self)) == promise_ctor_run(
                old(self).host(),
                old(self).pos as nat,
                opt_view(*recv),
                views(args@),
            ),
    {
        self.construct(Value::Native(Native::PromiseCtor), clone_values(args))
    }

    fn reject_thrown(&mut self, p: Value, t: &crate::host::Exception) -> (r: Result<Value, Stop>)
        requires
            old(self).wf(),
        ensures
            final(self).follows(*old(self)),
            run_value(r, *final(self)) == reject_thrown(
                old(self).host(),
                old(self).pos as nat,
                p@,
                t@,
            ),
    {
        let v: Value = self.ask_value(Op::ThrownValue, list1(key_of_thrown(t)))?;
        self.settle(false, &p, v)?;
        Ok(p)
    }

    fn async_step(&mut self, gen: &Value, mode: Resume, v: Value) -> (r: Result<Value, Stop>)
        requires
            old(self).wf(),
        ensures
            final(self).follows(*old(self)),
            run_value(r, *final(self)) == async_step(
                old(self).host(),
                old(self).pos as nat,
                gen@,
                mode,
                v@,
            ),
    {
        let p: Value = self.ask_value(Op::NewPromise, empty_list())?;
        match self.ask_value(Op::GenResume(mode), list2(gen.clone(), v)) {
            Err(Stop::Throw(t)) => self.reject_thrown(p, &t),
            Err(e) => Err(e),
            Ok(res) => self.awaited(gen, p, res),
        }
    }

    fn awaited(&mut self, gen: &Value, p: Value, res: Value) -> (r: Result<Value, Stop>)
        requires
            old(self).wf(),
        ensures
            final(self).follows(*old(self)),
            run_value(r, *final(self)) == awaited(
                old(self).host(),
                old(self).pos as nat,
                gen@,
                p@,
                res@,
            ),
    {
        match self.ask_value(Op::AwaitResult, list1(res)) {
            Err(Stop::Throw(t)) => {
                let u: Value = self.ask_value(Op::GenDone, list1(gen.clone()))?;
                self.reject_thrown(p, &t)
            },
            Err(e) => Err(e),
            Ok(v) => {
                self.settle(true, &p, v)?;
                Ok(p)
            },
        }
    }

    /// `next`, `return` and `throw` of a generator.
    pub fn generator_step(&mut self, mode: Resume, recv: &Option<Value>, args: &Vec<Value>) -> (r: Result<Value, Stop>)
        requires
            old(self).wf(),
        ensures
            final(self).follows(*old(self)),
            run_value(r, *final(self)) == generator_step_run(
                old(self).host(),
                old(self).pos as nat,
                mode,
                opt_view(*recv),
                views(args@),
            ),
    {
        let gen: Value = this_or_undefined(recv);
        match &gen {
            Value::Ref(Kind::Gen, _) => {
                if self.ask_flag(Op::IsAsyncGen, list1(gen.clone()))? {
                    self.async_step(&gen, mode, arg_at(args, 0))
                } else {
                    self.ask_value(Op::GenResume(mode), list2(gen.clone(), arg_at(args, 0)))
                }
            },
            _ => Ok(Value::Undefined),
        }
    }

    /// A dynamic import: a promise of a module's namespace.
    pub fn dynamic_import(&mut self, recv: &Option<Value>, args: &Vec<Value>) -> (r: Result<Value, Stop>)
        requires
            old(self).wf(),
        ensures
            final(self).follows(*old(self)),
            run_value(r, *final(self)) == dynamic_import_run(
                old(self).host(),
                old(self).pos as nat,
                opt_view(*recv),
                views(args@),
            ),
    {
        let spec: String = self.display_arg(args, 0)?;
        let url: String = self.ask_text(Op::AbsoluteUrl, list1(Value::Str(spec)))?;
        let p: Value = self.ask_value(Op::NewPromise, empty_list())?;
        self.imported(p, url)
    }

    fn imported(&mut self, p: Value, url: String) -> (r: Result<Value, Stop>)
        requires
            old(self).wf(),
        ensures
            final(self).follows(*old(self)),
            run_value(r, *final(self)) == imported(
                old(self).host(),
                old(self).pos as nat,
                p@,
                url@,
            ),
    {
        match self.ask_value(Op::RunModule, list1(Value::Str(url))) {
            Ok(ns) => {
                self.settle(true, &p, ns)?;
                Ok(p)
            },
            Err(Stop::Throw(t)) => {
                let why: String = self.ask_text(Op::ThrownMessage, list1(key_of_thrown(&t)))?;
                let line: String = concat_text("동적 import 실패: ", why.as_str());
                self.settle(false, &p, Value::Str(line))?;
                Ok(p)
            },
            Err(e) => Err(e),
        }
    }

    fn body_text(&mut self, recv: &Option<Value>) -> (r: Result<String, Stop>)
        requires
            old(self).wf(),
        ensures
            final(self).follows(*old(self)),
            run_text(r, *final(self)) == body_text(
                old(self).host(),
                old(self).pos as nat,
                opt_view(*recv),
            ),
    {
        match self.plain_slot(&this_or_undefined(recv), "\0body")? {
            Some(Value::Str(t)) => Ok(t),
            _ => {
                let s: String = String::new();
                assert(s@ =~= Seq::<char>::empty());
                Ok(s)
            },
        }
    }

    /// `text` of a response.
    pub fn response_text(&mut self, recv: &Option<Value>, args: &Vec<Value>) -> (r: Result<Value, Stop>)
        requires
            old(self).wf(),
        ensures
            final(self).follows(*old(self)),
            run_value(r, *final(self)) == response_text_run(
                old(self).host(),
                old(self).pos as nat,
                opt_view(*recv),
                views(args@),
            ),
    {
        let t: String = self.body_text(recv)?;
        self.settled_promise(true, Value::Str(t))
    }

    /// `json` of a response.
    pub fn response_json(&mut self, recv: &Option<Value>, args: &Vec<Value>) -> (r: Result<Value, Stop>)
        requires
            old(self).wf(),
        ensures
            final(self).follows(*old(self)),
            run_value(r, *final(self)) == response_json_run(
                old(self).host(),
                old(self).pos as nat,
                opt_view(*recv),
                views(args@),
            ),
    {
        let t: String = self.body_text(recv)?;
        match self.ask_value(Op::ParseJson, list1(Value::Str(t))) {
            Err(Stop::Throw(_)) => self.settled_promise(true, Value::Null),
            Err(e) => Err(e),
            Ok(v) => self.settled_promise(true, v),
        }
    }

    /// `arrayBuffer` of a response.
    pub fn response_array_buffer(&mut self, recv: &Option<Value>, args: &Vec<Value>) -> (r: Result<Value, Stop>)
        requires
            old(self).wf(),
        ensures
            final(self).follows(*old(self)),
            run_value(r, *final(self)) == response_array_buffer_run(
                old(self).host(),
                old(self).pos as nat,
                opt_view(*recv),
                views(args@),
            ),
    {
        match self.plain_slot(&this_or_undefined(recv), "\0raw")? {
            Some(Value::Num(n)) => {
                match self.ask_slot(Op::BodyBuffer, list1(Value::Num(n)))? {
                    Some(v) => self.settled_promise(true, v),
                    None => Err(fail(ErrorKind::Error, "arrayBuffer: 원본 바이트가 없다")),
                }
            },
            _ => Err(fail(ErrorKind::Error, "arrayBuffer: 원본 바이트가 없다")),
        }
    }

    /// The bytes of a new array buffer.
    pub fn zero_bytes(&mut self, recv: &Option<Value>, args: &Vec<Value>) -> (r: Result<Value, Stop>)
        requires
            old(self).wf(),
        ensures
            final(self).follows(*old(self)),
            run_value(r, *final(self)) == zero_bytes_run(
                old(self).host(),
                old(self).pos as nat,
                opt_view(*recv),
                views(args@),
            ),
    {
        let n: Num = if args.len() == 0 {
            Num::from_u64(0)
        } else {
            self.ask_number(Op::DelayOf, list1(args[0].clone()))?
        };
        let count: u64 = num_to_count(n);
        if count > MAX_BUFFER {
            return Err(fail(ErrorKind::RangeError, "Invalid array buffer length"));
        }
        self.ask_value(Op::Zeros, list1(Value::Num(crate::functions::index_number(count))))
    }
}

fn report_of(state: &Vec<Value>) -> (r: Vec<Value>)
    ensures
        views(r@) == report_fields(views(state@)),
{
    if to_bool(&arg_at(state, 0)) {
        list4(text_value("status"), text_value("fulfilled"), text_value("value"), arg_at(state, 1))
    } else {
        list4(text_value("status"), text_value("rejected"), text_value("reason"), arg_at(state, 1))
    }
}

/// A promise that was settled before stays as it is: its functions ask for nothing but its state.
pub proof fn law_settled_once(h: Host, pos: nat, resolve: bool, recv: Option<Val>, args: Seq<Val>)
    requires
        ({
            let s = plain_slot(h, pos, this_of(recv), "\0state"@);
            s.out is Ok && s.out->Ok_0 != Some(Val::Str("pending"@))
        }),
    ensures
        promise_settle_run(h, pos, resolve, recv, args) == done(
            Val::Undefined,
            plain_slot(h, pos, this_of(recv), "\0state"@).pos,
        ),
{
}

/// `catch` is `then` without a callback for fulfilment.
pub proof fn law_catch_is_then(h: Host, pos: nat, recv: Option<Val>, on_r: Val)
    ensures
        promise_catch_run(h, pos, recv, seq![on_r]) == promise_then_run(
            h,
            pos,
            recv,
            seq![Val::Undefined, on_r],
        ),
{
}

/// No result of an asynchronous generator's step is an exception: every failure rejects the
/// promise that was returned, as long as settling promises itself does not fail.
pub proof fn law_async_step_never_throws(h: Host, pos: nat, gen: Val, mode: Resume, v: Val)
    requires
        forall|i: nat, q: crate::host::Question|
            (q.op == Op::NewPromise || q.op == Op::ResolvePromise || q.op == Op::RejectPromise
                || q.op == Op::ThrownValue || q.op == Op::GenDone) ==> !(#[trigger] (h.reply)(
                i,
                q,
            ) is Throw),
    ensures
        !(async_step(h, pos, gen, mode, v).out matches Err(Halt::Throw(_))),
{
}

} // verus!
