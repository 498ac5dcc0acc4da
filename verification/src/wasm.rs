//! The functions behind the `WebAssembly` object.
use crate::canvas::{cat, empty_list, int_val};
use crate::class_list::number_or_zero;
use crate::elements::{null_if_none, or_null};
use crate::entries::{bytes_in, bytes_of};
use crate::functions::index_number;
use crate::host::{
    ask_flag, ask_list, ask_number, ask_slot, ask_text, ask_value, chain, done, fail, halted,
    key_of_thrown, list1, list2, list3, opt_view, raised, run_list, run_plain, run_value,
    thrown_key, Halt, Host, Interp, Op, Run, Stop,
};
use crate::number::{count_of_num, greater, is_greater, num_of, num_to_count, Num};
use crate::page::{bytes_as_values, values_of_bytes};
use crate::text::concat_text;
use crate::tree::told;
use crate::value::{arg, arg_at, views, ErrorKind, Kind, Val, Value};
use vstd::prelude::*;

verus! {

pub open spec fn index_val(i: u64) -> Val {
    Val::Num(crate::array_live::count_num(i as nat))
}

/// The bytes of an array argument; none where it is no array.
pub open spec fn bytes_arg(h: Host, pos: nat, args: Seq<Val>) -> Run<Seq<Val>> {
    if arg(args, 0) matches Val::Ref(Kind::Arr, _) {
        chain(
            ask_list(h, pos, Op::Elements, seq![arg(args, 0)]),
            |l: Seq<Val>, p: nat| done(bytes_as_values(bytes_in(l)), p),
        )
    } else {
        done(Seq::empty(), pos)
    }
}

/// Whether bytes are a module.
pub open spec fn wasm_validate_run(h: Host, pos: nat, recv: Option<Val>, args: Seq<Val>) -> Run<Val> {
    chain(
        bytes_arg(h, pos, args),
        |b: Seq<Val>, p: nat|
            chain(
                ask_flag(h, p, Op::WasmValid, b),
                |ok: bool, q: nat| done(Val::Bool(ok), q),
            ),
    )
}

/// An error whose message follows a name.
pub open spec fn named_failure(h: Host, pos: nat, name: Seq<char>, t: crate::host::Thrown) -> Run<
    Val,
> {
    chain(
        ask_text(h, pos, Op::ThrownMessage, seq![thrown_key(t)]),
        |m: Seq<char>, p: nat| raised(ErrorKind::Error, name + m, p),
    )
}

/// The number of a new module.
pub open spec fn wasm_compile_run(h: Host, pos: nat, recv: Option<Val>, args: Seq<Val>) -> Run<Val> {
    chain(
        bytes_arg(h, pos, args),
        |b: Seq<Val>, p: nat|
            {
                let m = ask_value(h, p, Op::WasmParse, b);
                match m.out {
                    Err(Halt::Throw(t)) => named_failure(
                        h,
                        m.pos,
                        "WebAssembly.CompileError: "@,
                        t,
                    ),
                    _ => m,
                }
            },
    )
}

/// An argument as the number of something.
pub open spec fn index_arg(h: Host, pos: nat, args: Seq<Val>, i: int) -> Run<u64> {
    chain(number_or_zero(h, pos, args, i), |n: Num, p: nat| done(count_of_num(n), p))
}

/// The least number of pages of a module's own memory; -1 where it has none.
pub open spec fn wasm_mem_pages_run(h: Host, pos: nat, recv: Option<Val>, args: Seq<Val>) -> Run<Val> {
    chain(
        index_arg(h, pos, args, 0),
        |i: u64, p0: nat|
            chain(
                ask_flag(h, p0, Op::WasmModule, seq![index_val(i)]),
                |there: bool, p1: nat|
                    if !there {
                        raised(ErrorKind::Error, "wasm: 모듈 없음"@, p1)
                    } else {
                        chain(
                            ask_slot(h, p1, Op::WasmMemPages, seq![index_val(i)]),
                            |s: Option<Val>, p2: nat|
                                done(
                                    match s {
                                        Some(v) => v,
                                        None => int_val(-1),
                                    },
                                    p2,
                                ),
                        )
                    },
            ),
    )
}

/// Makes an array the memory of modules.
pub open spec fn wasm_register_memory_run(h: Host, pos: nat, recv: Option<Val>, args: Seq<Val>) -> Run<
    Val,
> {
    if arg(args, 0) matches Val::Ref(Kind::Arr, _) {
        ask_value(h, pos, Op::WasmRegister, seq![arg(args, 0), arg(args, 1)])
    } else {
        raised(ErrorKind::Error, "wasm: 메모리 등록에 바이트 배열이 필요하다"@, pos)
    }
}

/// A count of pages.
pub open spec fn pages_of(n: u64) -> u64 {
    if n > 0xffff_ffff {
        0xffff_ffff
    } else {
        n
    }
}

/// What growing a memory returns: its size before, or -1.
pub open spec fn grown(h: Host, pos: nat, i: u64, pages: u64) -> Run<Val> {
    chain(
        ask_number(h, pos, Op::WasmGrow, seq![index_val(i), index_val(pages)]),
        |before: Num, p: nat|
            if greater(num_of(0), before) {
                done(int_val(-1), p)
            } else {
                told(ask_value(h, p, Op::WasmSync, Seq::empty()), Val::Num(before))
            },
    )
}

/// `grow` of a memory.
pub open spec fn wasm_grow_run(h: Host, pos: nat, recv: Option<Val>, args: Seq<Val>) -> Run<Val> {
    chain(
        index_arg(h, pos, args, 0),
        |i: u64, p0: nat|
            chain(
                index_arg(h, p0, args, 1),
                |pages: u64, p1: nat|
                    chain(
                        ask_flag(h, p1, Op::WasmMemory, seq![index_val(i)]),
                        |there: bool, p2: nat|
                            if there {
                                grown(h, p2, i, pages_of(pages))
                            } else {
                                raised(ErrorKind::Error, "wasm: 메모리 없음"@, p2)
                            },
                    ),
            ),
    )
}

/// A new instance of a module.
pub open spec fn wasm_instantiate_run(h: Host, pos: nat, recv: Option<Val>, args: Seq<Val>) -> Run<Val> {
    chain(
        index_arg(h, pos, args, 0),
        |m: u64, p: nat|
            chain(
                number_or_zero(h, p, args, 2),
                |mem: Num, q: nat|
                    ask_value(
                        h,
                        q,
                        Op::WasmInstantiate,
                        seq![index_val(m), arg(args, 1), Val::Num(mem)],
                    ),
            ),
    )
}

/// Throws where there is no instance of a number.
pub open spec fn need_instance(h: Host, pos: nat, inst: u64) -> Run<()> {
    chain(
        ask_flag(h, pos, Op::WasmInstance, seq![index_val(inst)]),
        |there: bool, p: nat|
            if there {
                done((), p)
            } else {
                raised(ErrorKind::Error, "wasm: 인스턴스 없음"@, p)
            },
    )
}

/// The first so many arguments; undefined for those that are missing.
pub open spec fn padded(args: Seq<Val>, n: nat) -> Seq<Val> {
    Seq::new(n, |i: int| arg(args, i))
}

/// What a call returns: undefined, the one result, or an array of the results.
pub open spec fn results(h: Host, pos: nat, l: Seq<Val>) -> Run<Val> {
    if l.len() == 0 {
        done(Val::Undefined, pos)
    } else if l.len() == 1 {
        done(l[0], pos)
    } else {
        ask_value(h, pos, Op::NewArray, l)
    }
}

/// A call of a function of so many parameters. The memories are brought up to date also where the
/// call fails.
pub open spec fn called(h: Host, pos: nat, inst: u64, func: u64, given: Seq<Val>) -> Run<Val> {
    let c = ask_list(h, pos, Op::WasmCall, seq![index_val(inst), index_val(func)] + given);
    match c.out {
        Err(Halt::Ask(q)) => halted(Halt::Ask(q), c.pos),
        Err(Halt::Throw(t)) => chain(
            ask_value(h, c.pos, Op::WasmSync, Seq::empty()),
            |u: Val, p: nat| named_failure(h, p, "WebAssembly.RuntimeError: "@, t),
        ),
        Ok(l) => chain(
            ask_value(h, c.pos, Op::WasmSync, Seq::empty()),
            |u: Val, p: nat| results(h, p, l),
        ),
    }
}

/// A function of an instance, called.
pub open spec fn wasm_call_run(
    h: Host,
    pos: nat,
    inst: u64,
    func: u64,
    recv: Option<Val>,
    args: Seq<Val>,
) -> Run<Val> {
    chain(
        need_instance(h, pos, inst),
        |u: (), p0: nat|
            chain(
                ask_flag(h, p0, Op::WasmFunction, seq![index_val(inst), index_val(func)]),
                |there: bool, p1: nat|
                    if !there {
                        raised(ErrorKind::Error, "wasm: 함수 타입 없음"@, p1)
                    } else {
                        chain(
                            ask_list(h, p1, Op::WasmParams, seq![index_val(inst), index_val(func)]),
                            |l: Seq<Val>, p2: nat| called(h, p2, inst, func, padded(args, l.len())),
                        )
                    },
            ),
    )
}

/// The value of an instance's global.
pub open spec fn wasm_global_get_run(
    h: Host,
    pos: nat,
    inst: u64,
    g: u64,
    recv: Option<Val>,
    args: Seq<Val>,
) -> Run<Val> {
    chain(
        need_instance(h, pos, inst),
        |u: (), p0: nat|
            chain(
                ask_slot(h, p0, Op::WasmGlobal, seq![index_val(inst), index_val(g)]),
                |s: Option<Val>, p1: nat|
                    match s {
                        Some(v) => done(v, p1),
                        None => raised(ErrorKind::Error, "wasm: 전역 없음"@, p1),
                    },
            ),
    )
}

/// Sets an instance's global.
pub open spec fn wasm_global_set_run(
    h: Host,
    pos: nat,
    inst: u64,
    g: u64,
    recv: Option<Val>,
    args: Seq<Val>,
) -> Run<Val> {
    chain(
        need_instance(h, pos, inst),
        |u: (), p0: nat|
            chain(
                ask_flag(
                    h,
                    p0,
                    Op::WasmSetGlobal,
                    seq![index_val(inst), index_val(g), arg(args, 0)],
                ),
                |there: bool, p1: nat|
                    if there {
                        done(Val::Undefined, p1)
                    } else {
                        raised(ErrorKind::Error, "wasm: 전역 없음"@, p1)
                    },
            ),
    )
}

/// `get` of an instance's table.
pub open spec fn wasm_table_get_run(
    h: Host,
    pos: nat,
    inst: u64,
    recv: Option<Val>,
    args: Seq<Val>,
) -> Run<Val> {
    chain(
        need_instance(h, pos, inst),
        |u: (), p0: nat|
            chain(
                index_arg(h, p0, args, 0),
                |i: u64, p1: nat|
                    chain(
                        ask_slot(h, p1, Op::WasmTable, seq![index_val(inst), index_val(i)]),
                        |s: Option<Val>, p2: nat| done(or_null(s), p2),
                    ),
            ),
    )
}

impl Interp {
    fn bytes_arg(&mut self, args: &Vec<Value>) -> (r: Result<Vec<Value>, Stop>)
        requires
            old(self).wf(),
        ensures
            final(self).follows(*old(self)),
            run_list(r, *final(self)) == bytes_arg(
                old(self).host(),
                old(self).pos as nat,
                views(args@),
            ),
    {
        let v: Value = arg_at(args, 0);
        if !matches!(v, Value::Ref(Kind::Arr, _)) {
            let none: Vec<Value> = empty_list();
            assert(views(none@) =~= Seq::empty());
            return Ok(none);
        }
        let l: Vec<Value> = self.ask_list(Op::Elements, list1(v))?;
        Ok(values_of_bytes(&bytes_of(Some(&l))))
    }

    /// Whether bytes are a module.
    pub fn wasm_validate(&mut self, recv: &Option<Value>, args: &Vec<Value>) -> (r: Result<Value, Stop>)
        requires
            old(self).wf(),
        ensures
            final(self).follows(*old(self)),
            run_value(r, *final(self)) == wasm_validate_run(
                old(self).host(),
                old(self).pos as nat,
                opt_view(*recv),
                views(args@),
            ),
    {
        let b: Vec<Value> = self.bytes_arg(args)?;
        let ok: bool = self.ask_flag(Op::WasmValid, b)?;
        Ok(Value::Bool(ok))
    }

    fn named_failure(&mut self, name: &str, t: &crate::host::Exception) -> (r: Result<Value, Stop>)
        requires
            old(self).wf(),
        ensures
            final(self).follows(*old(self)),
            run_value(r, *final(self)) == named_failure(
                old(self).host(),
                old(self).pos as nat,
                name@,
                t@,
            ),
    {
        let m: String = self.ask_text(Op::ThrownMessage, list1(key_of_thrown(t)))?;
        Err(fail(ErrorKind::Error, concat_text(name, m.as_str()).as_str()))
    }

    /// The number of a new module.
    pub fn wasm_compile(&mut self, recv: &Option<Value>, args: &Vec<Value>) -> (r: Result<Value, Stop>)
        requires
            old(self).wf(),
        ensures
            final(self).follows(*old(self)),
            run_value(r, *final(self)) == wasm_compile_run(
                old(self).host(),
                old(self).pos as nat,
                opt_view(*recv),
                views(args@),
            ),
    {
        let b: Vec<Value> = self.bytes_arg(args)?;
        match self.ask_value(Op::WasmParse, b) {
            Err(Stop::Throw(t)) => self.named_failure("WebAssembly.CompileError: ", &t),
            r => r,
        }
    }

    fn index_arg(&mut self, args: &Vec<Value>, i: usize) -> (r: Result<u64, Stop>)
        requires
            old(self).wf(),
        ensures
            final(self).follows(*old(self)),
            run_plain(r, *final(self)) == index_arg(
                old(self).host(),
                old(self).pos as nat,
                views(args@),
                i as int,
            ),
    {
        let n: Num = self.number_or_zero(args, i)?;
        Ok(num_to_count(n))
    }

    /// The least number of pages of a module's own memory.
    pub fn wasm_mem_pages(&mut self, recv: &Option<Value>, args: &Vec<Value>) -> (r: Result<Value, Stop>)
        requires
            old(self).wf(),
        ensures
            final(self).follows(*old(self)),
            run_value(r, *final(self)) == wasm_mem_pages_run(
                old(self).host(),
                old(self).pos as nat,
                opt_view(*recv),
                views(args@),
            ),
    {
        let i: u64 = self.index_arg(args, 0)?;
        if !self.ask_flag(Op::WasmModule, list1(Value::Num(index_number(i))))? {
            return Err(fail(ErrorKind::Error, "wasm: 모듈 없음"));
        }
        match self.ask_slot(Op::WasmMemPages, list1(Value::Num(index_number(i))))? {
            Some(v) => Ok(v),
            None => Ok(Value::Num(Num::from_i64(-1))),
        }
    }

    /// Makes an array the memory of modules.
    pub fn wasm_register_memory(&mut self, recv: &Option<Value>, args: &Vec<Value>) -> (r: Result<Value, Stop>)
        requires
            old(self).wf(),
        ensures
            final(self).follows(*old(self)),
            run_value(r, *final(self)) == wasm_register_memory_run(
                old(self).host(),
                old(self).pos as nat,
                opt_view(*recv),
                views(args@),
            ),
    {
        let v: Value = arg_at(args, 0);
        if !matches!(v, Value::Ref(Kind::Arr, _)) {
            return Err(fail(ErrorKind::Error, "wasm: 메모리 등록에 바이트 배열이 필요하다"));
        }
        self.ask_value(Op::WasmRegister, list2(v, arg_at(args, 1)))
    }

    fn grown(&mut self, i: u64, pages: u64) -> (r: Result<Value, Stop>)
        requires
            old(self).wf(),
        ensures
            final(self).follows(*old(self)),
            run_value(r, *final(self)) == grown(
                old(self).host(),
                old(self).pos as nat,
                i,
                pages,
            ),
    {
        let before: Num = self.ask_number(
            Op::WasmGrow,
            list2(Value::Num(index_number(i)), Value::Num(index_number(pages))),
        )?;
        if is_greater(Num::from_u64(0), before) {
            return Ok(Value::Num(Num::from_i64(-1)));
        }
        let none: Vec<Value> = empty_list();
        assert(views(none@) =~= Seq::empty());
        let u: Value = self.ask_value(Op::WasmSync, none)?;
        Ok(Value::Num(before))
    }

    /// `grow` of a memory.
    pub fn wasm_grow(&mut self, recv: &Option<Value>, args: &Vec<Value>) -> (r: Result<Value, Stop>)
        requires
            old(self).wf(),
        ensures
            final(self).follows(*old(self)),
            run_value(r, *final(self)) == wasm_grow_run(
                old(self).host(),
                old(self).pos as nat,
                opt_view(*recv),
                views(args@),
            ),
    {
        let i: u64 = self.index_arg(args, 0)?;
        let asked_for: u64 = self.index_arg(args, 1)?;
        if !self.ask_flag(Op::WasmMemory, list1(Value::Num(index_number(i))))? {
            return Err(fail(ErrorKind::Error, "wasm: 메모리 없음"));
        }
        let pages: u64 = if asked_for > 0xffff_ffff {
            0xffff_ffff
        } else {
            asked_for
        };
        self.grown(i, pages)
    }

    /// A new instance of a module.
    pub fn wasm_instantiate(&mut self, recv: &Option<Value>, args: &Vec<Value>) -> (r: Result<Value, Stop>)
        requires
            old(self).wf(),
        ensures
            final(self).follows(*old(self)),
            run_value(r, *final(self)) == wasm_instantiate_run(
                old(self).host(),
                old(self).pos as nat,
                opt_view(*recv),
                views(args@),
            ),
    {
        let m: u64 = self.index_arg(args, 0)?;
        let mem: Num = self.number_or_zero(args, 2)?;
        self.ask_value(
            Op::WasmInstantiate,
            list3(Value::Num(index_number(m)), arg_at(args, 1), Value::Num(mem)),
        )
    }

    fn need_instance(&mut self, inst: u64) -> (r: Result<(), Stop>)
        requires
            old(self).wf(),
        ensures
            final(self).follows(*old(self)),
            run_plain(r, *final(self)) == need_instance(
                old(self).host(),
                old(self).pos as nat,
                inst,
            ),
    {
        if self.ask_flag(Op::WasmInstance, list1(Value::Num(index_number(inst))))? {
            Ok(())
        } else {
            Err(fail(ErrorKind::Error, "wasm: 인스턴스 없음"))
        }
    }

    fn results(&mut self, l: Vec<Value>) -> (r: Result<Value, Stop>)
        requires
            old(self).wf(),
        ensures
            final(self).follows(*old(self)),
            run_value(r, *final(self)) == results(
                old(self).host(),
                old(self).pos as nat,
                views(l@),
            ),
    {
        if l.len() == 0 {
            Ok(Value::Undefined)
        } else if l.len() == 1 {
            assert(views(l@)[0] == l@[0]@);
            Ok(l[0].clone())
        } else {
            self.ask_value(Op::NewArray, l)
        }
    }

    fn called(&mut self, inst: u64, func: u64, given: &Vec<Value>) -> (r: Result<Value, Stop>)
        requires
            old(self).wf(),
        ensures
            final(self).follows(*old(self)),
            run_value(r, *final(self)) == called(
                old(self).host(),
                old(self).pos as nat,
                inst,
                func,
                views(given@),
            ),
    {
        let front: Vec<Value> = list2(Value::Num(index_number(inst)), Value::Num(index_number(func)));
        match self.ask_list(Op::WasmCall, cat(front, given)) {
            Err(Stop::Ask(q)) => Err(Stop::Ask(q)),
            Err(Stop::Throw(t)) => {
                let none: Vec<Value> = empty_list();
                assert(views(none@) =~= Seq::empty());
                let u: Value = self.ask_value(Op::WasmSync, none)?;
                self.named_failure("WebAssembly.RuntimeError: ", &t)
            },
            Ok(l) => {
                let none: Vec<Value> = empty_list();
                assert(views(none@) =~= Seq::empty());
                let u: Value = self.ask_value(Op::WasmSync, none)?;
                self.results(l)
            },
        }
    }

    /// A function of an instance, called.
    pub fn wasm_call(&mut self, inst: u64, func: u64, recv: &Option<Value>, args: &Vec<Value>) -> (r: Result<Value, Stop>)
        requires
            old(self).wf(),
        ensures
            final(self).follows(*old(self)),
            run_value(r, *final(self)) == wasm_call_run(
                old(self).host(),
                old(self).pos as nat,
                inst,
                func,
                opt_view(*recv),
                views(args@),
            ),
    {
        self.need_instance(inst)?;
        if !self.ask_flag(
            Op::WasmFunction,
            list2(Value::Num(index_number(inst)), Value::Num(index_number(func))),
        )? {
            return Err(fail(ErrorKind::Error, "wasm: 함수 타입 없음"));
        }
        let l: Vec<Value> = self.ask_list(
            Op::WasmParams,
            list2(Value::Num(index_number(inst)), Value::Num(index_number(func))),
        )?;
        self.called(inst, func, &pad_args(args, l.len()))
    }

    /// The value of an instance's global.
    pub fn wasm_global_get(&mut self, inst: u64, g: u64, recv: &Option<Value>, args: &Vec<Value>) -> (r: Result<Value, Stop>)
        requires
            old(self).wf(),
        ensures
            final(self).follows(*old(self)),
            run_value(r, *final(self)) == wasm_global_get_run(
                old(self).host(),
                old(self).pos as nat,
                inst,
                g,
                opt_view(*recv),
                views(args@),
            ),
    {
        self.need_instance(inst)?;
        let s: Option<Value> = self.ask_slot(
            Op::WasmGlobal,
            list2(Value::Num(index_number(inst)), Value::Num(index_number(g))),
        )?;
        match s {
            Some(v) => Ok(v),
            None => Err(fail(ErrorKind::Error, "wasm: 전역 없음")),
        }
    }

    /// Sets an instance's global.
    pub fn wasm_global_set(&mut self, inst: u64, g: u64, recv: &Option<Value>, args: &Vec<Value>) -> (r: Result<Value, Stop>)
        requires
            old(self).wf(),
        ensures
            final(self).follows(*old(self)),
            run_value(r, *final(self)) == wasm_global_set_run(
                old(self).host(),
                old(self).pos as nat,
                inst,
                g,
                opt_view(*recv),
                views(args@),
            ),
    {
        self.need_instance(inst)?;
        let there: bool = self.ask_flag(
            Op::WasmSetGlobal,
            list3(Value::Num(index_number(inst)), Value::Num(index_number(g)), arg_at(args, 0)),
        )?;
        if there {
            Ok(Value::Undefined)
        } else {
            Err(fail(ErrorKind::Error, "wasm: 전역 없음"))
        }
    }

    /// `get` of an instance's table.
    pub fn wasm_table_get(&mut self, inst: u64, recv: &Option<Value>, args: &Vec<Value>) -> (r: Result<Value, Stop>)
        requires
            old(self).wf(),
        ensures
            final(self).follows(*old(self)),
            run_value(r, *final(self)) == wasm_table_get_run(
                old(self).host(),
                old(self).pos as nat,
                inst,
                opt_view(*recv),
                views(args@),
            ),
    {
        self.need_instance(inst)?;
        let i: u64 = self.index_arg(args, 0)?;
        let s: Option<Value> = self.ask_slot(
            Op::WasmTable,
            list2(Value::Num(index_number(inst)), Value::Num(index_number(i))),
        )?;
        Ok(null_if_none(s))
    }
}

fn pad_args(args: &Vec<Value>, n: usize) -> (r: Vec<Value>)
    ensures
        views(r@) == padded(views(args@), n as nat),
{
    let ghost goal = padded(views(args@), n as nat);
    let mut out: Vec<Value> = empty_list();
    let mut i: usize = 0;
    assert(views(out@) =~= goal.take(0));
    while i < n
        invariant
            i <= n,
            goal == padded(views(args@), n as nat),
            views(out@) == goal.take(i as int),
        decreases n - i,
    {
        let ghost before = views(out@);
        out.push(arg_at(args, i));
        assert(views(out@) =~= before.push(goal[i as int]));
        i = i + 1;
        assert(views(out@) =~= goal.take(i as int));
    }
    assert(goal.take(i as int) =~= goal);
    out
}

} // verus!
