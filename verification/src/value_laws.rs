//! What the functions of the global object, of numbers as texts and of modules come to.
use crate::functions::{
    class_text, comma_list, fn_has_instance_run, identifier, integrity_run, native_text,
    IntegrityTest,
};
use crate::globals::{
    alert_run, array_ctor_run, array_is_array_run, array_length, boolean_ctor_run, console_log_run,
    number_ctor_run, queue_microtask_run,
};
use crate::host::{done, Answer, Halt, Host, Op, PrimBrand, Question};
use crate::number::{law_safe_integers_exact, num_of, Num, MAX_SAFE};
use crate::number_format::{global_check_run, to_fixed_run, to_precision_run};
use crate::value::{callable, object, Kind, Native, Val};
use crate::wasm::{
    called, grown, index_val, padded, results, wasm_global_get_run, wasm_register_memory_run,
    wasm_validate_run,
};
use vstd::prelude::*;

verus! {

/// What is logged is written as one line, and an alert is marked as one.
pub proof fn law_logged(h: Host, recv: Option<Val>, v: Val, s: Seq<char>)
    requires
        h.len == 1,
        (h.reply)(0, Question { op: Op::Display, args: seq![v] }) == Answer::Value(Val::Str(s)),
    ensures
        console_log_run(h, 0, recv, seq![v]).out == Err::<Val, _>(
            Halt::Ask(Question { op: Op::Console, args: seq![Val::Str(s)] }),
        ),
        alert_run(h, 0, recv, seq![v]).out == Err::<Val, _>(
            Halt::Ask(Question { op: Op::Console, args: seq![Val::Str("[alert] "@ + s)] }),
        ),
{
    assert(seq![v][0] == v);
    reveal_with_fuel(crate::globals::displays, 2);
    reveal_with_fuel(crate::json_text::joined, 2);
    let parts = Seq::<Seq<char>>::empty().push(s);
    assert(parts[0] == s);
}

/// `Boolean` of a value: nothing, zero and an empty text are false.
pub proof fn law_boolean(h: Host, recv: Option<Val>, k: int, s: Seq<char>, b: bool, o: u64)
    requires
        -MAX_SAFE <= k <= MAX_SAFE,
    ensures
        boolean_ctor_run(h, 0, recv, seq![Val::Num(num_of(k))]) == done(Val::Bool(k != 0), 0),
        boolean_ctor_run(h, 0, recv, seq![Val::Str(s)]) == done(Val::Bool(s.len() > 0), 0),
        boolean_ctor_run(h, 0, recv, seq![Val::Bool(b)]) == done(Val::Bool(b), 0),
        boolean_ctor_run(h, 0, recv, seq![Val::Null]) == done(Val::Bool(false), 0),
        boolean_ctor_run(h, 0, recv, Seq::empty()) == done(Val::Bool(false), 0),
        boolean_ctor_run(h, 0, recv, seq![Val::Ref(Kind::Obj, o)]) == done(Val::Bool(true), 0),
{
    law_safe_integers_exact(k);
    assert(seq![Val::Num(num_of(k))][0] == Val::Num(num_of(k)));
    assert(seq![Val::Str(s)][0] == Val::Str(s));
    assert(seq![Val::Bool(b)][0] == Val::Bool(b));
    assert(seq![Val::Null][0] == Val::Null);
    assert(seq![Val::Ref(Kind::Obj, o)][0] == Val::Ref(Kind::Obj, o));
}

/// `Number` of nothing is zero, of a value the number of the value.
pub proof fn law_number(h: Host, recv: Option<Val>, v: Val, n: Num)
    requires
        !(v is BigInt),
        h.len == 1,
        (h.reply)(0, Question { op: Op::ToNumber, args: seq![v] }) == Answer::Value(Val::Num(n)),
    ensures
        number_ctor_run(h, 0, recv, Seq::empty()) == done(Val::Num(num_of(0)), 0),
        number_ctor_run(h, 0, recv, seq![v]) == done(Val::Num(n), 1),
{
    assert(seq![v][0] == v);
}

/// The global `isNaN` and `isFinite` tell of integers that they are finite numbers.
pub proof fn law_checks(h: Host, v: Val, n: Num)
    requires
        h.len == 1,
        (h.reply)(0, Question { op: Op::ToNumber, args: seq![v] }) == Answer::Value(Val::Num(n)),
    ensures
        global_check_run(h, 0, seq![v], false) == done(Val::Bool(n.nan()), 1),
        global_check_run(h, 0, seq![v], true) == done(Val::Bool(n.finite()), 1),
        n.nan() ==> !n.finite(),
{
    assert(seq![v][0] == v);
}

/// An array can be as long as 32 bits count, no longer, and not of a negative length.
pub proof fn law_array_length(h: Host, recv: Option<Val>, k: int)
    requires
        -MAX_SAFE <= k <= MAX_SAFE,
        h.len == 0,
    ensures
        array_length(num_of(k)) <==> 0 <= k < 0x1_0000_0000,
        0 <= k < 0x1_0000_0000 ==> array_ctor_run(h, 0, recv, seq![Val::Num(num_of(k))]).out
            == Err::<Val, _>(
            Halt::Ask(
                Question {
                    op: Op::CallCtor,
                    args: seq![Val::Native(Native::ArrayCtor)] + seq![Val::Num(num_of(k))],
                },
            ),
        ),
        k < 0 ==> (array_ctor_run(h, 0, recv, seq![Val::Num(num_of(k))]).out matches Err(
            Halt::Throw(_),
        )),
{
    law_safe_integers_exact(k);
    assert(seq![Val::Num(num_of(k))][0] == Val::Num(num_of(k)));
}

/// Whether a value is an array is what the engine says.
pub proof fn law_is_array(h: Host, recv: Option<Val>, v: Val, b: bool)
    requires
        h.len == 1,
        (h.reply)(0, Question { op: Op::IsArray, args: seq![v] }) == Answer::Value(Val::Bool(b)),
    ensures
        array_is_array_run(h, 0, recv, seq![v]) == done(Val::Bool(b), 1),
{
    assert(seq![v][0] == v);
}

/// Only what can be called is queued.
pub proof fn law_queued(h: Host, recv: Option<Val>, f: Val)
    requires
        h.len == 0,
    ensures
        callable(f) ==> queue_microtask_run(h, 0, recv, seq![f]).out == Err::<Val, _>(
            Halt::Ask(Question { op: Op::QueueMicrotask, args: seq![f] }),
        ),
        !callable(f) ==> (queue_microtask_run(h, 0, recv, seq![f]).out matches Err(Halt::Throw(_))),
{
    assert(seq![f][0] == f);
}

/// The number of digits behind the point: from none to a hundred, and no other.
pub proof fn law_fixed(h: Host, v: Val, w: Val, n: int, k: int)
    requires
        n != 0,
        -MAX_SAFE <= n <= MAX_SAFE,
        -MAX_SAFE <= k <= MAX_SAFE,
        h.len == 2,
        (h.reply)(0, Question { op: Op::ThisPrimitive(PrimBrand::Number), args: seq![v] })
            == Answer::Value(Val::Num(num_of(n))),
        (h.reply)(1, Question { op: Op::ToInteger, args: seq![w] }) == Answer::Value(
            Val::Num(num_of(k)),
        ),
    ensures
        ({
            let r = to_fixed_run(h, 0, Some(v), seq![w]);
            &&& k < 0 || k > 100 ==> (r.out matches Err(Halt::Throw(_)))
            &&& 0 <= k <= 100 ==> r.out == Err::<Val, _>(
                Halt::Ask(
                    Question {
                        op: Op::FixedText,
                        args: seq![Val::Num(num_of(n)), Val::Num(num_of(k))],
                    },
                ),
            )
        }),
{
    law_safe_integers_exact(n);
    law_safe_integers_exact(k);
    assert(seq![w][0] == w);
}

/// The number of digits in all: from one to a hundred, and no other.
pub proof fn law_precision(h: Host, v: Val, w: Val, n: int, k: int)
    requires
        !(w is Undefined),
        -MAX_SAFE <= n <= MAX_SAFE,
        -MAX_SAFE <= k <= MAX_SAFE,
        h.len == 2,
        (h.reply)(0, Question { op: Op::ThisPrimitive(PrimBrand::Number), args: seq![v] })
            == Answer::Value(Val::Num(num_of(n))),
        (h.reply)(1, Question { op: Op::ToInteger, args: seq![w] }) == Answer::Value(
            Val::Num(num_of(k)),
        ),
    ensures
        ({
            let r = to_precision_run(h, 0, Some(v), seq![w]);
            &&& k < 1 || k > 100 ==> (r.out matches Err(Halt::Throw(_)))
            &&& 1 <= k <= 100 ==> r.out == Err::<Val, _>(
                Halt::Ask(
                    Question {
                        op: Op::PrecisionText,
                        args: seq![Val::Num(num_of(n)), Val::Num(num_of(k))],
                    },
                ),
            )
        }),
{
    law_safe_integers_exact(n);
    law_safe_integers_exact(k);
    assert(seq![w][0] == w);
}

/// What is kept of an object's integrity: frozen, sealed, closed. A frozen object is sealed, and
/// none of the three can be extended; what is no object is frozen and sealed and cannot be extended.
pub proof fn law_integrity(h: Host, v: Val, a: bool, b: bool, c: bool)
    requires
        !(v is Proxy),
        object(v) ==> h.len == 1 && (h.reply)(
            0,
            Question { op: Op::IntegrityBits, args: seq![v] },
        ) == Answer::List(seq![Val::Bool(a), Val::Bool(b), Val::Bool(c)]),
        !object(v) ==> a,
    ensures
        integrity_run(h, 0, IntegrityTest::Frozen, seq![v]).out == Ok::<Val, Halt>(Val::Bool(a)),
        integrity_run(h, 0, IntegrityTest::Sealed, seq![v]).out == Ok::<Val, Halt>(
            Val::Bool(a || b),
        ),
        integrity_run(h, 0, IntegrityTest::Extensible, seq![v]).out == Ok::<Val, Halt>(
            Val::Bool(!a && !b && !c),
        ),
{
    assert(seq![v][0] == v);
    let l = seq![Val::Bool(a), Val::Bool(b), Val::Bool(c)];
    assert(l[0] == Val::Bool(a) && l[1] == Val::Bool(b) && l[2] == Val::Bool(c));
}

/// A value is an instance of what can be called only as far as the engine says so.
pub proof fn law_has_instance(h: Host, f: Val, v: Val)
    requires
        h.len == 0,
    ensures
        callable(f) ==> fn_has_instance_run(h, 0, Some(f), seq![v]).out == Err::<Val, _>(
            Halt::Ask(Question { op: Op::InstanceOf, args: seq![v, f] }),
        ),
        !callable(f) ==> fn_has_instance_run(h, 0, Some(f), seq![v]) == done(Val::Bool(false), 0),
{
    assert(seq![v][0] == v);
}

/// The names of parameters stand in their order, with a comma and a blank between two.
pub proof fn law_comma_list(items: Seq<Val>, s: Seq<char>, t: Seq<char>)
    ensures
        comma_list(seq![Val::Str(s)], 1) == s,
        comma_list(seq![Val::Str(s), Val::Str(t)], 2) == s + seq![',', ' '] + t,
        comma_list(items, 0) == Seq::<char>::empty(),
{
    reveal_strlit(", ");
    assert(", "@ =~= seq![',', ' ']);
    reveal_with_fuel(comma_list, 3);
    let two = seq![Val::Str(s), Val::Str(t)];
    assert(two[0] == Val::Str(s) && two[1] == Val::Str(t));
    assert(seq![Val::Str(s)][0] == Val::Str(s));
}

/// The bytes of nothing are no bytes; what the engine says of a module is what is said.
pub proof fn law_module_valid(h: Host, recv: Option<Val>, b: bool)
    requires
        h.len == 1,
        (h.reply)(0, Question { op: Op::WasmValid, args: Seq::empty() }) == Answer::Value(
            Val::Bool(b),
        ),
    ensures
        wasm_validate_run(h, 0, recv, Seq::empty()) == done(Val::Bool(b), 1),
{
}

/// A memory that grew gives its size from before; one that did not gives minus one.
pub proof fn law_memory_grown(h: Host, i: u64, pages: u64, k: int, u: Val)
    requires
        -MAX_SAFE <= k <= MAX_SAFE,
        h.len == 2,
        (h.reply)(0, Question { op: Op::WasmGrow, args: seq![index_val(i), index_val(pages)] })
            == Answer::Value(Val::Num(num_of(k))),
        (h.reply)(1, Question { op: Op::WasmSync, args: Seq::empty() }) == Answer::Value(u),
    ensures
        k >= 0 ==> grown(h, 0, i, pages) == done(Val::Num(num_of(k)), 2),
        k < 0 ==> grown(h, 0, i, pages) == done(Val::Num(num_of(-1)), 1),
{
    law_safe_integers_exact(k);
    law_safe_integers_exact(0);
    assert(num_of(0).bits == 0);
}

/// A call gives nothing, its one result, or an array of its results in their order.
pub proof fn law_call_results(h: Host, x: Val, l: Seq<Val>)
    requires
        l.len() >= 2,
        h.len == 0,
    ensures
        results(h, 0, Seq::empty()) == done(Val::Undefined, 0),
        results(h, 0, seq![x]) == done(x, 0),
        results(h, 0, l).out == Err::<Val, _>(Halt::Ask(Question { op: Op::NewArray, args: l })),
{
    assert(seq![x][0] == x);
}

/// A function of a module is called with as many arguments as it has parameters: the others are
/// left out, those that are missing are undefined.
pub proof fn law_padded(args: Seq<Val>, n: nat, i: int)
    requires
        0 <= i < n,
    ensures
        padded(args, n).len() == n,
        i < args.len() ==> padded(args, n)[i] == args[i],
        i >= args.len() ==> padded(args, n)[i] is Undefined,
{
}

/// A call hands on the arguments, brings the memories up to date and gives the result.
pub proof fn law_module_called(h: Host, inst: u64, func: u64, given: Seq<Val>, x: Val, u: Val)
    requires
        h.len == 2,
        (h.reply)(
            0,
            Question { op: Op::WasmCall, args: seq![index_val(inst), index_val(func)] + given },
        ) == Answer::List(seq![x]),
        (h.reply)(1, Question { op: Op::WasmSync, args: Seq::empty() }) == Answer::Value(u),
    ensures
        called(h, 0, inst, func, given) == done(x, 2),
{
    assert(seq![x][0] == x);
}

/// A global of an instance is read by its number; without the instance there is none.
pub proof fn law_module_global(h: Host, inst: u64, g: u64, v: Val, there: bool)
    requires
        !(v is Undefined),
        h.len == 2,
        (h.reply)(0, Question { op: Op::WasmInstance, args: seq![index_val(inst)] })
            == Answer::Value(Val::Bool(there)),
        (h.reply)(1, Question { op: Op::WasmGlobal, args: seq![index_val(inst), index_val(g)] })
            == Answer::Value(v),
    ensures
        there ==> wasm_global_get_run(h, 0, inst, g, None, Seq::empty()) == done(v, 2),
        !there ==> (wasm_global_get_run(h, 0, inst, g, None, Seq::empty()).out matches Err(
            Halt::Throw(_),
        )),
{
}

/// An array becomes a memory, anything else is refused.
pub proof fn law_memory_registered(h: Host, recv: Option<Val>, a: u64, n: Val, v: Val)
    requires
        h.len == 0,
        !(v matches Val::Ref(Kind::Arr, _)),
    ensures
        wasm_register_memory_run(h, 0, recv, seq![Val::Ref(Kind::Arr, a), n]).out == Err::<Val, _>(
            Halt::Ask(Question { op: Op::WasmRegister, args: seq![Val::Ref(Kind::Arr, a), n] }),
        ),
        wasm_register_memory_run(h, 0, recv, seq![v, n]).out matches Err(Halt::Throw(_)),
{
    let args = seq![Val::Ref(Kind::Arr, a), n];
    assert(args[0] == Val::Ref(Kind::Arr, a) && args[1] == n);
    assert(seq![v, n][0] == v);
}

/// A native function says its name where that is one that can stand there, and none otherwise.
pub proof fn law_native_text(name: Seq<char>)
    ensures
        identifier(name) ==> native_text(name) == "function "@ + name + "() { [native code] }"@,
        !identifier(name) ==> native_text(name) == "function () { [native code] }"@,
        name.len() > 0 ==> class_text(name) == "class "@ + name + " { }"@,
{
}

} // verus!
