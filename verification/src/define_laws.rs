//! What making objects and describing their properties comes to.
use crate::array_live::count_num;
use crate::descriptors::{
    computed, define_each, define_one, object_create_run, object_set_prototype_of_run, own_of_array,
    own_of_object, symbols_among, OwnV,
};
use crate::function_laws::law_called;
use crate::host::{done, settles, Answer, Halt, Host, Op, Question};
use crate::natives::{object_native_run, ObjectFn};
use crate::number::{law_safe_integers_exact, num_of, Num, MAX_ARRAY_LEN};
use crate::object_laws::law_reflected;
use crate::property::{internal_key, PropV, SlotV};
use crate::symbols::symbol_key;
use crate::value::{callable, object, Kind, Val};
use vstd::prelude::*;

verus! {

/// `Object.create` makes an object with the prototype that is given, and refuses what can be none.
pub proof fn law_created(h: Host, recv: Option<Val>, proto: Val, o: Val)
    requires
        h.len == 1,
        (h.reply)(0, Question { op: Op::NewWithProto, args: seq![proto] }) == Answer::Value(o),
    ensures
        object(proto) || proto is Null ==> object_create_run(h, 0, recv, seq![proto]) == done(o, 1),
        !object(proto) && !(proto is Null) ==> (object_create_run(
            h,
            0,
            recv,
            seq![proto],
        ).out matches Err(Halt::Throw(_))),
{
    assert(seq![proto][0] == proto);
}

/// `Object.setPrototypeOf` gives the object back whose prototype it set; a refusal is an error, and
/// what is no object stays as it is.
pub proof fn law_prototype_assigned(h: Host, recv: Option<Val>, v: Val, proto: Val, ok: bool)
    requires
        object(proto) || proto is Null,
        !(v is Undefined),
        !(v is Null),
        h.len == 1,
        (h.reply)(0, Question { op: Op::SetProto, args: seq![v, proto] }) == Answer::Value(
            Val::Bool(ok),
        ),
    ensures
        object(v) && ok ==> object_set_prototype_of_run(h, 0, recv, seq![v, proto]) == done(v, 1),
        object(v) && !ok ==> (object_set_prototype_of_run(
            h,
            0,
            recv,
            seq![v, proto],
        ).out matches Err(Halt::Throw(_))),
        !object(v) ==> object_set_prototype_of_run(h, 0, recv, seq![v, proto]) == done(v, 0),
{
    assert(seq![v, proto][0] == v && seq![v, proto][1] == proto);
}

/// The length of an array is its number of elements; it is never listed and never made anew, and
/// written where the array allows it.
pub proof fn law_length_described(h: Host, a: u64, n: nat, w: bool)
    requires
        n <= MAX_ARRAY_LEN,
        h.len == 2,
        (h.reply)(0, Question { op: Op::ArrayLen, args: seq![Val::Ref(Kind::Arr, a)] })
            == Answer::Value(Val::Num(num_of(n as int))),
        (h.reply)(1, Question { op: Op::LengthWritable, args: seq![Val::Ref(Kind::Arr, a)] })
            == Answer::Value(Val::Bool(w)),
    ensures
        own_of_array(h, 0, Val::Ref(Kind::Arr, a), "length"@) == done(
            OwnV::Found(
                PropV {
                    slot: SlotV::Data(Val::Num(count_num(n))),
                    writable: w,
                    enumerable: false,
                    configurable: false,
                },
            ),
            2,
        ),
{
    law_safe_integers_exact(n as int);
}

/// What the engine keeps for itself is no property of an object.
pub proof fn law_internal_hidden(h: Host, o: u64, key: Seq<char>)
    requires
        internal_key(key),
        !symbol_key(key),
    ensures
        own_of_object(h, 0, Val::Ref(Kind::Obj, o), key) == done(OwnV::Absent, 0),
{
}

/// The name of a function is a text and its length a number, each as the engine says.
pub proof fn law_function_described(h: Host, f: Val, s: Seq<char>, op: Op, n: Num)
    requires
        h.len == 1,
        (h.reply)(0, Question { op: Op::FunctionName, args: seq![f] }) == Answer::Value(
            Val::Str(s),
        ),
        (h.reply)(0, Question { op, args: seq![f] }) == Answer::Value(Val::Num(n)),
    ensures
        computed(h, 0, f, "name"@, op) == done(Val::Str(s), 1),
        computed(h, 0, f, "length"@, op) == done(Val::Num(n), 1),
{
    reveal_strlit("name");
    reveal_strlit("length");
    assert("name"@.len() == 4 && "length"@.len() == 6);
}

/// The symbols among some keys are those of them that are symbols.
pub proof fn law_symbols_among(keys: Seq<Val>, x: Val)
    ensures
        symbols_among(keys).contains(x) <==> keys.contains(x) && x is Symbol,
    decreases keys.len(),
{
    if keys.len() > 0 {
        let front = keys.drop_last();
        law_symbols_among(front, x);
        let rest = symbols_among(front);
        let all = rest.push(keys.last());
        assert(all[rest.len() as int] == keys.last());
        assert(keys[keys.len() - 1] == keys.last());
        if front.contains(x) {
            let i = front.index_of(x);
            assert(keys[i] == x);
        }
        if keys.contains(x) && !front.contains(x) {
            let i = keys.index_of(x);
            assert(i < front.len() ==> front[i] == x);
        }
        if rest.contains(x) {
            let i = rest.index_of(x);
            assert(all[i] == x);
        }
        if all.contains(x) && !rest.contains(x) {
            let i = all.index_of(x);
            assert(i < rest.len() ==> rest[i] == x);
        }
    } else {
        assert(!keys.contains(x));
        assert(!symbols_among(keys).contains(x));
    }
}

/// Every one of some properties is defined, one after the other.
pub open spec fn all_defined(h: Host, pos: nat, v: Val, props: Val, keys: Seq<Val>, i: int) -> bool
    decreases keys.len() - i,
{
    0 <= i < keys.len() ==> {
        let s = define_one(h, pos, v, props, keys[i]);
        &&& settles(s, v)
        &&& s.out is Ok ==> all_defined(h, s.pos, v, props, keys, i + 1)
    }
}

/// `Object.defineProperties` gives the object back once all of them are defined.
pub proof fn law_all_defined(h: Host, pos: nat, v: Val, props: Val, keys: Seq<Val>, i: int)
    requires
        0 <= i <= keys.len(),
        all_defined(h, pos, v, props, keys, i),
    ensures
        settles(define_each(h, pos, v, props, keys, i), v),
    decreases keys.len() - i,
{
    if i < keys.len() {
        let s = define_one(h, pos, v, props, keys[i]);
        if s.out is Ok {
            law_all_defined(h, s.pos, v, props, keys, i + 1);
        }
    }
}

/// The built-ins by their names: what calls, binds, reads, writes, looks and deletes asks for just
/// that.
pub proof fn law_built_ins(
    h: Host,
    g: Host,
    f: Val,
    t: Val,
    args: Seq<Val>,
    target: Val,
    k: Val,
    v: Val,
    key: Seq<char>,
    list: u64,
)
    requires
        callable(f),
        object(target),
        h.len == 0,
        g.len == 1,
        (g.reply)(0, Question { op: Op::ToKey, args: seq![k] }) == Answer::Value(Val::Str(key)),
        (g.reply)(0, Question { op: Op::Elements, args: seq![Val::Ref(Kind::Arr, list)] })
            == Answer::List(args),
    ensures
        object_native_run(h, 0, ObjectFn::FnCall, Some(f), seq![t] + args).out == Err::<Val, _>(
            Halt::Ask(Question { op: Op::Call, args: seq![f, t] + args }),
        ),
        object_native_run(
            g,
            0,
            ObjectFn::FnApply,
            Some(f),
            seq![t, Val::Ref(Kind::Arr, list)],
        ).out == Err::<Val, _>(Halt::Ask(Question { op: Op::Call, args: seq![f, t] + args })),
        object_native_run(h, 0, ObjectFn::FnBind, Some(f), seq![t] + args).out == Err::<Val, _>(
            Halt::Ask(Question { op: Op::NewBound, args: seq![f, t] + args }),
        ),
        object_native_run(g, 0, ObjectFn::ReflectGet, None, seq![target, k]).out == Err::<Val, _>(
            Halt::Ask(Question { op: Op::Get, args: seq![target, Val::Str(key)] }),
        ),
        object_native_run(g, 0, ObjectFn::ReflectSet, None, seq![target, k, v]).out == Err::<
            Val,
            _,
        >(Halt::Ask(Question { op: Op::Assign, args: seq![target, Val::Str(key), v, target] })),
        object_native_run(g, 0, ObjectFn::ReflectHas, None, seq![target, k]).out == Err::<Val, _>(
            Halt::Ask(Question { op: Op::Has, args: seq![target, Val::Str(key)] }),
        ),
        object_native_run(g, 0, ObjectFn::ReflectDeleteProperty, None, seq![target, k]).out
            == Err::<Val, _>(
            Halt::Ask(Question { op: Op::Delete, args: seq![target, Val::Str(key)] }),
        ),
        object_native_run(h, 0, ObjectFn::ReturnTrue, Some(t), args) == done(Val::Bool(true), 0),
        object_native_run(h, 0, ObjectFn::ReturnThis, Some(t), args) == done(t, 0),
        object_native_run(h, 0, ObjectFn::Noop, Some(t), args) == done(Val::Undefined, 0),
        object_native_run(h, 0, ObjectFn::Identity, Some(t), seq![v]) == done(v, 0),
{
    law_called(h, g, f, t, args, list);
    law_reflected(g, target, k, v, v, key);
    assert(seq![v][0] == v);
}

} // verus!
