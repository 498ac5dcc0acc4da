//! Functions and objects as their own methods see them: calling, binding, describing.
use crate::array_live::{count_as_num, count_num};
use crate::descriptors::object_get_own_property_descriptor_run;
use crate::entries::private_name;
use crate::host::{
    ask_flag, ask_list, ask_slot, ask_text, ask_value, call, chain, done, fail, get, get_quietly,
    halted, list1, list2, list3, opt_view, raised, run_plain, run_text, run_value, text_value, Host,
    Interp, Op, Run, Stop,
};
use crate::integrity::tighten_properties;
use crate::number::Num;
use crate::number_format::{this_of, this_or_undefined};
use crate::objects::{array_read, is_null, is_nullish, proto_of};
use crate::property::{internal_key, is_internal_key, Integrity};
use crate::symbols::{is_symbol_key, symbol_key};
use crate::text::{
    append_text, chars_of, concat_text, index_in, is_digit, parse_index, same_text,
    starts_with_text,
};
use crate::value::{
    arg, arg_at, callable, is_callable, is_object, object, strict_eq, strictly_equal, to_bool,
    truthy, views, ErrorKind, Kind, Native, Val, Value,
};
use vstd::prelude::*;

verus! {

/// The arguments after the first.
pub open spec fn rest_args(args: Seq<Val>) -> Seq<Val> {
    if args.len() > 0 {
        args.skip(1)
    } else {
        args
    }
}

pub fn args_after_first(args: &Vec<Value>) -> (r: Vec<Value>)
    ensures
        views(r@) == rest_args(views(args@)),
{
    let mut out: Vec<Value> = Vec::new();
    let mut i: usize = 1;
    assert(views(args@).len() == 0 ==> views(out@) =~= rest_args(views(args@)));
    while i < args.len()
        invariant
            1 <= i,
            args@.len() > 0 ==> i <= args@.len(),
            args@.len() > 0 ==> views(out@) == views(args@).subrange(1, i as int),
            args@.len() == 0 ==> views(out@) == rest_args(views(args@)),
        decreases args@.len() - i,
    {
        let ghost before = views(out@);
        out.push(args[i].clone());
        assert(views(out@) =~= before.push(views(args@)[i as int]));
        i = i + 1;
        assert(views(out@) =~= views(args@).subrange(1, i as int));
    }
    assert(views(out@) =~= rest_args(views(args@)));
    out
}

/// `Function.prototype.call`.
pub open spec fn fn_call_run(h: Host, pos: nat, recv: Option<Val>, args: Seq<Val>) -> Run<Val> {
    let target = this_of(recv);
    if !callable(target) {
        raised(ErrorKind::TypeError, "Function.prototype.call called on non-callable"@, pos)
    } else {
        call(h, pos, target, Some(arg(args, 0)), rest_args(args))
    }
}

/// The list that `apply` takes its arguments from.
pub open spec fn apply_list(h: Host, pos: nat, list: Val) -> Run<Seq<Val>> {
    if list is Undefined || list is Null {
        done(Seq::empty(), pos)
    } else if list matches Val::Ref(Kind::Arr, _) {
        ask_list(h, pos, Op::Elements, seq![list])
    } else if object(list) {
        array_read(h, pos, list)
    } else {
        raised(ErrorKind::TypeError, "CreateListFromArrayLike called on non-object"@, pos)
    }
}

/// `Function.prototype.apply`.
pub open spec fn fn_apply_run(h: Host, pos: nat, recv: Option<Val>, args: Seq<Val>) -> Run<Val> {
    let target = this_of(recv);
    if !callable(target) {
        raised(ErrorKind::TypeError, "Function.prototype.apply called on non-callable"@, pos)
    } else {
        chain(
            apply_list(h, pos, arg(args, 1)),
            |list: Seq<Val>, p: nat| call(h, p, target, Some(arg(args, 0)), list),
        )
    }
}

/// `Function.prototype.bind`.
pub open spec fn fn_bind_run(h: Host, pos: nat, recv: Option<Val>, args: Seq<Val>) -> Run<Val> {
    let target = this_of(recv);
    if !callable(target) {
        raised(ErrorKind::TypeError, "Function.prototype.bind called on non-callable"@, pos)
    } else {
        ask_value(h, pos, Op::NewBound, seq![target, arg(args, 0)] + rest_args(args))
    }
}

/// `Function.prototype[@@hasInstance]`.
pub open spec fn fn_has_instance_run(h: Host, pos: nat, recv: Option<Val>, args: Seq<Val>) -> Run<
    Val,
> {
    let c = this_of(recv);
    if !callable(c) {
        done(Val::Bool(false), pos)
    } else {
        ask_value(h, pos, Op::InstanceOf, seq![arg(args, 0), c])
    }
}

/// `Proxy.revocable`.
pub open spec fn proxy_revocable_run(h: Host, pos: nat, recv: Option<Val>, args: Seq<Val>) -> Run<
    Val,
> {
    let target = arg(args, 0);
    let handler = arg(args, 1);
    if !object(target) || !object(handler) {
        raised(
            ErrorKind::TypeError,
            "Cannot create proxy with a non-object as target or handler"@,
            pos,
        )
    } else {
        chain(
            ask_value(h, pos, Op::NewProxy, seq![target, handler]),
            |proxy: Val, p: nat|
                chain(
                    ask_value(h, p, Op::NewBound, seq![Val::Native(Native::ProxyRevoke), proxy]),
                    |revoke: Val, q: nat|
                        ask_value(
                            h,
                            q,
                            Op::NewObject,
                            seq![Val::Str("proxy"@), proxy, Val::Str("revoke"@), revoke],
                        ),
                ),
        )
    }
}

/// The function that revokes a proxy.
pub open spec fn proxy_revoke_run(h: Host, pos: nat, recv: Option<Val>, args: Seq<Val>) -> Run<Val> {
    match recv {
        Some(Val::Proxy(id, c)) => chain(
            ask_value(h, pos, Op::RevokeProxy, seq![Val::Proxy(id, c)]),
            |v: Val, p: nat| done(Val::Undefined, p),
        ),
        _ => done(Val::Undefined, pos),
    }
}

/// Whether `proto` is on the prototype chain above `cur`, within `fuel` steps.
pub open spec fn above_in_chain(h: Host, pos: nat, cur: Val, proto: Val, fuel: nat) -> Run<Val>
    decreases fuel,
{
    if fuel == 0 {
        done(Val::Bool(false), pos)
    } else {
        let p = proto_of(h, pos, cur);
        match p.out {
            Err(e) => halted(e, p.pos),
            Ok(v) => if v is Null {
                done(Val::Bool(false), p.pos)
            } else if strictly_equal(v, proto) {
                done(Val::Bool(true), p.pos)
            } else {
                above_in_chain(h, p.pos, v, proto, (fuel - 1) as nat)
            },
        }
    }
}

/// How many prototypes `isPrototypeOf` looks at.
pub const PROTO_LIMIT: usize = 1000;

/// `Object.prototype.isPrototypeOf`.
pub open spec fn is_prototype_of_run(h: Host, pos: nat, recv: Option<Val>, args: Seq<Val>) -> Run<
    Val,
> {
    match recv {
        None => done(Val::Bool(false), pos),
        Some(proto) => if !object(arg(args, 0)) {
            done(Val::Bool(false), pos)
        } else {
            above_in_chain(h, pos, arg(args, 0), proto, PROTO_LIMIT as nat)
        },
    }
}

/// A property as text; `none` where it is undefined or cannot be read.
pub open spec fn shown_member(h: Host, pos: nat, o: Val, key: Seq<char>, none: Seq<char>) -> Run<
    Seq<char>,
> {
    chain(
        get_quietly(h, pos, o, key),
        |v: Val, p: nat|
            if v is Undefined {
                done(none, p)
            } else {
                ask_text(h, p, Op::Display, seq![v])
            },
    )
}

/// The name and the message of an error with a colon between them; one alone where the other is
/// empty.
pub open spec fn error_text(name: Seq<char>, message: Seq<char>) -> Seq<char> {
    if name.len() == 0 {
        message
    } else if message.len() == 0 {
        name
    } else {
        name + ": "@ + message
    }
}

/// `Error.prototype.toString`.
pub open spec fn error_to_string_run(h: Host, pos: nat, recv: Option<Val>, args: Seq<Val>) -> Run<
    Val,
> {
    chain(
        shown_member(h, pos, this_of(recv), "name"@, "Error"@),
        |name: Seq<char>, p: nat|
            chain(
                shown_member(h, p, this_of(recv), "message"@, ""@),
                |message: Seq<char>, q: nat| done(Val::Str(error_text(name, message)), q),
            ),
    )
}

/// A stored own property of a plain object; none of anything else.
pub open spec fn plain_slot(h: Host, pos: nat, v: Val, key: Seq<char>) -> Run<Option<Val>> {
    if v matches Val::Ref(Kind::Obj, _) {
        ask_slot(h, pos, Op::OwnSlot, seq![v, Val::Str(key)])
    } else {
        done(None, pos)
    }
}

/// `Error.isError`.
pub open spec fn error_is_error_run(h: Host, pos: nat, recv: Option<Val>, args: Seq<Val>) -> Run<
    Val,
> {
    chain(
        plain_slot(h, pos, arg(args, 0), "\0errdata"@),
        |s: Option<Val>, p: nat| done(Val::Bool(s == Some(Val::Bool(true))), p),
    )
}

/// The getter of an error's `stack`.
pub open spec fn error_stack_get_run(h: Host, pos: nat, recv: Option<Val>, args: Seq<Val>) -> Run<
    Val,
> {
    chain(
        plain_slot(h, pos, this_of(recv), "\0errstack"@),
        |s: Option<Val>, p: nat|
            done(
                match s {
                    Some(Val::Str(t)) => Val::Str(t),
                    _ => Val::Undefined,
                },
                p,
            ),
    )
}

/// The setter of an error's `stack`.
pub open spec fn error_stack_set_run(h: Host, pos: nat, recv: Option<Val>, args: Seq<Val>) -> Run<
    Val,
> {
    if this_of(recv) matches Val::Ref(Kind::Obj, _) {
        chain(
            ask_value(h, pos, Op::StoreSlot, seq![this_of(recv), Val::Str("stack"@), arg(args, 0)]),
            |v: Val, p: nat| done(Val::Undefined, p),
        )
    } else {
        done(Val::Undefined, pos)
    }
}

/// What kind of object a plain object is, by what it stores.
pub open spec fn stored_tag(h: Host, pos: nat, o: Val) -> Run<Seq<char>> {
    chain(
        ask_slot(h, pos, Op::OwnSlot, seq![o, Val::Str("\0@@toStringTag"@)]),
        |own: Option<Val>, p: nat|
            match own {
                Some(Val::Str(t)) => done(t, p),
                _ => chain(
                    ask_slot(h, p, Op::OwnSlot, seq![o, Val::Str("\0class"@)]),
                    |class: Option<Val>, q: nat|
                        match class {
                            Some(Val::Str(t)) => done(t, q),
                            _ => chain(
                                ask_flag(h, q, Op::IsRegex, seq![o]),
                                |regex: bool, r: nat|
                                    if regex {
                                        done("RegExp"@, r)
                                    } else {
                                        chain(
                                            ask_slot(
                                                h,
                                                r,
                                                Op::OwnSlot,
                                                seq![o, Val::Str("\0isDate"@)],
                                            ),
                                            |date: Option<Val>, s: nat|
                                                done(
                                                    if date is Some {
                                                        "Date"@
                                                    } else {
                                                        "Object"@
                                                    },
                                                    s,
                                                ),
                                        )
                                    },
                            ),
                        },
                ),
            },
    )
}

/// The tag of a value that no `@@toStringTag` says otherwise of.
pub open spec fn builtin_tag(h: Host, pos: nat, v: Val) -> Run<Seq<char>> {
    match v {
        Val::Undefined => done("Undefined"@, pos),
        Val::Null => done("Null"@, pos),
        Val::Str(_) => done("String"@, pos),
        Val::Num(_) => done("Number"@, pos),
        Val::Bool(_) => done("Boolean"@, pos),
        Val::Native(_) => done("Function"@, pos),
        Val::Ref(k, _) => match k {
            Kind::Arr => done("Array"@, pos),
            Kind::Fn => done("Function"@, pos),
            Kind::Bound => done("Function"@, pos),
            Kind::Class => done("Function"@, pos),
            Kind::MapVal => done("Map"@, pos),
            Kind::SetVal => done("Set"@, pos),
            Kind::Obj => stored_tag(h, pos, v),
            _ => done("Object"@, pos),
        },
        _ => done("Object"@, pos),
    }
}

/// `Object.prototype.toString`.
pub open spec fn obj_to_string_run(h: Host, pos: nat, recv: Option<Val>, args: Seq<Val>) -> Run<
    Val,
> {
    let v = this_of(recv);
    chain(
        builtin_tag(h, pos, v),
        |tag: Seq<char>, p: nat|
            if v is Undefined || v is Null {
                done(Val::Str("[object "@ + tag + "]"@), p)
            } else {
                chain(
                    get(h, p, v, "\0@@toStringTag"@),
                    |t: Val, q: nat|
                        done(
                            Val::Str(
                                "[object "@ + match t {
                                    Val::Str(s) => s,
                                    _ => tag,
                                } + "]"@,
                            ),
                            q,
                        ),
                )
            },
    )
}

/// What `next` of a list iterator gives.
pub open spec fn step_object(h: Host, pos: nat, value: Val, finished: bool) -> Run<Val> {
    ask_value(
        h,
        pos,
        Op::NewObject,
        seq![Val::Str("value"@), value, Val::Str("done"@), Val::Bool(finished)],
    )
}

/// The place that a list iterator has come to.
pub open spec fn cursor_of(n: Num) -> nat {
    if n.finite() && !n.negative() {
        if n.magnitude() <= usize::MAX {
            n.magnitude()
        } else {
            usize::MAX as nat
        }
    } else if !n.nan() && !n.negative() {
        usize::MAX as nat
    } else {
        0
    }
}

/// `next` of a list iterator.
pub open spec fn iter_next_run(h: Host, pos: nat, recv: Option<Val>, args: Seq<Val>) -> Run<Val> {
    let o = this_of(recv);
    chain(
        plain_slot(h, pos, o, "\0items"@),
        |items: Option<Val>, p: nat|
            chain(
                plain_slot(h, p, o, "\0i"@),
                |i: Option<Val>, q: nat|
                    match (items, i) {
                        (Some(Val::Ref(Kind::Arr, a)), Some(Val::Num(n))) => chain(
                            ask_list(h, q, Op::Elements, seq![Val::Ref(Kind::Arr, a)]),
                            |list: Seq<Val>, r: nat|
                                {
                                    let k = cursor_of(n);
                                    if k < list.len() {
                                        chain(
                                            ask_value(
                                                h,
                                                r,
                                                Op::StoreSlot,
                                                seq![
                                                    o,
                                                    Val::Str("\0i"@),
                                                    Val::Num(count_num(k + 1)),
                                                ],
                                            ),
                                            |v: Val, s: nat| step_object(h, s, list[k as int], false),
                                        )
                                    } else {
                                        step_object(h, r, Val::Undefined, true)
                                    }
                                },
                        ),
                        _ => ask_value(h, q, Op::NewObject, Seq::empty()),
                    },
            ),
    )
}

/// Which test of an object's integrity is made.
#[derive(Clone, Copy, Debug, PartialEq, Eq, Structural)]
pub enum IntegrityTest {
    Frozen,
    Sealed,
    Extensible,
}

/// The test's answer from what is kept of the object.
pub open spec fn integrity_answer(t: IntegrityTest, frozen: bool, sealed: bool, closed: bool) -> bool {
    match t {
        IntegrityTest::Frozen => frozen,
        IntegrityTest::Sealed => frozen || sealed,
        IntegrityTest::Extensible => !(frozen || sealed || closed),
    }
}

/// `Object.isFrozen`, `isSealed` and `isExtensible`.
pub open spec fn integrity_run(h: Host, pos: nat, t: IntegrityTest, args: Seq<Val>) -> Run<Val> {
    let v = arg(args, 0);
    if v is Proxy && t is Extensible {
        chain(
            ask_flag(h, pos, Op::ProxyExtensible, seq![v]),
            |b: bool, p: nat| done(Val::Bool(b), p),
        )
    } else if !object(v) {
        done(Val::Bool(!(t is Extensible)), pos)
    } else {
        chain(
            crate::host::asked(
                h,
                pos,
                (crate::host::Question { op: Op::IntegrityBits, args: seq![v] }),
            ),
            |a: crate::host::Answer, p: nat|
                match a {
                    crate::host::Answer::List(l) => done(
                        Val::Bool(
                            integrity_answer(
                                t,
                                truthy(arg(l, 0)),
                                truthy(arg(l, 1)),
                                truthy(arg(l, 2)),
                            ),
                        ),
                        p,
                    ),
                    _ => done(Val::Bool(t is Extensible), p),
                },
        )
    }
}

/// `Object.freeze`, `seal` and `preventExtensions`.
pub open spec fn restrict_run(h: Host, pos: nat, level: Integrity, args: Seq<Val>) -> Run<Val> {
    let v = arg(args, 0);
    if v is Proxy && level is Closed {
        chain(
            ask_flag(h, pos, Op::PreventExtensions, seq![v]),
            |b: bool, p: nat|
                if b {
                    done(v, p)
                } else {
                    raised(
                        ErrorKind::TypeError,
                        "Object.preventExtensions: proxy 'preventExtensions' trap returned falsish"@,
                        p,
                    )
                },
        )
    } else {
        chain(
            tighten_properties(h, pos, v, level),
            |u: (), p: nat|
                chain(
                    ask_value(h, p, Op::SetIntegrity(level), seq![v]),
                    |x: Val, q: nat| done(v, q),
                ),
        )
    }
}

/// The first argument as a property key; empty where there is none.
pub open spec fn key_arg(h: Host, pos: nat, args: Seq<Val>, i: int) -> Run<Seq<char>> {
    if 0 <= i < args.len() {
        ask_text(h, pos, Op::ToKey, seq![args[i]])
    } else {
        done(Seq::empty(), pos)
    }
}

pub open spec fn name_or_length(key: Seq<char>) -> bool {
    key == "name"@ || key == "length"@
}

/// Whether a value has an own property.
pub open spec fn has_own(h: Host, pos: nat, v: Val, key: Seq<char>) -> Run<bool> {
    match v {
        Val::Ref(Kind::Obj, _) => chain(
            ask_slot(h, pos, Op::OwnSlot, seq![v, Val::Str(key)]),
            |s: Option<Val>, p: nat|
                if (!internal_key(key) || symbol_key(key)) && s is Some {
                    done(true, p)
                } else {
                    ask_flag(h, p, Op::GlobalHas, seq![v, Val::Str(key)])
                },
        ),
        Val::Ref(Kind::Instance, _) => chain(
            ask_slot(h, pos, Op::OwnSlot, seq![v, Val::Str(key)]),
            |s: Option<Val>, p: nat| done(s is Some, p),
        ),
        Val::Ref(Kind::Arr, _) => chain(
            match index_in(key) {
                Some(i) => ask_flag(
                    h,
                    pos,
                    Op::ArrayPresent,
                    seq![v, Val::Num(count_num(i as nat))],
                ),
                None => done(false, pos),
            },
            |present: bool, p: nat|
                if present || key == "length"@ {
                    done(true, p)
                } else {
                    chain(
                        ask_slot(h, p, Op::OwnSlot, seq![v, Val::Str(key)]),
                        |s: Option<Val>, q: nat| done(s is Some, q),
                    )
                },
        ),
        Val::Ref(Kind::Class, _) => if private_name(key) {
            done(false, pos)
        } else if key == "prototype"@ {
            done(true, pos)
        } else {
            chain(
                ask_flag(h, pos, Op::ClassMember, seq![v, Val::Str(key)]),
                |member: bool, p: nat|
                    if member || !name_or_length(key) {
                        done(member, p)
                    } else {
                        chain(
                            ask_slot(
                                h,
                                p,
                                Op::OwnSlot,
                                seq![v, Val::Str("\0clsdel:"@ + key)],
                            ),
                            |gone: Option<Val>, q: nat| done(gone is None, q),
                        )
                    },
            )
        },
        Val::Ref(Kind::Fn, _) => if key == "prototype"@ {
            done(true, pos)
        } else {
            chain(
                ask_slot(h, pos, Op::OwnSlot, seq![v, Val::Str(key)]),
                |s: Option<Val>, p: nat|
                    if s is Some || !name_or_length(key) {
                        done(s is Some, p)
                    } else {
                        chain(
                            ask_slot(h, p, Op::OwnSlot, seq![v, Val::Str("\0fndel:"@ + key)]),
                            |gone: Option<Val>, q: nat| done(gone is None, q),
                        )
                    },
            )
        },
        Val::Native(_) => chain(
            ask_flag(h, pos, Op::NativeDeleted, seq![v, Val::Str(key)]),
            |gone: bool, p: nat|
                if gone || name_or_length(key) {
                    done(!gone, p)
                } else {
                    chain(
                        ask_flag(h, p, Op::NativeAdded, seq![v, Val::Str(key)]),
                        |added: bool, q: nat|
                            if added && !internal_key(key) {
                                done(true, q)
                            } else {
                                ask_flag(h, q, Op::NativeMember, seq![v, Val::Str(key)])
                            },
                    )
                },
        ),
        Val::Ref(Kind::Bound, _) => if name_or_length(key) {
            chain(
                ask_flag(h, pos, Op::NativeDeleted, seq![v, Val::Str(key)]),
                |gone: bool, p: nat| done(!gone, p),
            )
        } else {
            chain(
                ask_slot(h, pos, Op::OwnSlot, seq![v, Val::Str(key)]),
                |s: Option<Val>, p: nat| done(s is Some, p),
            )
        },
        _ => done(false, pos),
    }
}

/// `hasOwnProperty`.
pub open spec fn has_own_property_run(h: Host, pos: nat, recv: Option<Val>, args: Seq<Val>) -> Run<
    Val,
> {
    chain(
        key_arg(h, pos, args, 0),
        |key: Seq<char>, p: nat|
            chain(
                has_own(h, p, this_of(recv), key),
                |b: bool, q: nat| done(Val::Bool(b), q),
            ),
    )
}

/// Whether a descriptor, as an object, says that the property is enumerable.
pub open spec fn says_enumerable(h: Host, pos: nat, desc: Val) -> Run<bool> {
    chain(
        plain_slot(h, pos, desc, "enumerable"@),
        |s: Option<Val>, p: nat|
            done(
                match s {
                    Some(v) => truthy(v),
                    None => false,
                },
                p,
            ),
    )
}

/// `propertyIsEnumerable`.
pub open spec fn property_is_enumerable_run(
    h: Host,
    pos: nat,
    recv: Option<Val>,
    args: Seq<Val>,
) -> Run<Val> {
    chain(
        object_get_own_property_descriptor_run(
            h,
            pos,
            None,
            seq![this_of(recv), arg(args, 0)],
        ),
        |desc: Val, p: nat|
            chain(
                says_enumerable(h, p, desc),
                |b: bool, q: nat| done(Val::Bool(b), q),
            ),
    )
}

/// Letters and digits of any script.
pub uninterp spec fn alphanumeric(c: char) -> bool;

/// `char::is_alphanumeric` of the standard library: whether the character is a letter or a number
/// of any script. Which those are is left to the Unicode tables that the library carries.
#[verifier::external_body]
fn is_alphanumeric(c: char) -> (r: bool)
    ensures
        r == alphanumeric(c),
{
    c.is_alphanumeric()
}

/// A name that can stand in a function's text.
pub open spec fn identifier(name: Seq<char>) -> bool {
    &&& name.len() > 0
    &&& !is_digit(name[0])
    &&& forall|i: int| 0 <= i < name.len() ==> name_char(#[trigger] name[i])
}

pub open spec fn name_char(c: char) -> bool {
    alphanumeric(c) || c == '_' || c == '$'
}

/// A name that can stand in a function's text, where `letters` says of each of its characters
/// whether it is a letter or a number.
pub open spec fn identifier_by(name: Seq<char>, letters: Seq<bool>) -> bool {
    &&& name.len() > 0
    &&& !is_digit(name[0])
    &&& forall|i: int|
        0 <= i < name.len() ==> letters[i] || #[trigger] name[i] == '_' || name[i] == '$'
}

pub fn is_identifier_by(name: &str, letters: &Vec<bool>) -> (r: bool)
    requires
        letters@.len() == name@.len(),
    ensures
        r == identifier_by(name@, letters@),
{
    let cs: Vec<char> = chars_of(name);
    if cs.len() == 0 || ('0' <= cs[0] && cs[0] <= '9') {
        return false;
    }
    let mut i: usize = 0;
    while i < cs.len()
        invariant
            i <= cs@.len(),
            cs@ == name@,
            letters@.len() == name@.len(),
            forall|j: int|
                0 <= j < i ==> letters@[j] || #[trigger] name@[j] == '_' || name@[j] == '$',
        decreases cs@.len() - i,
    {
        if !(letters[i] || cs[i] == '_' || cs[i] == '$') {
            assert(name@[i as int] == cs@[i as int]);
            return false;
        }
        i = i + 1;
    }
    true
}

pub fn is_identifier(name: &str) -> (r: bool)
    ensures
        r == identifier(name@),
{
    let cs: Vec<char> = chars_of(name);
    let mut letters: Vec<bool> = Vec::new();
    let mut i: usize = 0;
    while i < cs.len()
        invariant
            i <= cs@.len(),
            cs@ == name@,
            letters@.len() == i,
            forall|j: int| 0 <= j < i ==> #[trigger] letters@[j] == alphanumeric(name@[j]),
        decreases cs@.len() - i,
    {
        letters.push(is_alphanumeric(cs[i]));
        i = i + 1;
    }
    assert(forall|j: int|
        0 <= j < name@.len() ==> letters@[j] == alphanumeric(#[trigger] name@[j]));
    is_identifier_by(name, &letters)
}

/// The texts of some values with commas between them.
pub open spec fn comma_list(items: Seq<Val>, n: nat) -> Seq<char>
    decreases n,
{
    if n == 0 || n > items.len() {
        Seq::empty()
    } else if n == 1 {
        crate::host::text_in(items[0])
    } else {
        comma_list(items, (n - 1) as nat) + ", "@ + crate::host::text_in(items[n - 1])
    }
}

/// The text of a function whose source is not kept.
pub open spec fn function_text(name: Seq<char>, shape: Seq<Val>) -> Seq<char> {
    let params = if shape.len() > 2 {
        shape.skip(2)
    } else {
        Seq::empty()
    };
    (if truthy(arg(shape, 0)) {
        "async function"@
    } else {
        "function"@
    }) + (if truthy(arg(shape, 1)) {
        "*"@
    } else {
        ""@
    }) + " "@ + name + "("@ + comma_list(params, params.len()) + ") { }"@
}

pub open spec fn class_text(name: Seq<char>) -> Seq<char> {
    if name.len() == 0 {
        "class { }"@
    } else {
        "class "@ + name + " { }"@
    }
}

pub open spec fn native_text(name: Seq<char>) -> Seq<char> {
    if identifier(name) {
        "function "@ + name + "() { [native code] }"@
    } else {
        "function () { [native code] }"@
    }
}

/// `Function.prototype.toString`.
pub open spec fn fn_to_string_run(h: Host, pos: nat, recv: Option<Val>, args: Seq<Val>) -> Run<Val> {
    let f = this_of(recv);
    match f {
        Val::Ref(Kind::Fn, _) => chain(
            ask_slot(h, pos, Op::FunctionSource, seq![f]),
            |s: Option<Val>, p: nat|
                match s {
                    Some(t) => done(t, p),
                    None => chain(
                        ask_text(h, p, Op::FunctionName, seq![f]),
                        |name: Seq<char>, q: nat|
                            chain(
                                ask_list(h, q, Op::FunctionShape, seq![f]),
                                |shape: Seq<Val>, r: nat|
                                    done(Val::Str(function_text(name, shape)), r),
                            ),
                    ),
                },
        ),
        Val::Ref(Kind::Class, _) => chain(
            ask_slot(h, pos, Op::FunctionSource, seq![f]),
            |s: Option<Val>, p: nat|
                match s {
                    Some(t) => done(t, p),
                    None => chain(
                        ask_text(h, p, Op::FunctionName, seq![f]),
                        |name: Seq<char>, q: nat| done(Val::Str(class_text(name)), q),
                    ),
                },
        ),
        Val::Native(_) => chain(
            ask_text(h, pos, Op::FunctionName, seq![f]),
            |name: Seq<char>, q: nat| done(Val::Str(native_text(name)), q),
        ),
        _ => if callable(f) {
            done(Val::Str("function () { [native code] }"@), pos)
        } else {
            raised(
                ErrorKind::TypeError,
                "Function.prototype.toString requires that 'this' be a Function"@,
                pos,
            )
        },
    }
}

impl Interp {
    /// `Function.prototype.call`.
    pub fn fn_call(&mut self, recv: &Option<Value>, args: &Vec<Value>) -> (r: Result<Value, Stop>)
        requires
            old(self).wf(),
        ensures
            final(self).follows(*old(self)),
            run_value(r, *final(self)) == fn_call_run(
                old(self).host(),
                old(self).pos as nat,
                opt_view(*recv),
                views(args@),
            ),
    {
        let target: Value = this_or_undefined(recv);
        if !is_callable(&target) {
            return Err(
                fail(ErrorKind::TypeError, "Function.prototype.call called on non-callable"),
            );
        }
        self.call_value(target, Some(arg_at(args, 0)), args_after_first(args))
    }

    fn apply_list(&mut self, list: &Value) -> (r: Result<Vec<Value>, Stop>)
        requires
            old(self).wf(),
        ensures
            final(self).follows(*old(self)),
            crate::host::run_list(r, *final(self)) == apply_list(
                old(self).host(),
                old(self).pos as nat,
                list@,
            ),
    {
        if is_nullish(list) {
            let none: Vec<Value> = Vec::new();
            assert(views(none@) =~= Seq::<Val>::empty());
            return Ok(none);
        }
        if matches!(list, Value::Ref(Kind::Arr, _)) {
            return self.ask_list(Op::Elements, list1(list.clone()));
        }
        if is_object(list) {
            return self.generic_array_read(list);
        }
        Err(fail(ErrorKind::TypeError, "CreateListFromArrayLike called on non-object"))
    }

    /// `Function.prototype.apply`.
    pub fn fn_apply(&mut self, recv: &Option<Value>, args: &Vec<Value>) -> (r: Result<Value, Stop>)
        requires
            old(self).wf(),
        ensures
            final(self).follows(*old(self)),
            run_value(r, *final(self)) == fn_apply_run(
                old(self).host(),
                old(self).pos as nat,
                opt_view(*recv),
                views(args@),
            ),
    {
        let target: Value = this_or_undefined(recv);
        if !is_callable(&target) {
            return Err(
                fail(ErrorKind::TypeError, "Function.prototype.apply called on non-callable"),
            );
        }
        let list: Vec<Value> = self.apply_list(&arg_at(args, 1))?;
        self.call_value(target, Some(arg_at(args, 0)), list)
    }

    /// `Function.prototype.bind`.
    pub fn fn_bind(&mut self, recv: &Option<Value>, args: &Vec<Value>) -> (r: Result<Value, Stop>)
        requires
            old(self).wf(),
        ensures
            final(self).follows(*old(self)),
            run_value(r, *final(self)) == fn_bind_run(
                old(self).host(),
                old(self).pos as nat,
                opt_view(*recv),
                views(args@),
            ),
    {
        let target: Value = this_or_undefined(recv);
        if !is_callable(&target) {
            return Err(
                fail(ErrorKind::TypeError, "Function.prototype.bind called on non-callable"),
            );
        }
        let mut all: Vec<Value> = list2(target, arg_at(args, 0));
        let ghost front = views(all@);
        let mut rest: Vec<Value> = args_after_first(args);
        let ghost back = views(rest@);
        all.append(&mut rest);
        assert(views(all@) =~= front + back);
        self.ask_value(Op::NewBound, all)
    }

    /// `Function.prototype[@@hasInstance]`.
    pub fn fn_has_instance(&mut self, recv: &Option<Value>, args: &Vec<Value>) -> (r: Result<Value, Stop>)
        requires
            old(self).wf(),
        ensures
            final(self).follows(*old(self)),
            run_value(r, *final(self)) == fn_has_instance_run(
                old(self).host(),
                old(self).pos as nat,
                opt_view(*recv),
                views(args@),
            ),
    {
        let c: Value = this_or_undefined(recv);
        if !is_callable(&c) {
            return Ok(Value::Bool(false));
        }
        self.ask_value(Op::InstanceOf, list2(arg_at(args, 0), c))
    }

    /// `Proxy.revocable`: a proxy and the function that revokes it.
    pub fn proxy_revocable(&mut self, recv: &Option<Value>, args: &Vec<Value>) -> (r: Result<Value, Stop>)
        requires
            old(self).wf(),
        ensures
            final(self).follows(*old(self)),
            run_value(r, *final(self)) == proxy_revocable_run(
                old(self).host(),
                old(self).pos as nat,
                opt_view(*recv),
                views(args@),
            ),
    {
        let target: Value = arg_at(args, 0);
        let handler: Value = arg_at(args, 1);
        if !is_object(&target) || !is_object(&handler) {
            return Err(
                fail(
                    ErrorKind::TypeError,
                    "Cannot create proxy with a non-object as target or handler",
                ),
            );
        }
        let proxy: Value = self.ask_value(Op::NewProxy, list2(target, handler))?;
        let revoke: Value = self.ask_value(
            Op::NewBound,
            list2(Value::Native(Native::ProxyRevoke), proxy.clone()),
        )?;
        self.ask_value(
            Op::NewObject,
            crate::host::list4(text_value("proxy"), proxy, text_value("revoke"), revoke),
        )
    }

    /// The function that revokes a proxy: its receiver.
    pub fn proxy_revoke(&mut self, recv: &Option<Value>, args: &Vec<Value>) -> (r: Result<Value, Stop>)
        requires
            old(self).wf(),
        ensures
            final(self).follows(*old(self)),
            run_value(r, *final(self)) == proxy_revoke_run(
                old(self).host(),
                old(self).pos as nat,
                opt_view(*recv),
                views(args@),
            ),
    {
        match recv {
            Some(Value::Proxy(id, c)) => {
                let v: Value = self.ask_value(Op::RevokeProxy, list1(Value::Proxy(*id, *c)))?;
                Ok(Value::Undefined)
            },
            _ => Ok(Value::Undefined),
        }
    }

    /// `Object.prototype.isPrototypeOf`.
    #[verifier::loop_isolation(false)]
    pub fn is_prototype_of(&mut self, recv: &Option<Value>, args: &Vec<Value>) -> (r: Result<Value, Stop>)
        requires
            old(self).wf(),
        ensures
            final(self).follows(*old(self)),
            run_value(r, *final(self)) == is_prototype_of_run(
                old(self).host(),
                old(self).pos as nat,
                opt_view(*recv),
                views(args@),
            ),
    {
        let proto: Value = match recv {
            None => {
                return Ok(Value::Bool(false));
            },
            Some(p) => p.clone(),
        };
        let mut cur: Value = arg_at(args, 0);
        if !is_object(&cur) {
            return Ok(Value::Bool(false));
        }
        let ghost goal = above_in_chain(
            self.host(),
            self.pos as nat,
            cur@,
            proto@,
            PROTO_LIMIT as nat,
        );
        let mut fuel: usize = PROTO_LIMIT;
        while fuel > 0
            invariant
                self.follows(*old(self)),
                goal == above_in_chain(self.host(), self.pos as nat, cur@, proto@, fuel as nat),
            decreases fuel,
        {
            let p: Value = self.proto_of(&cur)?;
            if is_null(&p) {
                return Ok(Value::Bool(false));
            }
            if strict_eq(&p, &proto) {
                return Ok(Value::Bool(true));
            }
            cur = p;
            fuel = fuel - 1;
        }
        Ok(Value::Bool(false))
    }

    fn shown_member(&mut self, o: &Value, key: &str, none: &str) -> (r: Result<String, Stop>)
        requires
            old(self).wf(),
        ensures
            final(self).follows(*old(self)),
            run_text(r, *final(self)) == shown_member(
                old(self).host(),
                old(self).pos as nat,
                o@,
                key@,
                none@,
            ),
    {
        let v: Value = self.member_get_quietly(o, key)?;
        if matches!(v, Value::Undefined) {
            return Ok(none.to_owned());
        }
        self.ask_text(Op::Display, list1(v))
    }

    /// `Error.prototype.toString`.
    pub fn error_to_string(&mut self, recv: &Option<Value>, args: &Vec<Value>) -> (r: Result<Value, Stop>)
        requires
            old(self).wf(),
        ensures
            final(self).follows(*old(self)),
            run_value(r, *final(self)) == error_to_string_run(
                old(self).host(),
                old(self).pos as nat,
                opt_view(*recv),
                views(args@),
            ),
    {
        let this: Value = this_or_undefined(recv);
        let name: String = self.shown_member(&this, "name", "Error")?;
        let message: String = self.shown_member(&this, "message", "")?;
        if chars_of(name.as_str()).len() == 0 {
            return Ok(Value::Str(message));
        }
        if chars_of(message.as_str()).len() == 0 {
            return Ok(Value::Str(name));
        }
        let mut out: String = concat_text(name.as_str(), ": ");
        append_text(&mut out, message.as_str());
        Ok(Value::Str(out))
    }

    /// A stored own property of a plain object; none of anything else.
    pub fn plain_slot(&mut self, v: &Value, key: &str) -> (r: Result<Option<Value>, Stop>)
        requires
            old(self).wf(),
        ensures
            final(self).follows(*old(self)),
            crate::host::run_slot(r, *final(self)) == plain_slot(
                old(self).host(),
                old(self).pos as nat,
                v@,
                key@,
            ),
    {
        match v {
            Value::Ref(Kind::Obj, _) => self.ask_slot(Op::OwnSlot, list2(v.clone(), text_value(key))),
            _ => Ok(None),
        }
    }

    /// `Error.isError`.
    pub fn error_is_error(&mut self, recv: &Option<Value>, args: &Vec<Value>) -> (r: Result<Value, Stop>)
        requires
            old(self).wf(),
        ensures
            final(self).follows(*old(self)),
            run_value(r, *final(self)) == error_is_error_run(
                old(self).host(),
                old(self).pos as nat,
                opt_view(*recv),
                views(args@),
            ),
    {
        match self.plain_slot(&arg_at(args, 0), "\0errdata")? {
            Some(Value::Bool(b)) => Ok(Value::Bool(b)),
            _ => Ok(Value::Bool(false)),
        }
    }

    /// The getter of an error's `stack`.
    pub fn error_stack_get(&mut self, recv: &Option<Value>, args: &Vec<Value>) -> (r: Result<Value, Stop>)
        requires
            old(self).wf(),
        ensures
            final(self).follows(*old(self)),
            run_value(r, *final(self)) == error_stack_get_run(
                old(self).host(),
                old(self).pos as nat,
                opt_view(*recv),
                views(args@),
            ),
    {
        match self.plain_slot(&this_or_undefined(recv), "\0errstack")? {
            Some(Value::Str(t)) => Ok(Value::Str(t)),
            _ => Ok(Value::Undefined),
        }
    }

    /// The setter of an error's `stack`.
    pub fn error_stack_set(&mut self, recv: &Option<Value>, args: &Vec<Value>) -> (r: Result<Value, Stop>)
        requires
            old(self).wf(),
        ensures
            final(self).follows(*old(self)),
            run_value(r, *final(self)) == error_stack_set_run(
                old(self).host(),
                old(self).pos as nat,
                opt_view(*recv),
                views(args@),
            ),
    {
        let this: Value = this_or_undefined(recv);
        if !matches!(this, Value::Ref(Kind::Obj, _)) {
            return Ok(Value::Undefined);
        }
        let v: Value = self.ask_value(
            Op::StoreSlot,
            list3(this, text_value("stack"), arg_at(args, 0)),
        )?;
        Ok(Value::Undefined)
    }

    fn stored_tag(&mut self, o: &Value) -> (r: Result<String, Stop>)
        requires
            old(self).wf(),
        ensures
            final(self).follows(*old(self)),
            run_text(r, *final(self)) == stored_tag(
                old(self).host(),
                old(self).pos as nat,
                o@,
            ),
    {
        match self.ask_slot(Op::OwnSlot, list2(o.clone(), text_value("\0@@toStringTag")))? {
            Some(Value::Str(t)) => {
                return Ok(t);
            },
            _ => {},
        }
        match self.ask_slot(Op::OwnSlot, list2(o.clone(), text_value("\0class")))? {
            Some(Value::Str(t)) => {
                return Ok(t);
            },
            _ => {},
        }
        if self.ask_flag(Op::IsRegex, list1(o.clone()))? {
            return Ok("RegExp".to_owned());
        }
        match self.ask_slot(Op::OwnSlot, list2(o.clone(), text_value("\0isDate")))? {
            Some(_) => Ok("Date".to_owned()),
            None => Ok("Object".to_owned()),
        }
    }

    fn builtin_tag(&mut self, v: &Value) -> (r: Result<String, Stop>)
        requires
            old(self).wf(),
        ensures
            final(self).follows(*old(self)),
            run_text(r, *final(self)) == builtin_tag(
                old(self).host(),
                old(self).pos as nat,
                v@,
            ),
    {
        let name: &str = match v {
            Value::Undefined => "Undefined",
            Value::Null => "Null",
            Value::Str(_) => "String",
            Value::Num(_) => "Number",
            Value::Bool(_) => "Boolean",
            Value::Native(_) => "Function",
            Value::Ref(k, _) => match k {
                Kind::Arr => "Array",
                Kind::Fn | Kind::Bound | Kind::Class => "Function",
                Kind::MapVal => "Map",
                Kind::SetVal => "Set",
                Kind::Obj => {
                    return self.stored_tag(v);
                },
                _ => "Object",
            },
            _ => "Object",
        };
        Ok(name.to_owned())
    }

    /// `Object.prototype.toString`.
    pub fn obj_to_string(&mut self, recv: &Option<Value>, args: &Vec<Value>) -> (r: Result<Value, Stop>)
        requires
            old(self).wf(),
        ensures
            final(self).follows(*old(self)),
            run_value(r, *final(self)) == obj_to_string_run(
                old(self).host(),
                old(self).pos as nat,
                opt_view(*recv),
                views(args@),
            ),
    {
        let v: Value = this_or_undefined(recv);
        let mut tag: String = self.builtin_tag(&v)?;
        if !is_nullish(&v) {
            match self.member_get(&v, "\0@@toStringTag")? {
                Value::Str(t) => {
                    tag = t;
                },
                _ => {},
            }
        }
        let mut out: String = concat_text("[object ", tag.as_str());
        append_text(&mut out, "]");
        Ok(Value::Str(out))
    }

    fn step_object(&mut self, value: Value, finished: bool) -> (r: Result<Value, Stop>)
        requires
            old(self).wf(),
        ensures
            final(self).follows(*old(self)),
            run_value(r, *final(self)) == step_object(
                old(self).host(),
                old(self).pos as nat,
                value@,
                finished,
            ),
    {
        self.ask_value(
            Op::NewObject,
            crate::host::list4(text_value("value"), value, text_value("done"), Value::Bool(finished)),
        )
    }

    /// `next` of a list iterator.
    pub fn iter_next(&mut self, recv: &Option<Value>, args: &Vec<Value>) -> (r: Result<Value, Stop>)
        requires
            old(self).wf(),
        ensures
            final(self).follows(*old(self)),
            run_value(r, *final(self)) == iter_next_run(
                old(self).host(),
                old(self).pos as nat,
                opt_view(*recv),
                views(args@),
            ),
    {
        let o: Value = this_or_undefined(recv);
        let items: Option<Value> = self.plain_slot(&o, "\0items")?;
        let i: Option<Value> = self.plain_slot(&o, "\0i")?;
        match (items, i) {
            (Some(Value::Ref(Kind::Arr, a)), Some(Value::Num(n))) => {
                let list: Vec<Value> = self.ask_list(Op::Elements, list1(Value::Ref(Kind::Arr, a)))?;
                let k: usize = cursor(n);
                if k < list.len() {
                    let len: usize = list.len();
                    let v: Value = self.ask_value(
                        Op::StoreSlot,
                        list3(o, text_value("\0i"), Value::Num(count_as_num(k + 1))),
                    )?;
                    self.step_object(list[k].clone(), false)
                } else {
                    self.step_object(Value::Undefined, true)
                }
            },
            _ => {
                let none: Vec<Value> = Vec::new();
                assert(views(none@) =~= Seq::<Val>::empty());
                self.ask_value(Op::NewObject, none)
            },
        }
    }

    /// `Object.isFrozen`, `isSealed` and `isExtensible`.
    pub fn integrity(&mut self, t: IntegrityTest, args: &Vec<Value>) -> (r: Result<Value, Stop>)
        requires
            old(self).wf(),
        ensures
            final(self).follows(*old(self)),
            run_value(r, *final(self)) == integrity_run(
                old(self).host(),
                old(self).pos as nat,
                t,
                views(args@),
            ),
    {
        let v: Value = arg_at(args, 0);
        let extensible: bool = matches!(t, IntegrityTest::Extensible);
        if matches!(v, Value::Proxy(..)) && extensible {
            let b: bool = self.ask_flag(Op::ProxyExtensible, list1(v))?;
            return Ok(Value::Bool(b));
        }
        if !is_object(&v) {
            return Ok(Value::Bool(!extensible));
        }
        match self.ask(Op::IntegrityBits, list1(v))? {
            crate::host::Reply::List(l) => {
                let frozen: bool = to_bool(&arg_at(&l, 0));
                let sealed: bool = to_bool(&arg_at(&l, 1));
                let closed: bool = to_bool(&arg_at(&l, 2));
                Ok(
                    Value::Bool(
                        match t {
                            IntegrityTest::Frozen => frozen,
                            IntegrityTest::Sealed => frozen || sealed,
                            IntegrityTest::Extensible => !(frozen || sealed || closed),
                        },
                    ),
                )
            },
            _ => Ok(Value::Bool(extensible)),
        }
    }

    /// `Object.freeze`, `seal` and `preventExtensions`.
    pub fn restrict(&mut self, level: Integrity, args: &Vec<Value>) -> (r: Result<Value, Stop>)
        requires
            old(self).wf(),
        ensures
            final(self).follows(*old(self)),
            run_value(r, *final(self)) == restrict_run(
                old(self).host(),
                old(self).pos as nat,
                level,
                views(args@),
            ),
    {
        let v: Value = arg_at(args, 0);
        if matches!(v, Value::Proxy(..)) && matches!(level, Integrity::Closed) {
            if self.ask_flag(Op::PreventExtensions, list1(v.clone()))? {
                return Ok(v);
            }
            return Err(
                fail(
                    ErrorKind::TypeError,
                    "Object.preventExtensions: proxy 'preventExtensions' trap returned falsish",
                ),
            );
        }
        self.tighten_properties(&v, level)?;
        self.ask_value(Op::SetIntegrity(level), list1(v.clone()))?;
        Ok(v)
    }

    /// An argument as a property key; empty where there is none.
    pub fn key_arg(&mut self, args: &Vec<Value>, i: usize) -> (r: Result<String, Stop>)
        requires
            old(self).wf(),
        ensures
            final(self).follows(*old(self)),
            run_text(r, *final(self)) == key_arg(
                old(self).host(),
                old(self).pos as nat,
                views(args@),
                i as int,
            ),
    {
        if i < args.len() {
            self.ask_text(Op::ToKey, list1(args[i].clone()))
        } else {
            let e: String = String::new();
            assert(e@ =~= Seq::<char>::empty());
            Ok(e)
        }
    }

    fn slot_is_there(&mut self, v: &Value, key: &str) -> (r: Result<bool, Stop>)
        requires
            old(self).wf(),
        ensures
            final(self).follows(*old(self)),
            run_plain(r, *final(self)) == slot_there(
                old(self).host(),
                old(self).pos as nat,
                v@,
                key@,
            ),
    {
        let s: Option<Value> = self.ask_slot(Op::OwnSlot, list2(v.clone(), text_value(key)))?;
        Ok(s.is_some())
    }

    /// Whether a value has an own property.
    pub fn has_own(&mut self, v: &Value, key: &str) -> (r: Result<bool, Stop>)
        requires
            old(self).wf(),
        ensures
            final(self).follows(*old(self)),
            run_plain(r, *final(self)) == has_own(
                old(self).host(),
                old(self).pos as nat,
                v@,
                key@,
            ),
    {
        let computed: bool = same_text(key, "name") || same_text(key, "length");
        match v {
            Value::Ref(Kind::Obj, _) => {
                let s: bool = self.slot_is_there(v, key)?;
                if (!is_internal_key(key) || is_symbol_key(key)) && s {
                    Ok(true)
                } else {
                    self.ask_flag(Op::GlobalHas, list2(v.clone(), text_value(key)))
                }
            },
            Value::Ref(Kind::Instance, _) => self.slot_is_there(v, key),
            Value::Ref(Kind::Arr, _) => {
                let present: bool = match parse_index(key) {
                    Some(i) => self.ask_flag(
                        Op::ArrayPresent,
                        list2(v.clone(), Value::Num(index_number(i))),
                    )?,
                    None => false,
                };
                if present || same_text(key, "length") {
                    return Ok(true);
                }
                self.slot_is_there(v, key)
            },
            Value::Ref(Kind::Class, _) => {
                if starts_with_text(key, "#") {
                    return Ok(false);
                }
                if same_text(key, "prototype") {
                    return Ok(true);
                }
                let member: bool = self.ask_flag(Op::ClassMember, list2(v.clone(), text_value(key)))?;
                if member || !computed {
                    return Ok(member);
                }
                let gone: bool = self.slot_is_there(v, concat_text("\0clsdel:", key).as_str())?;
                Ok(!gone)
            },
            Value::Ref(Kind::Fn, _) => {
                if same_text(key, "prototype") {
                    return Ok(true);
                }
                let s: bool = self.slot_is_there(v, key)?;
                if s || !computed {
                    return Ok(s);
                }
                let gone: bool = self.slot_is_there(v, concat_text("\0fndel:", key).as_str())?;
                Ok(!gone)
            },
            Value::Native(_) => {
                let gone: bool = self.ask_flag(Op::NativeDeleted, list2(v.clone(), text_value(key)))?;
                if gone || computed {
                    return Ok(!gone);
                }
                let added: bool = self.ask_flag(Op::NativeAdded, list2(v.clone(), text_value(key)))?;
                if added && !is_internal_key(key) {
                    return Ok(true);
                }
                self.ask_flag(Op::NativeMember, list2(v.clone(), text_value(key)))
            },
            Value::Ref(Kind::Bound, _) => {
                if computed {
                    let gone: bool = self.ask_flag(
                        Op::NativeDeleted,
                        list2(v.clone(), text_value(key)),
                    )?;
                    return Ok(!gone);
                }
                self.slot_is_there(v, key)
            },
            _ => Ok(false),
        }
    }

    /// `hasOwnProperty`.
    pub fn has_own_property(&mut self, recv: &Option<Value>, args: &Vec<Value>) -> (r: Result<Value, Stop>)
        requires
            old(self).wf(),
        ensures
            final(self).follows(*old(self)),
            run_value(r, *final(self)) == has_own_property_run(
                old(self).host(),
                old(self).pos as nat,
                opt_view(*recv),
                views(args@),
            ),
    {
        let key: String = self.key_arg(args, 0)?;
        let b: bool = self.has_own(&this_or_undefined(recv), key.as_str())?;
        Ok(Value::Bool(b))
    }

    /// Whether a descriptor, as an object, says that the property is enumerable.
    pub fn says_enumerable(&mut self, desc: &Value) -> (r: Result<bool, Stop>)
        requires
            old(self).wf(),
        ensures
            final(self).follows(*old(self)),
            run_plain(r, *final(self)) == says_enumerable(
                old(self).host(),
                old(self).pos as nat,
                desc@,
            ),
    {
        match self.plain_slot(desc, "enumerable")? {
            Some(v) => Ok(to_bool(&v)),
            None => Ok(false),
        }
    }

    /// `propertyIsEnumerable`.
    pub fn property_is_enumerable(&mut self, recv: &Option<Value>, args: &Vec<Value>) -> (r: Result<Value, Stop>)
        requires
            old(self).wf(),
        ensures
            final(self).follows(*old(self)),
            run_value(r, *final(self)) == property_is_enumerable_run(
                old(self).host(),
                old(self).pos as nat,
                opt_view(*recv),
                views(args@),
            ),
    {
        let desc: Value = self.object_get_own_property_descriptor(
            &None,
            &list2(this_or_undefined(recv), arg_at(args, 0)),
        )?;
        let b: bool = self.says_enumerable(&desc)?;
        Ok(Value::Bool(b))
    }

    /// `Function.prototype.toString`.
    pub fn fn_to_string(&mut self, recv: &Option<Value>, args: &Vec<Value>) -> (r: Result<Value, Stop>)
        requires
            old(self).wf(),
        ensures
            final(self).follows(*old(self)),
            run_value(r, *final(self)) == fn_to_string_run(
                old(self).host(),
                old(self).pos as nat,
                opt_view(*recv),
                views(args@),
            ),
    {
        let f: Value = this_or_undefined(recv);
        match &f {
            Value::Ref(Kind::Fn, _) => {
                match self.ask_slot(Op::FunctionSource, list1(f.clone()))? {
                    Some(t) => {
                        return Ok(t);
                    },
                    None => {},
                }
                let name: String = self.ask_text(Op::FunctionName, list1(f.clone()))?;
                let shape: Vec<Value> = self.ask_list(Op::FunctionShape, list1(f.clone()))?;
                Ok(Value::Str(text_of_function(name.as_str(), &shape)))
            },
            Value::Ref(Kind::Class, _) => {
                match self.ask_slot(Op::FunctionSource, list1(f.clone()))? {
                    Some(t) => {
                        return Ok(t);
                    },
                    None => {},
                }
                let name: String = self.ask_text(Op::FunctionName, list1(f.clone()))?;
                if chars_of(name.as_str()).len() == 0 {
                    return Ok(text_value("class { }"));
                }
                let mut out: String = concat_text("class ", name.as_str());
                append_text(&mut out, " { }");
                Ok(Value::Str(out))
            },
            Value::Native(_) => {
                let name: String = self.ask_text(Op::FunctionName, list1(f.clone()))?;
                if is_identifier(name.as_str()) {
                    let mut out: String = concat_text("function ", name.as_str());
                    append_text(&mut out, "() { [native code] }");
                    Ok(Value::Str(out))
                } else {
                    Ok(text_value("function () { [native code] }"))
                }
            },
            _ => {
                if is_callable(&f) {
                    Ok(text_value("function () { [native code] }"))
                } else {
                    Err(
                        fail(
                            ErrorKind::TypeError,
                            "Function.prototype.toString requires that 'this' be a Function",
                        ),
                    )
                }
            },
        }
    }
}

pub open spec fn slot_there(h: Host, pos: nat, v: Val, key: Seq<char>) -> Run<bool> {
    chain(
        ask_slot(h, pos, Op::OwnSlot, seq![v, Val::Str(key)]),
        |s: Option<Val>, p: nat| done(s is Some, p),
    )
}

/// An index as a number.
pub fn index_number(i: u64) -> (r: Num)
    ensures
        r == count_num(i as nat),
{
    if i <= crate::number::MAX_SAFE {
        Num::from_u64(i)
    } else {
        Num::from_u64(crate::number::MAX_SAFE)
    }
}

fn cursor(n: Num) -> (r: usize)
    ensures
        r == cursor_of(n),
{
    if n.is_finite() {
        if n.is_negative() {
            return 0;
        }
        let w: u64 = n.whole();
        if w <= usize::MAX as u64 {
            w as usize
        } else {
            usize::MAX
        }
    } else if n.is_nan() || n.is_negative() {
        0
    } else {
        usize::MAX
    }
}

fn text_of_function(name: &str, shape: &Vec<Value>) -> (r: String)
    ensures
        r@ == function_text(name@, views(shape@)),
{
    let mut out: String = if to_bool(&arg_at(shape, 0)) {
        "async function".to_owned()
    } else {
        "function".to_owned()
    };
    let star: &str = if to_bool(&arg_at(shape, 1)) {
        "*"
    } else {
        ""
    };
    append_text(&mut out, star);
    append_text(&mut out, " ");
    append_text(&mut out, name);
    append_text(&mut out, "(");
    let ghost front = out@;
    let ghost all = views(shape@);
    let ghost params = if all.len() > 2 {
        all.skip(2)
    } else {
        Seq::empty()
    };
    let n: usize = shape.len();
    let mut k: usize = 0;
    assert(out@ =~= front + comma_list(params, 0));
    if n > 2 {
        while k < n - 2
            invariant
                n > 2,
                n == shape@.len(),
                all == views(shape@),
                params == all.skip(2),
                k <= n - 2,
                out@ == front + comma_list(params, k as nat),
            decreases n - k,
        {
            let ghost before = out@;
            if k > 0 {
                append_text(&mut out, ", ");
            }
            assert(params[k as int] == all[k + 2]);
            match &shape[k + 2] {
                Value::Str(s) => {
                    append_text(&mut out, s.as_str());
                },
                _ => {},
            }
            k = k + 1;
            assert(out@ =~= front + comma_list(params, k as nat));
        }
    }
    append_text(&mut out, ") { }");
    assert(k == params.len());
    assert(out@ =~= function_text(name@, views(shape@)));
    out
}

/// An object that was frozen is sealed, and one that was sealed takes no new properties.
pub proof fn law_integrity_levels(frozen: bool, sealed: bool, closed: bool)
    ensures
        integrity_answer(IntegrityTest::Frozen, frozen, sealed, closed) ==> integrity_answer(
            IntegrityTest::Sealed,
            frozen,
            sealed,
            closed,
        ),
        integrity_answer(IntegrityTest::Sealed, frozen, sealed, closed) ==> !integrity_answer(
            IntegrityTest::Extensible,
            frozen,
            sealed,
            closed,
        ),
{
}

} // verus!
