//! `Object.getOwnPropertyDescriptor`, `Object.defineProperty` and what is built on them.
use crate::array_live::{count_num, live_length};
use crate::entries::{hidden_marker, is_private_name, marker_of, private_name};
use crate::functions::{index_number, key_arg, name_or_length, plain_slot};
use crate::host::{
    ask_flag, ask_list, ask_number, ask_slot, ask_text, ask_value, call, chain, done, fail, get,
    halted, has, list1, list2, list3, list4, opt_view, raised, run_list, run_plain, run_slot,
    run_value, text_value, Host, Interp, Op, Run, Stop,
};
use crate::json::{later, room, text_views, texts_in, texts_of};
use crate::number::Num;
use crate::objects::{is_nullish, proto_of, to_object};
use crate::property::{
    applied, desc_field, desc_run, flag, good_function, internal_key, is_accessor_desc,
    is_data_desc, is_internal_key, opt, opt_prop, or_flag, or_undefined, redefinable,
    stored_function, to_descriptor, validate_and_apply, Desc, DescV, Prop, PropV, Refusal, Slot,
    SlotV,
};
use crate::reflect::enumerable_names;
use crate::symbols::{description, is_symbol_key, symbol_from_key, symbol_key};
use crate::text::{concat_text, index_in, parse_index, same_text};
use crate::value::{
    arg, arg_at, callable, is_callable, is_object, object, same, same_value, strict_eq,
    strictly_equal, to_bool, truthy, views, ErrorKind, Kind, Native, Val, Value,
};
use vstd::prelude::*;

verus! {

/// What is found of an own property: nothing, the property, or its descriptor as an object.
#[verifier::ext_equal]
pub enum OwnV {
    Absent,
    Found(PropV),
    Made(Val),
}

pub enum Own {
    Absent,
    Found(Prop),
    Made(Value),
}

impl View for Own {
    type V = OwnV;

    open spec fn view(&self) -> OwnV {
        match self {
            Own::Absent => OwnV::Absent,
            Own::Found(p) => OwnV::Found(p@),
            Own::Made(v) => OwnV::Made(v@),
        }
    }
}

pub open spec fn own_run(r: Result<Own, Stop>, it: Interp) -> Run<OwnV> {
    match r {
        Ok(o) => done(o@, it.pos as nat),
        Err(e) => halted(e@, it.pos as nat),
    }
}

pub open spec fn prop_run(r: Result<Option<Prop>, Stop>, it: Interp) -> Run<Option<PropV>> {
    match r {
        Ok(o) => done(opt_prop(o), it.pos as nat),
        Err(e) => halted(e@, it.pos as nat),
    }
}

pub open spec fn slot_run(r: Result<Slot, Stop>, it: Interp) -> Run<SlotV> {
    match r {
        Ok(o) => done(o@, it.pos as nat),
        Err(e) => halted(e@, it.pos as nat),
    }
}

/// The attributes of a stored property.
#[derive(Debug, Clone, Copy, PartialEq, Eq, Structural)]
pub struct Bits {
    pub writable: bool,
    pub enumerable: bool,
    pub configurable: bool,
}

pub open spec fn truthy_at(l: Seq<Val>, i: int) -> bool {
    0 <= i < l.len() && truthy(l[i])
}

fn is_truthy_at(l: &Vec<Value>, i: usize) -> (r: bool)
    ensures
        r == truthy_at(views(l@), i as int),
{
    i < l.len() && to_bool(&l[i])
}

pub open spec fn attributes(h: Host, pos: nat, v: Val, key: Seq<char>) -> Run<Bits> {
    chain(
        ask_list(h, pos, Op::Attributes, seq![v, Val::Str(key)]),
        |l: Seq<Val>, p: nat|
            done(
                Bits {
                    writable: truthy_at(l, 0),
                    enumerable: truthy_at(l, 1),
                    configurable: truthy_at(l, 2),
                },
                p,
            ),
    )
}

pub open spec fn with_bits(slot: SlotV, b: Bits) -> PropV {
    PropV {
        slot,
        writable: b.writable,
        enumerable: b.enumerable,
        configurable: b.configurable,
    }
}

/// What a stored value is as a property: an accessor's functions, or the value.
pub open spec fn slot_of(h: Host, pos: nat, v: Val) -> Run<SlotV> {
    match v {
        Val::Ref(Kind::Accessor, _) => chain(
            ask_slot(h, pos, Op::AccessorGet, seq![v]),
            |g: Option<Val>, p: nat|
                chain(
                    ask_slot(h, p, Op::AccessorSet, seq![v]),
                    |s: Option<Val>, q: nat| done(SlotV::Accessor(g, s), q),
                ),
        ),
        _ => done(SlotV::Data(v), pos),
    }
}

/// A stored value with its attributes.
pub open spec fn full_prop(h: Host, pos: nat, v: Val, key: Seq<char>, stored: Val) -> Run<PropV> {
    chain(
        slot_of(h, pos, stored),
        |s: SlotV, p: nat|
            chain(attributes(h, p, v, key), |b: Bits, q: nat| done(with_bits(s, b), q)),
    )
}

/// The stored own property of an object.
pub open spec fn own_prop(h: Host, pos: nat, v: Val, key: Seq<char>) -> Run<Option<PropV>> {
    chain(
        ask_slot(h, pos, Op::OwnSlot, seq![v, Val::Str(key)]),
        |s: Option<Val>, p: nat|
            match s {
                None => done(None, p),
                Some(x) => chain(
                    full_prop(h, p, v, key, x),
                    |f: PropV, q: nat| done(Some(f), q),
                ),
            },
    )
}

pub open spec fn found(r: Run<Option<PropV>>) -> Run<OwnV> {
    chain(
        r,
        |o: Option<PropV>, p: nat|
            done(
                match o {
                    Some(f) => OwnV::Found(f),
                    None => OwnV::Absent,
                },
                p,
            ),
    )
}

pub open spec fn fixed(v: Val, writable: bool, enumerable: bool, configurable: bool) -> PropV {
    PropV { slot: SlotV::Data(v), writable, enumerable, configurable }
}

fn fixed_prop(v: Value, writable: bool, enumerable: bool, configurable: bool) -> (r: Prop)
    ensures
        r@ == fixed(v@, writable, enumerable, configurable),
{
    Prop { slot: Slot::Data(v), writable, enumerable, configurable }
}

/// The name or the length that a function has from the start.
pub open spec fn computed(h: Host, pos: nat, f: Val, key: Seq<char>, length: Op) -> Run<Val> {
    if key == "name"@ {
        chain(
            ask_text(h, pos, Op::FunctionName, seq![f]),
            |s: Seq<char>, p: nat| done(Val::Str(s), p),
        )
    } else {
        chain(ask_number(h, pos, length, seq![f]), |n: Num, p: nat| done(Val::Num(n), p))
    }
}

pub open spec fn deleted_mark(key: Seq<char>) -> Seq<char> {
    "\0fndel:"@ + key
}

pub open spec fn class_deleted_mark(key: Seq<char>) -> Seq<char> {
    "\0clsdel:"@ + key
}

/// Whether there is an own property under a key.
pub open spec fn stored_there(h: Host, pos: nat, v: Val, key: Seq<char>) -> Run<bool> {
    chain(
        ask_slot(h, pos, Op::OwnSlot, seq![v, Val::Str(key)]),
        |s: Option<Val>, p: nat| done(s is Some, p),
    )
}

/// An own property of a plain object; what the engine keeps for itself does not show.
pub open spec fn own_of_object(h: Host, pos: nat, v: Val, key: Seq<char>) -> Run<OwnV> {
    if internal_key(key) && !symbol_key(key) {
        done(OwnV::Absent, pos)
    } else {
        found(own_prop(h, pos, v, key))
    }
}

/// An own property of an array.
pub open spec fn own_of_array(h: Host, pos: nat, v: Val, key: Seq<char>) -> Run<OwnV> {
    if key == "length"@ {
        chain(
            live_length(h, pos, v),
            |n: nat, p: nat|
                chain(
                    ask_flag(h, p, Op::LengthWritable, seq![v]),
                    |w: bool, q: nat|
                        done(OwnV::Found(fixed(Val::Num(count_num(n)), w, false, false)), q),
                ),
        )
    } else {
        found(own_prop(h, pos, v, key))
    }
}

/// A function's `prototype`: made when it is first asked for.
pub open spec fn own_prototype(h: Host, pos: nat, v: Val) -> Run<OwnV> {
    chain(
        get(h, pos, v, "prototype"@),
        |x: Val, p: nat|
            chain(
                slot_of(h, p, x),
                |s: SlotV, q: nat|
                    done(
                        OwnV::Found(
                            PropV {
                                slot: s,
                                writable: true,
                                enumerable: false,
                                configurable: false,
                            },
                        ),
                        q,
                    ),
            ),
    )
}

/// Whether a function has a `prototype`, by its kind or because one was given.
pub open spec fn prototype_there(h: Host, pos: nat, v: Val) -> Run<bool> {
    chain(
        ask_flag(h, pos, Op::HasPrototype, seq![v]),
        |b: bool, p: nat|
            if b {
                done(true, p)
            } else {
                stored_there(h, p, v, "prototype"@)
            },
    )
}

/// Whether a function's name or length was deleted.
pub open spec fn tombstone(h: Host, pos: nat, v: Val, key: Seq<char>) -> Run<bool> {
    if name_or_length(key) {
        stored_there(h, pos, v, deleted_mark(key))
    } else {
        done(false, pos)
    }
}

/// An own property of a function.
pub open spec fn own_of_function(h: Host, pos: nat, v: Val, key: Seq<char>) -> Run<OwnV> {
    chain(
        tombstone(h, pos, v, key),
        |gone: bool, p: nat|
            if gone {
                done(OwnV::Absent, p)
            } else if key == "prototype"@ {
                chain(
                    prototype_there(h, p, v),
                    |b: bool, q: nat|
                        if b {
                            own_prototype(h, q, v)
                        } else {
                            done(OwnV::Absent, q)
                        },
                )
            } else {
                chain(
                    own_prop(h, p, v, key),
                    |o: Option<PropV>, q: nat|
                        match o {
                            Some(f) => done(OwnV::Found(f), q),
                            None => if name_or_length(key) {
                                chain(
                                    computed(h, q, v, key, Op::FunctionLength),
                                    |x: Val, r: nat|
                                        done(OwnV::Found(fixed(x, false, false, true)), r),
                                )
                            } else {
                                done(OwnV::Absent, q)
                            },
                        },
                )
            },
    )
}

/// A stored value as a data property, with its attributes.
pub open spec fn own_data(h: Host, pos: nat, v: Val, key: Seq<char>) -> Run<OwnV> {
    chain(
        ask_slot(h, pos, Op::OwnSlot, seq![v, Val::Str(key)]),
        |s: Option<Val>, p: nat|
            match s {
                None => done(OwnV::Absent, p),
                Some(x) => chain(
                    attributes(h, p, v, key),
                    |b: Bits, q: nat| done(OwnV::Found(with_bits(SlotV::Data(x), b)), q),
                ),
            },
    )
}

/// Whether a static member of a class shows up when its properties are listed.
pub open spec fn static_shown(h: Host, pos: nat, v: Val, key: Seq<char>) -> Run<bool> {
    chain(
        stored_there(h, pos, v, hidden_marker(key)),
        |b: bool, p: nat| done(!b, p),
    )
}

/// A static field of a class.
pub open spec fn own_static(h: Host, pos: nat, v: Val, key: Seq<char>) -> Run<OwnV> {
    chain(
        ask_slot(h, pos, Op::OwnSlot, seq![v, Val::Str(key)]),
        |s: Option<Val>, p: nat|
            match s {
                Some(x) => if private_name(key) {
                    done(OwnV::Absent, p)
                } else {
                    chain(
                        static_shown(h, p, v, key),
                        |e: bool, q: nat| done(OwnV::Found(fixed(x, true, e, true)), q),
                    )
                },
                None => done(OwnV::Absent, p),
            },
    )
}

/// The name or the length of a class.
pub open spec fn own_of_class_name(h: Host, pos: nat, v: Val, key: Seq<char>) -> Run<OwnV> {
    chain(
        stored_there(h, pos, v, class_deleted_mark(key)),
        |gone: bool, p: nat|
            if gone {
                own_static(h, p, v, key)
            } else {
                chain(
                    computed(h, p, v, key, Op::FunctionLength),
                    |x: Val, q: nat| done(OwnV::Found(fixed(x, false, false, true)), q),
                )
            },
    )
}

/// A class's `prototype`.
pub open spec fn class_prototype(h: Host, pos: nat, v: Val) -> Run<OwnV> {
    chain(
        get(h, pos, v, "prototype"@),
        |x: Val, p: nat| done(OwnV::Found(fixed(x, false, false, false)), p),
    )
}

/// An own property of a class.
pub open spec fn own_of_class(h: Host, pos: nat, v: Val, key: Seq<char>) -> Run<OwnV> {
    chain(
        ask_slot(h, pos, Op::StaticGetter, seq![v, Val::Str(key)]),
        |g: Option<Val>, p: nat|
            chain(
                ask_slot(h, p, Op::StaticSetter, seq![v, Val::Str(key)]),
                |s: Option<Val>, q: nat|
                    if g is Some || s is Some {
                        done(
                            OwnV::Found(
                                PropV {
                                    slot: SlotV::Accessor(g, s),
                                    writable: false,
                                    enumerable: false,
                                    configurable: key != "prototype"@,
                                },
                            ),
                            q,
                        )
                    } else if key == "prototype"@ {
                        class_prototype(h, q, v)
                    } else if name_or_length(key) {
                        own_of_class_name(h, q, v, key)
                    } else {
                        own_static(h, q, v, key)
                    },
            ),
    )
}

/// An own property of a built-in function.
pub open spec fn own_of_native(h: Host, pos: nat, v: Val, key: Seq<char>) -> Run<OwnV> {
    chain(
        if name_or_length(key) {
            ask_flag(h, pos, Op::NativeDeleted, seq![v, Val::Str(key)])
        } else {
            done(true, pos)
        },
        |gone: bool, p: nat|
            if !gone {
                chain(
                    computed(h, p, v, key, Op::FunctionLength),
                    |x: Val, q: nat| done(OwnV::Found(fixed(x, false, false, true)), q),
                )
            } else if v is Native {
                chain(
                    ask_slot(h, p, Op::NativeDescriptor, seq![v, Val::Str(key)]),
                    |d: Option<Val>, q: nat|
                        done(
                            match d {
                                Some(x) => OwnV::Made(x),
                                None => OwnV::Absent,
                            },
                            q,
                        ),
                )
            } else {
                done(OwnV::Absent, p)
            },
    )
}

/// An own property of a bound function: one that it was given, or its name or length.
pub open spec fn own_of_bound(h: Host, pos: nat, v: Val, key: Seq<char>) -> Run<OwnV> {
    chain(
        own_data(h, pos, v, key),
        |o: OwnV, p: nat|
            match o {
                OwnV::Absent => own_of_native(h, p, v, key),
                _ => done(o, p),
            },
    )
}

/// An own property of anything but a proxy.
pub open spec fn own_property(h: Host, pos: nat, v: Val, key: Seq<char>) -> Run<OwnV> {
    match v {
        Val::Ref(k, _) => match k {
            Kind::Obj => own_of_object(h, pos, v, key),
            Kind::Arr => own_of_array(h, pos, v, key),
            Kind::Fn => own_of_function(h, pos, v, key),
            Kind::Instance => if private_name(key) {
                done(OwnV::Absent, pos)
            } else {
                own_data(h, pos, v, key)
            },
            Kind::Class => own_of_class(h, pos, v, key),
            Kind::Bound => own_of_bound(h, pos, v, key),
            _ => done(OwnV::Absent, pos),
        },
        Val::Native(_) => own_of_native(h, pos, v, key),
        _ => done(OwnV::Absent, pos),
    }
}

/// What a descriptor object holds.
pub open spec fn prop_fields(p: PropV) -> Seq<Val> {
    let front = match p.slot {
        SlotV::Data(v) => seq![
            Val::Str("value"@),
            v,
            Val::Str("writable"@),
            Val::Bool(p.writable),
        ],
        SlotV::Accessor(g, s) => seq![
            Val::Str("get"@),
            or_undefined(g),
            Val::Str("set"@),
            or_undefined(s),
        ],
    };
    front + seq![
        Val::Str("enumerable"@),
        Val::Bool(p.enumerable),
        Val::Str("configurable"@),
        Val::Bool(p.configurable),
    ]
}

fn fields_of(p: &Prop) -> (r: Vec<Value>)
    ensures
        views(r@) == prop_fields(p@),
{
    let mut out: Vec<Value> = match &p.slot {
        Slot::Data(v) => list4(
            text_value("value"),
            v.clone(),
            text_value("writable"),
            Value::Bool(p.writable),
        ),
        Slot::Accessor(g, s) => list4(
            text_value("get"),
            value_or_undefined(g),
            text_value("set"),
            value_or_undefined(s),
        ),
    };
    let ghost front = views(out@);
    let mut rest: Vec<Value> = list4(
        text_value("enumerable"),
        Value::Bool(p.enumerable),
        text_value("configurable"),
        Value::Bool(p.configurable),
    );
    let ghost back = views(rest@);
    out.append(&mut rest);
    assert(views(out@) =~= front + back);
    out
}

fn value_or_undefined(v: &Option<Value>) -> (r: Value)
    ensures
        r@ == or_undefined(opt(*v)),
{
    match v {
        Some(x) => x.clone(),
        None => Value::Undefined,
    }
}

/// The object to look at: a string is wrapped.
pub open spec fn boxed(h: Host, pos: nat, v: Val) -> Run<Val> {
    match v {
        Val::Str(_) => to_object(h, pos, v),
        _ => done(v, pos),
    }
}

/// A method of a proxy's handler: none where it is undefined or null.
pub open spec fn trap_method(h: Host, pos: nat, handler: Val, name: Seq<char>, refused: Seq<char>) -> Run<
    Option<Val>,
> {
    chain(
        get(h, pos, handler, name),
        |t: Val, p: nat|
            if t is Undefined || t is Null {
                done(None, p)
            } else if !callable(t) {
                raised(ErrorKind::TypeError, refused, p)
            } else {
                done(Some(t), p)
            },
    )
}

/// Whether a field of a descriptor object that the engine made is there and true.
pub open spec fn made_flag(h: Host, pos: nat, d: Val, key: Seq<char>) -> Run<bool> {
    chain(
        plain_slot(h, pos, d, key),
        |s: Option<Val>, p: nat| done(s is Some && truthy(s->0), p),
    )
}

/// What the target of a proxy has, as far as the trap's report is held against it.
pub struct TargetFacts {
    pub absent: bool,
    pub configurable: bool,
    pub writable: bool,
}

pub open spec fn target_facts(h: Host, pos: nat, d: Val) -> Run<TargetFacts> {
    chain(
        made_flag(h, pos, d, "configurable"@),
        |c: bool, p: nat|
            chain(
                made_flag(h, p, d, "writable"@),
                |w: bool, q: nat|
                    done(TargetFacts { absent: d is Undefined, configurable: c, writable: w }, q),
            ),
    )
}

/// A field of a trap's report: whether it is there, and whether it is true.
pub open spec fn report_field(h: Host, pos: nat, d: Val, key: Seq<char>) -> Run<Option<bool>> {
    chain(desc_field(h, pos, d, key), |f: Option<Val>, p: nat| done(flag(f), p))
}

/// The report that a property is not there, held against the target.
pub open spec fn report_absent(h: Host, pos: nat, target: Val, t: TargetFacts) -> Run<Val> {
    if t.absent {
        done(Val::Undefined, pos)
    } else if !t.configurable {
        raised(
            ErrorKind::TypeError,
            "proxy 'getOwnPropertyDescriptor': non-configurable property cannot be reported as non-existent"@,
            pos,
        )
    } else {
        chain(
            ask_flag(h, pos, Op::Extensible, seq![target]),
            |ext: bool, p: nat|
                if ext {
                    done(Val::Undefined, p)
                } else {
                    raised(
                        ErrorKind::TypeError,
                        "proxy 'getOwnPropertyDescriptor': existing property of non-extensible target cannot be reported as non-existent"@,
                        p,
                    )
                },
        )
    }
}

/// The report that a property is not configurable, held against the target.
pub open spec fn report_fixed(h: Host, pos: nat, report: Val, t: TargetFacts) -> Run<Val> {
    if t.absent || t.configurable {
        raised(
            ErrorKind::TypeError,
            "proxy 'getOwnPropertyDescriptor': cannot report non-configurable for a configurable or absent target property"@,
            pos,
        )
    } else {
        chain(
            report_field(h, pos, report, "writable"@),
            |w: Option<bool>, p: nat|
                if w == Some(false) && t.writable {
                    raised(
                        ErrorKind::TypeError,
                        "proxy 'getOwnPropertyDescriptor': cannot report non-writable for a writable target property"@,
                        p,
                    )
                } else {
                    done(report, p)
                },
        )
    }
}

/// A report of a property, held against the target.
pub open spec fn report_present(h: Host, pos: nat, target: Val, report: Val, t: TargetFacts) -> Run<Val> {
    chain(
        ask_flag(h, pos, Op::Extensible, seq![target]),
        |ext: bool, p: nat|
            if t.absent && !ext {
                raised(
                    ErrorKind::TypeError,
                    "proxy 'getOwnPropertyDescriptor': cannot report a new property on a non-extensible target"@,
                    p,
                )
            } else {
                chain(
                    report_field(h, p, report, "configurable"@),
                    |c: Option<bool>, q: nat|
                        if c == Some(true) {
                            done(report, q)
                        } else {
                            report_fixed(h, q, report, t)
                        },
                )
            },
    )
}

/// What a proxy's trap reports, held against what the target has.
pub open spec fn checked_report(h: Host, pos: nat, target: Val, d: Val, report: Val) -> Run<Val> {
    chain(
        target_facts(h, pos, d),
        |t: TargetFacts, p: nat|
            if report is Undefined {
                report_absent(h, p, target, t)
            } else {
                report_present(h, p, target, report, t)
            },
    )
}

/// A proxy's handler, and its trap of a name where there is one.
pub struct TrapV {
    pub handler: Val,
    pub trap: Option<Val>,
}

pub open spec fn proxy_trap(h: Host, pos: nat, v: Val, name: Seq<char>, refused: Seq<char>) -> Run<TrapV> {
    chain(
        ask_value(h, pos, Op::ProxyHandler, seq![v]),
        |handler: Val, p: nat|
            chain(
                trap_method(h, p, handler, name, refused),
                |trap: Option<Val>, q: nat| done(TrapV { handler, trap }, q),
            ),
    )
}

pub open spec fn trap_run(r: Result<(Value, Option<Value>), Stop>, after: Interp) -> Run<TrapV> {
    match r {
        Ok((handler, trap)) => done(
            TrapV { handler: handler@, trap: opt_view(trap) },
            after.pos as nat,
        ),
        Err(e) => halted(e@, after.pos as nat),
    }
}

/// What a trap reports of a property: an object or undefined.
pub open spec fn trap_report(h: Host, pos: nat, handler: Val, trap: Val, target: Val, key: Seq<char>) -> Run<
    Val,
> {
    chain(
        ask_value(h, pos, Op::TrapKey, seq![Val::Str(key)]),
        |k: Val, p: nat|
            chain(
                call(h, p, trap, Some(handler), seq![target, k]),
                |report: Val, q: nat|
                    if !object(report) && !(report is Undefined) {
                        raised(
                            ErrorKind::TypeError,
                            "proxy 'getOwnPropertyDescriptor' must return an object or undefined"@,
                            q,
                        )
                    } else {
                        done(report, q)
                    },
            ),
    )
}

/// An own property, as a descriptor object. A proxy without a trap has what its target has; what a
/// trap reports is held against what the target has.
pub open spec fn own_descriptor(h: Host, pos: nat, v: Val, key: Seq<char>) -> Run<Val>
    decreases room(h, pos),
{
    if v is Proxy {
        let a = ask_value(h, pos, Op::ProxyTarget, seq![v]);
        match a.out {
            Err(e) => halted(e, a.pos),
            Ok(target) => {
                let t = proxy_trap(
                    h,
                    a.pos,
                    v,
                    "getOwnPropertyDescriptor"@,
                    "'getOwnPropertyDescriptor' trap is not callable"@,
                );
                match t.out {
                    Err(e) => halted(e, t.pos),
                    Ok(x) => match x.trap {
                        None => own_descriptor(h, later(a.pos, t.pos), target, key),
                        Some(f) => {
                            let r = trap_report(h, t.pos, x.handler, f, target, key);
                            match r.out {
                                Err(e) => halted(e, r.pos),
                                Ok(report) => {
                                    let d = own_descriptor(h, later(a.pos, r.pos), target, key);
                                    match d.out {
                                        Err(e) => halted(e, d.pos),
                                        Ok(td) => checked_report(h, d.pos, target, td, report),
                                    }
                                },
                            }
                        },
                    },
                }
            },
        }
    } else {
        chain(own_property(h, pos, v, key), |o: OwnV, p: nat| from_own(h, p, o))
    }
}

/// The descriptor object of what was found.
pub open spec fn from_own(h: Host, pos: nat, o: OwnV) -> Run<Val> {
    match o {
        OwnV::Absent => done(Val::Undefined, pos),
        OwnV::Found(p) => ask_value(h, pos, Op::NewObject, prop_fields(p)),
        OwnV::Made(v) => done(v, pos),
    }
}

/// `Object.getOwnPropertyDescriptor`.
#[verifier::opaque]
pub open spec fn object_get_own_property_descriptor_run(
    h: Host,
    pos: nat,
    recv: Option<Val>,
    args: Seq<Val>,
) -> Run<Val> {
    chain(
        boxed(h, pos, arg(args, 0)),
        |v: Val, p: nat|
            chain(
                key_arg(h, p, args, 1),
                |key: Seq<char>, q: nat| own_descriptor(h, q, v, key),
            ),
    )
}

/// The target's descriptor object, as far as a definition is held against it.
pub open spec fn made_desc(h: Host, pos: nat, d: Val) -> Run<DescV> {
    chain(
        plain_slot(h, pos, d, "configurable"@),
        |c: Option<Val>, p0: nat|
            chain(
                plain_slot(h, p0, d, "enumerable"@),
                |e: Option<Val>, p1: nat|
                    chain(
                        plain_slot(h, p1, d, "writable"@),
                        |w: Option<Val>, p2: nat|
                            chain(
                                plain_slot(h, p2, d, "value"@),
                                |v: Option<Val>, p3: nat|
                                    chain(
                                        plain_slot(h, p3, d, "get"@),
                                        |g: Option<Val>, p4: nat|
                                            chain(
                                                plain_slot(h, p4, d, "set"@),
                                                |s: Option<Val>, p5: nat|
                                                    done(
                                                        DescV {
                                                            value: v,
                                                            get: g,
                                                            set: s,
                                                            writable: flag(w),
                                                            enumerable: flag(e),
                                                            configurable: flag(c),
                                                        },
                                                        p5,
                                                    ),
                                            ),
                                    ),
                            ),
                    ),
            ),
    )
}

/// The fields of the definition that follow `configurable`.
pub open spec fn rest_fields(h: Host, pos: nat, d: Val, configurable: Option<bool>) -> Run<DescV> {
    chain(
        desc_field(h, pos, d, "enumerable"@),
        |e: Option<Val>, p1: nat|
            chain(
                desc_field(h, p1, d, "writable"@),
                |w: Option<Val>, p2: nat|
                    chain(
                        desc_field(h, p2, d, "value"@),
                        |v: Option<Val>, p3: nat|
                            chain(
                                desc_field(h, p3, d, "get"@),
                                |g: Option<Val>, p4: nat|
                                    chain(
                                        desc_field(h, p4, d, "set"@),
                                        |s: Option<Val>, p5: nat|
                                            done(
                                                DescV {
                                                    value: v,
                                                    get: g,
                                                    set: s,
                                                    writable: flag(w),
                                                    enumerable: flag(e),
                                                    configurable,
                                                },
                                                p5,
                                            ),
                                    ),
                            ),
                    ),
            ),
    )
}

/// Why a definition that a trap reports as done cannot stand beside what the target has.
pub open spec fn conflict(t: DescV, d: DescV) -> Option<Seq<char>> {
    let fixed = t.configurable != Some(true);
    let accessor = is_accessor_desc(t);
    if d.configurable == Some(false) && !fixed {
        Some(
            "'defineProperty' on proxy: cannot report a configurable target property as non-configurable"@,
        )
    } else if !fixed {
        None
    } else if d.configurable == Some(true) {
        Some(
            "'defineProperty' on proxy: cannot make a non-configurable target property configurable"@,
        )
    } else if d.enumerable is Some && d.enumerable != Some(t.enumerable == Some(true)) {
        Some(
            "'defineProperty' on proxy: cannot change enumerability of a non-configurable target property"@,
        )
    } else if accessor && is_data_desc(d) {
        Some(
            "'defineProperty' on proxy: cannot convert a non-configurable accessor to a data property"@,
        )
    } else if accessor && d.get is Some && !same(d.get->0, or_undefined(t.get)) {
        Some("'defineProperty' on proxy: cannot change getter of a non-configurable property"@)
    } else if accessor && d.set is Some && !same(d.set->0, or_undefined(t.set)) {
        Some("'defineProperty' on proxy: cannot change setter of a non-configurable property"@)
    } else if accessor {
        None
    } else if is_accessor_desc(d) {
        Some(
            "'defineProperty' on proxy: cannot convert a non-configurable data property to an accessor"@,
        )
    } else if t.writable != Some(true) && d.writable == Some(true) {
        Some(
            "'defineProperty' on proxy: cannot make a non-writable non-configurable property writable"@,
        )
    } else if t.writable != Some(true) && d.value is Some && !same(
        d.value->0,
        or_undefined(t.value),
    ) {
        Some(
            "'defineProperty' on proxy: cannot change the value of a non-writable non-configurable property"@,
        )
    } else if t.writable == Some(true) && d.writable == Some(false) {
        Some(
            "'defineProperty' on proxy: cannot report a writable non-configurable property as non-writable"@,
        )
    } else {
        None
    }
}

fn find_conflict(t: &Desc, d: &Desc) -> (r: Option<&'static str>)
    ensures
        match r {
            Some(m) => conflict(t@, d@) == Some(m@),
            None => conflict(t@, d@) is None,
        },
{
    let fixed: bool = !matches!(t.configurable, Some(true));
    let accessor: bool = t.get.is_some() || t.set.is_some();
    if matches!(d.configurable, Some(false)) && !fixed {
        return Some(
            "'defineProperty' on proxy: cannot report a configurable target property as non-configurable",
        );
    }
    if !fixed {
        return None;
    }
    if matches!(d.configurable, Some(true)) {
        return Some(
            "'defineProperty' on proxy: cannot make a non-configurable target property configurable",
        );
    }
    let shown: bool = matches!(t.enumerable, Some(true));
    let changes: bool = match d.enumerable {
        Some(e) => e != shown,
        None => false,
    };
    if changes {
        return Some(
            "'defineProperty' on proxy: cannot change enumerability of a non-configurable target property",
        );
    }
    if accessor {
        if d.value.is_some() || d.writable.is_some() {
            return Some(
                "'defineProperty' on proxy: cannot convert a non-configurable accessor to a data property",
            );
        }
        if differs(&d.get, &t.get) {
            return Some(
                "'defineProperty' on proxy: cannot change getter of a non-configurable property",
            );
        }
        if differs(&d.set, &t.set) {
            return Some(
                "'defineProperty' on proxy: cannot change setter of a non-configurable property",
            );
        }
        return None;
    }
    if d.get.is_some() || d.set.is_some() {
        return Some(
            "'defineProperty' on proxy: cannot convert a non-configurable data property to an accessor",
        );
    }
    let writable: bool = matches!(t.writable, Some(true));
    if !writable && matches!(d.writable, Some(true)) {
        return Some(
            "'defineProperty' on proxy: cannot make a non-writable non-configurable property writable",
        );
    }
    if !writable && differs(&d.value, &t.value) {
        return Some(
            "'defineProperty' on proxy: cannot change the value of a non-writable non-configurable property",
        );
    }
    if writable && matches!(d.writable, Some(false)) {
        return Some(
            "'defineProperty' on proxy: cannot report a writable non-configurable property as non-writable",
        );
    }
    None
}

/// Whether a field is there and is not what stands for it.
fn differs(new: &Option<Value>, old: &Option<Value>) -> (r: bool)
    ensures
        r == (new is Some && !same(opt(*new)->0, or_undefined(opt(*old)))),
{
    match new {
        Some(v) => {
            let o: Value = value_or_undefined(old);
            !same_value(v, &o)
        },
        None => false,
    }
}

/// A definition that a proxy's trap reports as done, held against the target.
pub open spec fn checked_define(h: Host, pos: nat, v: Val, target: Val, key: Seq<char>, desc: Val) -> Run<
    Val,
> {
    chain(
        own_descriptor(h, pos, target, key),
        |td: Val, p0: nat|
            chain(
                ask_flag(h, p0, Op::Extensible, seq![target]),
                |ext: bool, p1: nat|
                    chain(
                        desc_field(h, p1, desc, "configurable"@),
                        |c: Option<Val>, p2: nat|
                            if td is Undefined {
                                if !ext {
                                    raised(
                                        ErrorKind::TypeError,
                                        "'defineProperty' on proxy: cannot add property to a non-extensible target"@,
                                        p2,
                                    )
                                } else if flag(c) == Some(false) {
                                    raised(
                                        ErrorKind::TypeError,
                                        "'defineProperty' on proxy: cannot define non-configurable property that is absent on target"@,
                                        p2,
                                    )
                                } else {
                                    done(v, p2)
                                }
                            } else {
                                checked_against(h, p2, v, td, desc, flag(c))
                            },
                    ),
            ),
    )
}

pub open spec fn checked_against(
    h: Host,
    pos: nat,
    v: Val,
    td: Val,
    desc: Val,
    configurable: Option<bool>,
) -> Run<Val> {
    chain(
        made_desc(h, pos, td),
        |t: DescV, p: nat|
            chain(
                rest_fields(h, p, desc, configurable),
                |d: DescV, q: nat|
                    match conflict(t, d) {
                        Some(m) => raised(ErrorKind::TypeError, m, q),
                        None => done(v, q),
                    },
            ),
    )
}

pub open spec fn proxy_define_call(
    h: Host,
    pos: nat,
    v: Val,
    target: Val,
    handler: Val,
    trap: Val,
    key: Seq<char>,
    desc: Val,
) -> Run<Val> {
    chain(
        ask_value(h, pos, Op::TrapKey, seq![Val::Str(key)]),
        |k: Val, p: nat|
            chain(
                call(h, p, trap, Some(handler), seq![target, k, desc]),
                |ok: Val, q: nat|
                    if truthy(ok) {
                        checked_define(h, q, v, target, key, desc)
                    } else {
                        raised(
                            ErrorKind::TypeError,
                            "'defineProperty' on proxy: trap returned falsish for property"@,
                            q,
                        )
                    },
            ),
    )
}

/// A definition on an ordinary object.
pub open spec fn define_ordinary(h: Host, pos: nat, v: Val, key: Seq<char>, desc: Val) -> Run<Val> {
    chain(
        ask_flag(h, pos, Op::NonExtensible, seq![v]),
        |closed: bool, p: nat|
            chain(
                to_descriptor(h, p, desc),
                |d: DescV, q: nat|
                    chain(
                        own_prop(h, q, v, key),
                        |cur: Option<PropV>, r: nat|
                            match applied(cur, d, !closed) {
                                Ok(f) => chain(
                                    ask_value(
                                        h,
                                        r,
                                        Op::StoreProperty,
                                        seq![v, Val::Str(key)] + prop_fields(f),
                                    ),
                                    |u: Val, t: nat| done(v, t),
                                ),
                                Err(Refusal::NotExtensible) => raised(
                                    ErrorKind::TypeError,
                                    "Cannot define property: object is not extensible"@,
                                    r,
                                ),
                                Err(Refusal::NotRedefinable) => raised(
                                    ErrorKind::TypeError,
                                    "Cannot redefine property"@,
                                    r,
                                ),
                            },
                    ),
            ),
    )
}

/// Stores a function's name or length as it is now, so that a definition can be held against it.
pub open spec fn settle_computed(h: Host, pos: nat, v: Val, key: Seq<char>, length: Op) -> Run<()> {
    chain(
        stored_there(h, pos, v, key),
        |there: bool, p0: nat|
            chain(
                if there {
                    done(true, p0)
                } else {
                    stored_there(h, p0, v, deleted_mark(key))
                },
                |keep: bool, p1: nat|
                    chain(
                        if keep {
                            done((), p1)
                        } else {
                            chain(
                                computed(h, p1, v, key, length),
                                |x: Val, p2: nat|
                                    chain(
                                        ask_value(
                                            h,
                                            p2,
                                            Op::StoreProperty,
                                            seq![v, Val::Str(key)] + prop_fields(
                                                fixed(x, false, false, true),
                                            ),
                                        ),
                                        |u: Val, p3: nat| done((), p3),
                                    ),
                            )
                        },
                        |u: (), p4: nat|
                            chain(
                                ask_value(
                                    h,
                                    p4,
                                    Op::DropSlot,
                                    seq![v, Val::Str(deleted_mark(key))],
                                ),
                                |w: Val, p5: nat| done((), p5),
                            ),
                    ),
            ),
    )
}

/// A definition on a function.
pub open spec fn define_on_function(
    h: Host,
    pos: nat,
    v: Val,
    key: Seq<char>,
    desc: Val,
    length: Op,
) -> Run<Val> {
    chain(
        if name_or_length(key) {
            settle_computed(h, pos, v, key, length)
        } else {
            done((), pos)
        },
        |u: (), p: nat| define_ordinary(h, p, v, key, desc),
    )
}

/// Which fields a descriptor object has.
#[derive(Debug, Clone, Copy, PartialEq, Eq, Structural)]
pub struct Fields {
    pub enumerable: bool,
    pub configurable: bool,
    pub value: bool,
    pub writable: bool,
    pub get: bool,
    pub set: bool,
}

pub open spec fn fields_there(h: Host, pos: nat, d: Val) -> Run<Fields> {
    chain(
        has(h, pos, d, "enumerable"@),
        |e: bool, p0: nat|
            chain(
                has(h, p0, d, "configurable"@),
                |c: bool, p1: nat|
                    chain(
                        has(h, p1, d, "value"@),
                        |v: bool, p2: nat|
                            chain(
                                has(h, p2, d, "writable"@),
                                |w: bool, p3: nat|
                                    chain(
                                        has(h, p3, d, "get"@),
                                        |g: bool, p4: nat|
                                            chain(
                                                has(h, p4, d, "set"@),
                                                |s: bool, p5: nat|
                                                    done(
                                                        Fields {
                                                            enumerable: e,
                                                            configurable: c,
                                                            value: v,
                                                            writable: w,
                                                            get: g,
                                                            set: s,
                                                        },
                                                        p5,
                                                    ),
                                            ),
                                    ),
                            ),
                    ),
            ),
    )
}

/// A field that is there.
pub open spec fn field_if(h: Host, pos: nat, d: Val, there: bool, key: Seq<char>) -> Run<Option<Val>> {
    if there {
        chain(get(h, pos, d, key), |v: Val, p: nat| done(Some(v), p))
    } else {
        done(None, pos)
    }
}

/// The fields of a descriptor object: first which there are, then what they hold.
pub open spec fn fields_held(h: Host, pos: nat, d: Val, f: Fields) -> Run<DescV> {
    chain(
        field_if(h, pos, d, f.enumerable, "enumerable"@),
        |e: Option<Val>, p0: nat|
            chain(
                field_if(h, p0, d, f.configurable, "configurable"@),
                |c: Option<Val>, p1: nat|
                    chain(
                        field_if(h, p1, d, f.value, "value"@),
                        |v: Option<Val>, p2: nat|
                            chain(
                                field_if(h, p2, d, f.writable, "writable"@),
                                |w: Option<Val>, p3: nat|
                                    chain(
                                        field_if(h, p3, d, f.get, "get"@),
                                        |g: Option<Val>, p4: nat|
                                            chain(
                                                field_if(h, p4, d, f.set, "set"@),
                                                |s: Option<Val>, p5: nat|
                                                    done(
                                                        DescV {
                                                            value: v,
                                                            get: g,
                                                            set: s,
                                                            writable: flag(w),
                                                            enumerable: flag(e),
                                                            configurable: flag(c),
                                                        },
                                                        p5,
                                                    ),
                                            ),
                                    ),
                            ),
                    ),
            ),
    )
}

/// The definition that a descriptor object asks for.
pub open spec fn asked_definition(h: Host, pos: nat, desc: Val) -> Run<DescV> {
    chain(
        fields_there(h, pos, desc),
        |f: Fields, p: nat|
            chain(
                fields_held(h, p, desc, f),
                |d: DescV, q: nat|
                    if !good_function(d.get) {
                        raised(ErrorKind::TypeError, "Getter must be a function"@, q)
                    } else if !good_function(d.set) {
                        raised(ErrorKind::TypeError, "Setter must be a function"@, q)
                    } else if is_accessor_desc(d) && is_data_desc(d) {
                        raised(
                            ErrorKind::TypeError,
                            "Invalid property descriptor. Cannot both specify accessors and a value or writable attribute"@,
                            q,
                        )
                    } else {
                        done(d, q)
                    },
            ),
    )
}

/// What a definition stores: an accessor or a value, if it gives either.
pub open spec fn given_entry(h: Host, pos: nat, d: DescV) -> Run<Option<Val>> {
    if is_accessor_desc(d) {
        chain(
            ask_value(
                h,
                pos,
                Op::NewAccessor,
                seq![
                    or_undefined(stored_function(d.get, None)),
                    or_undefined(stored_function(d.set, None)),
                ],
            ),
            |a: Val, p: nat| done(Some(a), p),
        )
    } else {
        done(d.value, pos)
    }
}

pub open spec fn redefine_refused<T>(pos: nat) -> Run<T> {
    raised(ErrorKind::TypeError, "Cannot redefine property"@, pos)
}

pub open spec fn length_value(h: Host, pos: nat, v: Val, x: Val) -> Run<bool> {
    chain(
        ask_number(h, pos, Op::ToNumber, seq![x]),
        |n: Num, p: nat|
            chain(
                live_length(h, p, v),
                |len: nat, q: nat|
                    done(strictly_equal(Val::Num(n), Val::Num(count_num(len))), q),
            ),
    )
}

/// Sets an array's length, where the definition gives one; whether it could be set.
pub open spec fn define_length_value(h: Host, pos: nat, v: Val, d: DescV, free: bool) -> Run<bool> {
    if !free {
        if d.writable == Some(true) {
            redefine_refused(pos)
        } else {
            match d.value {
                None => done(true, pos),
                Some(x) => chain(
                    length_value(h, pos, v, x),
                    |same: bool, p: nat|
                        if same {
                            done(true, p)
                        } else {
                            redefine_refused(p)
                        },
                ),
            }
        }
    } else {
        match d.value {
            None => done(true, pos),
            Some(x) => ask_flag(h, pos, Op::SetLength, seq![v, x]),
        }
    }
}

/// A definition of an array's `length`.
pub open spec fn define_length(h: Host, pos: nat, v: Val, d: DescV) -> Run<Val> {
    if is_accessor_desc(d) || d.configurable == Some(true) || d.enumerable == Some(true) {
        redefine_refused(pos)
    } else {
        chain(
            ask_flag(h, pos, Op::LengthWritable, seq![v]),
            |free: bool, p0: nat|
                chain(
                    define_length_value(h, p0, v, d, free),
                    |ok: bool, p1: nat|
                        chain(
                            if d.writable == Some(false) {
                                chain(
                                    ask_value(h, p1, Op::FixLength, seq![v]),
                                    |u: Val, p: nat| done((), p),
                                )
                            } else {
                                done((), p1)
                            },
                            |u: (), p2: nat|
                                if ok {
                                    done(v, p2)
                                } else {
                                    redefine_refused(p2)
                                },
                        ),
                ),
        )
    }
}

/// The attributes after a definition.
pub open spec fn merged(cur: Bits, d: DescV) -> Bits {
    Bits {
        writable: or_flag(d.writable, cur.writable),
        enumerable: or_flag(d.enumerable, cur.enumerable),
        configurable: or_flag(d.configurable, cur.configurable),
    }
}

pub open spec fn no_bits() -> Bits {
    Bits { writable: false, enumerable: false, configurable: false }
}

pub open spec fn set_attributes(h: Host, pos: nat, v: Val, key: Seq<char>, b: Bits) -> Run<()> {
    chain(
        ask_value(
            h,
            pos,
            Op::SetAttributes,
            seq![
                v,
                Val::Str(key),
                Val::Bool(b.writable),
                Val::Bool(b.enumerable),
                Val::Bool(b.configurable),
            ],
        ),
        |u: Val, p: nat| done((), p),
    )
}

pub open spec fn index_value(i: u64) -> Val {
    Val::Num(count_num(i as nat))
}

/// Whether an array has an element or a property.
pub open spec fn array_has(h: Host, pos: nat, v: Val, key: Seq<char>) -> Run<bool> {
    match index_in(key) {
        Some(i) => ask_flag(h, pos, Op::ArrayPresent, seq![v, index_value(i)]),
        None => stored_there(h, pos, v, key),
    }
}

/// Whether an element or property may get these attributes and keep what it holds.
pub open spec fn remarkable(cur: Bits, accessor: bool, d: DescV) -> bool {
    cur.configurable || {
        &&& d.configurable != Some(true)
        &&& (d.enumerable is Some ==> d.enumerable == Some(cur.enumerable))
        &&& (!accessor && !cur.writable ==> d.writable != Some(true))
    }
}

/// A definition that gives an array's element or property new attributes only.
pub open spec fn define_marks(h: Host, pos: nat, v: Val, key: Seq<char>, d: DescV) -> Run<Val> {
    chain(
        attributes(h, pos, v, key),
        |cur: Bits, p0: nat|
            chain(
                ask_slot(h, p0, Op::StoredSlot, seq![v, Val::Str(key)]),
                |s: Option<Val>, p1: nat|
                    if !remarkable(cur, s matches Some(Val::Ref(Kind::Accessor, _)), d) {
                        redefine_refused(p1)
                    } else {
                        chain(
                            set_attributes(h, p1, v, key, merged(cur, d)),
                            |u: (), p2: nat|
                                match index_in(key) {
                                    Some(i) => if d.writable == Some(false) {
                                        chain(
                                            ask_value(
                                                h,
                                                p2,
                                                Op::UnmapParam,
                                                seq![v, index_value(i)],
                                            ),
                                            |w: Val, p3: nat| done(v, p3),
                                        )
                                    } else {
                                        done(v, p2)
                                    },
                                    None => done(v, p2),
                                },
                        )
                    },
            ),
    )
}

/// The attributes of what stands in an array's place, where it may be redefined so.
pub open spec fn array_current(h: Host, pos: nat, v: Val, key: Seq<char>, d: DescV, there: bool) -> Run<
    Bits,
> {
    if !there {
        done(no_bits(), pos)
    } else {
        chain(
            ask_slot(h, pos, Op::StoredSlot, seq![v, Val::Str(key)]),
            |s: Option<Val>, p: nat|
                chain(
                    full_prop(h, p, v, key, or_undefined(s)),
                    |cur: PropV, q: nat|
                        if redefinable(cur, d) {
                            done(
                                Bits {
                                    writable: cur.writable,
                                    enumerable: cur.enumerable,
                                    configurable: cur.configurable,
                                },
                                q,
                            )
                        } else {
                            redefine_refused(q)
                        },
                ),
        )
    }
}

/// Keeps the parameter that an element stands for in step with a definition.
pub open spec fn follow_param(h: Host, pos: nat, v: Val, i: u64, d: DescV) -> Run<()> {
    chain(
        ask_flag(h, pos, Op::MappedParam, seq![v, index_value(i)]),
        |mapped: bool, p0: nat|
            if !mapped {
                done((), p0)
            } else if is_accessor_desc(d) {
                chain(
                    ask_value(h, p0, Op::UnmapParam, seq![v, index_value(i)]),
                    |u: Val, p: nat| done((), p),
                )
            } else {
                chain(
                    match d.value {
                        Some(x) => chain(
                            ask_value(h, p0, Op::SetParam, seq![v, index_value(i), x]),
                            |u: Val, p: nat| done((), p),
                        ),
                        None => done((), p0),
                    },
                    |u: (), p1: nat|
                        if d.writable == Some(false) {
                            chain(
                                ask_value(h, p1, Op::UnmapParam, seq![v, index_value(i)]),
                                |w: Val, p: nat| done((), p),
                            )
                        } else {
                            done((), p1)
                        },
                )
            },
    )
}

/// Whether an array of a fixed length is too short for an index.
pub open spec fn beyond_fixed(h: Host, pos: nat, v: Val, i: u64) -> Run<bool> {
    chain(
        live_length(h, pos, v),
        |len: nat, p: nat|
            if i < len {
                done(false, p)
            } else {
                chain(
                    ask_flag(h, p, Op::LengthWritable, seq![v]),
                    |free: bool, q: nat| done(!free, q),
                )
            },
    )
}

/// A definition of an array's element.
pub open spec fn define_index(h: Host, pos: nat, v: Val, key: Seq<char>, i: u64, d: DescV, x: Val) -> Run<
    Val,
> {
    chain(
        ask_flag(h, pos, Op::ArrayPresent, seq![v, index_value(i)]),
        |there: bool, p0: nat|
            chain(
                beyond_fixed(h, p0, v, i),
                |beyond: bool, p1: nat|
                    if beyond {
                        raised(
                            ErrorKind::TypeError,
                            "Cannot define array index beyond a non-writable length"@,
                            p1,
                        )
                    } else {
                        chain(
                            array_current(h, p1, v, key, d, there),
                            |cur: Bits, p2: nat|
                                chain(
                                    follow_param(h, p2, v, i, d),
                                    |u: (), p3: nat|
                                        chain(
                                            ask_value(
                                                h,
                                                p3,
                                                Op::StoreElement,
                                                seq![v, index_value(i), x],
                                            ),
                                            |w: Val, p4: nat|
                                                chain(
                                                    set_attributes(h, p4, v, key, merged(cur, d)),
                                                    |z: (), p5: nat| done(v, p5),
                                                ),
                                        ),
                                ),
                        )
                    },
            ),
    )
}

/// A definition of a property of an array that is no element.
pub open spec fn define_array_prop(h: Host, pos: nat, v: Val, key: Seq<char>, d: DescV, x: Val) -> Run<
    Val,
> {
    chain(
        ask_slot(h, pos, Op::StoredSlot, seq![v, Val::Str(key)]),
        |s: Option<Val>, p0: nat|
            chain(
                array_current(h, p0, v, key, d, s is Some),
                |cur: Bits, p1: nat|
                    chain(
                        ask_value(h, p1, Op::StoreSlot, seq![v, Val::Str(key), x]),
                        |w: Val, p2: nat|
                            chain(
                                set_attributes(h, p2, v, key, merged(cur, d)),
                                |z: (), p3: nat| done(v, p3),
                            ),
                    ),
            ),
    )
}

/// The highest index that an array can have.
pub const MAX_INDEX: u64 = 0xffff_fffe;

/// A definition on an array of what is not its `length`.
pub open spec fn define_on_array(h: Host, pos: nat, v: Val, key: Seq<char>, d: DescV, entry: Option<Val>) -> Run<
    Val,
> {
    chain(
        if entry is Some {
            done(false, pos)
        } else {
            array_has(h, pos, v, key)
        },
        |marks: bool, p: nat|
            if marks {
                define_marks(h, p, v, key, d)
            } else {
                match index_in(key) {
                    Some(i) => if i <= MAX_INDEX {
                        define_index(h, p, v, key, i, d, or_undefined(entry))
                    } else {
                        define_array_prop(h, p, v, key, d, or_undefined(entry))
                    },
                    None => define_array_prop(h, p, v, key, d, or_undefined(entry)),
                }
            },
    )
}

pub open spec fn store_slot(h: Host, pos: nat, v: Val, key: Seq<char>, x: Val) -> Run<Val> {
    chain(
        ask_value(h, pos, Op::StoreSlot, seq![v, Val::Str(key), x]),
        |u: Val, p: nat| done(v, p),
    )
}

/// Stores what a definition gives, without holding it against what is there.
pub open spec fn define_loosely(h: Host, pos: nat, v: Val, key: Seq<char>, d: DescV, x: Val) -> Run<Val> {
    match v {
        Val::Ref(Kind::Fn, _) => store_slot(h, pos, v, key, x),
        Val::Ref(Kind::Class, _) => store_slot(h, pos, v, key, x),
        Val::Ref(Kind::Instance, _) => chain(
            store_slot(h, pos, v, key, x),
            |u: Val, p: nat|
                if d.enumerable == Some(true) {
                    chain(
                        ask_value(h, p, Op::DropSlot, seq![v, Val::Str(hidden_marker(key))]),
                        |w: Val, q: nat| done(v, q),
                    )
                } else {
                    store_slot(h, p, v, hidden_marker(key), Val::Bool(true))
                },
        ),
        Val::Native(_) => chain(
            ask_value(h, pos, Op::GiveNative, seq![v, Val::Str(key), x]),
            |u: Val, p: nat| done(v, p),
        ),
        _ => done(v, pos),
    }
}

/// A definition on what is no ordinary object.
#[verifier::opaque]
pub open spec fn define_exotic(h: Host, pos: nat, v: Val, key: Seq<char>, desc: Val) -> Run<Val> {
    if !object(desc) {
        done(v, pos)
    } else {
        chain(
            asked_definition(h, pos, desc),
            |d: DescV, p: nat|
                chain(
                    given_entry(h, p, d),
                    |entry: Option<Val>, q: nat|
                        match v {
                            Val::Ref(Kind::Arr, _) => if key == "length"@ {
                                define_length(h, q, v, d)
                            } else {
                                define_on_array(h, q, v, key, d, entry)
                            },
                            _ => match entry {
                                Some(x) => define_loosely(h, q, v, key, d, x),
                                None => done(v, q),
                            },
                        },
                ),
        )
    }
}

/// A definition of an own property.
pub open spec fn define_on(h: Host, pos: nat, v: Val, key: Seq<char>, desc: Val) -> Run<Val>
    decreases room(h, pos), 1nat,
{
    match v {
        Val::Proxy(_, _) => proxy_define(h, pos, v, key, desc),
        Val::Ref(Kind::Obj, _) => define_ordinary(h, pos, v, key, desc),
        Val::Ref(Kind::Fn, _) => if key == "prototype"@ {
            define_exotic(h, pos, v, key, desc)
        } else {
            define_on_function(h, pos, v, key, desc, Op::ParamCount)
        },
        Val::Ref(Kind::Bound, _) => define_on_function(h, pos, v, key, desc, Op::FunctionLength),
        Val::Ref(Kind::Instance, _) => if private_name(key) {
            define_exotic(h, pos, v, key, desc)
        } else {
            define_ordinary(h, pos, v, key, desc)
        },
        _ => define_exotic(h, pos, v, key, desc),
    }
}

/// A definition on a proxy: without a trap, one on its target.
pub open spec fn proxy_define(h: Host, pos: nat, v: Val, key: Seq<char>, desc: Val) -> Run<Val>
    decreases room(h, pos), 0nat,
{
    let a = ask_value(h, pos, Op::ProxyTarget, seq![v]);
    match a.out {
        Err(e) => halted(e, a.pos),
        Ok(target) => {
            let t = proxy_trap(
                h,
                a.pos,
                v,
                "defineProperty"@,
                "'defineProperty' trap is not callable"@,
            );
            match t.out {
                Err(e) => halted(e, t.pos),
                Ok(x) => match x.trap {
                    None => define_on(h, later(a.pos, t.pos), target, key, desc),
                    Some(f) => proxy_define_call(h, t.pos, v, target, x.handler, f, key, desc),
                },
            }
        },
    }
}

/// `Object.defineProperty`.
#[verifier::opaque]
pub open spec fn object_define_property_run(h: Host, pos: nat, recv: Option<Val>, args: Seq<Val>) -> Run<
    Val,
> {
    let v = arg(args, 0);
    if !object(v) {
        raised(ErrorKind::TypeError, "Object.defineProperty called on non-object"@, pos)
    } else {
        chain(
            key_arg(h, pos, args, 1),
            |key: Seq<char>, p: nat|
                if args.len() < 3 {
                    raised(ErrorKind::TypeError, "Property description must be an object"@, p)
                } else {
                    define_on(h, p, v, key, args[2])
                },
        )
    }
}

/// Defines what the keys from the `i`-th on describe.
pub open spec fn define_each(h: Host, pos: nat, v: Val, props: Val, keys: Seq<Val>, i: int) -> Run<Val>
    decreases keys.len() - i,
{
    if !(0 <= i < keys.len()) {
        done(v, pos)
    } else {
        let s = define_one(h, pos, v, props, keys[i]);
        match s.out {
            Err(e) => halted(e, s.pos),
            Ok(_) => define_each(h, s.pos, v, props, keys, i + 1),
        }
    }
}

pub open spec fn define_one(h: Host, pos: nat, v: Val, props: Val, key: Val) -> Run<Val> {
    chain(
        ask_value(h, pos, Op::Get, seq![props, key]),
        |d: Val, p: nat| object_define_property_run(h, p, None, seq![v, key, d]),
    )
}

/// `Object.defineProperties`.
pub open spec fn object_define_properties_run(h: Host, pos: nat, recv: Option<Val>, args: Seq<Val>) -> Run<
    Val,
> {
    let v = arg(args, 0);
    if !object(v) {
        raised(ErrorKind::TypeError, "Object.defineProperties called on non-object"@, pos)
    } else {
        chain(
            enumerable_names(h, pos, arg(args, 1)),
            |keys: Seq<Val>, p: nat| define_each(h, p, v, arg(args, 1), keys, 0),
        )
    }
}

/// `Object.create`.
pub open spec fn object_create_run(h: Host, pos: nat, recv: Option<Val>, args: Seq<Val>) -> Run<Val> {
    let proto = arg(args, 0);
    if !object(proto) && !(proto is Null) {
        raised(ErrorKind::TypeError, "Object prototype may only be an Object or null"@, pos)
    } else {
        chain(
            ask_value(h, pos, Op::NewWithProto, seq![proto]),
            |o: Val, p: nat|
                if arg(args, 1) is Undefined {
                    done(o, p)
                } else {
                    chain(
                        object_define_properties_run(h, p, None, seq![o, arg(args, 1)]),
                        |u: Val, q: nat| done(o, q),
                    )
                },
        )
    }
}

/// `Object.setPrototypeOf`.
pub open spec fn object_set_prototype_of_run(h: Host, pos: nat, recv: Option<Val>, args: Seq<Val>) -> Run<
    Val,
> {
    let v = arg(args, 0);
    let proto = arg(args, 1);
    if v is Undefined || v is Null {
        raised(ErrorKind::TypeError, "Object.setPrototypeOf called on null or undefined"@, pos)
    } else if !object(proto) && !(proto is Null) {
        raised(ErrorKind::TypeError, "Object prototype may only be an Object or null"@, pos)
    } else if object(v) {
        chain(
            ask_flag(h, pos, Op::SetProto, seq![v, proto]),
            |ok: bool, p: nat|
                if ok {
                    done(v, p)
                } else {
                    raised(ErrorKind::TypeError, "Cannot set prototype of this object"@, p)
                },
        )
    } else {
        done(v, pos)
    }
}

/// The symbols among some keys, from the `i`-th on.
pub open spec fn symbols_among(keys: Seq<Val>) -> Seq<Val>
    decreases keys.len(),
{
    if keys.len() == 0 {
        Seq::empty()
    } else if keys.last() is Symbol {
        symbols_among(keys.drop_last()).push(keys.last())
    } else {
        symbols_among(keys.drop_last())
    }
}

/// The symbols that some keys stand for, in order.
pub open spec fn stored_symbols(keys: Seq<Seq<char>>) -> Seq<Val>
    decreases keys.len(),
{
    if keys.len() == 0 {
        Seq::empty()
    } else if symbol_key(keys.last()) {
        stored_symbols(keys.drop_last()).push(
            Val::Symbol(keys.last(), description(keys.last())),
        )
    } else {
        stored_symbols(keys.drop_last())
    }
}

/// The own symbols of a value. Only plain objects, instances and proxies have any.
pub open spec fn own_symbols(h: Host, pos: nat, v: Val) -> Run<Seq<Val>> {
    match v {
        Val::Proxy(_, _) => chain(
            ask_list(h, pos, Op::ProxyKeys, seq![v]),
            |keys: Seq<Val>, p: nat| done(symbols_among(keys), p),
        ),
        Val::Ref(k, _) => if k == Kind::Obj || k == Kind::Instance {
            chain(
                ask_list(h, pos, Op::StoredKeys, seq![v]),
                |keys: Seq<Val>, p: nat| done(stored_symbols(texts_in(keys)), p),
            )
        } else {
            done(Seq::empty(), pos)
        },
        _ => done(Seq::empty(), pos),
    }
}

/// `Object.getOwnPropertySymbols`.
pub open spec fn object_get_own_property_symbols_run(
    h: Host,
    pos: nat,
    recv: Option<Val>,
    args: Seq<Val>,
) -> Run<Val> {
    chain(
        own_symbols(h, pos, arg(args, 0)),
        |symbols: Seq<Val>, p: nat| ask_value(h, p, Op::NewArray, symbols),
    )
}

fn symbols_of_keys(keys: &Vec<String>) -> (r: Vec<Value>)
    ensures
        views(r@) == stored_symbols(text_views(keys@)),
{
    let ghost all = text_views(keys@);
    let mut out: Vec<Value> = Vec::new();
    let mut i: usize = 0;
    assert(all.take(0) =~= Seq::<Seq<char>>::empty());
    assert(views(out@) =~= stored_symbols(all.take(0)));
    while i < keys.len()
        invariant
            i <= keys@.len(),
            all == text_views(keys@),
            views(out@) == stored_symbols(all.take(i as int)),
        decreases keys@.len() - i,
    {
        assert(all.take(i + 1).drop_last() =~= all.take(i as int));
        assert(all.take(i + 1).last() == keys@[i as int]@);
        if is_symbol_key(keys[i].as_str()) {
            let ghost before = views(out@);
            let s: Value = symbol_from_key(keys[i].as_str());
            out.push(s);
            assert(views(out@) =~= before.push(s@));
        }
        i = i + 1;
    }
    assert(all.take(i as int) =~= all);
    out
}

/// `Object.getPrototypeOf`.
pub open spec fn object_get_prototype_of_run(h: Host, pos: nat, recv: Option<Val>, args: Seq<Val>) -> Run<
    Val,
> {
    proto_of(h, pos, arg(args, 0))
}

fn select_symbols(keys: &Vec<Value>) -> (r: Vec<Value>)
    ensures
        views(r@) == symbols_among(views(keys@)),
{
    let ghost all = views(keys@);
    let mut out: Vec<Value> = Vec::new();
    let mut i: usize = 0;
    assert(views(out@) =~= symbols_among(all.take(0)));
    while i < keys.len()
        invariant
            i <= keys@.len(),
            all == views(keys@),
            views(out@) == symbols_among(all.take(i as int)),
        decreases keys@.len() - i,
    {
        let ghost before = views(out@);
        assert(all.take(i + 1).drop_last() =~= all.take(i as int));
        assert(all.take(i + 1).last() == keys@[i as int]@);
        if matches!(&keys[i], Value::Symbol(_)) {
            out.push(keys[i].clone());
            assert(views(out@) =~= before.push(keys@[i as int]@));
        }
        i = i + 1;
    }
    assert(all.take(i as int) =~= all);
    out
}

pub open spec fn full_prop_run(r: Result<Prop, Stop>, it: Interp) -> Run<PropV> {
    match r {
        Ok(o) => done(o@, it.pos as nat),
        Err(e) => halted(e@, it.pos as nat),
    }
}

/// Stores an own property.
pub open spec fn store_property(h: Host, pos: nat, v: Val, key: Seq<char>, f: PropV) -> Run<()> {
    chain(
        ask_value(h, pos, Op::StoreProperty, seq![v, Val::Str(key)] + prop_fields(f)),
        |u: Val, p: nat| done((), p),
    )
}

impl Interp {
    pub fn attributes(&mut self, v: &Value, key: &str) -> (r: Result<Bits, Stop>)
        requires
            old(self).wf(),
        ensures
            final(self).follows(*old(self)),
            run_plain(r, *final(self)) == attributes(
                old(self).host(),
                old(self).pos as nat,
                v@,
                key@,
            ),
    {
        let l: Vec<Value> = self.ask_list(Op::Attributes, list2(v.clone(), text_value(key)))?;
        Ok(
            Bits {
                writable: is_truthy_at(&l, 0),
                enumerable: is_truthy_at(&l, 1),
                configurable: is_truthy_at(&l, 2),
            },
        )
    }

    fn slot_of(&mut self, v: &Value) -> (r: Result<Slot, Stop>)
        requires
            old(self).wf(),
        ensures
            final(self).follows(*old(self)),
            slot_run(r, *final(self)) == slot_of(
                old(self).host(),
                old(self).pos as nat,
                v@,
            ),
    {
        match v {
            Value::Ref(Kind::Accessor, _) => {
                let g: Option<Value> = self.ask_slot(Op::AccessorGet, list1(v.clone()))?;
                let s: Option<Value> = self.ask_slot(Op::AccessorSet, list1(v.clone()))?;
                Ok(Slot::Accessor(g, s))
            },
            _ => Ok(Slot::Data(v.clone())),
        }
    }

    fn full_prop(&mut self, v: &Value, key: &str, stored: &Value) -> (r: Result<Prop, Stop>)
        requires
            old(self).wf(),
        ensures
            final(self).follows(*old(self)),
            full_prop_run(r, *final(self)) == full_prop(
                old(self).host(),
                old(self).pos as nat,
                v@,
                key@,
                stored@,
            ),
    {
        let slot: Slot = self.slot_of(stored)?;
        let b: Bits = self.attributes(v, key)?;
        Ok(
            Prop {
                slot,
                writable: b.writable,
                enumerable: b.enumerable,
                configurable: b.configurable,
            },
        )
    }

    pub fn own_prop(&mut self, v: &Value, key: &str) -> (r: Result<Option<Prop>, Stop>)
        requires
            old(self).wf(),
        ensures
            final(self).follows(*old(self)),
            prop_run(r, *final(self)) == own_prop(
                old(self).host(),
                old(self).pos as nat,
                v@,
                key@,
            ),
    {
        match self.ask_slot(Op::OwnSlot, list2(v.clone(), text_value(key)))? {
            None => Ok(None),
            Some(x) => {
                let f: Prop = self.full_prop(v, key, &x)?;
                Ok(Some(f))
            },
        }
    }

    fn computed(&mut self, f: &Value, key: &str, length: Op) -> (r: Result<Value, Stop>)
        requires
            old(self).wf(),
        ensures
            final(self).follows(*old(self)),
            run_value(r, *final(self)) == computed(
                old(self).host(),
                old(self).pos as nat,
                f@,
                key@,
                length,
            ),
    {
        if same_text(key, "name") {
            let s: String = self.ask_text(Op::FunctionName, list1(f.clone()))?;
            Ok(Value::Str(s))
        } else {
            let n: Num = self.ask_number(length, list1(f.clone()))?;
            Ok(Value::Num(n))
        }
    }

    fn stored_there(&mut self, v: &Value, key: &str) -> (r: Result<bool, Stop>)
        requires
            old(self).wf(),
        ensures
            final(self).follows(*old(self)),
            run_plain(r, *final(self)) == stored_there(
                old(self).host(),
                old(self).pos as nat,
                v@,
                key@,
            ),
    {
        let s: Option<Value> = self.ask_slot(Op::OwnSlot, list2(v.clone(), text_value(key)))?;
        Ok(s.is_some())
    }

    fn own_of_object(&mut self, v: &Value, key: &str) -> (r: Result<Own, Stop>)
        requires
            old(self).wf(),
        ensures
            final(self).follows(*old(self)),
            own_run(r, *final(self)) == own_of_object(
                old(self).host(),
                old(self).pos as nat,
                v@,
                key@,
            ),
    {
        if is_internal_key(key) && !is_symbol_key(key) {
            return Ok(Own::Absent);
        }
        match self.own_prop(v, key)? {
            Some(f) => Ok(Own::Found(f)),
            None => Ok(Own::Absent),
        }
    }

    fn own_of_array(&mut self, v: &Value, key: &str) -> (r: Result<Own, Stop>)
        requires
            old(self).wf(),
        ensures
            final(self).follows(*old(self)),
            own_run(r, *final(self)) == own_of_array(
                old(self).host(),
                old(self).pos as nat,
                v@,
                key@,
            ),
    {
        if same_text(key, "length") {
            let n: u64 = self.live_length(v)?;
            let w: bool = self.ask_flag(Op::LengthWritable, list1(v.clone()))?;
            return Ok(Own::Found(fixed_prop(Value::Num(index_number(n)), w, false, false)));
        }
        match self.own_prop(v, key)? {
            Some(f) => Ok(Own::Found(f)),
            None => Ok(Own::Absent),
        }
    }

    fn own_prototype(&mut self, v: &Value) -> (r: Result<Own, Stop>)
        requires
            old(self).wf(),
        ensures
            final(self).follows(*old(self)),
            own_run(r, *final(self)) == own_prototype(
                old(self).host(),
                old(self).pos as nat,
                v@,
            ),
    {
        let x: Value = self.member_get(v, "prototype")?;
        let slot: Slot = self.slot_of(&x)?;
        Ok(Own::Found(Prop { slot, writable: true, enumerable: false, configurable: false }))
    }

    fn prototype_there(&mut self, v: &Value) -> (r: Result<bool, Stop>)
        requires
            old(self).wf(),
        ensures
            final(self).follows(*old(self)),
            run_plain(r, *final(self)) == prototype_there(
                old(self).host(),
                old(self).pos as nat,
                v@,
            ),
    {
        if self.ask_flag(Op::HasPrototype, list1(v.clone()))? {
            Ok(true)
        } else {
            self.stored_there(v, "prototype")
        }
    }

    fn tombstone(&mut self, v: &Value, key: &str) -> (r: Result<bool, Stop>)
        requires
            old(self).wf(),
        ensures
            final(self).follows(*old(self)),
            run_plain(r, *final(self)) == tombstone(
                old(self).host(),
                old(self).pos as nat,
                v@,
                key@,
            ),
    {
        if same_text(key, "name") || same_text(key, "length") {
            self.stored_there(v, concat_text("\0fndel:", key).as_str())
        } else {
            Ok(false)
        }
    }

    fn own_of_function(&mut self, v: &Value, key: &str) -> (r: Result<Own, Stop>)
        requires
            old(self).wf(),
        ensures
            final(self).follows(*old(self)),
            own_run(r, *final(self)) == own_of_function(
                old(self).host(),
                old(self).pos as nat,
                v@,
                key@,
            ),
    {
        if self.tombstone(v, key)? {
            return Ok(Own::Absent);
        }
        if same_text(key, "prototype") {
            if self.prototype_there(v)? {
                return self.own_prototype(v);
            }
            return Ok(Own::Absent);
        }
        match self.own_prop(v, key)? {
            Some(f) => Ok(Own::Found(f)),
            None => {
                if same_text(key, "name") || same_text(key, "length") {
                    let x: Value = self.computed(v, key, Op::FunctionLength)?;
                    Ok(Own::Found(fixed_prop(x, false, false, true)))
                } else {
                    Ok(Own::Absent)
                }
            },
        }
    }

    fn own_data(&mut self, v: &Value, key: &str) -> (r: Result<Own, Stop>)
        requires
            old(self).wf(),
        ensures
            final(self).follows(*old(self)),
            own_run(r, *final(self)) == own_data(
                old(self).host(),
                old(self).pos as nat,
                v@,
                key@,
            ),
    {
        match self.ask_slot(Op::OwnSlot, list2(v.clone(), text_value(key)))? {
            None => Ok(Own::Absent),
            Some(x) => {
                let b: Bits = self.attributes(v, key)?;
                Ok(Own::Found(fixed_prop(x, b.writable, b.enumerable, b.configurable)))
            },
        }
    }

    fn static_shown(&mut self, v: &Value, key: &str) -> (r: Result<bool, Stop>)
        requires
            old(self).wf(),
        ensures
            final(self).follows(*old(self)),
            run_plain(r, *final(self)) == static_shown(
                old(self).host(),
                old(self).pos as nat,
                v@,
                key@,
            ),
    {
        let b: bool = self.stored_there(v, marker_of(key).as_str())?;
        Ok(!b)
    }

    fn own_static(&mut self, v: &Value, key: &str) -> (r: Result<Own, Stop>)
        requires
            old(self).wf(),
        ensures
            final(self).follows(*old(self)),
            own_run(r, *final(self)) == own_static(
                old(self).host(),
                old(self).pos as nat,
                v@,
                key@,
            ),
    {
        match self.ask_slot(Op::OwnSlot, list2(v.clone(), text_value(key)))? {
            Some(x) => {
                if is_private_name(key) {
                    return Ok(Own::Absent);
                }
                let e: bool = self.static_shown(v, key)?;
                Ok(Own::Found(fixed_prop(x, true, e, true)))
            },
            None => Ok(Own::Absent),
        }
    }

    fn own_of_class_name(&mut self, v: &Value, key: &str) -> (r: Result<Own, Stop>)
        requires
            old(self).wf(),
        ensures
            final(self).follows(*old(self)),
            own_run(r, *final(self)) == own_of_class_name(
                old(self).host(),
                old(self).pos as nat,
                v@,
                key@,
            ),
    {
        if self.stored_there(v, concat_text("\0clsdel:", key).as_str())? {
            return self.own_static(v, key);
        }
        let x: Value = self.computed(v, key, Op::FunctionLength)?;
        Ok(Own::Found(fixed_prop(x, false, false, true)))
    }

    fn class_prototype(&mut self, v: &Value) -> (r: Result<Own, Stop>)
        requires
            old(self).wf(),
        ensures
            final(self).follows(*old(self)),
            own_run(r, *final(self)) == class_prototype(
                old(self).host(),
                old(self).pos as nat,
                v@,
            ),
    {
        let x: Value = self.member_get(v, "prototype")?;
        Ok(Own::Found(fixed_prop(x, false, false, false)))
    }

    fn own_of_class(&mut self, v: &Value, key: &str) -> (r: Result<Own, Stop>)
        requires
            old(self).wf(),
        ensures
            final(self).follows(*old(self)),
            own_run(r, *final(self)) == own_of_class(
                old(self).host(),
                old(self).pos as nat,
                v@,
                key@,
            ),
    {
        let g: Option<Value> = self.ask_slot(Op::StaticGetter, list2(v.clone(), text_value(key)))?;
        let s: Option<Value> = self.ask_slot(Op::StaticSetter, list2(v.clone(), text_value(key)))?;
        if g.is_some() || s.is_some() {
            return Ok(
                Own::Found(
                    Prop {
                        slot: Slot::Accessor(g, s),
                        writable: false,
                        enumerable: false,
                        configurable: !same_text(key, "prototype"),
                    },
                ),
            );
        }
        if same_text(key, "prototype") {
            return self.class_prototype(v);
        }
        if same_text(key, "name") || same_text(key, "length") {
            return self.own_of_class_name(v, key);
        }
        self.own_static(v, key)
    }

    fn own_of_native(&mut self, v: &Value, key: &str) -> (r: Result<Own, Stop>)
        requires
            old(self).wf(),
        ensures
            final(self).follows(*old(self)),
            own_run(r, *final(self)) == own_of_native(
                old(self).host(),
                old(self).pos as nat,
                v@,
                key@,
            ),
    {
        if same_text(key, "name") || same_text(key, "length") {
            if !self.ask_flag(Op::NativeDeleted, list2(v.clone(), text_value(key)))? {
                let x: Value = self.computed(v, key, Op::FunctionLength)?;
                return Ok(Own::Found(fixed_prop(x, false, false, true)));
            }
        }
        match v {
            Value::Native(_) => match self.ask_slot(
                Op::NativeDescriptor,
                list2(v.clone(), text_value(key)),
            )? {
                Some(x) => Ok(Own::Made(x)),
                None => Ok(Own::Absent),
            },
            _ => Ok(Own::Absent),
        }
    }

    fn own_of_bound(&mut self, v: &Value, key: &str) -> (r: Result<Own, Stop>)
        requires
            old(self).wf(),
        ensures
            final(self).follows(*old(self)),
            own_run(r, *final(self)) == own_of_bound(
                old(self).host(),
                old(self).pos as nat,
                v@,
                key@,
            ),
    {
        match self.own_data(v, key)? {
            Own::Absent => self.own_of_native(v, key),
            o => Ok(o),
        }
    }

    fn own_property(&mut self, v: &Value, key: &str) -> (r: Result<Own, Stop>)
        requires
            old(self).wf(),
        ensures
            final(self).follows(*old(self)),
            own_run(r, *final(self)) == own_property(
                old(self).host(),
                old(self).pos as nat,
                v@,
                key@,
            ),
    {
        match v {
            Value::Ref(k, _) => match k {
                Kind::Obj => self.own_of_object(v, key),
                Kind::Arr => self.own_of_array(v, key),
                Kind::Fn => self.own_of_function(v, key),
                Kind::Instance => {
                    if is_private_name(key) {
                        Ok(Own::Absent)
                    } else {
                        self.own_data(v, key)
                    }
                },
                Kind::Class => self.own_of_class(v, key),
                Kind::Bound => self.own_of_bound(v, key),
                _ => Ok(Own::Absent),
            },
            Value::Native(_) => self.own_of_native(v, key),
            _ => Ok(Own::Absent),
        }
    }

    fn boxed(&mut self, v: Value) -> (r: Result<Value, Stop>)
        requires
            old(self).wf(),
        ensures
            final(self).follows(*old(self)),
            run_value(r, *final(self)) == boxed(
                old(self).host(),
                old(self).pos as nat,
                v@,
            ),
    {
        match &v {
            Value::Str(_) => self.to_object_value(v),
            _ => Ok(v),
        }
    }

    fn trap_method(&mut self, handler: &Value, name: &str, refused: &str) -> (r: Result<Option<Value>, Stop>)
        requires
            old(self).wf(),
        ensures
            final(self).follows(*old(self)),
            run_slot(r, *final(self)) == trap_method(
                old(self).host(),
                old(self).pos as nat,
                handler@,
                name@,
                refused@,
            ),
    {
        let t: Value = self.member_get(handler, name)?;
        if is_nullish(&t) {
            return Ok(None);
        }
        if !is_callable(&t) {
            return Err(fail(ErrorKind::TypeError, refused));
        }
        Ok(Some(t))
    }

    fn made_flag(&mut self, d: &Value, key: &str) -> (r: Result<bool, Stop>)
        requires
            old(self).wf(),
        ensures
            final(self).follows(*old(self)),
            run_plain(r, *final(self)) == made_flag(
                old(self).host(),
                old(self).pos as nat,
                d@,
                key@,
            ),
    {
        match self.plain_slot(d, key)? {
            Some(v) => Ok(to_bool(&v)),
            None => Ok(false),
        }
    }

    fn target_facts(&mut self, d: &Value) -> (r: Result<TargetFacts, Stop>)
        requires
            old(self).wf(),
        ensures
            final(self).follows(*old(self)),
            run_plain(r, *final(self)) == target_facts(
                old(self).host(),
                old(self).pos as nat,
                d@,
            ),
    {
        let c: bool = self.made_flag(d, "configurable")?;
        let w: bool = self.made_flag(d, "writable")?;
        Ok(TargetFacts { absent: matches!(d, Value::Undefined), configurable: c, writable: w })
    }

    fn report_field(&mut self, d: &Value, key: &str) -> (r: Result<Option<bool>, Stop>)
        requires
            old(self).wf(),
        ensures
            final(self).follows(*old(self)),
            run_plain(r, *final(self)) == report_field(
                old(self).host(),
                old(self).pos as nat,
                d@,
                key@,
            ),
    {
        match self.desc_field(d, key)? {
            Some(v) => Ok(Some(to_bool(&v))),
            None => Ok(None),
        }
    }

    fn report_absent(&mut self, target: &Value, t: TargetFacts) -> (r: Result<Value, Stop>)
        requires
            old(self).wf(),
        ensures
            final(self).follows(*old(self)),
            run_value(r, *final(self)) == report_absent(
                old(self).host(),
                old(self).pos as nat,
                target@,
                t,
            ),
    {
        if t.absent {
            return Ok(Value::Undefined);
        }
        if !t.configurable {
            return Err(
                fail(
                    ErrorKind::TypeError,
                    "proxy 'getOwnPropertyDescriptor': non-configurable property cannot be reported as non-existent",
                ),
            );
        }
        if self.ask_flag(Op::Extensible, list1(target.clone()))? {
            Ok(Value::Undefined)
        } else {
            Err(
                fail(
                    ErrorKind::TypeError,
                    "proxy 'getOwnPropertyDescriptor': existing property of non-extensible target cannot be reported as non-existent",
                ),
            )
        }
    }

    fn report_fixed(&mut self, report: Value, t: TargetFacts) -> (r: Result<Value, Stop>)
        requires
            old(self).wf(),
        ensures
            final(self).follows(*old(self)),
            run_value(r, *final(self)) == report_fixed(
                old(self).host(),
                old(self).pos as nat,
                report@,
                t,
            ),
    {
        if t.absent || t.configurable {
            return Err(
                fail(
                    ErrorKind::TypeError,
                    "proxy 'getOwnPropertyDescriptor': cannot report non-configurable for a configurable or absent target property",
                ),
            );
        }
        let w: Option<bool> = self.report_field(&report, "writable")?;
        if matches!(w, Some(false)) && t.writable {
            return Err(
                fail(
                    ErrorKind::TypeError,
                    "proxy 'getOwnPropertyDescriptor': cannot report non-writable for a writable target property",
                ),
            );
        }
        Ok(report)
    }

    fn report_present(&mut self, target: &Value, report: Value, t: TargetFacts) -> (r: Result<Value, Stop>)
        requires
            old(self).wf(),
        ensures
            final(self).follows(*old(self)),
            run_value(r, *final(self)) == report_present(
                old(self).host(),
                old(self).pos as nat,
                target@,
                report@,
                t,
            ),
    {
        let ext: bool = self.ask_flag(Op::Extensible, list1(target.clone()))?;
        if t.absent && !ext {
            return Err(
                fail(
                    ErrorKind::TypeError,
                    "proxy 'getOwnPropertyDescriptor': cannot report a new property on a non-extensible target",
                ),
            );
        }
        let c: Option<bool> = self.report_field(&report, "configurable")?;
        if matches!(c, Some(true)) {
            return Ok(report);
        }
        self.report_fixed(report, t)
    }

    fn checked_report(&mut self, target: &Value, d: &Value, report: Value) -> (r: Result<Value, Stop>)
        requires
            old(self).wf(),
        ensures
            final(self).follows(*old(self)),
            run_value(r, *final(self)) == checked_report(
                old(self).host(),
                old(self).pos as nat,
                target@,
                d@,
                report@,
            ),
    {
        let t: TargetFacts = self.target_facts(d)?;
        if matches!(report, Value::Undefined) {
            self.report_absent(target, t)
        } else {
            self.report_present(target, report, t)
        }
    }

    fn proxy_trap(&mut self, v: &Value, name: &str, refused: &str) -> (r: Result<
        (Value, Option<Value>),
        Stop,
    >)
        requires
            old(self).wf(),
        ensures
            final(self).follows(*old(self)),
            trap_run(r, *final(self)) == proxy_trap(
                old(self).host(),
                old(self).pos as nat,
                v@,
                name@,
                refused@,
            ),
    {
        let handler: Value = self.ask_value(Op::ProxyHandler, list1(v.clone()))?;
        let trap: Option<Value> = self.trap_method(&handler, name, refused)?;
        Ok((handler, trap))
    }

    fn trap_report(&mut self, handler: Value, trap: Value, target: &Value, key: &str) -> (r: Result<
        Value,
        Stop,
    >)
        requires
            old(self).wf(),
        ensures
            final(self).follows(*old(self)),
            run_value(r, *final(self)) == trap_report(
                old(self).host(),
                old(self).pos as nat,
                handler@,
                trap@,
                target@,
                key@,
            ),
    {
        let k: Value = self.ask_value(Op::TrapKey, list1(text_value(key)))?;
        let report: Value = self.call_value(trap, Some(handler), list2(target.clone(), k))?;
        if !is_object(&report) && !matches!(report, Value::Undefined) {
            return Err(
                fail(
                    ErrorKind::TypeError,
                    "proxy 'getOwnPropertyDescriptor' must return an object or undefined",
                ),
            );
        }
        Ok(report)
    }

    fn own_descriptor(&mut self, v: &Value, key: &str) -> (r: Result<Value, Stop>)
        requires
            old(self).wf(),
        ensures
            final(self).follows(*old(self)),
            run_value(r, *final(self)) == own_descriptor(
                old(self).host(),
                old(self).pos as nat,
                v@,
                key@,
            ),
        decreases room(old(self).host(), old(self).pos as nat),
    {
        match v {
            Value::Proxy(_, _) => {
                let target: Value = self.ask_value(Op::ProxyTarget, list1(v.clone()))?;
                let (handler, trap) = self.proxy_trap(
                    v,
                    "getOwnPropertyDescriptor",
                    "'getOwnPropertyDescriptor' trap is not callable",
                )?;
                match trap {
                    None => self.own_descriptor(&target, key),
                    Some(f) => {
                        let report: Value = self.trap_report(handler, f, &target, key)?;
                        let d: Value = self.own_descriptor(&target, key)?;
                        self.checked_report(&target, &d, report)
                    },
                }
            },
            _ => {
                let o: Own = self.own_property(v, key)?;
                self.from_own(o)
            },
        }
    }

    fn from_own(&mut self, o: Own) -> (r: Result<Value, Stop>)
        requires
            old(self).wf(),
        ensures
            final(self).follows(*old(self)),
            run_value(r, *final(self)) == from_own(
                old(self).host(),
                old(self).pos as nat,
                o@,
            ),
    {
        match o {
            Own::Absent => Ok(Value::Undefined),
            Own::Found(p) => self.ask_value(Op::NewObject, fields_of(&p)),
            Own::Made(v) => Ok(v),
        }
    }

    /// `Object.getOwnPropertyDescriptor`.
    pub fn object_get_own_property_descriptor(&mut self, recv: &Option<Value>, args: &Vec<Value>) -> (r: Result<Value, Stop>)
        requires
            old(self).wf(),
        ensures
            final(self).follows(*old(self)),
            run_value(r, *final(self)) == object_get_own_property_descriptor_run(
                old(self).host(),
                old(self).pos as nat,
                opt_view(*recv),
                views(args@),
            ),
    {
        proof {
            reveal(object_get_own_property_descriptor_run);
        }
        let v: Value = self.boxed(arg_at(args, 0))?;
        let key: String = self.key_arg(args, 1)?;
        self.own_descriptor(&v, key.as_str())
    }

    fn made_desc(&mut self, d: &Value) -> (r: Result<Desc, Stop>)
        requires
            old(self).wf(),
        ensures
            final(self).follows(*old(self)),
            desc_run(r, *final(self)) == made_desc(
                old(self).host(),
                old(self).pos as nat,
                d@,
            ),
    {
        let c: Option<Value> = self.plain_slot(d, "configurable")?;
        let e: Option<Value> = self.plain_slot(d, "enumerable")?;
        let w: Option<Value> = self.plain_slot(d, "writable")?;
        let value: Option<Value> = self.plain_slot(d, "value")?;
        let get: Option<Value> = self.plain_slot(d, "get")?;
        let set: Option<Value> = self.plain_slot(d, "set")?;
        Ok(
            Desc {
                value,
                get,
                set,
                writable: flag_of(&w),
                enumerable: flag_of(&e),
                configurable: flag_of(&c),
            },
        )
    }

    fn rest_fields(&mut self, d: &Value, configurable: Option<bool>) -> (r: Result<Desc, Stop>)
        requires
            old(self).wf(),
        ensures
            final(self).follows(*old(self)),
            desc_run(r, *final(self)) == rest_fields(
                old(self).host(),
                old(self).pos as nat,
                d@,
                configurable,
            ),
    {
        let e: Option<Value> = self.desc_field(d, "enumerable")?;
        let w: Option<Value> = self.desc_field(d, "writable")?;
        let value: Option<Value> = self.desc_field(d, "value")?;
        let get: Option<Value> = self.desc_field(d, "get")?;
        let set: Option<Value> = self.desc_field(d, "set")?;
        Ok(Desc { value, get, set, writable: flag_of(&w), enumerable: flag_of(&e), configurable })
    }

    fn checked_against(&mut self, v: &Value, td: &Value, desc: &Value, configurable: Option<bool>) -> (r: Result<Value, Stop>)
        requires
            old(self).wf(),
        ensures
            final(self).follows(*old(self)),
            run_value(r, *final(self)) == checked_against(
                old(self).host(),
                old(self).pos as nat,
                v@,
                td@,
                desc@,
                configurable,
            ),
    {
        let t: Desc = self.made_desc(td)?;
        let d: Desc = self.rest_fields(desc, configurable)?;
        match find_conflict(&t, &d) {
            Some(m) => Err(fail(ErrorKind::TypeError, m)),
            None => Ok(v.clone()),
        }
    }

    fn checked_define(&mut self, v: &Value, target: &Value, key: &str, desc: &Value) -> (r: Result<Value, Stop>)
        requires
            old(self).wf(),
        ensures
            final(self).follows(*old(self)),
            run_value(r, *final(self)) == checked_define(
                old(self).host(),
                old(self).pos as nat,
                v@,
                target@,
                key@,
                desc@,
            ),
    {
        let td: Value = self.own_descriptor(target, key)?;
        let ext: bool = self.ask_flag(Op::Extensible, list1(target.clone()))?;
        let c: Option<Value> = self.desc_field(desc, "configurable")?;
        let configurable: Option<bool> = flag_of(&c);
        if matches!(td, Value::Undefined) {
            if !ext {
                return Err(
                    fail(
                        ErrorKind::TypeError,
                        "'defineProperty' on proxy: cannot add property to a non-extensible target",
                    ),
                );
            }
            if matches!(configurable, Some(false)) {
                return Err(
                    fail(
                        ErrorKind::TypeError,
                        "'defineProperty' on proxy: cannot define non-configurable property that is absent on target",
                    ),
                );
            }
            return Ok(v.clone());
        }
        self.checked_against(v, &td, desc, configurable)
    }

    fn proxy_define_call(&mut self, v: &Value, target: &Value, handler: Value, trap: Value, key: &str, desc: &Value) -> (r: Result<Value, Stop>)
        requires
            old(self).wf(),
        ensures
            final(self).follows(*old(self)),
            run_value(r, *final(self)) == proxy_define_call(
                old(self).host(),
                old(self).pos as nat,
                v@,
                target@,
                handler@,
                trap@,
                key@,
                desc@,
            ),
    {
        let k: Value = self.ask_value(Op::TrapKey, list1(text_value(key)))?;
        let ok: Value = self.call_value(
            trap,
            Some(handler),
            list3(target.clone(), k, desc.clone()),
        )?;
        if !to_bool(&ok) {
            return Err(
                fail(
                    ErrorKind::TypeError,
                    "'defineProperty' on proxy: trap returned falsish for property",
                ),
            );
        }
        self.checked_define(v, target, key, desc)
    }

    fn proxy_define(&mut self, v: &Value, key: &str, desc: &Value) -> (r: Result<Value, Stop>)
        requires
            old(self).wf(),
        ensures
            final(self).follows(*old(self)),
            run_value(r, *final(self)) == proxy_define(
                old(self).host(),
                old(self).pos as nat,
                v@,
                key@,
                desc@,
            ),
        decreases room(old(self).host(), old(self).pos as nat), 0nat,
    {
        let target: Value = self.ask_value(Op::ProxyTarget, list1(v.clone()))?;
        let (handler, trap) = self.proxy_trap(
            v,
            "defineProperty",
            "'defineProperty' trap is not callable",
        )?;
        match trap {
            None => self.define_on(&target, key, desc),
            Some(f) => self.proxy_define_call(v, &target, handler, f, key, desc),
        }
    }

    fn store_property(&mut self, v: &Value, key: &str, p: &Prop) -> (r: Result<(), Stop>)
        requires
            old(self).wf(),
        ensures
            final(self).follows(*old(self)),
            run_plain(r, *final(self)) == store_property(
                old(self).host(),
                old(self).pos as nat,
                v@,
                key@,
                p@,
            ),
    {
        let mut all: Vec<Value> = list2(v.clone(), text_value(key));
        let ghost front = views(all@);
        let mut rest: Vec<Value> = fields_of(p);
        let ghost back = views(rest@);
        all.append(&mut rest);
        assert(views(all@) =~= front + back);
        let u: Value = self.ask_value(Op::StoreProperty, all)?;
        Ok(())
    }

    fn define_ordinary(&mut self, v: &Value, key: &str, desc: &Value) -> (r: Result<Value, Stop>)
        requires
            old(self).wf(),
        ensures
            final(self).follows(*old(self)),
            run_value(r, *final(self)) == define_ordinary(
                old(self).host(),
                old(self).pos as nat,
                v@,
                key@,
                desc@,
            ),
    {
        let closed: bool = self.ask_flag(Op::NonExtensible, list1(v.clone()))?;
        let d: Desc = self.to_descriptor(desc)?;
        let cur: Option<Prop> = self.own_prop(v, key)?;
        match validate_and_apply(&cur, &d, !closed) {
            Ok(f) => {
                self.store_property(v, key, &f)?;
                Ok(v.clone())
            },
            Err(Refusal::NotExtensible) => Err(
                fail(ErrorKind::TypeError, "Cannot define property: object is not extensible"),
            ),
            Err(Refusal::NotRedefinable) => Err(Interp::redefine_err()),
        }
    }

    fn settle_computed(&mut self, v: &Value, key: &str, length: Op) -> (r: Result<(), Stop>)
        requires
            old(self).wf(),
        ensures
            final(self).follows(*old(self)),
            run_plain(r, *final(self)) == settle_computed(
                old(self).host(),
                old(self).pos as nat,
                v@,
                key@,
                length,
            ),
    {
        let tomb: String = concat_text("\0fndel:", key);
        let there: bool = self.stored_there(v, key)?;
        let keep: bool = if there {
            true
        } else {
            self.stored_there(v, tomb.as_str())?
        };
        if !keep {
            let x: Value = self.computed(v, key, length)?;
            self.store_property(v, key, &fixed_prop(x, false, false, true))?;
        }
        let w: Value = self.ask_value(Op::DropSlot, list2(v.clone(), Value::Str(tomb)))?;
        Ok(())
    }

    fn define_on_function(&mut self, v: &Value, key: &str, desc: &Value, length: Op) -> (r: Result<Value, Stop>)
        requires
            old(self).wf(),
        ensures
            final(self).follows(*old(self)),
            run_value(r, *final(self)) == define_on_function(
                old(self).host(),
                old(self).pos as nat,
                v@,
                key@,
                desc@,
                length,
            ),
    {
        if same_text(key, "name") || same_text(key, "length") {
            self.settle_computed(v, key, length)?;
        }
        self.define_ordinary(v, key, desc)
    }

    fn fields_there(&mut self, d: &Value) -> (r: Result<Fields, Stop>)
        requires
            old(self).wf(),
        ensures
            final(self).follows(*old(self)),
            run_plain(r, *final(self)) == fields_there(
                old(self).host(),
                old(self).pos as nat,
                d@,
            ),
    {
        let enumerable: bool = self.has_property(d, "enumerable")?;
        let configurable: bool = self.has_property(d, "configurable")?;
        let value: bool = self.has_property(d, "value")?;
        let writable: bool = self.has_property(d, "writable")?;
        let get: bool = self.has_property(d, "get")?;
        let set: bool = self.has_property(d, "set")?;
        Ok(Fields { enumerable, configurable, value, writable, get, set })
    }

    fn field_if(&mut self, d: &Value, there: bool, key: &str) -> (r: Result<Option<Value>, Stop>)
        requires
            old(self).wf(),
        ensures
            final(self).follows(*old(self)),
            run_slot(r, *final(self)) == field_if(
                old(self).host(),
                old(self).pos as nat,
                d@,
                there,
                key@,
            ),
    {
        if there {
            let v: Value = self.member_get(d, key)?;
            Ok(Some(v))
        } else {
            Ok(None)
        }
    }

    fn fields_held(&mut self, d: &Value, f: Fields) -> (r: Result<Desc, Stop>)
        requires
            old(self).wf(),
        ensures
            final(self).follows(*old(self)),
            desc_run(r, *final(self)) == fields_held(
                old(self).host(),
                old(self).pos as nat,
                d@,
                f,
            ),
    {
        let e: Option<Value> = self.field_if(d, f.enumerable, "enumerable")?;
        let c: Option<Value> = self.field_if(d, f.configurable, "configurable")?;
        let value: Option<Value> = self.field_if(d, f.value, "value")?;
        let w: Option<Value> = self.field_if(d, f.writable, "writable")?;
        let get: Option<Value> = self.field_if(d, f.get, "get")?;
        let set: Option<Value> = self.field_if(d, f.set, "set")?;
        Ok(
            Desc {
                value,
                get,
                set,
                writable: flag_of(&w),
                enumerable: flag_of(&e),
                configurable: flag_of(&c),
            },
        )
    }

    fn asked_definition(&mut self, desc: &Value) -> (r: Result<Desc, Stop>)
        requires
            old(self).wf(),
        ensures
            final(self).follows(*old(self)),
            desc_run(r, *final(self)) == asked_definition(
                old(self).host(),
                old(self).pos as nat,
                desc@,
            ),
    {
        let f: Fields = self.fields_there(desc)?;
        let d: Desc = self.fields_held(desc, f)?;
        if !is_good_function(&d.get) {
            return Err(fail(ErrorKind::TypeError, "Getter must be a function"));
        }
        if !is_good_function(&d.set) {
            return Err(fail(ErrorKind::TypeError, "Setter must be a function"));
        }
        if (d.get.is_some() || d.set.is_some()) && (d.value.is_some() || d.writable.is_some()) {
            return Err(
                fail(
                    ErrorKind::TypeError,
                    "Invalid property descriptor. Cannot both specify accessors and a value or writable attribute",
                ),
            );
        }
        Ok(d)
    }

    fn given_entry(&mut self, d: &Desc) -> (r: Result<Option<Value>, Stop>)
        requires
            old(self).wf(),
        ensures
            final(self).follows(*old(self)),
            run_slot(r, *final(self)) == given_entry(
                old(self).host(),
                old(self).pos as nat,
                d@,
            ),
    {
        if d.get.is_some() || d.set.is_some() {
            let g: Value = kept_function(&d.get);
            let s: Value = kept_function(&d.set);
            let a: Value = self.ask_value(Op::NewAccessor, list2(g, s))?;
            return Ok(Some(a));
        }
        Ok(crate::host::clone_opt(&d.value))
    }

    fn length_value(&mut self, v: &Value, x: &Value) -> (r: Result<bool, Stop>)
        requires
            old(self).wf(),
        ensures
            final(self).follows(*old(self)),
            run_plain(r, *final(self)) == length_value(
                old(self).host(),
                old(self).pos as nat,
                v@,
                x@,
            ),
    {
        let n: Num = self.ask_number(Op::ToNumber, list1(x.clone()))?;
        let len: u64 = self.live_length(v)?;
        Ok(strict_eq(&Value::Num(n), &Value::Num(index_number(len))))
    }

    fn define_length_value(&mut self, v: &Value, d: &Desc, free: bool) -> (r: Result<bool, Stop>)
        requires
            old(self).wf(),
        ensures
            final(self).follows(*old(self)),
            run_plain(r, *final(self)) == define_length_value(
                old(self).host(),
                old(self).pos as nat,
                v@,
                d@,
                free,
            ),
    {
        if !free {
            if matches!(d.writable, Some(true)) {
                return Err(Interp::redefine_err());
            }
            return match &d.value {
                None => Ok(true),
                Some(x) => {
                    if self.length_value(v, x)? {
                        Ok(true)
                    } else {
                        Err(Interp::redefine_err())
                    }
                },
            };
        }
        match &d.value {
            None => Ok(true),
            Some(x) => self.ask_flag(Op::SetLength, list2(v.clone(), x.clone())),
        }
    }

    fn define_length(&mut self, v: &Value, d: &Desc) -> (r: Result<Value, Stop>)
        requires
            old(self).wf(),
        ensures
            final(self).follows(*old(self)),
            run_value(r, *final(self)) == define_length(
                old(self).host(),
                old(self).pos as nat,
                v@,
                d@,
            ),
    {
        if d.get.is_some() || d.set.is_some() || matches!(d.configurable, Some(true)) || matches!(
            d.enumerable,
            Some(true)
        ) {
            return Err(Interp::redefine_err());
        }
        let free: bool = self.ask_flag(Op::LengthWritable, list1(v.clone()))?;
        let ok: bool = self.define_length_value(v, d, free)?;
        if matches!(d.writable, Some(false)) {
            let u: Value = self.ask_value(Op::FixLength, list1(v.clone()))?;
        }
        if ok {
            Ok(v.clone())
        } else {
            Err(Interp::redefine_err())
        }
    }

    pub fn set_attributes(&mut self, v: &Value, key: &str, b: Bits) -> (r: Result<(), Stop>)
        requires
            old(self).wf(),
        ensures
            final(self).follows(*old(self)),
            run_plain(r, *final(self)) == set_attributes(
                old(self).host(),
                old(self).pos as nat,
                v@,
                key@,
                b,
            ),
    {
        let mut all: Vec<Value> = list4(
            v.clone(),
            text_value(key),
            Value::Bool(b.writable),
            Value::Bool(b.enumerable),
        );
        let ghost before = views(all@);
        all.push(Value::Bool(b.configurable));
        assert(views(all@) =~= before.push(Val::Bool(b.configurable)));
        assert(views(all@) =~= seq![
            v@,
            Val::Str(key@),
            Val::Bool(b.writable),
            Val::Bool(b.enumerable),
            Val::Bool(b.configurable),
        ]);
        let u: Value = self.ask_value(Op::SetAttributes, all)?;
        Ok(())
    }

    fn array_has(&mut self, v: &Value, key: &str) -> (r: Result<bool, Stop>)
        requires
            old(self).wf(),
        ensures
            final(self).follows(*old(self)),
            run_plain(r, *final(self)) == array_has(
                old(self).host(),
                old(self).pos as nat,
                v@,
                key@,
            ),
    {
        match parse_index(key) {
            Some(i) => self.ask_flag(
                Op::ArrayPresent,
                list2(v.clone(), Value::Num(index_number(i))),
            ),
            None => self.stored_there(v, key),
        }
    }

    fn define_marks(&mut self, v: &Value, key: &str, d: &Desc) -> (r: Result<Value, Stop>)
        requires
            old(self).wf(),
        ensures
            final(self).follows(*old(self)),
            run_value(r, *final(self)) == define_marks(
                old(self).host(),
                old(self).pos as nat,
                v@,
                key@,
                d@,
            ),
    {
        let cur: Bits = self.attributes(v, key)?;
        let s: Option<Value> = self.ask_slot(Op::StoredSlot, list2(v.clone(), text_value(key)))?;
        let accessor: bool = matches!(s, Some(Value::Ref(Kind::Accessor, _)));
        if !is_remarkable(cur, accessor, d) {
            return Err(Interp::redefine_err());
        }
        self.set_attributes(v, key, merge(cur, d))?;
        match parse_index(key) {
            Some(i) => {
                if matches!(d.writable, Some(false)) {
                    let w: Value = self.ask_value(
                        Op::UnmapParam,
                        list2(v.clone(), Value::Num(index_number(i))),
                    )?;
                }
            },
            None => {},
        }
        Ok(v.clone())
    }

    fn array_current(&mut self, v: &Value, key: &str, d: &Desc, there: bool) -> (r: Result<Bits, Stop>)
        requires
            old(self).wf(),
        ensures
            final(self).follows(*old(self)),
            run_plain(r, *final(self)) == array_current(
                old(self).host(),
                old(self).pos as nat,
                v@,
                key@,
                d@,
                there,
            ),
    {
        if !there {
            return Ok(Bits { writable: false, enumerable: false, configurable: false });
        }
        let s: Option<Value> = self.ask_slot(Op::StoredSlot, list2(v.clone(), text_value(key)))?;
        let stored: Value = value_or_undefined(&s);
        let cur: Prop = self.full_prop(v, key, &stored)?;
        if !crate::property::is_redefinable(&cur, d) {
            return Err(Interp::redefine_err());
        }
        Ok(
            Bits {
                writable: cur.writable,
                enumerable: cur.enumerable,
                configurable: cur.configurable,
            },
        )
    }

    fn follow_param(&mut self, v: &Value, i: u64, d: &Desc) -> (r: Result<(), Stop>)
        requires
            old(self).wf(),
        ensures
            final(self).follows(*old(self)),
            run_plain(r, *final(self)) == follow_param(
                old(self).host(),
                old(self).pos as nat,
                v@,
                i,
                d@,
            ),
    {
        let at: Value = Value::Num(index_number(i));
        if !self.ask_flag(Op::MappedParam, list2(v.clone(), at.clone()))? {
            return Ok(());
        }
        if d.get.is_some() || d.set.is_some() {
            let u: Value = self.ask_value(Op::UnmapParam, list2(v.clone(), at))?;
            return Ok(());
        }
        match &d.value {
            Some(x) => {
                let u: Value = self.ask_value(
                    Op::SetParam,
                    list3(v.clone(), at.clone(), x.clone()),
                )?;
            },
            None => {},
        }
        if matches!(d.writable, Some(false)) {
            let w: Value = self.ask_value(Op::UnmapParam, list2(v.clone(), at))?;
        }
        Ok(())
    }

    fn beyond_fixed(&mut self, v: &Value, i: u64) -> (r: Result<bool, Stop>)
        requires
            old(self).wf(),
        ensures
            final(self).follows(*old(self)),
            run_plain(r, *final(self)) == beyond_fixed(
                old(self).host(),
                old(self).pos as nat,
                v@,
                i,
            ),
    {
        let len: u64 = self.live_length(v)?;
        if i < len {
            return Ok(false);
        }
        let free: bool = self.ask_flag(Op::LengthWritable, list1(v.clone()))?;
        Ok(!free)
    }

    fn define_index(&mut self, v: &Value, key: &str, i: u64, d: &Desc, x: Value) -> (r: Result<Value, Stop>)
        requires
            old(self).wf(),
        ensures
            final(self).follows(*old(self)),
            run_value(r, *final(self)) == define_index(
                old(self).host(),
                old(self).pos as nat,
                v@,
                key@,
                i,
                d@,
                x@,
            ),
    {
        let at: Value = Value::Num(index_number(i));
        let there: bool = self.ask_flag(Op::ArrayPresent, list2(v.clone(), at.clone()))?;
        if self.beyond_fixed(v, i)? {
            return Err(
                fail(
                    ErrorKind::TypeError,
                    "Cannot define array index beyond a non-writable length",
                ),
            );
        }
        let cur: Bits = self.array_current(v, key, d, there)?;
        self.follow_param(v, i, d)?;
        let w: Value = self.ask_value(Op::StoreElement, list3(v.clone(), at, x))?;
        self.set_attributes(v, key, merge(cur, d))?;
        Ok(v.clone())
    }

    fn define_array_prop(&mut self, v: &Value, key: &str, d: &Desc, x: Value) -> (r: Result<Value, Stop>)
        requires
            old(self).wf(),
        ensures
            final(self).follows(*old(self)),
            run_value(r, *final(self)) == define_array_prop(
                old(self).host(),
                old(self).pos as nat,
                v@,
                key@,
                d@,
                x@,
            ),
    {
        let s: Option<Value> = self.ask_slot(Op::StoredSlot, list2(v.clone(), text_value(key)))?;
        let cur: Bits = self.array_current(v, key, d, s.is_some())?;
        let w: Value = self.ask_value(Op::StoreSlot, list3(v.clone(), text_value(key), x))?;
        self.set_attributes(v, key, merge(cur, d))?;
        Ok(v.clone())
    }

    fn define_on_array(&mut self, v: &Value, key: &str, d: &Desc, entry: &Option<Value>) -> (r: Result<Value, Stop>)
        requires
            old(self).wf(),
        ensures
            final(self).follows(*old(self)),
            run_value(r, *final(self)) == define_on_array(
                old(self).host(),
                old(self).pos as nat,
                v@,
                key@,
                d@,
                opt(*entry),
            ),
    {
        let marks: bool = if entry.is_some() {
            false
        } else {
            self.array_has(v, key)?
        };
        if marks {
            return self.define_marks(v, key, d);
        }
        let x: Value = value_or_undefined(entry);
        match parse_index(key) {
            Some(i) => {
                if i <= MAX_INDEX {
                    self.define_index(v, key, i, d, x)
                } else {
                    self.define_array_prop(v, key, d, x)
                }
            },
            None => self.define_array_prop(v, key, d, x),
        }
    }

    fn store_slot(&mut self, v: &Value, key: &str, x: Value) -> (r: Result<Value, Stop>)
        requires
            old(self).wf(),
        ensures
            final(self).follows(*old(self)),
            run_value(r, *final(self)) == store_slot(
                old(self).host(),
                old(self).pos as nat,
                v@,
                key@,
                x@,
            ),
    {
        let u: Value = self.ask_value(Op::StoreSlot, list3(v.clone(), text_value(key), x))?;
        Ok(v.clone())
    }

    fn define_loosely(&mut self, v: &Value, key: &str, d: &Desc, x: Value) -> (r: Result<Value, Stop>)
        requires
            old(self).wf(),
        ensures
            final(self).follows(*old(self)),
            run_value(r, *final(self)) == define_loosely(
                old(self).host(),
                old(self).pos as nat,
                v@,
                key@,
                d@,
                x@,
            ),
    {
        match v {
            Value::Ref(Kind::Fn, _) => self.store_slot(v, key, x),
            Value::Ref(Kind::Class, _) => self.store_slot(v, key, x),
            Value::Ref(Kind::Instance, _) => {
                let u: Value = self.store_slot(v, key, x)?;
                let marker: String = marker_of(key);
                if matches!(d.enumerable, Some(true)) {
                    let w: Value = self.ask_value(Op::DropSlot, list2(v.clone(), Value::Str(marker)))?;
                    Ok(v.clone())
                } else {
                    self.store_slot(v, marker.as_str(), Value::Bool(true))
                }
            },
            Value::Native(_) => {
                let u: Value = self.ask_value(
                    Op::GiveNative,
                    list3(v.clone(), text_value(key), x),
                )?;
                Ok(v.clone())
            },
            _ => Ok(v.clone()),
        }
    }

    fn define_exotic(&mut self, v: &Value, key: &str, desc: &Value) -> (r: Result<Value, Stop>)
        requires
            old(self).wf(),
        ensures
            final(self).follows(*old(self)),
            run_value(r, *final(self)) == define_exotic(
                old(self).host(),
                old(self).pos as nat,
                v@,
                key@,
                desc@,
            ),
    {
        proof {
            reveal(define_exotic);
        }
        if !is_object(desc) {
            return Ok(v.clone());
        }
        let d: Desc = self.asked_definition(desc)?;
        let entry: Option<Value> = self.given_entry(&d)?;
        match v {
            Value::Ref(Kind::Arr, _) => {
                if same_text(key, "length") {
                    self.define_length(v, &d)
                } else {
                    self.define_on_array(v, key, &d, &entry)
                }
            },
            _ => match entry {
                Some(x) => self.define_loosely(v, key, &d, x),
                None => Ok(v.clone()),
            },
        }
    }

    #[verifier::spinoff_prover]
    #[verifier::rlimit(40)]
    fn define_on(&mut self, v: &Value, key: &str, desc: &Value) -> (r: Result<Value, Stop>)
        requires
            old(self).wf(),
        ensures
            final(self).follows(*old(self)),
            run_value(r, *final(self)) == define_on(
                old(self).host(),
                old(self).pos as nat,
                v@,
                key@,
                desc@,
            ),
        decreases room(old(self).host(), old(self).pos as nat), 1nat,
    {
        match v {
            Value::Proxy(_, _) => self.proxy_define(v, key, desc),
            Value::Ref(Kind::Obj, _) => self.define_ordinary(v, key, desc),
            Value::Ref(Kind::Fn, _) => {
                if same_text(key, "prototype") {
                    self.define_exotic(v, key, desc)
                } else {
                    self.define_on_function(v, key, desc, Op::ParamCount)
                }
            },
            Value::Ref(Kind::Bound, _) => self.define_on_function(v, key, desc, Op::FunctionLength),
            Value::Ref(Kind::Instance, _) => {
                if is_private_name(key) {
                    self.define_exotic(v, key, desc)
                } else {
                    self.define_ordinary(v, key, desc)
                }
            },
            _ => self.define_exotic(v, key, desc),
        }
    }

    /// `Object.defineProperty`.
    pub fn object_define_property(&mut self, recv: &Option<Value>, args: &Vec<Value>) -> (r: Result<Value, Stop>)
        requires
            old(self).wf(),
        ensures
            final(self).follows(*old(self)),
            run_value(r, *final(self)) == object_define_property_run(
                old(self).host(),
                old(self).pos as nat,
                opt_view(*recv),
                views(args@),
            ),
    {
        proof {
            reveal(object_define_property_run);
        }
        let v: Value = arg_at(args, 0);
        if !is_object(&v) {
            return Err(fail(ErrorKind::TypeError, "Object.defineProperty called on non-object"));
        }
        let key: String = self.key_arg(args, 1)?;
        if args.len() < 3 {
            return Err(fail(ErrorKind::TypeError, "Property description must be an object"));
        }
        self.define_on(&v, key.as_str(), &args[2])
    }

    fn define_one(&mut self, v: &Value, props: &Value, key: &Value) -> (r: Result<Value, Stop>)
        requires
            old(self).wf(),
        ensures
            final(self).follows(*old(self)),
            run_value(r, *final(self)) == define_one(
                old(self).host(),
                old(self).pos as nat,
                v@,
                props@,
                key@,
            ),
    {
        let d: Value = self.ask_value(Op::Get, list2(props.clone(), key.clone()))?;
        self.object_define_property(&None, &list3(v.clone(), key.clone(), d))
    }

    #[verifier::loop_isolation(false)]
    fn define_each(&mut self, v: &Value, props: &Value, keys: &Vec<Value>) -> (r: Result<Value, Stop>)
        requires
            old(self).wf(),
        ensures
            final(self).follows(*old(self)),
            run_value(r, *final(self)) == define_each(
                old(self).host(),
                old(self).pos as nat,
                v@,
                props@,
                views(keys@),
                0,
            ),
    {
        let ghost all = views(keys@);
        let ghost goal = define_each(self.host(), self.pos as nat, v@, props@, all, 0);
        let mut i: usize = 0;
        while i < keys.len()
            invariant
                i <= keys@.len(),
                self.follows(*old(self)),
                goal == define_each(self.host(), self.pos as nat, v@, props@, all, i as int),
            decreases keys@.len() - i,
        {
            assert(all[i as int] == keys@[i as int]@);
            let u: Value = self.define_one(v, props, &keys[i])?;
            i = i + 1;
        }
        Ok(v.clone())
    }

    /// `Object.defineProperties`.
    pub fn object_define_properties(&mut self, recv: &Option<Value>, args: &Vec<Value>) -> (r: Result<Value, Stop>)
        requires
            old(self).wf(),
        ensures
            final(self).follows(*old(self)),
            run_value(r, *final(self)) == object_define_properties_run(
                old(self).host(),
                old(self).pos as nat,
                opt_view(*recv),
                views(args@),
            ),
    {
        let v: Value = arg_at(args, 0);
        if !is_object(&v) {
            return Err(fail(ErrorKind::TypeError, "Object.defineProperties called on non-object"));
        }
        let props: Value = arg_at(args, 1);
        let keys: Vec<Value> = self.enumerable_names(&props)?;
        self.define_each(&v, &props, &keys)
    }

    /// `Object.create`.
    pub fn object_create(&mut self, recv: &Option<Value>, args: &Vec<Value>) -> (r: Result<Value, Stop>)
        requires
            old(self).wf(),
        ensures
            final(self).follows(*old(self)),
            run_value(r, *final(self)) == object_create_run(
                old(self).host(),
                old(self).pos as nat,
                opt_view(*recv),
                views(args@),
            ),
    {
        let proto: Value = arg_at(args, 0);
        if !is_object(&proto) && !matches!(proto, Value::Null) {
            return Err(
                fail(ErrorKind::TypeError, "Object prototype may only be an Object or null"),
            );
        }
        let o: Value = self.ask_value(Op::NewWithProto, list1(proto))?;
        let props: Value = arg_at(args, 1);
        if !matches!(props, Value::Undefined) {
            let u: Value = self.object_define_properties(&None, &list2(o.clone(), props))?;
        }
        Ok(o)
    }

    /// `Object.setPrototypeOf`.
    pub fn object_set_prototype_of(&mut self, recv: &Option<Value>, args: &Vec<Value>) -> (r: Result<Value, Stop>)
        requires
            old(self).wf(),
        ensures
            final(self).follows(*old(self)),
            run_value(r, *final(self)) == object_set_prototype_of_run(
                old(self).host(),
                old(self).pos as nat,
                opt_view(*recv),
                views(args@),
            ),
    {
        let v: Value = arg_at(args, 0);
        let proto: Value = arg_at(args, 1);
        if is_nullish(&v) {
            return Err(
                fail(ErrorKind::TypeError, "Object.setPrototypeOf called on null or undefined"),
            );
        }
        if !is_object(&proto) && !matches!(proto, Value::Null) {
            return Err(
                fail(ErrorKind::TypeError, "Object prototype may only be an Object or null"),
            );
        }
        if is_object(&v) {
            if !self.ask_flag(Op::SetProto, list2(v.clone(), proto))? {
                return Err(fail(ErrorKind::TypeError, "Cannot set prototype of this object"));
            }
        }
        Ok(v)
    }

    /// The own symbols of a value.
    pub fn own_symbols(&mut self, v: &Value) -> (r: Result<Vec<Value>, Stop>)
        requires
            old(self).wf(),
        ensures
            final(self).follows(*old(self)),
            run_list(r, *final(self)) == own_symbols(
                old(self).host(),
                old(self).pos as nat,
                v@,
            ),
    {
        match v {
            Value::Proxy(_, _) => {
                let keys: Vec<Value> = self.ask_list(Op::ProxyKeys, list1(v.clone()))?;
                Ok(select_symbols(&keys))
            },
            Value::Ref(Kind::Obj, _) | Value::Ref(Kind::Instance, _) => {
                let keys: Vec<Value> = self.ask_list(Op::StoredKeys, list1(v.clone()))?;
                Ok(symbols_of_keys(&texts_of(&keys)))
            },
            _ => {
                let none: Vec<Value> = Vec::new();
                assert(views(none@) =~= Seq::<Val>::empty());
                Ok(none)
            },
        }
    }

    /// `Object.getOwnPropertySymbols`.
    pub fn object_get_own_property_symbols(&mut self, recv: &Option<Value>, args: &Vec<Value>) -> (r: Result<Value, Stop>)
        requires
            old(self).wf(),
        ensures
            final(self).follows(*old(self)),
            run_value(r, *final(self)) == object_get_own_property_symbols_run(
                old(self).host(),
                old(self).pos as nat,
                opt_view(*recv),
                views(args@),
            ),
    {
        let symbols: Vec<Value> = self.own_symbols(&arg_at(args, 0))?;
        self.ask_value(Op::NewArray, symbols)
    }

    /// `Object.getPrototypeOf`.
    pub fn object_get_prototype_of(&mut self, recv: &Option<Value>, args: &Vec<Value>) -> (r: Result<Value, Stop>)
        requires
            old(self).wf(),
        ensures
            final(self).follows(*old(self)),
            run_value(r, *final(self)) == object_get_prototype_of_run(
                old(self).host(),
                old(self).pos as nat,
                opt_view(*recv),
                views(args@),
            ),
    {
        let v: Value = arg_at(args, 0);
        self.proto_of(&v)
    }
}

fn flag_of(v: &Option<Value>) -> (r: Option<bool>)
    ensures
        r == flag(opt(*v)),
{
    match v {
        Some(x) => Some(to_bool(x)),
        None => None,
    }
}

fn is_good_function(f: &Option<Value>) -> (r: bool)
    ensures
        r == good_function(opt(*f)),
{
    match f {
        None => true,
        Some(Value::Undefined) => true,
        Some(v) => is_callable(v),
    }
}

fn kept_function(f: &Option<Value>) -> (r: Value)
    ensures
        r@ == or_undefined(stored_function(opt(*f), None)),
{
    match f {
        Some(v) => {
            if is_callable(v) {
                v.clone()
            } else {
                Value::Undefined
            }
        },
        None => Value::Undefined,
    }
}

fn merge(cur: Bits, d: &Desc) -> (r: Bits)
    ensures
        r == merged(cur, d@),
{
    Bits {
        writable: match d.writable {
            Some(b) => b,
            None => cur.writable,
        },
        enumerable: match d.enumerable {
            Some(b) => b,
            None => cur.enumerable,
        },
        configurable: match d.configurable {
            Some(b) => b,
            None => cur.configurable,
        },
    }
}

fn is_remarkable(cur: Bits, accessor: bool, d: &Desc) -> (r: bool)
    ensures
        r == remarkable(cur, accessor, d@),
{
    if cur.configurable {
        return true;
    }
    if matches!(d.configurable, Some(true)) {
        return false;
    }
    let changes: bool = match d.enumerable {
        Some(e) => e != cur.enumerable,
        None => false,
    };
    if changes {
        return false;
    }
    accessor || cur.writable || !matches!(d.writable, Some(true))
}

/// A proxy can only report such a definition as done that its target would allow: the definition
/// of a property that is not configurable, where nothing conflicts with it, could be made on the
/// target too.
pub proof fn law_conflict_free_is_redefinable(p: PropV, d: DescV)
    requires
        !p.configurable,
        conflict(crate::property::described(p), d) is None,
    ensures
        redefinable(p, d),
{
    match p.slot {
        SlotV::Data(v) => {
        },
        SlotV::Accessor(g, s) => {},
    }
}

/// Attributes that a definition does not give stay, and those that it gives are the new ones.
pub proof fn law_merged(cur: Bits, d: DescV)
    ensures
        d.writable is None ==> merged(cur, d).writable == cur.writable,
        d.writable matches Some(b) ==> merged(cur, d).writable == b,
        d.enumerable is None ==> merged(cur, d).enumerable == cur.enumerable,
        d.enumerable matches Some(b) ==> merged(cur, d).enumerable == b,
        d.configurable is None ==> merged(cur, d).configurable == cur.configurable,
        d.configurable matches Some(b) ==> merged(cur, d).configurable == b,
        remarkable(cur, false, d) && !cur.configurable ==> !merged(cur, d).configurable
            && merged(cur, d).enumerable == cur.enumerable && (!cur.writable ==> !merged(
            cur,
            d,
        ).writable),
{
}

/// What `getOwnPropertyDescriptor` tells of a stored property is all there is to it: properties
/// that differ are told apart by their descriptor objects.
pub proof fn law_fields_tell_all(p: PropV, q: PropV)
    requires
        prop_fields(p) == prop_fields(q),
        p.slot is Accessor ==> !p.writable,
        q.slot is Accessor ==> !q.writable,
        p.slot matches SlotV::Accessor(g, s) ==> g != Some(Val::Undefined) && s != Some(
            Val::Undefined,
        ),
        q.slot matches SlotV::Accessor(g, s) ==> g != Some(Val::Undefined) && s != Some(
            Val::Undefined,
        ),
    ensures
        p == q,
{
    let a = prop_fields(p);
    let b = prop_fields(q);
    reveal_strlit("value");
    reveal_strlit("get");
    assert("value"@.len() == 5 && "get"@.len() == 3);
    assert(a[0] == b[0] && a[1] == b[1] && a[3] == b[3] && a[5] == b[5] && a[7] == b[7]);
}

} // verus!
