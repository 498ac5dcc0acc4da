//! Objects: prototypes, species, wrappers, assignment, and the own properties that enumeration
//! sees.
use crate::array_live::{generic_length, is_plain, is_plain_ref};
use crate::descriptors::object_get_own_property_descriptor_run;
use crate::host::{
    ask_flag, ask_number, ask_slot, ask_value, call, done, fail, get, halted, has, list1, list2,
    list3, list4, raised, run_list, run_plain, run_slot, run_value, text_value, Halt, Host, Interp,
    Intrinsic, NAN_BITS, Op, Run, Stop,
};
use crate::number::{MAX_ARRAY_LEN, Num};
use crate::reflect::own_names;
use crate::text::{chars_of, decimal, decimal_text};
use crate::value::{
    callable, is_callable, is_object, object, same, same_value, truthy, views, ErrorKind, Kind,
    Native, Val, Value,
};
use vstd::prelude::*;

verus! {

/// One of the realm's objects.
pub open spec fn intrinsic(h: Host, pos: nat, which: Intrinsic) -> Run<Val> {
    ask_value(h, pos, Op::Intrinsic(which), Seq::empty())
}

/// One of the realm's objects that a realm may lack; `other` where it does.
pub open spec fn intrinsic_or(h: Host, pos: nat, which: Intrinsic, other: Intrinsic) -> Run<Val> {
    let s = ask_slot(h, pos, Op::Intrinsic(which), Seq::empty());
    match s.out {
        Err(e) => halted(e, s.pos),
        Ok(Some(v)) => done(v, s.pos),
        Ok(None) => intrinsic(h, s.pos, other),
    }
}

/// The stored `__proto__` of an object, or the realm's object where it has none.
pub open spec fn own_proto_or(h: Host, pos: nat, v: Val, which: Intrinsic) -> Run<Val> {
    let s = ask_slot(h, pos, Op::OwnSlot, seq![v, Val::Str("__proto__"@)]);
    match s.out {
        Err(e) => halted(e, s.pos),
        Ok(Some(p)) => done(p, s.pos),
        Ok(None) => intrinsic(h, s.pos, which),
    }
}

/// `Object.prototype`.
pub open spec fn object_prototype(h: Host, pos: nat) -> Run<Val> {
    let ns = intrinsic(h, pos, Intrinsic::Object);
    match ns.out {
        Err(e) => halted(e, ns.pos),
        Ok(o) => get(h, ns.pos, o, "prototype"@),
    }
}

/// `Array.prototype`.
pub open spec fn array_prototype(h: Host, pos: nat) -> Run<Val> {
    let ns = intrinsic(h, pos, Intrinsic::Array);
    match ns.out {
        Err(e) => halted(e, ns.pos),
        Ok(a) => get(h, ns.pos, a, "prototype"@),
    }
}

/// [[GetPrototypeOf]] of any value; null at the end of the chain.
pub open spec fn proto_of(h: Host, pos: nat, v: Val) -> Run<Val>
    decreases h.len - pos,
{
    let base = object_prototype(h, pos);
    match base.out {
        Err(e) => halted(e, base.pos),
        Ok(obj_proto) => {
            let p = base.pos;
            match v {
                Val::Ref(Kind::Obj, _) => {
                    if v == obj_proto {
                        done(Val::Null, p)
                    } else {
                        let s = ask_slot(h, p, Op::OwnSlot, seq![v, Val::Str("__proto__"@)]);
                        match s.out {
                            Err(e) => halted(e, s.pos),
                            Ok(Some(q)) => done(q, s.pos),
                            Ok(None) => done(obj_proto, s.pos),
                        }
                    }
                },
                Val::Ref(Kind::Arr, _) => {
                    let s = ask_slot(h, p, Op::OwnSlot, seq![v, Val::Str("__proto__"@)]);
                    match s.out {
                        Err(e) => halted(e, s.pos),
                        Ok(Some(q)) if object(q) => done(q, s.pos),
                        Ok(_) => array_prototype(h, s.pos),
                    }
                },
                Val::Ref(Kind::Instance, _) => {
                    let c = ask_value(h, p, Op::ClassOf, seq![v]);
                    match c.out {
                        Err(e) => halted(e, c.pos),
                        Ok(class) => get(h, c.pos, class, "prototype"@),
                    }
                },
                Val::Ref(Kind::Fn, _) => own_proto_or(h, p, v, Intrinsic::FunctionPrototype),
                Val::Native(Native::ErrorCtor(k)) if k != ErrorKind::Error => intrinsic_or(
                    h,
                    p,
                    Intrinsic::Error,
                    Intrinsic::FunctionPrototype,
                ),
                Val::Native(_) => intrinsic(h, p, Intrinsic::FunctionPrototype),
                Val::Ref(Kind::Bound, _) => intrinsic(h, p, Intrinsic::FunctionPrototype),
                Val::Str(_) => intrinsic(h, p, Intrinsic::StringPrototype),
                Val::Num(_) => intrinsic(h, p, Intrinsic::NumberPrototype),
                Val::Bool(_) => intrinsic(h, p, Intrinsic::BooleanPrototype),
                Val::Symbol(_, _) => intrinsic(h, p, Intrinsic::SymbolPrototype),
                Val::BigInt(_) => intrinsic(h, p, Intrinsic::BigIntPrototype),
                Val::Ref(Kind::MapVal, _) => intrinsic(h, p, Intrinsic::MapPrototype),
                Val::Ref(Kind::SetVal, _) => intrinsic(h, p, Intrinsic::SetPrototype),
                Val::Ref(Kind::Gen, _) => {
                    let s = ask_slot(h, p, Op::Intrinsic(Intrinsic::IteratorPrototype), Seq::empty());
                    match s.out {
                        Err(e) => halted(e, s.pos),
                        Ok(Some(q)) => done(q, s.pos),
                        Ok(None) => done(obj_proto, s.pos),
                    }
                },
                Val::Ref(Kind::Class, _) => {
                    let s = ask_slot(h, p, Op::ClassParent, seq![v]);
                    match s.out {
                        Err(e) => halted(e, s.pos),
                        Ok(Some(q)) if q != Val::Null => done(q, s.pos),
                        Ok(_) => intrinsic(h, s.pos, Intrinsic::FunctionPrototype),
                    }
                },
                Val::Proxy(_, _) => proxy_proto(h, p, v),
                _ => done(Val::Null, p),
            }
        },
    }
}

/// [[GetPrototypeOf]] of a proxy: what the trap reports, checked against the target, or the
/// target's prototype where there is no trap.
pub open spec fn proxy_proto(h: Host, pos: nat, v: Val) -> Run<Val>
    decreases h.len - pos,
{
    let t = ask_value(h, pos, Op::ProxyTarget, seq![v]);
    match t.out {
        Err(e) => halted(e, t.pos),
        Ok(target) => {
            let n = ask_value(h, t.pos, Op::ProxyHandler, seq![v]);
            match n.out {
                Err(e) => halted(e, n.pos),
                Ok(handler) => {
                    let g = get(h, n.pos, handler, "getPrototypeOf"@);
                    match g.out {
                        Err(e) => halted(e, g.pos),
                        Ok(trap) => {
                            if trap == Val::Undefined || trap == Val::Null {
                                proto_of(h, g.pos, target)
                            } else if !callable(trap) {
                                raised(
                                    ErrorKind::TypeError,
                                    "'getPrototypeOf' trap is not callable"@,
                                    g.pos,
                                )
                            } else {
                                let c = call(h, g.pos, trap, Some(handler), seq![target]);
                                match c.out {
                                    Err(e) => halted(e, c.pos),
                                    Ok(reported) => checked_proto(h, c.pos, target, reported),
                                }
                            }
                        },
                    }
                },
            }
        },
    }
}

/// The prototype that a trap reports, once it is checked: an object or null, and the actual
/// prototype where the target takes no new properties.
pub open spec fn checked_proto(h: Host, pos: nat, target: Val, reported: Val) -> Run<Val>
    decreases h.len - pos,
{
    if reported != Val::Null && !object(reported) {
        raised(
            ErrorKind::TypeError,
            "'getPrototypeOf' on proxy must return an object or null"@,
            pos,
        )
    } else {
        let x = ask_flag(h, pos, Op::NonExtensible, seq![target]);
        match x.out {
            Err(e) => halted(e, x.pos),
            Ok(false) => done(reported, x.pos),
            Ok(true) => {
                let a = proto_of(h, x.pos, target);
                match a.out {
                    Err(e) => halted(e, a.pos),
                    Ok(actual) => {
                        if same(reported, actual) {
                            done(reported, a.pos)
                        } else {
                            raised(
                                ErrorKind::TypeError,
                                "'getPrototypeOf' on proxy: inconsistent result for non-extensible target"@,
                                a.pos,
                            )
                        }
                    },
                }
            },
        }
    }
}

fn no_values() -> (r: Vec<Value>)
    ensures
        views(r@) == Seq::<Val>::empty(),
{
    let v: Vec<Value> = Vec::new();
    assert(views(v@) =~= Seq::empty());
    v
}

/// True of undefined and null.
pub fn is_nullish(v: &Value) -> (r: bool)
    ensures
        r == (v@ == Val::Undefined || v@ == Val::Null),
{
    match v {
        Value::Undefined | Value::Null => true,
        _ => false,
    }
}

pub fn is_null(v: &Value) -> (r: bool)
    ensures
        r == (v@ == Val::Null),
{
    match v {
        Value::Null => true,
        _ => false,
    }
}

impl Interp {
    pub fn intrinsic(&mut self, which: Intrinsic) -> (r: Result<Value, Stop>)
        requires
            old(self).wf(),
        ensures
            final(self).follows(*old(self)),
            run_value(r, *final(self)) == intrinsic(old(self).host(), old(self).pos as nat, which),
    {
        self.ask_value(Op::Intrinsic(which), no_values())
    }

    fn own_proto(&mut self, v: &Value) -> (r: Result<Option<Value>, Stop>)
        requires
            old(self).wf(),
        ensures
            final(self).follows(*old(self)),
            run_slot(r, *final(self)) == ask_slot(
                old(self).host(),
                old(self).pos as nat,
                Op::OwnSlot,
                seq![v@, Val::Str("__proto__"@)],
            ),
    {
        self.ask_slot(Op::OwnSlot, list2(v.clone(), text_value("__proto__")))
    }

    pub fn object_prototype(&mut self) -> (r: Result<Value, Stop>)
        requires
            old(self).wf(),
        ensures
            final(self).follows(*old(self)),
            run_value(r, *final(self)) == object_prototype(old(self).host(), old(self).pos as nat),
    {
        let ns: Value = self.intrinsic(Intrinsic::Object)?;
        self.member_get(&ns, "prototype")
    }

    pub fn array_prototype(&mut self) -> (r: Result<Value, Stop>)
        requires
            old(self).wf(),
        ensures
            final(self).follows(*old(self)),
            run_value(r, *final(self)) == array_prototype(old(self).host(), old(self).pos as nat),
    {
        let ns: Value = self.intrinsic(Intrinsic::Array)?;
        self.member_get(&ns, "prototype")
    }

    /// [[GetPrototypeOf]] of any value; null at the end of the chain.
    pub fn proto_of(&mut self, v: &Value) -> (r: Result<Value, Stop>)
        requires
            old(self).wf(),
        ensures
            final(self).follows(*old(self)),
            run_value(r, *final(self)) == proto_of(old(self).host(), old(self).pos as nat, v@),
        decreases old(self).replies@.len() - old(self).pos,
    {
        let obj_proto: Value = self.object_prototype()?;
        match v {
            Value::Ref(Kind::Obj, i) => {
                let is_root: bool = match &obj_proto {
                    Value::Ref(Kind::Obj, j) => *i == *j,
                    _ => false,
                };
                if is_root {
                    return Ok(Value::Null);
                }
                match self.own_proto(v)? {
                    Some(p) => Ok(p),
                    None => Ok(obj_proto),
                }
            },
            Value::Ref(Kind::Arr, _) => {
                match self.own_proto(v)? {
                    Some(p) => {
                        if is_object(&p) {
                            return Ok(p);
                        }
                    },
                    None => {},
                }
                self.array_prototype()
            },
            Value::Ref(Kind::Instance, _) => {
                let class: Value = self.ask_value(Op::ClassOf, list1(v.clone()))?;
                self.member_get(&class, "prototype")
            },
            Value::Ref(Kind::Fn, _) => {
                match self.own_proto(v)? {
                    Some(p) => Ok(p),
                    None => self.intrinsic(Intrinsic::FunctionPrototype),
                }
            },
            Value::Native(n) => {
                let derived_error: bool = match n {
                    Native::ErrorCtor(k) => *k != ErrorKind::Error,
                    _ => false,
                };
                if derived_error {
                    match self.ask_slot(Op::Intrinsic(Intrinsic::Error), no_values())? {
                        Some(p) => Ok(p),
                        None => self.intrinsic(Intrinsic::FunctionPrototype),
                    }
                } else {
                    self.intrinsic(Intrinsic::FunctionPrototype)
                }
            },
            Value::Ref(Kind::Bound, _) => self.intrinsic(Intrinsic::FunctionPrototype),
            Value::Str(_) => self.intrinsic(Intrinsic::StringPrototype),
            Value::Num(_) => self.intrinsic(Intrinsic::NumberPrototype),
            Value::Bool(_) => self.intrinsic(Intrinsic::BooleanPrototype),
            Value::Symbol(_) => self.intrinsic(Intrinsic::SymbolPrototype),
            Value::BigInt(_) => self.intrinsic(Intrinsic::BigIntPrototype),
            Value::Ref(Kind::MapVal, _) => self.intrinsic(Intrinsic::MapPrototype),
            Value::Ref(Kind::SetVal, _) => self.intrinsic(Intrinsic::SetPrototype),
            Value::Ref(Kind::Gen, _) => {
                match self.ask_slot(Op::Intrinsic(Intrinsic::IteratorPrototype), no_values())? {
                    Some(p) => Ok(p),
                    None => Ok(obj_proto),
                }
            },
            Value::Ref(Kind::Class, _) => {
                match self.ask_slot(Op::ClassParent, list1(v.clone()))? {
                    Some(p) => {
                        if !is_null(&p) {
                            return Ok(p);
                        }
                    },
                    None => {},
                }
                self.intrinsic(Intrinsic::FunctionPrototype)
            },
            Value::Proxy(_, _) => self.proxy_proto(v),
            _ => Ok(Value::Null),
        }
    }

    fn proxy_proto(&mut self, v: &Value) -> (r: Result<Value, Stop>)
        requires
            old(self).wf(),
            v@ is Proxy,
        ensures
            final(self).follows(*old(self)),
            run_value(r, *final(self)) == proxy_proto(old(self).host(), old(self).pos as nat, v@),
        decreases old(self).replies@.len() - old(self).pos,
    {
        let target: Value = self.ask_value(Op::ProxyTarget, list1(v.clone()))?;
        let handler: Value = self.ask_value(Op::ProxyHandler, list1(v.clone()))?;
        let trap: Value = self.member_get(&handler, "getPrototypeOf")?;
        if is_nullish(&trap) {
            return self.proto_of(&target);
        }
        if !is_callable(&trap) {
            return Err(fail(ErrorKind::TypeError, "'getPrototypeOf' trap is not callable"));
        }
        let reported: Value = self.call_value(trap, Some(handler), list1(target.clone()))?;
        if !is_null(&reported) && !is_object(&reported) {
            return Err(
                fail(
                    ErrorKind::TypeError,
                    "'getPrototypeOf' on proxy must return an object or null",
                ),
            );
        }
        if self.ask_flag(Op::NonExtensible, list1(target.clone()))? {
            let actual: Value = self.proto_of(&target)?;
            if !same_value(&reported, &actual) {
                return Err(
                    fail(
                        ErrorKind::TypeError,
                        "'getPrototypeOf' on proxy: inconsistent result for non-extensible target",
                    ),
                );
            }
        }
        Ok(reported)
    }
}

/// SpeciesConstructor(o, default).
pub open spec fn species_or(h: Host, pos: nat, o: Val, default: Val) -> Run<Val> {
    let c = get(h, pos, o, "constructor"@);
    match c.out {
        Err(e) => halted(e, c.pos),
        Ok(ctor) => {
            if ctor == Val::Undefined {
                done(default, c.pos)
            } else if !object(ctor) {
                raised(ErrorKind::TypeError, "constructor property is not an object"@, c.pos)
            } else {
                let s = get(h, c.pos, ctor, "\0@@species"@);
                match s.out {
                    Err(e) => halted(e, s.pos),
                    Ok(sp) => {
                        if sp == Val::Undefined || sp == Val::Null {
                            done(default, s.pos)
                        } else {
                            let k = ask_flag(h, s.pos, Op::IsConstructor, seq![sp]);
                            match k.out {
                                Err(e) => halted(e, k.pos),
                                Ok(true) => done(sp, k.pos),
                                Ok(false) => raised(
                                    ErrorKind::TypeError,
                                    "@@species is not a constructor"@,
                                    k.pos,
                                ),
                            }
                        }
                    },
                }
            }
        },
    }
}

/// Set(o, key, v, true): an assignment that fails is a type error.
pub open spec fn set_or_throw(h: Host, pos: nat, o: Val, key: Seq<char>, v: Val) -> Run<()> {
    let s = ask_flag(h, pos, Op::Assign, seq![o, Val::Str(key), v, o]);
    match s.out {
        Err(e) => halted(e, s.pos),
        Ok(true) => done((), s.pos),
        Ok(false) => raised(
            ErrorKind::TypeError,
            "Cannot assign to property '"@ + key + "'"@,
            s.pos,
        ),
    }
}

/// The argument at `i` as a number; NaN where there is none.
pub open spec fn number_arg(h: Host, pos: nat, args: Seq<Val>, i: int) -> Run<Num> {
    if 0 <= i < args.len() {
        ask_number(h, pos, Op::ToNumber, seq![args[i]])
    } else {
        done(Num { bits: NAN_BITS }, pos)
    }
}

/// The strings of one character each.
pub open spec fn single_chars(s: Seq<char>) -> Seq<Val> {
    Seq::new(s.len(), |i: int| Val::Str(seq![s[i]]))
}

/// ToObject of a primitive: a wrapper around it. An object stays itself, and so do undefined and
/// null.
pub open spec fn to_object(h: Host, pos: nat, v: Val) -> Run<Val> {
    let (which, tag, chars) = match v {
        Val::Str(s) => (Intrinsic::StringPrototype, "String"@, single_chars(s)),
        Val::Num(_) => (Intrinsic::NumberPrototype, "Number"@, Seq::empty()),
        Val::Bool(_) => (Intrinsic::BooleanPrototype, "Boolean"@, Seq::empty()),
        Val::Symbol(_, _) => (Intrinsic::SymbolPrototype, "Symbol"@, Seq::empty()),
        _ => (Intrinsic::BigIntPrototype, "BigInt"@, Seq::empty()),
    };
    match v {
        Val::Str(_) | Val::Num(_) | Val::Bool(_) | Val::Symbol(_, _) | Val::BigInt(_) => {
            let p = intrinsic(h, pos, which);
            match p.out {
                Err(e) => halted(e, p.pos),
                Ok(proto) => ask_value(h, p.pos, Op::NewWrapper, seq![v, proto, Val::Str(tag)] + chars),
            }
        },
        _ => done(v, pos),
    }
}

/// The values that Get gives at the indices `k..n`, after `out`.
pub open spec fn read_up(h: Host, pos: nat, o: Val, k: nat, n: nat, out: Seq<Val>) -> Run<Seq<Val>>
    decreases n - k,
{
    if k >= n {
        done(out, pos)
    } else {
        let g = get(h, pos, o, decimal(k));
        match g.out {
            Err(e) => halted(e, g.pos),
            Ok(v) => read_up(h, g.pos, o, k + 1, n, out.push(v)),
        }
    }
}

/// The elements of an array-like object, read one after the other. More than an array can hold is
/// a range error.
pub open spec fn array_read(h: Host, pos: nat, o: Val) -> Run<Seq<Val>> {
    let l = generic_length(h, pos, o);
    match l.out {
        Err(e) => halted(e, l.pos),
        Ok(n) => {
            if n > MAX_ARRAY_LEN {
                raised(ErrorKind::RangeError, "Invalid array length"@, l.pos)
            } else {
                read_up(h, l.pos, o, 0, n, Seq::empty())
            }
        },
    }
}

/// Elements and the indices among them that are holes.
#[verifier::ext_equal]
pub struct Sparse {
    pub items: Seq<Val>,
    pub holes: Seq<u64>,
}

/// The elements at the indices `k..n`, after `out`; an index without a property is a hole.
pub open spec fn read_sparse_up(h: Host, pos: nat, o: Val, k: nat, n: nat, out: Sparse) -> Run<Sparse>
    decreases n - k,
{
    if k >= n {
        done(out, pos)
    } else {
        let p = has(h, pos, o, decimal(k));
        match p.out {
            Err(e) => halted(e, p.pos),
            Ok(true) => {
                let g = get(h, p.pos, o, decimal(k));
                match g.out {
                    Err(e) => halted(e, g.pos),
                    Ok(v) => read_sparse_up(
                        h,
                        g.pos,
                        o,
                        k + 1,
                        n,
                        Sparse { items: out.items.push(v), holes: out.holes },
                    ),
                }
            },
            Ok(false) => read_sparse_up(
                h,
                p.pos,
                o,
                k + 1,
                n,
                Sparse { items: out.items.push(Val::Undefined), holes: out.holes.push(k as u64) },
            ),
        }
    }
}

/// The elements of an array-like object, with its holes kept.
pub open spec fn array_read_sparse(h: Host, pos: nat, o: Val) -> Run<Sparse> {
    let l = generic_length(h, pos, o);
    match l.out {
        Err(e) => halted(e, l.pos),
        Ok(n) => {
            if n > MAX_ARRAY_LEN {
                raised(ErrorKind::RangeError, "Invalid array length"@, l.pos)
            } else {
                read_sparse_up(
                    h,
                    l.pos,
                    o,
                    0,
                    n,
                    Sparse { items: Seq::empty(), holes: Seq::empty() },
                )
            }
        },
    }
}

/// The element at `i` of an array that was copied to `snapshot`: the copy, but for an accessor,
/// which runs, and for a hole, which is looked up anew.
pub open spec fn snapshot_elem(
    h: Host,
    pos: nat,
    a: Val,
    snapshot: Seq<Val>,
    i: nat,
    has_holes: bool,
) -> Run<Option<Val>> {
    let hole = if has_holes {
        ask_flag(h, pos, Op::ArrayHole, seq![a, Val::Str(decimal(i))])
    } else {
        done(false, pos)
    };
    match hole.out {
        Err(e) => halted(e, hole.pos),
        Ok(true) => crate::array_live::through_hole(h, hole.pos, a, decimal(i)),
        Ok(false) => {
            if i < snapshot.len() {
                match snapshot[i as int] {
                    Val::Ref(Kind::Accessor, _) => crate::array_live::some_of(
                        get(h, hole.pos, a, decimal(i)),
                    ),
                    v => done(Some(v), hole.pos),
                }
            } else {
                done(Some(Val::Undefined), hole.pos)
            }
        },
    }
}

/// Whether the own property `key` is enumerable, by its descriptor.
pub open spec fn enumerable_key(h: Host, pos: nat, o: Val, key: Seq<char>) -> Run<bool> {
    let d = object_get_own_property_descriptor_run(h, pos, None, seq![o, Val::Str(key)]);
    match d.out {
        Err(e) => halted(e, d.pos),
        Ok(desc) => {
            if is_plain(desc) {
                let s = ask_slot(h, d.pos, Op::OwnSlot, seq![desc, Val::Str("enumerable"@)]);
                match s.out {
                    Err(e) => halted(e, s.pos),
                    Ok(Some(v)) => done(truthy(v), s.pos),
                    Ok(None) => done(false, s.pos),
                }
            } else {
                done(false, d.pos)
            }
        },
    }
}

/// What enumeration lists for a key: the key, the value, or a new array of both.
pub open spec fn listed(h: Host, pos: nat, o: Val, key: Seq<char>, want_key: bool, want_val: bool) -> Run<
    Val,
> {
    if want_val {
        let g = get(h, pos, o, key);
        match g.out {
            Err(e) => halted(e, g.pos),
            Ok(v) => {
                if want_key {
                    ask_value(h, g.pos, Op::NewArray, seq![Val::Str(key), v])
                } else {
                    done(v, g.pos)
                }
            },
        }
    } else {
        done(Val::Str(key), pos)
    }
}

/// The enumerable own properties among `names` from the `j`-th on, after `out`. Each key is looked
/// at when its turn comes; anything that is no string is passed over.
pub open spec fn enumerate_names(
    h: Host,
    pos: nat,
    o: Val,
    names: Seq<Val>,
    j: int,
    want_key: bool,
    want_val: bool,
    out: Seq<Val>,
) -> Run<Seq<Val>>
    decreases names.len() - j,
{
    if !(0 <= j < names.len()) {
        done(out, pos)
    } else {
        match names[j] {
            Val::Str(key) => {
                let e = enumerable_key(h, pos, o, key);
                match e.out {
                    Err(x) => halted(x, e.pos),
                    Ok(false) => enumerate_names(h, e.pos, o, names, j + 1, want_key, want_val, out),
                    Ok(true) => {
                        let l = listed(h, e.pos, o, key, want_key, want_val);
                        match l.out {
                            Err(x) => halted(x, l.pos),
                            Ok(v) => enumerate_names(
                                h,
                                l.pos,
                                o,
                                names,
                                j + 1,
                                want_key,
                                want_val,
                                out.push(v),
                            ),
                        }
                    },
                }
            },
            _ => enumerate_names(h, pos, o, names, j + 1, want_key, want_val, out),
        }
    }
}

/// EnumerableOwnProperties: the keys, the values, or both, of the own enumerable properties.
pub open spec fn enumerable_own(h: Host, pos: nat, o: Val, want_key: bool, want_val: bool) -> Run<Seq<Val>> {
    let n = own_names(h, pos, o);
    match n.out {
        Err(e) => halted(e, n.pos),
        Ok(names) => enumerate_names(h, n.pos, o, names, 0, want_key, want_val, Seq::empty()),
    }
}

pub open spec fn sparse_of(items: Seq<Value>, holes: Seq<u64>) -> Sparse {
    Sparse { items: views(items), holes }
}

impl Interp {
    /// SpeciesConstructor(o, default).
    pub fn species_constructor(&mut self, o: &Value, default: Value) -> (r: Result<Value, Stop>)
        requires
            old(self).wf(),
        ensures
            final(self).follows(*old(self)),
            run_value(r, *final(self)) == species_or(
                old(self).host(),
                old(self).pos as nat,
                o@,
                default@,
            ),
    {
        let c: Value = self.member_get(o, "constructor")?;
        match &c {
            Value::Undefined => {
                return Ok(default);
            },
            _ => {},
        }
        if !is_object(&c) {
            return Err(fail(ErrorKind::TypeError, "constructor property is not an object"));
        }
        let s: Value = self.member_get(&c, "\0@@species")?;
        if is_nullish(&s) {
            return Ok(default);
        }
        if self.ask_flag(Op::IsConstructor, list1(s.clone()))? {
            return Ok(s);
        }
        Err(fail(ErrorKind::TypeError, "@@species is not a constructor"))
    }

    /// Set(o, key, v, true).
    pub fn set_throw(&mut self, o: &Value, key: &str, v: Value) -> (r: Result<(), Stop>)
        requires
            old(self).wf(),
        ensures
            final(self).follows(*old(self)),
            run_plain(r, *final(self)) == set_or_throw(
                old(self).host(),
                old(self).pos as nat,
                o@,
                key@,
                v@,
            ),
    {
        if !self.ask_flag(Op::Assign, list4(o.clone(), text_value(key), v, o.clone()))? {
            let mut m: String = "Cannot assign to property '".to_owned();
            m.append(key);
            m.append("'");
            return Err(fail(ErrorKind::TypeError, m.as_str()));
        }
        Ok(())
    }

    /// The argument at `i` as a number; NaN where there is none.
    pub fn math_arg(&mut self, args: &Vec<Value>, i: usize) -> (r: Result<Num, Stop>)
        requires
            old(self).wf(),
        ensures
            final(self).follows(*old(self)),
            run_plain(r, *final(self)) == number_arg(
                old(self).host(),
                old(self).pos as nat,
                views(args@),
                i as int,
            ),
    {
        if i < args.len() {
            self.ask_number(Op::ToNumber, list1(args[i].clone()))
        } else {
            Ok(Num { bits: NAN_BITS })
        }
    }

    /// ToObject.
    #[verifier::loop_isolation(false)]
    pub fn to_object_value(&mut self, v: Value) -> (r: Result<Value, Stop>)
        requires
            old(self).wf(),
        ensures
            final(self).follows(*old(self)),
            run_value(r, *final(self)) == to_object(old(self).host(), old(self).pos as nat, v@),
    {
        let mut chars: Vec<Value> = no_values();
        let (which, tag): (Intrinsic, &str) = match &v {
            Value::Str(s) => {
                let cs: Vec<char> = chars_of(s.as_str());
                let mut i: usize = 0;
                while i < cs.len()
                    invariant
                        i <= cs@.len(),
                        views(chars@) == single_chars(cs@.take(i as int)),
                    decreases cs@.len() - i,
                {
                    let ghost before = views(chars@);
                    let mut one: String = String::new();
                    one.push(cs[i]);
                    assert(one@ =~= seq![cs@[i as int]]);
                    chars.push(Value::Str(one));
                    i = i + 1;
                    assert(views(chars@) =~= before.push(Val::Str(seq![cs@[i - 1]])));
                    assert(single_chars(cs@.take(i as int)) =~= single_chars(cs@.take(i - 1)).push(
                        Val::Str(seq![cs@[i - 1]]),
                    ));
                }
                assert(cs@.take(cs@.len() as int) =~= cs@);
                (Intrinsic::StringPrototype, "String")
            },
            Value::Num(_) => (Intrinsic::NumberPrototype, "Number"),
            Value::Bool(_) => (Intrinsic::BooleanPrototype, "Boolean"),
            Value::Symbol(_) => (Intrinsic::SymbolPrototype, "Symbol"),
            Value::BigInt(_) => (Intrinsic::BigIntPrototype, "BigInt"),
            _ => {
                return Ok(v);
            },
        };
        let proto: Value = self.intrinsic(which)?;
        let ghost back = views(chars@);
        let mut all: Vec<Value> = list3(v, proto, text_value(tag));
        let ghost front = views(all@);
        all.append(&mut chars);
        assert(views(all@) =~= front + back);
        self.ask_value(Op::NewWrapper, all)
    }

    /// The elements of an array-like object.
    #[verifier::loop_isolation(false)]
    pub fn generic_array_read(&mut self, recv: &Value) -> (r: Result<Vec<Value>, Stop>)
        requires
            old(self).wf(),
        ensures
            final(self).follows(*old(self)),
            run_list(r, *final(self)) == array_read(
                old(self).host(),
                old(self).pos as nat,
                recv@,
            ),
    {
        let n: u64 = self.generic_length(recv)?;
        if n > MAX_ARRAY_LEN {
            return Err(fail(ErrorKind::RangeError, "Invalid array length"));
        }
        let ghost goal = read_up(
            self.host(),
            self.pos as nat,
            recv@,
            0,
            n as nat,
            Seq::empty(),
        );
        let mut out: Vec<Value> = no_values();
        let mut k: u64 = 0;
        while k < n
            invariant
                k <= n,
                self.follows(*old(self)),
                goal == read_up(
                    self.host(),
                    self.pos as nat,
                    recv@,
                    k as nat,
                    n as nat,
                    views(out@),
                ),
            decreases n - k,
        {
            let key: String = decimal_text(k);
            let v: Value = self.member_get(recv, key.as_str())?;
            let ghost before = views(out@);
            out.push(v);
            assert(views(out@) =~= before.push(v@));
            k = k + 1;
        }
        Ok(out)
    }

    /// The elements of an array-like object and the indices of its holes.
    #[verifier::loop_isolation(false)]
    pub fn generic_array_read_sparse(&mut self, recv: &Value) -> (r: Result<
        (Vec<Value>, Vec<u64>),
        Stop,
    >)
        requires
            old(self).wf(),
        ensures
            final(self).follows(*old(self)),
            ({
                let s = array_read_sparse(old(self).host(), old(self).pos as nat, recv@);
                &&& s.pos == final(self).pos
                &&& match r {
                    Ok(p) => s.out == Ok::<Sparse, Halt>(sparse_of(p.0@, p.1@)),
                    Err(e) => s.out == Err::<Sparse, Halt>(e@),
                }
            }),
    {
        let n: u64 = self.generic_length(recv)?;
        if n > MAX_ARRAY_LEN {
            return Err(fail(ErrorKind::RangeError, "Invalid array length"));
        }
        let mut out: Vec<Value> = no_values();
        let mut holes: Vec<u64> = Vec::new();
        let ghost goal = read_sparse_up(
            self.host(),
            self.pos as nat,
            recv@,
            0,
            n as nat,
            Sparse { items: Seq::empty(), holes: Seq::empty() },
        );
        let mut k: u64 = 0;
        assert(holes@ =~= Seq::<u64>::empty());
        while k < n
            invariant
                k <= n,
                self.follows(*old(self)),
                goal == read_sparse_up(
                    self.host(),
                    self.pos as nat,
                    recv@,
                    k as nat,
                    n as nat,
                    sparse_of(out@, holes@),
                ),
            decreases n - k,
        {
            let key: String = decimal_text(k);
            let ghost before = views(out@);
            if self.has_property(recv, key.as_str())? {
                let v: Value = self.member_get(recv, key.as_str())?;
                out.push(v);
                assert(views(out@) =~= before.push(v@));
            } else {
                out.push(Value::Undefined);
                holes.push(k);
                assert(views(out@) =~= before.push(Val::Undefined));
            }
            k = k + 1;
        }
        Ok((out, holes))
    }

    /// The element at `i` of an array that was copied to `snapshot`.
    pub fn arr_elem(&mut self, arr: &Value, snapshot: &Vec<Value>, i: u64, has_holes: bool) -> (r:
        Result<Option<Value>, Stop>)
        requires
            old(self).wf(),
        ensures
            final(self).follows(*old(self)),
            run_slot(r, *final(self)) == snapshot_elem(
                old(self).host(),
                old(self).pos as nat,
                arr@,
                views(snapshot@),
                i as nat,
                has_holes,
            ),
    {
        let key: String = decimal_text(i);
        let hole: bool = if has_holes {
            self.ask_flag(Op::ArrayHole, list2(arr.clone(), text_value(key.as_str())))?
        } else {
            false
        };
        if hole {
            return self.through_hole(arr, key.as_str());
        }
        if i < snapshot.len() as u64 {
            match &snapshot[i as usize] {
                Value::Ref(Kind::Accessor, _) => Ok(Some(self.member_get(arr, key.as_str())?)),
                v => Ok(Some(v.clone())),
            }
        } else {
            Ok(Some(Value::Undefined))
        }
    }

    fn enumerable_key(&mut self, o: &Value, key: &str) -> (r: Result<bool, Stop>)
        requires
            old(self).wf(),
        ensures
            final(self).follows(*old(self)),
            run_plain(r, *final(self)) == enumerable_key(
                old(self).host(),
                old(self).pos as nat,
                o@,
                key@,
            ),
    {
        let desc: Value = self.object_get_own_property_descriptor(
            &None,
            &list2(o.clone(), text_value(key)),
        )?;
        if is_plain_ref(&desc) {
            match self.ask_slot(Op::OwnSlot, list2(desc, text_value("enumerable")))? {
                Some(v) => Ok(crate::value::to_bool(&v)),
                None => Ok(false),
            }
        } else {
            Ok(false)
        }
    }

    fn listed(&mut self, o: &Value, key: &str, want_key: bool, want_val: bool) -> (r: Result<
        Value,
        Stop,
    >)
        requires
            old(self).wf(),
        ensures
            final(self).follows(*old(self)),
            run_value(r, *final(self)) == listed(
                old(self).host(),
                old(self).pos as nat,
                o@,
                key@,
                want_key,
                want_val,
            ),
    {
        if want_val {
            let v: Value = self.member_get(o, key)?;
            if want_key {
                self.ask_value(Op::NewArray, list2(text_value(key), v))
            } else {
                Ok(v)
            }
        } else {
            Ok(text_value(key))
        }
    }

    /// EnumerableOwnProperties.
    #[verifier::loop_isolation(false)]
    pub fn enumerable_own_live(&mut self, obj: &Value, want_key: bool, want_val: bool) -> (r: Result<
        Vec<Value>,
        Stop,
    >)
        requires
            old(self).wf(),
        ensures
            final(self).follows(*old(self)),
            run_list(r, *final(self)) == enumerable_own(
                old(self).host(),
                old(self).pos as nat,
                obj@,
                want_key,
                want_val,
            ),
    {
        let names: Vec<Value> = self.own_names(obj)?;
        let ghost goal = enumerate_names(
            self.host(),
            self.pos as nat,
            obj@,
            views(names@),
            0,
            want_key,
            want_val,
            Seq::empty(),
        );
        let mut out: Vec<Value> = no_values();
        let mut j: usize = 0;
        while j < names.len()
            invariant
                j <= names@.len(),
                self.follows(*old(self)),
                goal == enumerate_names(
                    self.host(),
                    self.pos as nat,
                    obj@,
                    views(names@),
                    j as int,
                    want_key,
                    want_val,
                    views(out@),
                ),
            decreases names@.len() - j,
        {
            assert(views(names@)[j as int] == names@[j as int]@);
            match &names[j] {
                Value::Str(key) => {
                    if self.enumerable_key(obj, key.as_str())? {
                        let v: Value = self.listed(obj, key.as_str(), want_key, want_val)?;
                        let ghost before = views(out@);
                        out.push(v);
                        assert(views(out@) =~= before.push(v@));
                    }
                },
                _ => {},
            }
            j = j + 1;
        }
        Ok(out)
    }
}

} // verus!
