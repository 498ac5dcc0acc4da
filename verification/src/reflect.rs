//! `Reflect`, and the listing of own keys.
use crate::array_iter::{insert_index, insert_index_exec};
use crate::descriptors::{
    attributes, object_define_property_run, object_get_own_property_descriptor_run, own_symbols,
    Bits,
};
use crate::entries::{is_private_name, keep_listed_keys, listed_keys, private_name};
use crate::functions::{key_arg, says_enumerable};
use crate::host::{
    ask_flag, ask_list, ask_slot, ask_text, ask_value, call, chain, done, fail, get, halted, list1,
    list2, list4, opt_view, raised, run_list, run_plain, run_value, text_value, thrown_key,
    Exception, Halt, Host, Interp, Op, Run, Stop, Thrown,
};
use crate::json::{
    contains_text, fields_in, keys_in_reply, keys_of_fields, text_views, texts_in, texts_of,
};
use crate::objects::{array_read, enumerable_own, is_null, is_nullish, proto_of, to_object};
use crate::property::{internal_key, is_internal_key};
use crate::text::{concat_text, decimal, decimal_text, index_in, parse_index, same_text};
use crate::value::{
    arg, arg_at, callable, is_callable, is_object, object, views, ErrorKind, Kind, Val, Value,
};
use vstd::prelude::*;

verus! {

/// A flag as a value of the language.
pub open spec fn flag_value(r: Run<bool>) -> Run<Val> {
    chain(r, |b: bool, p: nat| done(Val::Bool(b), p))
}

/// `Reflect.get`.
pub open spec fn reflect_get_run(h: Host, pos: nat, recv: Option<Val>, args: Seq<Val>) -> Run<Val> {
    let target = arg(args, 0);
    if !object(target) {
        raised(ErrorKind::TypeError, "Reflect.get called on non-object"@, pos)
    } else {
        chain(key_arg(h, pos, args, 1), |key: Seq<char>, p: nat| get(h, p, target, key))
    }
}

/// `Reflect.set`.
pub open spec fn reflect_set_run(h: Host, pos: nat, recv: Option<Val>, args: Seq<Val>) -> Run<Val> {
    let target = arg(args, 0);
    if !object(target) {
        raised(ErrorKind::TypeError, "Reflect.set called on non-object"@, pos)
    } else {
        chain(
            key_arg(h, pos, args, 1),
            |key: Seq<char>, p: nat|
                flag_value(
                    ask_flag(
                        h,
                        p,
                        Op::Assign,
                        seq![
                            target,
                            Val::Str(key),
                            arg(args, 2),
                            if args.len() > 3 {
                                args[3]
                            } else {
                                target
                            },
                        ],
                    ),
                ),
        )
    }
}

/// `Reflect.has`.
pub open spec fn reflect_has_run(h: Host, pos: nat, recv: Option<Val>, args: Seq<Val>) -> Run<Val> {
    let target = arg(args, 0);
    if !object(target) {
        raised(ErrorKind::TypeError, "Reflect.has called on non-object"@, pos)
    } else {
        chain(
            key_arg(h, pos, args, 1),
            |key: Seq<char>, p: nat| flag_value(ask_flag(h, p, Op::Has, seq![target, Val::Str(key)])),
        )
    }
}

/// `Reflect.deleteProperty`.
pub open spec fn reflect_delete_property_run(h: Host, pos: nat, recv: Option<Val>, args: Seq<Val>) -> Run<Val> {
    let target = arg(args, 0);
    if !object(target) {
        raised(ErrorKind::TypeError, "Reflect.deleteProperty called on non-object"@, pos)
    } else {
        chain(
            key_arg(h, pos, args, 1),
            |key: Seq<char>, p: nat| flag_value(ask_flag(h, p, Op::Delete, seq![target, Val::Str(key)])),
        )
    }
}

/// `Reflect.setPrototypeOf`.
pub open spec fn reflect_set_prototype_of_run(h: Host, pos: nat, recv: Option<Val>, args: Seq<Val>) -> Run<Val> {
    let target = arg(args, 0);
    if !object(target) {
        raised(ErrorKind::TypeError, "Reflect.setPrototypeOf called on non-object"@, pos)
    } else {
        let proto = arg(args, 1);
        if !object(proto) && !(proto is Null) {
            raised(
                ErrorKind::TypeError,
                "Reflect.setPrototypeOf proto must be an Object or null"@,
                pos,
            )
        } else {
            flag_value(ask_flag(h, pos, Op::SetProto, seq![target, proto]))
        }
    }
}

/// `Reflect.preventExtensions`.
pub open spec fn reflect_prevent_extensions_run(h: Host, pos: nat, recv: Option<Val>, args: Seq<Val>) -> Run<Val> {
    let target = arg(args, 0);
    if !object(target) {
        raised(ErrorKind::TypeError, "Reflect.preventExtensions called on non-object"@, pos)
    } else {
        flag_value(ask_flag(h, pos, Op::PreventExtensions, seq![target]))
    }
}

/// `Reflect.isExtensible`.
pub open spec fn reflect_is_extensible_run(h: Host, pos: nat, recv: Option<Val>, args: Seq<Val>) -> Run<Val> {
    let target = arg(args, 0);
    if !object(target) {
        raised(ErrorKind::TypeError, "Reflect.isExtensible called on non-object"@, pos)
    } else {
        crate::functions::integrity_run(h, pos, crate::functions::IntegrityTest::Extensible, args)
    }
}

/// `Reflect.getPrototypeOf`.
pub open spec fn reflect_get_prototype_of_run(h: Host, pos: nat, recv: Option<Val>, args: Seq<Val>) -> Run<Val> {
    let target = arg(args, 0);
    if !object(target) {
        raised(ErrorKind::TypeError, "Reflect.getPrototypeOf called on non-object"@, pos)
    } else {
        proto_of(h, pos, target)
    }
}

/// `Reflect.ownKeys`.
pub open spec fn reflect_own_keys_run(h: Host, pos: nat, recv: Option<Val>, args: Seq<Val>) -> Run<Val> {
    let target = arg(args, 0);
    if !object(target) {
        raised(ErrorKind::TypeError, "Reflect.ownKeys called on non-object"@, pos)
    } else {
        chain(own_keys(h, pos, target), |keys: Seq<Val>, p: nat| ask_value(h, p, Op::NewArray, keys))
    }
}

/// `Reflect.getOwnPropertyDescriptor`.
pub open spec fn reflect_get_own_property_descriptor_run(h: Host, pos: nat, recv: Option<Val>, args: Seq<Val>) -> Run<Val> {
    let target = arg(args, 0);
    if !object(target) {
        raised(ErrorKind::TypeError, "Reflect.getOwnPropertyDescriptor called on non-object"@, pos)
    } else {
        object_get_own_property_descriptor_run(h, pos, None, args)
    }
}

/// `Reflect.apply`.
pub open spec fn reflect_apply_run(h: Host, pos: nat, recv: Option<Val>, args: Seq<Val>) -> Run<Val> {
    let f = arg(args, 0);
    if !callable(f) {
        raised(ErrorKind::TypeError, "Reflect.apply target is not callable"@, pos)
    } else if !object(arg(args, 2)) {
        raised(ErrorKind::TypeError, "CreateListFromArrayLike called on non-object"@, pos)
    } else {
        chain(
            array_read(h, pos, arg(args, 2)),
            |list: Seq<Val>, p: nat|
                call(
                    h,
                    p,
                    f,
                    if args.len() > 1 {
                        Some(args[1])
                    } else {
                        None
                    },
                    list,
                ),
        )
    }
}

/// `Reflect.construct`.
pub open spec fn reflect_construct_run(h: Host, pos: nat, recv: Option<Val>, args: Seq<Val>) -> Run<
    Val,
> {
    let f = arg(args, 0);
    chain(
        ask_flag(h, pos, Op::IsConstructor, seq![f]),
        |good: bool, p: nat|
            if !good {
                raised(ErrorKind::TypeError, "Reflect.construct target is not a constructor"@, p)
            } else {
                chain(
                    if args.len() > 2 {
                        ask_flag(h, p, Op::IsConstructor, seq![args[2]])
                    } else {
                        done(true, p)
                    },
                    |fine: bool, q: nat|
                        if !fine {
                            raised(
                                ErrorKind::TypeError,
                                "Reflect.construct newTarget is not a constructor"@,
                                q,
                            )
                        } else if !object(arg(args, 1)) {
                            raised(
                                ErrorKind::TypeError,
                                "CreateListFromArrayLike called on non-object"@,
                                q,
                            )
                        } else {
                            chain(
                                array_read(h, q, arg(args, 1)),
                                |list: Seq<Val>, r: nat|
                                    ask_value(
                                        h,
                                        r,
                                        Op::ConstructWith,
                                        seq![
                                            f,
                                            if args.len() > 2 {
                                                args[2]
                                            } else {
                                                f
                                            },
                                        ] + list,
                                    ),
                            )
                        },
                )
            },
    )
}

/// A message that says no more than that a definition was refused.
pub open spec fn says_refused(message: Seq<char>) -> bool {
    ||| message == "Cannot redefine property"@
    ||| message == "Cannot define property: object is not extensible"@
    ||| message == "Cannot define array index beyond a non-writable length"@
    ||| message == "'defineProperty' on proxy: trap returned falsish for property"@
}

/// Whether a definition went through: a refusal is false, any other exception stands.
pub open spec fn whether_defined(h: Host, d: Run<Val>) -> Run<Val> {
    match d.out {
        Ok(_) => done(Val::Bool(true), d.pos),
        Err(Halt::Throw(Thrown::Error(kind, message))) => if says_refused(message) {
            done(Val::Bool(false), d.pos)
        } else {
            raised(kind, message, d.pos)
        },
        Err(Halt::Throw(Thrown::Thrown(n))) => chain(
            ask_text(h, d.pos, Op::ThrownMessage, seq![thrown_key(Thrown::Thrown(n))]),
            |message: Seq<char>, p: nat|
                if says_refused(message) {
                    done(Val::Bool(false), p)
                } else {
                    halted(Halt::Throw(Thrown::Thrown(n)), p)
                },
        ),
        Err(e) => halted(e, d.pos),
    }
}

/// `Reflect.defineProperty`.
pub open spec fn reflect_define_property_run(
    h: Host,
    pos: nat,
    recv: Option<Val>,
    args: Seq<Val>,
) -> Run<Val> {
    let target = arg(args, 0);
    if !object(target) {
        raised(ErrorKind::TypeError, "Reflect.defineProperty called on non-object"@, pos)
    } else {
        whether_defined(h, object_define_property_run(h, pos, None, args))
    }
}

/// The keys that are not the engine's own, in order.
pub open spec fn public_keys(keys: Seq<Seq<char>>) -> Seq<Seq<char>>
    decreases keys.len(),
{
    if keys.len() == 0 {
        Seq::empty()
    } else if internal_key(keys.last()) {
        public_keys(keys.drop_last())
    } else {
        public_keys(keys.drop_last()).push(keys.last())
    }
}

/// The indices among some keys, in increasing order.
pub open spec fn index_keys(keys: Seq<Seq<char>>) -> Seq<u64>
    decreases keys.len(),
{
    if keys.len() == 0 {
        Seq::empty()
    } else {
        let front = index_keys(keys.drop_last());
        if internal_key(keys.last()) {
            front
        } else {
            match index_in(keys.last()) {
                Some(k) => insert_index(front, k),
                None => front,
            }
        }
    }
}

/// The list with a key at its end, unless it is there already.
pub open spec fn with_key(out: Seq<Seq<char>>, key: Seq<char>) -> Seq<Seq<char>> {
    if out.contains(key) {
        out
    } else {
        out.push(key)
    }
}

/// The names after the indices, added in order and each once.
pub open spec fn add_names(out: Seq<Seq<char>>, keys: Seq<Seq<char>>, n: nat) -> Seq<Seq<char>>
    decreases n,
{
    if n == 0 || n > keys.len() {
        out
    } else {
        let before = add_names(out, keys, (n - 1) as nat);
        let k = keys[n - 1];
        if internal_key(k) || index_in(k) is Some {
            before
        } else {
            with_key(before, k)
        }
    }
}

pub open spec fn with_key_if(out: Seq<Seq<char>>, key: Seq<char>, wanted: bool) -> Seq<Seq<char>> {
    if wanted {
        with_key(out, key)
    } else {
        out
    }
}

/// The own names of a function: indices first, in increasing order; then the properties that every
/// function has; then the others as they were added.
pub open spec fn function_names(
    keys: Seq<Seq<char>>,
    length: bool,
    name: bool,
    prototype: bool,
) -> Seq<Seq<char>> {
    let indices = index_keys(keys);
    let a = Seq::new(indices.len(), |i: int| decimal(indices[i] as nat));
    let b = with_key_if(a, "length"@, length);
    let c = with_key_if(b, "name"@, name);
    let d = with_key_if(c, "prototype"@, prototype);
    add_names(d, keys, keys.len())
}

/// Texts as values of the language.
pub open spec fn text_vals(s: Seq<Seq<char>>) -> Seq<Val> {
    Seq::new(s.len(), |i: int| Val::Str(s[i]))
}

/// The index keys below `n`.
pub open spec fn index_names(n: nat) -> Seq<Seq<char>> {
    Seq::new(n, |i: int| decimal(i as nat))
}

/// The index keys of an array from `i` up to `n` that are no holes, after `out`.
pub open spec fn present_names(h: Host, pos: nat, v: Val, i: nat, n: nat, out: Seq<Seq<char>>) -> Run<
    Seq<Seq<char>>,
>
    decreases n - i,
{
    if i >= n {
        done(out, pos)
    } else {
        let g = ask_flag(h, pos, Op::ArrayHole, seq![v, Val::Str(decimal(i))]);
        match g.out {
            Err(e) => halted(e, g.pos),
            Ok(hole) => present_names(
                h,
                g.pos,
                v,
                i + 1,
                n,
                if hole {
                    out
                } else {
                    out.push(decimal(i))
                },
            ),
        }
    }
}

/// The first `n` of some keys after others, each once.
pub open spec fn with_keys(out: Seq<Seq<char>>, keys: Seq<Seq<char>>, n: nat) -> Seq<Seq<char>>
    decreases n,
{
    if n == 0 || n > keys.len() {
        out
    } else {
        with_key(with_keys(out, keys, (n - 1) as nat), keys[n - 1])
    }
}

/// The own names of an array: the indices of its elements, `length`, and its other properties as
/// they were added.
pub open spec fn array_names(indices: Seq<Seq<char>>, props: Seq<Seq<char>>) -> Seq<Seq<char>> {
    let more = public_keys(props);
    with_keys(with_key(indices, "length"@), more, more.len())
}

/// The index keys of an array's elements; a hole has none.
pub open spec fn indices_of_array(h: Host, pos: nat, v: Val) -> Run<Seq<Seq<char>>> {
    chain(
        ask_list(h, pos, Op::Elements, seq![v]),
        |l: Seq<Val>, p: nat|
            chain(
                ask_flag(h, p, Op::HasHoles, seq![v]),
                |holes: bool, q: nat|
                    if holes {
                        present_names(h, q, v, 0, l.len(), Seq::empty())
                    } else {
                        done(index_names(l.len()), q)
                    },
            ),
    )
}

pub open spec fn own_names_of_array(h: Host, pos: nat, v: Val) -> Run<Seq<Seq<char>>> {
    chain(
        indices_of_array(h, pos, v),
        |indices: Seq<Seq<char>>, p: nat|
            chain(
                ask_list(h, p, Op::ArrayProps, seq![v]),
                |props: Seq<Val>, q: nat| done(array_names(indices, texts_in(props)), q),
            ),
    )
}

/// The keys that are neither the engine's own nor private names, in order.
pub open spec fn string_keys(keys: Seq<Seq<char>>) -> Seq<Seq<char>>
    decreases keys.len(),
{
    if keys.len() == 0 {
        Seq::empty()
    } else if internal_key(keys.last()) || private_name(keys.last()) {
        string_keys(keys.drop_last())
    } else {
        string_keys(keys.drop_last()).push(keys.last())
    }
}

/// The names of an object without computed ones: its indices in increasing order, then its other
/// keys as they were added.
pub open spec fn plain_names(keys: Seq<Seq<char>>) -> Seq<Seq<char>> {
    function_names(keys, false, false, false)
}

/// Whether a class still has its own name or length.
pub open spec fn class_has(h: Host, pos: nat, v: Val, key: Seq<char>) -> Run<bool> {
    chain(
        ask_slot(h, pos, Op::OwnSlot, seq![v, Val::Str("\0clsdel:"@ + key)]),
        |gone: Option<Val>, p: nat| done(gone is None, p),
    )
}

pub open spec fn own_names_of_class(h: Host, pos: nat, v: Val) -> Run<Seq<Val>> {
    chain(
        ask_list(h, pos, Op::StoredKeys, seq![v]),
        |l: Seq<Val>, p: nat|
            chain(
                class_has(h, p, v, "length"@),
                |length: bool, q: nat|
                    chain(
                        class_has(h, q, v, "name"@),
                        |name: bool, r: nat|
                            done(
                                text_vals(
                                    function_names(string_keys(texts_in(l)), length, name, true),
                                ),
                                r,
                            ),
                    ),
            ),
    )
}

/// The strings of a list.
pub open spec fn only_strings(l: Seq<Val>) -> Seq<Val>
    decreases l.len(),
{
    if l.len() == 0 {
        Seq::empty()
    } else if l.last() is Str {
        only_strings(l.drop_last()).push(l.last())
    } else {
        only_strings(l.drop_last())
    }
}

/// The keys of a built-in function that were not deleted.
pub open spec fn undeleted(h: Host, pos: nat, f: Val, keys: Seq<Seq<char>>, i: int, out: Seq<Seq<char>>) -> Run<
    Seq<Seq<char>>,
>
    decreases keys.len() - i,
{
    if !(0 <= i < keys.len()) {
        done(out, pos)
    } else {
        let g = ask_flag(h, pos, Op::NativeDeleted, seq![f, Val::Str(keys[i])]);
        match g.out {
            Err(e) => halted(e, g.pos),
            Ok(gone) => undeleted(
                h,
                g.pos,
                f,
                keys,
                i + 1,
                if gone {
                    out
                } else {
                    out.push(keys[i])
                },
            ),
        }
    }
}

/// What a built-in function was given, but for its name and its length.
pub open spec fn given_names(keys: Seq<Seq<char>>) -> Seq<Seq<char>>
    decreases keys.len(),
{
    if keys.len() == 0 {
        Seq::empty()
    } else {
        let front = given_names(keys.drop_last());
        let k = keys.last();
        if internal_key(k) || k == "length"@ || k == "name"@ {
            front
        } else {
            front.push(k)
        }
    }
}

/// Whether a function still has a property that every function has.
pub open spec fn still_has(h: Host, pos: nat, f: Val, key: Seq<char>) -> Run<bool> {
    chain(
        ask_slot(h, pos, Op::OwnSlot, seq![f, Val::Str("\0fndel:"@ + key)]),
        |gone: Option<Val>, p: nat| done(gone is None, p),
    )
}

/// The own string keys of a value, also those that are not enumerable.
pub open spec fn own_names(h: Host, pos: nat, v: Val) -> Run<Seq<Val>> {
    match v {
        Val::Ref(Kind::Obj, _) => chain(
            ask_list(h, pos, Op::StoredKeys, seq![v]),
            |l: Seq<Val>, p: nat| done(text_vals(plain_names(texts_in(l))), p),
        ),
        Val::Ref(Kind::Arr, _) => chain(
            own_names_of_array(h, pos, v),
            |names: Seq<Seq<char>>, p: nat| done(text_vals(names), p),
        ),
        Val::Ref(Kind::Instance, _) => chain(
            ask_list(h, pos, Op::StoredKeys, seq![v]),
            |l: Seq<Val>, p: nat| done(text_vals(plain_names(string_keys(texts_in(l)))), p),
        ),
        Val::Ref(Kind::Class, _) => own_names_of_class(h, pos, v),
        Val::Native(_) => chain(
            undeleted(h, pos, v, seq!["length"@, "name"@], 0, Seq::empty()),
            |own: Seq<Seq<char>>, p: nat|
                chain(
                    ask_list(h, p, Op::NativeKeys, seq![v]),
                    |members: Seq<Val>, q: nat|
                        chain(
                            undeleted(h, q, v, texts_in(members), 0, own),
                            |some: Seq<Seq<char>>, r: nat|
                                chain(
                                    ask_list(h, r, Op::NativeAddedKeys, seq![v]),
                                    |added: Seq<Val>, s: nat|
                                        done(
                                            text_vals(some + given_names(texts_in(added))),
                                            s,
                                        ),
                                ),
                        ),
                ),
        ),
        Val::Proxy(_, _) => chain(
            ask_list(h, pos, Op::ProxyKeys, seq![v]),
            |l: Seq<Val>, p: nat| done(only_strings(l), p),
        ),
        Val::Ref(Kind::Fn, _) => chain(
            ask_list(h, pos, Op::StoredKeys, seq![v]),
            |l: Seq<Val>, p: nat|
                chain(
                    still_has(h, p, v, "length"@),
                    |length: bool, q: nat|
                        chain(
                            still_has(h, q, v, "name"@),
                            |name: bool, r: nat|
                                chain(
                                    still_has(h, r, v, "prototype"@),
                                    |kept: bool, s: nat|
                                        chain(
                                            ask_flag(h, s, Op::HasPrototype, seq![v]),
                                            |has: bool, t: nat|
                                                done(
                                                    text_vals(
                                                        function_names(
                                                            texts_in(l),
                                                            length,
                                                            name,
                                                            kept && has,
                                                        ),
                                                    ),
                                                    t,
                                                ),
                                        ),
                                ),
                        ),
                ),
        ),
        _ => done(Seq::empty(), pos),
    }
}

/// The own keys of an object: its names, then its symbols.
pub open spec fn own_keys(h: Host, pos: nat, v: Val) -> Run<Seq<Val>> {
    if v is Proxy {
        ask_list(h, pos, Op::ProxyKeys, seq![v])
    } else {
        chain(
            own_names(h, pos, v),
            |names: Seq<Val>, p: nat|
                chain(
                    own_symbols(h, p, v),
                    |symbols: Seq<Val>, q: nat| done(names + symbols, q),
                ),
        )
    }
}

/// The strings among a proxy's keys whose properties are enumerable, from the `i`-th on.
pub open spec fn enumerable_strings(h: Host, pos: nat, v: Val, keys: Seq<Val>, i: int, out: Seq<Val>) -> Run<
    Seq<Val>,
>
    decreases keys.len() - i,
{
    if !(0 <= i < keys.len()) {
        done(out, pos)
    } else if !(keys[i] is Str) {
        enumerable_strings(h, pos, v, keys, i + 1, out)
    } else {
        let d = object_get_own_property_descriptor_run(h, pos, None, seq![v, keys[i]]);
        match d.out {
            Err(e) => halted(e, d.pos),
            Ok(desc) => {
                let b = says_enumerable(h, d.pos, desc);
                match b.out {
                    Err(e) => halted(e, b.pos),
                    Ok(yes) => enumerable_strings(
                        h,
                        b.pos,
                        v,
                        keys,
                        i + 1,
                        if yes {
                            out.push(keys[i])
                        } else {
                            out
                        },
                    ),
                }
            },
        }
    }
}

/// A name that every function has and that is not enumerable.
pub open spec fn built_in_name(key: Seq<char>) -> bool {
    key == "prototype"@ || key == "name"@ || key == "length"@
}

/// The enumerable names that a function was given: those without a marker.
pub open spec fn function_keys(keys: Seq<Seq<char>>, n: nat) -> Seq<Seq<char>>
    decreases n,
{
    if n == 0 || n > keys.len() {
        Seq::empty()
    } else {
        let front = function_keys(keys, (n - 1) as nat);
        let k = keys[n - 1];
        if internal_key(k) || built_in_name(k) || keys.contains(crate::entries::hidden_marker(k)) {
            front
        } else {
            front.push(k)
        }
    }
}

/// The names of an array from the `i`-th on whose elements and properties are enumerable; its
/// length is not.
pub open spec fn enumerable_of_array(
    h: Host,
    pos: nat,
    v: Val,
    names: Seq<Seq<char>>,
    i: int,
    out: Seq<Seq<char>>,
) -> Run<Seq<Seq<char>>>
    decreases names.len() - i,
{
    if !(0 <= i < names.len()) {
        done(out, pos)
    } else if names[i] == "length"@ {
        enumerable_of_array(h, pos, v, names, i + 1, out)
    } else {
        let a = attributes(h, pos, v, names[i]);
        match a.out {
            Err(e) => halted(e, a.pos),
            Ok(b) => enumerable_of_array(
                h,
                a.pos,
                v,
                names,
                i + 1,
                if b.enumerable {
                    out.push(names[i])
                } else {
                    out
                },
            ),
        }
    }
}

/// The own enumerable string keys of a value.
pub open spec fn enumerable_names(h: Host, pos: nat, v: Val) -> Run<Seq<Val>> {
    match v {
        Val::Proxy(_, _) => chain(
            ask_list(h, pos, Op::ProxyKeys, seq![v]),
            |l: Seq<Val>, p: nat| enumerable_strings(h, p, v, l, 0, Seq::empty()),
        ),
        Val::Ref(Kind::Obj, _) => ask_list(h, pos, Op::Keys, seq![v]),
        Val::Ref(Kind::Arr, _) => chain(
            own_names_of_array(h, pos, v),
            |names: Seq<Seq<char>>, p: nat|
                chain(
                    enumerable_of_array(h, p, v, names, 0, Seq::empty()),
                    |shown: Seq<Seq<char>>, q: nat| done(text_vals(shown), q),
                ),
        ),
        Val::Ref(Kind::Instance, _) => chain(
            ask_list(h, pos, Op::StoredKeys, seq![v]),
            |l: Seq<Val>, p: nat|
                done(text_vals(listed_keys(texts_in(l), texts_in(l).len(), true)), p),
        ),
        Val::Ref(Kind::Class, _) => chain(
            ask_list(h, pos, Op::StoredFields, seq![v]),
            |l: Seq<Val>, p: nat|
                {
                    let keys = keys_of_fields(fields_in(l));
                    done(text_vals(listed_keys(keys, keys.len(), false)), p)
                },
        ),
        Val::Ref(Kind::Fn, _) => chain(
            ask_list(h, pos, Op::StoredKeys, seq![v]),
            |l: Seq<Val>, p: nat|
                done(text_vals(function_keys(texts_in(l), texts_in(l).len())), p),
        ),
        _ => done(Seq::empty(), pos),
    }
}

/// What a function that lists properties does with its argument first: nothing can be listed of
/// undefined and null, and a string is listed by its wrapper.
pub open spec fn listing_target(h: Host, pos: nat, v: Val) -> Run<Val> {
    if v is Undefined || v is Null {
        raised(ErrorKind::TypeError, "Cannot convert undefined or null to object"@, pos)
    } else if v is Str {
        to_object(h, pos, v)
    } else {
        done(v, pos)
    }
}

/// `Object.keys`.
pub open spec fn object_keys_run(h: Host, pos: nat, recv: Option<Val>, args: Seq<Val>) -> Run<Val> {
    chain(
        listing_target(h, pos, arg(args, 0)),
        |v: Val, p: nat|
            chain(
                enumerable_names(h, p, v),
                |keys: Seq<Val>, q: nat| ask_value(h, q, Op::NewArray, keys),
            ),
    )
}

/// `Object.getOwnPropertyNames`.
pub open spec fn object_get_own_property_names_run(
    h: Host,
    pos: nat,
    recv: Option<Val>,
    args: Seq<Val>,
) -> Run<Val> {
    chain(
        listing_target(h, pos, arg(args, 0)),
        |v: Val, p: nat|
            chain(
                own_names(h, p, v),
                |keys: Seq<Val>, q: nat| ask_value(h, q, Op::NewArray, keys),
            ),
    )
}

/// `Object.values` and `Object.entries`.
pub open spec fn object_listing(h: Host, pos: nat, args: Seq<Val>, keys: bool) -> Run<Val> {
    let v = arg(args, 0);
    if v is Undefined || v is Null {
        raised(ErrorKind::TypeError, "Cannot convert undefined or null to object"@, pos)
    } else {
        chain(
            to_object(h, pos, v),
            |o: Val, p: nat|
                chain(
                    enumerable_own(h, p, o, keys, true),
                    |l: Seq<Val>, q: nat| ask_value(h, q, Op::NewArray, l),
                ),
        )
    }
}

/// `Object.values`.
pub open spec fn object_values_run(h: Host, pos: nat, recv: Option<Val>, args: Seq<Val>) -> Run<Val> {
    object_listing(h, pos, args, false)
}

/// `Object.entries`.
pub open spec fn object_entries_run(h: Host, pos: nat, recv: Option<Val>, args: Seq<Val>) -> Run<
    Val,
> {
    object_listing(h, pos, args, true)
}

/// A list of texts in a run.
pub open spec fn names_run(r: Result<Vec<String>, Stop>, it: Interp) -> Run<Seq<Seq<char>>> {
    match r {
        Ok(v) => done(text_views(v@), it.pos as nat),
        Err(e) => halted(e@, it.pos as nat),
    }
}

fn push_key(out: &mut Vec<String>, key: &str)
    ensures
        text_views(final(out)@) == with_key(text_views(old(out)@), key@),
{
    let ghost before = text_views(out@);
    if !contains_text(out, key) {
        out.push(key.to_owned());
        assert(text_views(out@) =~= before.push(key@));
    }
}

fn keys_of_function(keys: &Vec<String>, length: bool, name: bool, prototype: bool) -> (r: Vec<String>)
    ensures
        text_views(r@) == function_names(text_views(keys@), length, name, prototype),
{
    let ghost all = text_views(keys@);
    let mut indices: Vec<u64> = Vec::new();
    let mut i: usize = 0;
    assert(all.take(0) =~= Seq::<Seq<char>>::empty());
    while i < keys.len()
        invariant
            i <= keys@.len(),
            all == text_views(keys@),
            indices@ == index_keys(all.take(i as int)),
        decreases keys@.len() - i,
    {
        assert(all.take(i + 1).drop_last() =~= all.take(i as int));
        assert(all.take(i + 1).last() == keys@[i as int]@);
        if !is_internal_key(keys[i].as_str()) {
            match parse_index(keys[i].as_str()) {
                Some(k) => {
                    insert_index_exec(&mut indices, k);
                },
                None => {},
            }
        }
        i = i + 1;
    }
    assert(all.take(i as int) =~= all);
    let mut out: Vec<String> = Vec::new();
    let ghost first = Seq::new(indices@.len(), |i: int| decimal(indices@[i] as nat));
    let mut j: usize = 0;
    assert(text_views(out@) =~= first.take(0));
    while j < indices.len()
        invariant
            j <= indices@.len(),
            first == Seq::new(indices@.len(), |i: int| decimal(indices@[i] as nat)),
            text_views(out@) == first.take(j as int),
        decreases indices@.len() - j,
    {
        let ghost before = text_views(out@);
        out.push(decimal_text(indices[j]));
        assert(text_views(out@) =~= before.push(first[j as int]));
        j = j + 1;
        assert(text_views(out@) =~= first.take(j as int));
    }
    assert(first.take(j as int) =~= first);
    if length {
        push_key(&mut out, "length");
    }
    if name {
        push_key(&mut out, "name");
    }
    if prototype {
        push_key(&mut out, "prototype");
    }
    let ghost start = text_views(out@);
    let mut k: usize = 0;
    while k < keys.len()
        invariant
            k <= keys@.len(),
            all == text_views(keys@),
            text_views(out@) == add_names(start, all, k as nat),
        decreases keys@.len() - k,
    {
        assert(all[k as int] == keys@[k as int]@);
        if !is_internal_key(keys[k].as_str()) && parse_index(keys[k].as_str()).is_none() {
            push_key(&mut out, keys[k].as_str());
        }
        k = k + 1;
    }
    out
}

pub fn values_of_texts(s: &Vec<String>) -> (r: Vec<Value>)
    ensures
        views(r@) == text_vals(text_views(s@)),
{
    let mut out: Vec<Value> = Vec::new();
    let mut i: usize = 0;
    while i < s.len()
        invariant
            i <= s@.len(),
            views(out@) == text_vals(text_views(s@)).take(i as int),
        decreases s@.len() - i,
    {
        let ghost before = views(out@);
        out.push(Value::Str(s[i].clone()));
        assert(views(out@) =~= before.push(Val::Str(s@[i as int]@)));
        i = i + 1;
        assert(views(out@) =~= text_vals(text_views(s@)).take(i as int));
    }
    assert(views(out@) =~= text_vals(text_views(s@)));
    out
}

pub fn keep_public(keys: &Vec<String>) -> (r: Vec<String>)
    ensures
        text_views(r@) == public_keys(text_views(keys@)),
{
    let ghost all = text_views(keys@);
    let mut out: Vec<String> = Vec::new();
    let mut i: usize = 0;
    assert(all.take(0) =~= Seq::<Seq<char>>::empty());
    assert(text_views(out@) =~= public_keys(all.take(0)));
    while i < keys.len()
        invariant
            i <= keys@.len(),
            all == text_views(keys@),
            text_views(out@) == public_keys(all.take(i as int)),
        decreases keys@.len() - i,
    {
        assert(all.take(i + 1).drop_last() =~= all.take(i as int));
        assert(all.take(i + 1).last() == keys@[i as int]@);
        let ghost before = text_views(out@);
        if !is_internal_key(keys[i].as_str()) {
            out.push(keys[i].clone());
            assert(text_views(out@) =~= before.push(keys@[i as int]@));
        }
        i = i + 1;
    }
    assert(all.take(i as int) =~= all);
    out
}

fn keep_given(keys: &Vec<String>) -> (r: Vec<String>)
    ensures
        text_views(r@) == given_names(text_views(keys@)),
{
    let ghost all = text_views(keys@);
    let mut out: Vec<String> = Vec::new();
    let mut i: usize = 0;
    assert(all.take(0) =~= Seq::<Seq<char>>::empty());
    assert(text_views(out@) =~= given_names(all.take(0)));
    while i < keys.len()
        invariant
            i <= keys@.len(),
            all == text_views(keys@),
            text_views(out@) == given_names(all.take(i as int)),
        decreases keys@.len() - i,
    {
        assert(all.take(i + 1).drop_last() =~= all.take(i as int));
        assert(all.take(i + 1).last() == keys@[i as int]@);
        let ghost before = text_views(out@);
        let k: &str = keys[i].as_str();
        if !(is_internal_key(k) || same_text(k, "length") || same_text(k, "name")) {
            out.push(keys[i].clone());
            assert(text_views(out@) =~= before.push(keys@[i as int]@));
        }
        i = i + 1;
    }
    assert(all.take(i as int) =~= all);
    out
}

fn keep_function_keys(keys: &Vec<String>) -> (r: Vec<String>)
    ensures
        text_views(r@) == function_keys(text_views(keys@), keys@.len()),
{
    let ghost all = text_views(keys@);
    let mut out: Vec<String> = Vec::new();
    let mut i: usize = 0;
    assert(text_views(out@) =~= function_keys(all, 0));
    while i < keys.len()
        invariant
            i <= keys@.len(),
            all == text_views(keys@),
            text_views(out@) == function_keys(all, i as nat),
        decreases keys@.len() - i,
    {
        assert(all[i as int] == keys@[i as int]@);
        let ghost before = text_views(out@);
        let k: &str = keys[i].as_str();
        let fixed: bool = same_text(k, "prototype") || same_text(k, "name") || same_text(
            k,
            "length",
        );
        let hidden: bool = contains_text(keys, concat_text("\0ne:", k).as_str());
        if !(is_internal_key(k) || fixed || hidden) {
            out.push(keys[i].clone());
            assert(text_views(out@) =~= before.push(keys@[i as int]@));
        }
        i = i + 1;
    }
    out
}

fn keep_strings(l: &Vec<Value>) -> (r: Vec<Value>)
    ensures
        views(r@) == only_strings(views(l@)),
{
    let ghost all = views(l@);
    let mut out: Vec<Value> = Vec::new();
    let mut i: usize = 0;
    assert(all.take(0) =~= Seq::<Val>::empty());
    assert(views(out@) =~= only_strings(all.take(0)));
    while i < l.len()
        invariant
            i <= l@.len(),
            all == views(l@),
            views(out@) == only_strings(all.take(i as int)),
        decreases l@.len() - i,
    {
        assert(all.take(i + 1).drop_last() =~= all.take(i as int));
        assert(all.take(i + 1).last() == l@[i as int]@);
        let ghost before = views(out@);
        if matches!(&l[i], Value::Str(_)) {
            out.push(l[i].clone());
            assert(views(out@) =~= before.push(l@[i as int]@));
        }
        i = i + 1;
    }
    assert(all.take(i as int) =~= all);
    out
}

fn tells_refusal(message: &str) -> (r: bool)
    ensures
        r == says_refused(message@),
{
    same_text(message, "Cannot redefine property") || same_text(
        message,
        "Cannot define property: object is not extensible",
    ) || same_text(message, "Cannot define array index beyond a non-writable length") || same_text(
        message,
        "'defineProperty' on proxy: trap returned falsish for property",
    )
}

fn names_below(n: usize) -> (r: Vec<String>)
    ensures
        text_views(r@) == index_names(n as nat),
{
    let mut out: Vec<String> = Vec::new();
    let mut i: usize = 0;
    while i < n
        invariant
            i <= n,
            text_views(out@) == index_names(n as nat).take(i as int),
        decreases n - i,
    {
        let ghost before = text_views(out@);
        out.push(decimal_text(i as u64));
        assert(text_views(out@) =~= before.push(decimal(i as nat)));
        i = i + 1;
        assert(text_views(out@) =~= index_names(n as nat).take(i as int));
    }
    assert(text_views(out@) =~= index_names(n as nat));
    out
}

fn names_of_array(indices: Vec<String>, props: &Vec<String>) -> (r: Vec<String>)
    ensures
        text_views(r@) == array_names(text_views(indices@), text_views(props@)),
{
    let mut out: Vec<String> = indices;
    push_key(&mut out, "length");
    let more: Vec<String> = keep_public(props);
    let ghost start = text_views(out@);
    let ghost all = text_views(more@);
    let mut i: usize = 0;
    while i < more.len()
        invariant
            i <= more@.len(),
            all == text_views(more@),
            text_views(out@) == with_keys(start, all, i as nat),
        decreases more@.len() - i,
    {
        assert(all[i as int] == more@[i as int]@);
        push_key(&mut out, more[i].as_str());
        i = i + 1;
    }
    out
}

fn keep_string_keys(keys: &Vec<String>) -> (r: Vec<String>)
    ensures
        text_views(r@) == string_keys(text_views(keys@)),
{
    let ghost all = text_views(keys@);
    let mut out: Vec<String> = Vec::new();
    let mut i: usize = 0;
    assert(all.take(0) =~= Seq::<Seq<char>>::empty());
    assert(text_views(out@) =~= string_keys(all.take(0)));
    while i < keys.len()
        invariant
            i <= keys@.len(),
            all == text_views(keys@),
            text_views(out@) == string_keys(all.take(i as int)),
        decreases keys@.len() - i,
    {
        assert(all.take(i + 1).drop_last() =~= all.take(i as int));
        assert(all.take(i + 1).last() == keys@[i as int]@);
        let ghost before = text_views(out@);
        if !is_internal_key(keys[i].as_str()) && !is_private_name(keys[i].as_str()) {
            out.push(keys[i].clone());
            assert(text_views(out@) =~= before.push(keys@[i as int]@));
        }
        i = i + 1;
    }
    assert(all.take(i as int) =~= all);
    out
}

impl Interp {
    /// `Reflect.get`.
    pub fn reflect_get(&mut self, recv: &Option<Value>, args: &Vec<Value>) -> (r: Result<Value, Stop>)
        requires
            old(self).wf(),
        ensures
            final(self).follows(*old(self)),
            run_value(r, *final(self)) == reflect_get_run(
                old(self).host(),
                old(self).pos as nat,
                opt_view(*recv),
                views(args@),
            ),
    {
        let target: Value = arg_at(args, 0);
        if !is_object(&target) {
            return Err(fail(ErrorKind::TypeError, "Reflect.get called on non-object"));
        }
        let key: String = self.key_arg(args, 1)?;
        self.member_get(&target, key.as_str())
    }

    /// `Reflect.set`.
    pub fn reflect_set(&mut self, recv: &Option<Value>, args: &Vec<Value>) -> (r: Result<Value, Stop>)
        requires
            old(self).wf(),
        ensures
            final(self).follows(*old(self)),
            run_value(r, *final(self)) == reflect_set_run(
                old(self).host(),
                old(self).pos as nat,
                opt_view(*recv),
                views(args@),
            ),
    {
        let target: Value = arg_at(args, 0);
        if !is_object(&target) {
            return Err(fail(ErrorKind::TypeError, "Reflect.set called on non-object"));
        }
        let key: String = self.key_arg(args, 1)?;
        let receiver: Value = if args.len() > 3 {
            args[3].clone()
        } else {
            target.clone()
        };
        let b: bool = self.ask_flag(
            Op::Assign,
            list4(target, Value::Str(key), arg_at(args, 2), receiver),
        )?;
        Ok(Value::Bool(b))
    }

    /// `Reflect.has`.
    pub fn reflect_has(&mut self, recv: &Option<Value>, args: &Vec<Value>) -> (r: Result<Value, Stop>)
        requires
            old(self).wf(),
        ensures
            final(self).follows(*old(self)),
            run_value(r, *final(self)) == reflect_has_run(
                old(self).host(),
                old(self).pos as nat,
                opt_view(*recv),
                views(args@),
            ),
    {
        let target: Value = arg_at(args, 0);
        if !is_object(&target) {
            return Err(fail(ErrorKind::TypeError, "Reflect.has called on non-object"));
        }
        let key: String = self.key_arg(args, 1)?;
        let b: bool = self.ask_flag(Op::Has, list2(target, Value::Str(key)))?;
        Ok(Value::Bool(b))
    }

    /// `Reflect.deleteProperty`.
    pub fn reflect_delete_property(&mut self, recv: &Option<Value>, args: &Vec<Value>) -> (r: Result<Value, Stop>)
        requires
            old(self).wf(),
        ensures
            final(self).follows(*old(self)),
            run_value(r, *final(self)) == reflect_delete_property_run(
                old(self).host(),
                old(self).pos as nat,
                opt_view(*recv),
                views(args@),
            ),
    {
        let target: Value = arg_at(args, 0);
        if !is_object(&target) {
            return Err(fail(ErrorKind::TypeError, "Reflect.deleteProperty called on non-object"));
        }
        let key: String = self.key_arg(args, 1)?;
        let b: bool = self.ask_flag(Op::Delete, list2(target, Value::Str(key)))?;
        Ok(Value::Bool(b))
    }

    /// `Reflect.setPrototypeOf`.
    pub fn reflect_set_prototype_of(&mut self, recv: &Option<Value>, args: &Vec<Value>) -> (r: Result<Value, Stop>)
        requires
            old(self).wf(),
        ensures
            final(self).follows(*old(self)),
            run_value(r, *final(self)) == reflect_set_prototype_of_run(
                old(self).host(),
                old(self).pos as nat,
                opt_view(*recv),
                views(args@),
            ),
    {
        let target: Value = arg_at(args, 0);
        if !is_object(&target) {
            return Err(fail(ErrorKind::TypeError, "Reflect.setPrototypeOf called on non-object"));
        }

        let proto: Value = arg_at(args, 1);
        if !is_object(&proto) && !is_null(&proto) {
            return Err(
                fail(
                    ErrorKind::TypeError,
                    "Reflect.setPrototypeOf proto must be an Object or null",
                ),
            );
        }
        let b: bool = self.ask_flag(Op::SetProto, list2(target, proto))?;
        Ok(Value::Bool(b))
    }

    /// `Reflect.preventExtensions`.
    pub fn reflect_prevent_extensions(&mut self, recv: &Option<Value>, args: &Vec<Value>) -> (r: Result<Value, Stop>)
        requires
            old(self).wf(),
        ensures
            final(self).follows(*old(self)),
            run_value(r, *final(self)) == reflect_prevent_extensions_run(
                old(self).host(),
                old(self).pos as nat,
                opt_view(*recv),
                views(args@),
            ),
    {
        let target: Value = arg_at(args, 0);
        if !is_object(&target) {
            return Err(fail(ErrorKind::TypeError, "Reflect.preventExtensions called on non-object"));
        }

        let b: bool = self.ask_flag(Op::PreventExtensions, list1(target))?;
        Ok(Value::Bool(b))
    }

    /// `Reflect.isExtensible`.
    pub fn reflect_is_extensible(&mut self, recv: &Option<Value>, args: &Vec<Value>) -> (r: Result<Value, Stop>)
        requires
            old(self).wf(),
        ensures
            final(self).follows(*old(self)),
            run_value(r, *final(self)) == reflect_is_extensible_run(
                old(self).host(),
                old(self).pos as nat,
                opt_view(*recv),
                views(args@),
            ),
    {
        let target: Value = arg_at(args, 0);
        if !is_object(&target) {
            return Err(fail(ErrorKind::TypeError, "Reflect.isExtensible called on non-object"));
        }

        self.integrity(crate::functions::IntegrityTest::Extensible, args)
    }

    /// `Reflect.getPrototypeOf`.
    pub fn reflect_get_prototype_of(&mut self, recv: &Option<Value>, args: &Vec<Value>) -> (r: Result<Value, Stop>)
        requires
            old(self).wf(),
        ensures
            final(self).follows(*old(self)),
            run_value(r, *final(self)) == reflect_get_prototype_of_run(
                old(self).host(),
                old(self).pos as nat,
                opt_view(*recv),
                views(args@),
            ),
    {
        let target: Value = arg_at(args, 0);
        if !is_object(&target) {
            return Err(fail(ErrorKind::TypeError, "Reflect.getPrototypeOf called on non-object"));
        }

        self.proto_of(&target)
    }

    /// `Reflect.ownKeys`.
    pub fn reflect_own_keys(&mut self, recv: &Option<Value>, args: &Vec<Value>) -> (r: Result<Value, Stop>)
        requires
            old(self).wf(),
        ensures
            final(self).follows(*old(self)),
            run_value(r, *final(self)) == reflect_own_keys_run(
                old(self).host(),
                old(self).pos as nat,
                opt_view(*recv),
                views(args@),
            ),
    {
        let target: Value = arg_at(args, 0);
        if !is_object(&target) {
            return Err(fail(ErrorKind::TypeError, "Reflect.ownKeys called on non-object"));
        }

        let keys: Vec<Value> = self.own_keys(&target)?;
        self.ask_value(Op::NewArray, keys)
    }

    /// `Reflect.getOwnPropertyDescriptor`.
    pub fn reflect_get_own_property_descriptor(&mut self, recv: &Option<Value>, args: &Vec<Value>) -> (r: Result<Value, Stop>)
        requires
            old(self).wf(),
        ensures
            final(self).follows(*old(self)),
            run_value(r, *final(self)) == reflect_get_own_property_descriptor_run(
                old(self).host(),
                old(self).pos as nat,
                opt_view(*recv),
                views(args@),
            ),
    {
        let target: Value = arg_at(args, 0);
        if !is_object(&target) {
            return Err(fail(ErrorKind::TypeError, "Reflect.getOwnPropertyDescriptor called on non-object"));
        }
        self.object_get_own_property_descriptor(&None, args)
    }

    /// `Reflect.apply`.
    pub fn reflect_apply(&mut self, recv: &Option<Value>, args: &Vec<Value>) -> (r: Result<Value, Stop>)
        requires
            old(self).wf(),
        ensures
            final(self).follows(*old(self)),
            run_value(r, *final(self)) == reflect_apply_run(
                old(self).host(),
                old(self).pos as nat,
                opt_view(*recv),
                views(args@),
            ),
    {
        let f: Value = arg_at(args, 0);
        if !is_callable(&f) {
            return Err(fail(ErrorKind::TypeError, "Reflect.apply target is not callable"));
        }
        let list: Value = arg_at(args, 2);
        if !is_object(&list) {
            return Err(
                fail(ErrorKind::TypeError, "CreateListFromArrayLike called on non-object"),
            );
        }
        let list: Vec<Value> = self.generic_array_read(&list)?;
        let this: Option<Value> = if args.len() > 1 {
            Some(args[1].clone())
        } else {
            None
        };
        self.call_value(f, this, list)
    }

    /// `Reflect.construct`.
    pub fn reflect_construct(&mut self, recv: &Option<Value>, args: &Vec<Value>) -> (r: Result<Value, Stop>)
        requires
            old(self).wf(),
        ensures
            final(self).follows(*old(self)),
            run_value(r, *final(self)) == reflect_construct_run(
                old(self).host(),
                old(self).pos as nat,
                opt_view(*recv),
                views(args@),
            ),
    {
        let f: Value = arg_at(args, 0);
        if !self.ask_flag(Op::IsConstructor, list1(f.clone()))? {
            return Err(
                fail(ErrorKind::TypeError, "Reflect.construct target is not a constructor"),
            );
        }
        if args.len() > 2 {
            if !self.ask_flag(Op::IsConstructor, list1(args[2].clone()))? {
                return Err(
                    fail(ErrorKind::TypeError, "Reflect.construct newTarget is not a constructor"),
                );
            }
        }
        let list: Value = arg_at(args, 1);
        if !is_object(&list) {
            return Err(
                fail(ErrorKind::TypeError, "CreateListFromArrayLike called on non-object"),
            );
        }
        let mut list: Vec<Value> = self.generic_array_read(&list)?;
        let ghost back = views(list@);
        let target: Value = if args.len() > 2 {
            args[2].clone()
        } else {
            f.clone()
        };
        let mut all: Vec<Value> = list2(f, target);
        let ghost front = views(all@);
        all.append(&mut list);
        assert(views(all@) =~= front + back);
        self.ask_value(Op::ConstructWith, all)
    }

    /// `Reflect.defineProperty`.
    pub fn reflect_define_property(&mut self, recv: &Option<Value>, args: &Vec<Value>) -> (r: Result<Value, Stop>)
        requires
            old(self).wf(),
        ensures
            final(self).follows(*old(self)),
            run_value(r, *final(self)) == reflect_define_property_run(
                old(self).host(),
                old(self).pos as nat,
                opt_view(*recv),
                views(args@),
            ),
    {
        let target: Value = arg_at(args, 0);
        if !is_object(&target) {
            return Err(fail(ErrorKind::TypeError, "Reflect.defineProperty called on non-object"));
        }
        match self.object_define_property(&None, args) {
            Ok(_) => Ok(Value::Bool(true)),
            Err(Stop::Throw(Exception::Error(kind, message))) => if tells_refusal(message.as_str()) {
                Ok(Value::Bool(false))
            } else {
                Err(Stop::Throw(Exception::Error(kind, message)))
            },
            Err(Stop::Throw(Exception::Thrown(n))) => {
                let question: Vec<Value> = list1(
                    crate::host::key_of_thrown(&Exception::Thrown(n)),
                );
                let message: String = self.ask_text(Op::ThrownMessage, question)?;
                if tells_refusal(message.as_str()) {
                    Ok(Value::Bool(false))
                } else {
                    Err(Stop::Throw(Exception::Thrown(n)))
                }
            },
            Err(e) => Err(e),
        }
    }

    #[verifier::loop_isolation(false)]
    fn undeleted(&mut self, f: &Value, keys: &Vec<String>, start: Vec<String>) -> (r: Result<Vec<String>, Stop>)
        requires
            old(self).wf(),
        ensures
            final(self).follows(*old(self)),
            names_run(r, *final(self)) == undeleted(
                old(self).host(),
                old(self).pos as nat,
                f@,
                text_views(keys@),
                0,
                text_views(start@),
            ),
    {
        let ghost all = text_views(keys@);
        let ghost goal = undeleted(self.host(), self.pos as nat, f@, all, 0, text_views(start@));
        let mut out: Vec<String> = start;
        let mut i: usize = 0;
        while i < keys.len()
            invariant
                i <= keys@.len(),
                self.follows(*old(self)),
                goal == undeleted(
                    self.host(),
                    self.pos as nat,
                    f@,
                    all,
                    i as int,
                    text_views(out@),
                ),
            decreases keys@.len() - i,
        {
            assert(all[i as int] == keys@[i as int]@);
            let gone: bool = self.ask_flag(
                Op::NativeDeleted,
                list2(f.clone(), Value::Str(keys[i].clone())),
            )?;
            if !gone {
                let ghost before = text_views(out@);
                out.push(keys[i].clone());
                assert(text_views(out@) =~= before.push(keys@[i as int]@));
            }
            i = i + 1;
        }
        Ok(out)
    }

    fn still_has(&mut self, f: &Value, key: &str) -> (r: Result<bool, Stop>)
        requires
            old(self).wf(),
        ensures
            final(self).follows(*old(self)),
            run_plain(r, *final(self)) == still_has(
                old(self).host(),
                old(self).pos as nat,
                f@,
                key@,
            ),
    {
        match self.ask_slot(
            Op::OwnSlot,
            list2(f.clone(), Value::Str(concat_text("\0fndel:", key))),
        )? {
            Some(_) => Ok(false),
            None => Ok(true),
        }
    }

    fn class_has(&mut self, v: &Value, key: &str) -> (r: Result<bool, Stop>)
        requires
            old(self).wf(),
        ensures
            final(self).follows(*old(self)),
            run_plain(r, *final(self)) == class_has(
                old(self).host(),
                old(self).pos as nat,
                v@,
                key@,
            ),
    {
        match self.ask_slot(
            Op::OwnSlot,
            list2(v.clone(), Value::Str(concat_text("\0clsdel:", key))),
        )? {
            Some(_) => Ok(false),
            None => Ok(true),
        }
    }

    #[verifier::loop_isolation(false)]
    fn present_names(&mut self, v: &Value, n: usize) -> (r: Result<Vec<String>, Stop>)
        requires
            old(self).wf(),
        ensures
            final(self).follows(*old(self)),
            names_run(r, *final(self)) == present_names(
                old(self).host(),
                old(self).pos as nat,
                v@,
                0,
                n as nat,
                Seq::empty(),
            ),
    {
        let ghost goal = present_names(
            self.host(),
            self.pos as nat,
            v@,
            0,
            n as nat,
            Seq::empty(),
        );
        let mut out: Vec<String> = Vec::new();
        assert(text_views(out@) =~= Seq::<Seq<char>>::empty());
        let mut i: usize = 0;
        while i < n
            invariant
                i <= n,
                self.follows(*old(self)),
                goal == present_names(
                    self.host(),
                    self.pos as nat,
                    v@,
                    i as nat,
                    n as nat,
                    text_views(out@),
                ),
            decreases n - i,
        {
            let key: String = decimal_text(i as u64);
            let hole: bool = self.ask_flag(
                Op::ArrayHole,
                list2(v.clone(), text_value(key.as_str())),
            )?;
            if !hole {
                let ghost before = text_views(out@);
                out.push(key);
                assert(text_views(out@) =~= before.push(decimal(i as nat)));
            }
            i = i + 1;
        }
        Ok(out)
    }

    pub fn indices_of_array(&mut self, v: &Value) -> (r: Result<Vec<String>, Stop>)
        requires
            old(self).wf(),
        ensures
            final(self).follows(*old(self)),
            names_run(r, *final(self)) == indices_of_array(
                old(self).host(),
                old(self).pos as nat,
                v@,
            ),
    {
        let l: Vec<Value> = self.ask_list(Op::Elements, list1(v.clone()))?;
        if self.ask_flag(Op::HasHoles, list1(v.clone()))? {
            self.present_names(v, l.len())
        } else {
            Ok(names_below(l.len()))
        }
    }

    fn own_names_of_array(&mut self, v: &Value) -> (r: Result<Vec<String>, Stop>)
        requires
            old(self).wf(),
        ensures
            final(self).follows(*old(self)),
            names_run(r, *final(self)) == own_names_of_array(
                old(self).host(),
                old(self).pos as nat,
                v@,
            ),
    {
        let indices: Vec<String> = self.indices_of_array(v)?;
        let props: Vec<Value> = self.ask_list(Op::ArrayProps, list1(v.clone()))?;
        Ok(names_of_array(indices, &texts_of(&props)))
    }

    #[verifier::loop_isolation(false)]
    fn enumerable_of_array(&mut self, v: &Value, names: &Vec<String>) -> (r: Result<Vec<String>, Stop>)
        requires
            old(self).wf(),
        ensures
            final(self).follows(*old(self)),
            names_run(r, *final(self)) == enumerable_of_array(
                old(self).host(),
                old(self).pos as nat,
                v@,
                text_views(names@),
                0,
                Seq::empty(),
            ),
    {
        let ghost all = text_views(names@);
        let ghost goal = enumerable_of_array(self.host(), self.pos as nat, v@, all, 0, Seq::empty());
        let mut out: Vec<String> = Vec::new();
        let mut i: usize = 0;
        assert(text_views(out@) =~= Seq::<Seq<char>>::empty());
        while i < names.len()
            invariant
                i <= names@.len(),
                self.follows(*old(self)),
                goal == enumerable_of_array(
                    self.host(),
                    self.pos as nat,
                    v@,
                    all,
                    i as int,
                    text_views(out@),
                ),
            decreases names@.len() - i,
        {
            assert(all[i as int] == names@[i as int]@);
            if !same_text(names[i].as_str(), "length") {
                let b: Bits = self.attributes(v, names[i].as_str())?;
                if b.enumerable {
                    let ghost before = text_views(out@);
                    out.push(names[i].clone());
                    assert(text_views(out@) =~= before.push(all[i as int]));
                }
            }
            i = i + 1;
        }
        Ok(out)
    }

    /// The own string keys of a value, also those that are not enumerable.
    pub fn own_names(&mut self, v: &Value) -> (r: Result<Vec<Value>, Stop>)
        requires
            old(self).wf(),
        ensures
            final(self).follows(*old(self)),
            run_list(r, *final(self)) == own_names(
                old(self).host(),
                old(self).pos as nat,
                v@,
            ),
    {
        match v {
            Value::Ref(Kind::Obj, _) => {
                let l: Vec<Value> = self.ask_list(Op::StoredKeys, list1(v.clone()))?;
                Ok(values_of_texts(&keys_of_function(&texts_of(&l), false, false, false)))
            },
            Value::Ref(Kind::Arr, _) => {
                let names: Vec<String> = self.own_names_of_array(v)?;
                Ok(values_of_texts(&names))
            },
            Value::Ref(Kind::Instance, _) => {
                let l: Vec<Value> = self.ask_list(Op::StoredKeys, list1(v.clone()))?;
                let keys: Vec<String> = keep_string_keys(&texts_of(&l));
                Ok(values_of_texts(&keys_of_function(&keys, false, false, false)))
            },
            Value::Ref(Kind::Class, _) => {
                let l: Vec<Value> = self.ask_list(Op::StoredKeys, list1(v.clone()))?;
                let length: bool = self.class_has(v, "length")?;
                let name: bool = self.class_has(v, "name")?;
                let keys: Vec<String> = keep_string_keys(&texts_of(&l));
                Ok(values_of_texts(&keys_of_function(&keys, length, name, true)))
            },
            Value::Native(_) => {
                let mut two: Vec<String> = Vec::new();
                two.push("length".to_owned());
                two.push("name".to_owned());
                assert(text_views(two@) =~= seq!["length"@, "name"@]);
                let none: Vec<String> = Vec::new();
                assert(text_views(none@) =~= Seq::<Seq<char>>::empty());
                let own: Vec<String> = self.undeleted(v, &two, none)?;
                let members: Vec<Value> = self.ask_list(Op::NativeKeys, list1(v.clone()))?;
                let mut some: Vec<String> = self.undeleted(v, &texts_of(&members), own)?;
                let added: Vec<Value> = self.ask_list(Op::NativeAddedKeys, list1(v.clone()))?;
                let ghost front = text_views(some@);
                let mut given: Vec<String> = keep_given(&texts_of(&added));
                let ghost back = text_views(given@);
                some.append(&mut given);
                assert(text_views(some@) =~= front + back);
                Ok(values_of_texts(&some))
            },
            Value::Proxy(..) => {
                let l: Vec<Value> = self.ask_list(Op::ProxyKeys, list1(v.clone()))?;
                Ok(keep_strings(&l))
            },
            Value::Ref(Kind::Fn, _) => {
                let l: Vec<Value> = self.ask_list(Op::StoredKeys, list1(v.clone()))?;
                let length: bool = self.still_has(v, "length")?;
                let name: bool = self.still_has(v, "name")?;
                let kept: bool = self.still_has(v, "prototype")?;
                let has: bool = self.ask_flag(Op::HasPrototype, list1(v.clone()))?;
                Ok(values_of_texts(&keys_of_function(&texts_of(&l), length, name, kept && has)))
            },
            _ => {
                let none: Vec<Value> = Vec::new();
                assert(views(none@) =~= Seq::<Val>::empty());
                Ok(none)
            },
        }
    }

    /// The own keys of an object: its names, then its symbols.
    pub fn own_keys(&mut self, v: &Value) -> (r: Result<Vec<Value>, Stop>)
        requires
            old(self).wf(),
        ensures
            final(self).follows(*old(self)),
            run_list(r, *final(self)) == own_keys(
                old(self).host(),
                old(self).pos as nat,
                v@,
            ),
    {
        if matches!(v, Value::Proxy(..)) {
            return self.ask_list(Op::ProxyKeys, list1(v.clone()));
        }
        let mut names: Vec<Value> = self.own_names(v)?;
        let ghost front = views(names@);
        let mut symbols: Vec<Value> = self.own_symbols(v)?;
        let ghost back = views(symbols@);
        names.append(&mut symbols);
        assert(views(names@) =~= front + back);
        Ok(names)
    }

    #[verifier::loop_isolation(false)]
    fn enumerable_strings(&mut self, v: &Value, keys: &Vec<Value>) -> (r: Result<Vec<Value>, Stop>)
        requires
            old(self).wf(),
        ensures
            final(self).follows(*old(self)),
            run_list(r, *final(self)) == enumerable_strings(
                old(self).host(),
                old(self).pos as nat,
                v@,
                views(keys@),
                0,
                Seq::empty(),
            ),
    {
        let ghost all = views(keys@);
        let ghost goal = enumerable_strings(self.host(), self.pos as nat, v@, all, 0, Seq::empty());
        let mut out: Vec<Value> = Vec::new();
        let mut i: usize = 0;
        assert(views(out@) =~= Seq::<Val>::empty());
        while i < keys.len()
            invariant
                i <= keys@.len(),
                self.follows(*old(self)),
                goal == enumerable_strings(
                    self.host(),
                    self.pos as nat,
                    v@,
                    all,
                    i as int,
                    views(out@),
                ),
            decreases keys@.len() - i,
        {
            assert(all[i as int] == keys@[i as int]@);
            if matches!(&keys[i], Value::Str(_)) {
                let desc: Value = self.object_get_own_property_descriptor(
                    &None,
                    &list2(v.clone(), keys[i].clone()),
                )?;
                if self.says_enumerable(&desc)? {
                    let ghost before = views(out@);
                    out.push(keys[i].clone());
                    assert(views(out@) =~= before.push(keys@[i as int]@));
                }
            }
            i = i + 1;
        }
        Ok(out)
    }

    /// The own enumerable string keys of a value.
    pub fn enumerable_names(&mut self, v: &Value) -> (r: Result<Vec<Value>, Stop>)
        requires
            old(self).wf(),
        ensures
            final(self).follows(*old(self)),
            run_list(r, *final(self)) == enumerable_names(
                old(self).host(),
                old(self).pos as nat,
                v@,
            ),
    {
        match v {
            Value::Proxy(..) => {
                let l: Vec<Value> = self.ask_list(Op::ProxyKeys, list1(v.clone()))?;
                self.enumerable_strings(v, &l)
            },
            Value::Ref(Kind::Obj, _) => self.ask_list(Op::Keys, list1(v.clone())),
            Value::Ref(Kind::Arr, _) => {
                let names: Vec<String> = self.own_names_of_array(v)?;
                let shown: Vec<String> = self.enumerable_of_array(v, &names)?;
                Ok(values_of_texts(&shown))
            },
            Value::Ref(Kind::Instance, _) => {
                let l: Vec<Value> = self.ask_list(Op::StoredKeys, list1(v.clone()))?;
                Ok(values_of_texts(&keep_listed_keys(&texts_of(&l), true)))
            },
            Value::Ref(Kind::Class, _) => {
                let l: Vec<Value> = self.ask_list(Op::StoredFields, list1(v.clone()))?;
                Ok(values_of_texts(&keep_listed_keys(&keys_in_reply(&l), false)))
            },
            Value::Ref(Kind::Fn, _) => {
                let l: Vec<Value> = self.ask_list(Op::StoredKeys, list1(v.clone()))?;
                Ok(values_of_texts(&keep_function_keys(&texts_of(&l))))
            },
            _ => {
                let none: Vec<Value> = Vec::new();
                assert(views(none@) =~= Seq::<Val>::empty());
                Ok(none)
            },
        }
    }

    fn listing_target(&mut self, v: Value) -> (r: Result<Value, Stop>)
        requires
            old(self).wf(),
        ensures
            final(self).follows(*old(self)),
            run_value(r, *final(self)) == listing_target(
                old(self).host(),
                old(self).pos as nat,
                v@,
            ),
    {
        if is_nullish(&v) {
            return Err(fail(ErrorKind::TypeError, "Cannot convert undefined or null to object"));
        }
        if matches!(v, Value::Str(_)) {
            return self.to_object_value(v);
        }
        Ok(v)
    }

    /// `Object.keys`.
    pub fn object_keys(&mut self, recv: &Option<Value>, args: &Vec<Value>) -> (r: Result<Value, Stop>)
        requires
            old(self).wf(),
        ensures
            final(self).follows(*old(self)),
            run_value(r, *final(self)) == object_keys_run(
                old(self).host(),
                old(self).pos as nat,
                opt_view(*recv),
                views(args@),
            ),
    {
        let v: Value = self.listing_target(arg_at(args, 0))?;
        let keys: Vec<Value> = self.enumerable_names(&v)?;
        self.ask_value(Op::NewArray, keys)
    }

    /// `Object.getOwnPropertyNames`.
    pub fn object_get_own_property_names(&mut self, recv: &Option<Value>, args: &Vec<Value>) -> (r: Result<Value, Stop>)
        requires
            old(self).wf(),
        ensures
            final(self).follows(*old(self)),
            run_value(r, *final(self)) == object_get_own_property_names_run(
                old(self).host(),
                old(self).pos as nat,
                opt_view(*recv),
                views(args@),
            ),
    {
        let v: Value = self.listing_target(arg_at(args, 0))?;
        let keys: Vec<Value> = self.own_names(&v)?;
        self.ask_value(Op::NewArray, keys)
    }

    fn object_listing(&mut self, args: &Vec<Value>, keys: bool) -> (r: Result<Value, Stop>)
        requires
            old(self).wf(),
        ensures
            final(self).follows(*old(self)),
            run_value(r, *final(self)) == object_listing(
                old(self).host(),
                old(self).pos as nat,
                views(args@),
                keys,
            ),
    {
        let v: Value = arg_at(args, 0);
        if is_nullish(&v) {
            return Err(fail(ErrorKind::TypeError, "Cannot convert undefined or null to object"));
        }
        let o: Value = self.to_object_value(v)?;
        let l: Vec<Value> = self.enumerable_own_live(&o, keys, true)?;
        self.ask_value(Op::NewArray, l)
    }

    /// `Object.values`.
    pub fn object_values(&mut self, recv: &Option<Value>, args: &Vec<Value>) -> (r: Result<Value, Stop>)
        requires
            old(self).wf(),
        ensures
            final(self).follows(*old(self)),
            run_value(r, *final(self)) == object_values_run(
                old(self).host(),
                old(self).pos as nat,
                opt_view(*recv),
                views(args@),
            ),
    {
        self.object_listing(args, false)
    }

    /// `Object.entries`.
    pub fn object_entries(&mut self, recv: &Option<Value>, args: &Vec<Value>) -> (r: Result<Value, Stop>)
        requires
            old(self).wf(),
        ensures
            final(self).follows(*old(self)),
            run_value(r, *final(self)) == object_entries_run(
                old(self).host(),
                old(self).pos as nat,
                opt_view(*recv),
                views(args@),
            ),
    {
        self.object_listing(args, true)
    }
}

proof fn lemma_add_names_once(out: Seq<Seq<char>>, keys: Seq<Seq<char>>, n: nat)
    requires
        out.no_duplicates(),
        n <= keys.len(),
    ensures
        add_names(out, keys, n).no_duplicates(),
    decreases n,
{
    if n > 0 {
        lemma_add_names_once(out, keys, (n - 1) as nat);
        lemma_with_key_once(add_names(out, keys, (n - 1) as nat), keys[n - 1]);
    }
}

proof fn lemma_with_key_once(out: Seq<Seq<char>>, key: Seq<char>)
    requires
        out.no_duplicates(),
    ensures
        with_key(out, key).no_duplicates(),
{
    let r = with_key(out, key);
    assert forall|i: int, j: int| 0 <= i < r.len() && 0 <= j < r.len() && i != j implies r[i]
        != r[j] by {
        if !out.contains(key) {
            if i == out.len() {
                assert(out[j] != key);
            } else if j == out.len() {
                assert(out[i] != key);
            }
        }
    }
}

proof fn lemma_index_keys_increase(keys: Seq<Seq<char>>)
    ensures
        crate::array_iter::increasing(index_keys(keys)),
    decreases keys.len(),
{
    if keys.len() > 0 {
        lemma_index_keys_increase(keys.drop_last());
        match index_in(keys.last()) {
            Some(k) => {
                crate::array_iter::lemma_insert_index(index_keys(keys.drop_last()), k);
            },
            None => {},
        }
    }
}

proof fn lemma_with_key_holds(out: Seq<Seq<char>>, key: Seq<char>, x: Seq<char>)
    ensures
        with_key(out, key).contains(key),
        out.contains(x) ==> with_key(out, key).contains(x),
{
    let r = with_key(out, key);
    if !out.contains(key) {
        assert(r[out.len() as int] == key);
    }
    if out.contains(x) {
        let i = out.index_of(x);
        assert(out[i] == x);
        assert(r[i] == x);
    }
}

proof fn lemma_add_names_holds(out: Seq<Seq<char>>, keys: Seq<Seq<char>>, n: nat, x: Seq<char>)
    requires
        n <= keys.len(),
    ensures
        out.contains(x) ==> add_names(out, keys, n).contains(x),
        keys.take(n as int).contains(x) && !internal_key(x) && index_in(x) is None ==> add_names(
            out,
            keys,
            n,
        ).contains(x),
    decreases n,
{
    if n > 0 {
        let before = add_names(out, keys, (n - 1) as nat);
        lemma_add_names_holds(out, keys, (n - 1) as nat, x);
        lemma_with_key_holds(before, keys[n - 1], x);
        if keys.take(n as int).contains(x) {
            let i = keys.take(n as int).index_of(x);
            assert(keys.take(n as int)[i] == x);
            if i < n - 1 {
                assert(keys.take(n - 1)[i] == x);
            }
        }
    }
}

proof fn lemma_index_keys_hold(keys: Seq<Seq<char>>, x: Seq<char>)
    requires
        keys.contains(x),
        !internal_key(x),
        index_in(x) is Some,
    ensures
        index_keys(keys).contains(index_in(x)->0),
    decreases keys.len(),
{
    let i = keys.index_of(x);
    assert(keys[i] == x);
    let front = keys.drop_last();
    lemma_index_keys_increase(front);
    if index_in(keys.last()) is Some {
        crate::array_iter::lemma_insert_index(index_keys(front), index_in(keys.last())->0);
    }
    if i < keys.len() - 1 {
        assert(front[i] == x);
        lemma_index_keys_hold(front, x);
    }
}

/// No name of a function is listed twice, and every key that is not the engine's own is listed.
pub proof fn law_function_names_once(
    keys: Seq<Seq<char>>,
    length: bool,
    name: bool,
    prototype: bool,
)
    ensures
        function_names(keys, length, name, prototype).no_duplicates(),
        forall|x: Seq<char>|
            keys.contains(x) && !internal_key(x) ==> function_names(
                keys,
                length,
                name,
                prototype,
            ).contains(x),
{
    let indices = index_keys(keys);
    lemma_index_keys_increase(keys);
    let a = Seq::new(indices.len(), |i: int| decimal(indices[i] as nat));
    assert(a.no_duplicates()) by {
        assert forall|i: int, j: int| 0 <= i < a.len() && 0 <= j < a.len() && i != j implies a[i]
            != a[j] by {
            crate::text::law_index_keys(indices[i] as nat, indices[j] as nat);
        }
    }
    lemma_with_key_once(a, "length"@);
    let b = with_key_if(a, "length"@, length);
    lemma_with_key_once(b, "name"@);
    let c = with_key_if(b, "name"@, name);
    lemma_with_key_once(c, "prototype"@);
    let d = with_key_if(c, "prototype"@, prototype);
    lemma_add_names_once(d, keys, keys.len());
    assert forall|x: Seq<char>| keys.contains(x) && !internal_key(x) implies function_names(
        keys,
        length,
        name,
        prototype,
    ).contains(x) by {
        lemma_add_names_holds(d, keys, keys.len(), x);
        if index_in(x) is Some {
            lemma_index_keys_hold(keys, x);
            let i = indices.index_of(index_in(x)->0);
            assert(indices[i] == index_in(x)->0);
            assert(a[i] == x);
            assert(a.contains(x));
            lemma_with_key_holds(a, "length"@, x);
            lemma_with_key_holds(b, "name"@, x);
            lemma_with_key_holds(c, "prototype"@, x);
        } else {
            assert(keys.take(keys.len() as int) =~= keys);
        }
    }
}

proof fn lemma_with_keys_once(out: Seq<Seq<char>>, keys: Seq<Seq<char>>, n: nat)
    requires
        out.no_duplicates(),
        n <= keys.len(),
    ensures
        with_keys(out, keys, n).no_duplicates(),
    decreases n,
{
    if n > 0 {
        lemma_with_keys_once(out, keys, (n - 1) as nat);
        lemma_with_key_once(with_keys(out, keys, (n - 1) as nat), keys[n - 1]);
    }
}

proof fn lemma_with_keys_holds(out: Seq<Seq<char>>, keys: Seq<Seq<char>>, n: nat, x: Seq<char>)
    requires
        n <= keys.len(),
    ensures
        out.contains(x) ==> with_keys(out, keys, n).contains(x),
        keys.take(n as int).contains(x) ==> with_keys(out, keys, n).contains(x),
    decreases n,
{
    if n > 0 {
        let before = with_keys(out, keys, (n - 1) as nat);
        lemma_with_keys_holds(out, keys, (n - 1) as nat, x);
        lemma_with_key_holds(before, keys[n - 1], x);
        if keys.take(n as int).contains(x) {
            let i = keys.take(n as int).index_of(x);
            assert(keys.take(n as int)[i] == x);
            if i < n - 1 {
                assert(keys.take(n - 1)[i] == x);
            }
        }
    }
}

/// The names of an array without holes are its indices, its length and its other properties that
/// are not the engine's own, none of them twice.
pub proof fn law_array_names(n: nat, props: Seq<Seq<char>>, i: nat, x: Seq<char>)
    ensures
        array_names(index_names(n), props).no_duplicates(),
        i < n ==> array_names(index_names(n), props).contains(decimal(i)),
        array_names(index_names(n), props).contains("length"@),
        public_keys(props).contains(x) ==> array_names(index_names(n), props).contains(x),
{
    let a = index_names(n);
    assert forall|i: int, j: int| 0 <= i < a.len() && 0 <= j < a.len() && i != j implies a[i]
        != a[j] by {
        crate::text::law_index_keys(i as nat, j as nat);
    }
    lemma_with_key_once(a, "length"@);
    lemma_with_key_holds(a, "length"@, decimal(i));
    let b = with_key(a, "length"@);
    let more = public_keys(props);
    lemma_with_keys_once(b, more, more.len());
    lemma_with_keys_holds(b, more, more.len(), "length"@);
    lemma_with_keys_holds(b, more, more.len(), x);
    lemma_with_keys_holds(b, more, more.len(), decimal(i));
    assert(more.take(more.len() as int) =~= more);
    if i < n {
        assert(a[i as int] == decimal(i));
        assert(a.contains(decimal(i)));
    }
}

} // verus!
