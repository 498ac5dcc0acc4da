//! What the functions of objects, of collections and of wrappers come to.
use crate::array_iter::{increasing, insert_index, lemma_insert_index};
use crate::brands::{
    as_big_int, big_int_ctor_run, entry_rows, error_ctor_run, iterated_items, map_ctor_run,
    map_proto_run, map_size_run, set_ctor_run, set_proto_run, set_size_run, symbol_desc_get_run,
};
use crate::host::{
    ask_value, done, get, settles, Answer, Halt, Host, Intrinsic, Op, Question,
};
use crate::number::Num;
use crate::objects::{
    array_read, enumerable_key, enumerate_names, listed, read_up, set_or_throw, to_object,
};
use crate::property::internal_key;
use crate::reflect::{
    add_names, index_keys, plain_names, reflect_apply_run, reflect_delete_property_run,
    reflect_get_prototype_of_run, reflect_get_run, reflect_has_run, reflect_is_extensible_run,
    reflect_own_keys_run, reflect_prevent_extensions_run, reflect_set_prototype_of_run,
    reflect_set_run, string_keys,
};
use crate::entries::private_name;
use crate::text::{decimal, index_in};
use crate::value::{callable, object, ErrorKind, Kind, Val};
use vstd::prelude::*;

verus! {

/// What the functions of `Reflect` that take a key ask of the engine: each of them once, for the
/// key of its argument.
pub proof fn law_reflected(h: Host, target: Val, k: Val, v: Val, r: Val, key: Seq<char>)
    requires
        object(target),
        h.len == 1,
        (h.reply)(0, Question { op: Op::ToKey, args: seq![k] }) == Answer::Value(Val::Str(key)),
    ensures
        reflect_get_run(h, 0, None, seq![target, k]).out == Err::<Val, _>(
            Halt::Ask(Question { op: Op::Get, args: seq![target, Val::Str(key)] }),
        ),
        reflect_set_run(h, 0, None, seq![target, k, v]).out == Err::<Val, _>(
            Halt::Ask(Question { op: Op::Assign, args: seq![target, Val::Str(key), v, target] }),
        ),
        reflect_set_run(h, 0, None, seq![target, k, v, r]).out == Err::<Val, _>(
            Halt::Ask(Question { op: Op::Assign, args: seq![target, Val::Str(key), v, r] }),
        ),
        reflect_has_run(h, 0, None, seq![target, k]).out == Err::<Val, _>(
            Halt::Ask(Question { op: Op::Has, args: seq![target, Val::Str(key)] }),
        ),
        reflect_delete_property_run(h, 0, None, seq![target, k]).out == Err::<Val, _>(
            Halt::Ask(Question { op: Op::Delete, args: seq![target, Val::Str(key)] }),
        ),
{
    assert(seq![target, k][0] == target && seq![target, k][1] == k);
    let three = seq![target, k, v];
    assert(three[0] == target && three[1] == k && three[2] == v);
    let four = seq![target, k, v, r];
    assert(four[0] == target && four[1] == k && four[2] == v && four[3] == r);
}

/// What the engine says of a property is what `Reflect` says.
pub proof fn law_reflected_answer(h: Host, target: Val, k: Val, key: Seq<char>, b: bool)
    requires
        object(target),
        h.len == 2,
        (h.reply)(0, Question { op: Op::ToKey, args: seq![k] }) == Answer::Value(Val::Str(key)),
    ensures
        (h.reply)(1, Question { op: Op::Has, args: seq![target, Val::Str(key)] }) == Answer::Value(
            Val::Bool(b),
        ) ==> reflect_has_run(h, 0, None, seq![target, k]) == done(Val::Bool(b), 2),
        (h.reply)(1, Question { op: Op::Delete, args: seq![target, Val::Str(key)] })
            == Answer::Value(Val::Bool(b)) ==> reflect_delete_property_run(
            h,
            0,
            None,
            seq![target, k],
        ) == done(Val::Bool(b), 2),
{
    assert(seq![target, k][0] == target && seq![target, k][1] == k);
}

/// A prototype is set that is an object or null, and no other.
pub proof fn law_prototype_set(h: Host, target: Val, proto: Val)
    requires
        object(target),
        h.len == 0,
    ensures
        object(proto) || proto is Null ==> reflect_set_prototype_of_run(
            h,
            0,
            None,
            seq![target, proto],
        ).out == Err::<Val, _>(
            Halt::Ask(Question { op: Op::SetProto, args: seq![target, proto] }),
        ),
        !object(proto) && !(proto is Null) ==> (reflect_set_prototype_of_run(
            h,
            0,
            None,
            seq![target, proto],
        ).out matches Err(Halt::Throw(_))),
        reflect_prevent_extensions_run(h, 0, None, seq![target]).out == Err::<Val, _>(
            Halt::Ask(Question { op: Op::PreventExtensions, args: seq![target] }),
        ),
{
    assert(seq![target, proto][0] == target && seq![target, proto][1] == proto);
    assert(seq![target][0] == target);
}

/// `Reflect` takes nothing but objects.
pub proof fn law_reflect_on_no_object(h: Host, target: Val, rest: Seq<Val>)
    requires
        !object(target),
    ensures
        reflect_get_run(h, 0, None, seq![target] + rest).out matches Err(Halt::Throw(_)),
        reflect_set_run(h, 0, None, seq![target] + rest).out matches Err(Halt::Throw(_)),
        reflect_has_run(h, 0, None, seq![target] + rest).out matches Err(Halt::Throw(_)),
        reflect_delete_property_run(h, 0, None, seq![target] + rest).out matches Err(
            Halt::Throw(_),
        ),
        reflect_set_prototype_of_run(h, 0, None, seq![target] + rest).out matches Err(
            Halt::Throw(_),
        ),
        reflect_prevent_extensions_run(h, 0, None, seq![target] + rest).out matches Err(
            Halt::Throw(_),
        ),
        reflect_is_extensible_run(h, 0, None, seq![target] + rest).out matches Err(Halt::Throw(_)),
        reflect_get_prototype_of_run(h, 0, None, seq![target] + rest).out matches Err(
            Halt::Throw(_),
        ),
        reflect_own_keys_run(h, 0, None, seq![target] + rest).out matches Err(Halt::Throw(_)),
{
    assert((seq![target] + rest)[0] == target);
}

/// `Reflect.apply` calls the function on the value, with the elements of the list.
pub proof fn law_applied(h: Host, f: Val, t: Val, list: Val, items: Seq<Val>)
    requires
        callable(f),
        object(list),
        array_read(h, 0, list).out == Ok::<Seq<Val>, Halt>(items),
    ensures
        reflect_apply_run(h, 0, None, seq![f, t, list]) == ask_value(
            h,
            array_read(h, 0, list).pos,
            Op::Call,
            seq![f, t] + items,
        ),
{
    let args = seq![f, t, list];
    assert(args[0] == f && args[1] == t && args[2] == list);
}

/// The values that an array-like object has at its indices from `k` on.
pub open spec fn has_items(h: Host, pos: nat, o: Val, k: nat, items: Seq<Val>) -> bool
    decreases items.len() - k,
{
    k < items.len() ==> {
        let g = get(h, pos, o, decimal(k));
        &&& settles(g, items[k as int])
        &&& g.out is Ok ==> has_items(h, g.pos, o, k + 1, items)
    }
}

/// The elements of an array-like object are read in their order.
pub proof fn law_elements_read(h: Host, pos: nat, o: Val, k: nat, items: Seq<Val>)
    requires
        has_items(h, pos, o, k, items),
        k <= items.len(),
    ensures
        settles(read_up(h, pos, o, k, items.len(), items.take(k as int)), items),
    decreases items.len() - k,
{
    if k < items.len() {
        let g = get(h, pos, o, decimal(k));
        if g.out is Ok {
            law_elements_read(h, g.pos, o, k + 1, items);
            assert(items.take(k as int).push(items[k as int]) =~= items.take((k + 1) as int));
        }
    } else {
        assert(items.take(k as int) =~= items);
    }
}

/// Whether each of some names is enumerable, as the engine says when it is asked for one after the
/// other.
pub open spec fn shows(h: Host, pos: nat, o: Val, names: Seq<Seq<char>>, flags: Seq<bool>, j: int) -> bool
    decreases names.len() - j,
{
    0 <= j < names.len() ==> {
        let e = enumerable_key(h, pos, o, names[j]);
        &&& settles(e, flags[j])
        &&& e.out is Ok ==> shows(h, e.pos, o, names, flags, j + 1)
    }
}

/// The first `j` of some names, without those whose flag is not set.
pub open spec fn picked(names: Seq<Seq<char>>, flags: Seq<bool>, j: int) -> Seq<Val>
    decreases j,
{
    if j <= 0 {
        Seq::empty()
    } else if flags[j - 1] {
        picked(names, flags, j - 1).push(Val::Str(names[j - 1]))
    } else {
        picked(names, flags, j - 1)
    }
}

/// The keys of an object are its enumerable names, in their order.
pub proof fn law_keys_listed(
    h: Host,
    pos: nat,
    o: Val,
    names: Seq<Seq<char>>,
    flags: Seq<bool>,
    j: int,
)
    requires
        0 <= j <= names.len(),
        shows(h, pos, o, names, flags, j),
    ensures
        settles(
            enumerate_names(
                h,
                pos,
                o,
                names.map_values(|s: Seq<char>| Val::Str(s)),
                j,
                true,
                false,
                picked(names, flags, j),
            ),
            picked(names, flags, names.len() as int),
        ),
    decreases names.len() - j,
{
    if j < names.len() {
        let e = enumerable_key(h, pos, o, names[j]);
        if e.out is Ok {
            law_keys_listed(h, e.pos, o, names, flags, j + 1);
        }
    }
}

/// What is listed for a key is the key, its value, or an array of the two in that order.
pub proof fn law_listed(h: Host, o: Val, key: Seq<char>, v: Val)
    requires
        h.len == 1,
        (h.reply)(0, Question { op: Op::Get, args: seq![o, Val::Str(key)] }) == Answer::Value(v),
    ensures
        listed(h, 0, o, key, true, false) == done(Val::Str(key), 0),
        listed(h, 0, o, key, false, true) == done(v, 1),
        listed(h, 0, o, key, true, true).out == Err::<Val, _>(
            Halt::Ask(Question { op: Op::NewArray, args: seq![Val::Str(key), v] }),
        ),
{
}

proof fn lemma_names_after(out: Seq<Seq<char>>, keys: Seq<Seq<char>>, n: nat)
    requires
        n <= keys.len(),
    ensures
        out.len() <= add_names(out, keys, n).len(),
        forall|i: int| 0 <= i < out.len() ==> (#[trigger] add_names(out, keys, n)[i]) == out[i],
        forall|i: int|
            out.len() <= i < add_names(out, keys, n).len() ==> index_in(
                #[trigger] add_names(out, keys, n)[i],
            ) is None && !internal_key(add_names(out, keys, n)[i]),
    decreases n,
{
    if n > 0 {
        lemma_names_after(out, keys, (n - 1) as nat);
    }
}

proof fn lemma_indices_increase(keys: Seq<Seq<char>>)
    ensures
        increasing(index_keys(keys)),
        forall|i: int|
            0 <= i < index_keys(keys).len() ==> index_in(
                decimal((#[trigger] index_keys(keys)[i]) as nat),
            ) == Some(index_keys(keys)[i]),
    decreases keys.len(),
{
    if keys.len() > 0 {
        let front = keys.drop_last();
        lemma_indices_increase(front);
        if !internal_key(keys.last()) && index_in(keys.last()) is Some {
            let k = index_in(keys.last())->0;
            let all = insert_index(index_keys(front), k);
            lemma_insert_index(index_keys(front), k);
            assert forall|i: int| 0 <= i < all.len() implies index_in(
                decimal((#[trigger] all[i]) as nat),
            ) == Some(all[i]) by {
                assert(all.contains(all[i]));
                if all[i] != k {
                    let j = choose|j: int|
                        0 <= j < index_keys(front).len() && index_keys(front)[j] == all[i];
                    assert(index_keys(front)[j] == all[i]);
                }
            }
        }
    }
}

/// The names that are indices come first, the lesser before the greater.
pub proof fn law_indices_first(keys: Seq<Seq<char>>, i: int, j: int)
    requires
        0 <= i < j < plain_names(keys).len(),
        index_in(plain_names(keys)[j]) is Some,
    ensures
        index_in(plain_names(keys)[i]) is Some,
        index_in(plain_names(keys)[i])->0 < index_in(plain_names(keys)[j])->0,
{
    let indices = index_keys(keys);
    let a = Seq::new(indices.len(), |i: int| decimal(indices[i] as nat));
    lemma_indices_increase(keys);
    lemma_names_after(a, keys, keys.len());
    assert(plain_names(keys) == add_names(a, keys, keys.len()));
    assert(j < a.len());
    assert(a[j] == decimal(indices[j] as nat) && a[i] == decimal(indices[i] as nat));
}

proof fn lemma_names_before(out: Seq<Seq<char>>, keys: Seq<Seq<char>>, x: Seq<char>, n: nat)
    requires
        n <= keys.len(),
    ensures
        add_names(out, keys.push(x), n) == add_names(out, keys, n),
    decreases n,
{
    if n > 0 {
        lemma_names_before(out, keys, x, (n - 1) as nat);
    }
}

/// A new name that is no index is listed last.
pub proof fn law_new_name_last(keys: Seq<Seq<char>>, x: Seq<char>)
    requires
        index_in(x) is None,
        !internal_key(x),
        !plain_names(keys).contains(x),
    ensures
        plain_names(keys.push(x)) == plain_names(keys).push(x),
{
    assert(keys.push(x).drop_last() =~= keys);
    let indices = index_keys(keys);
    let a = Seq::new(indices.len(), |i: int| decimal(indices[i] as nat));
    lemma_names_before(a, keys, x, keys.len());
    assert(plain_names(keys) == add_names(a, keys, keys.len()));
    assert(index_keys(keys.push(x)) == indices);
}

/// The names of an object that are neither the engine's own nor private stay, and no others.
pub proof fn law_string_keys(keys: Seq<Seq<char>>, x: Seq<char>)
    ensures
        string_keys(keys).contains(x) <==> keys.contains(x) && !internal_key(x) && !private_name(x),
    decreases keys.len(),
{
    if keys.len() > 0 {
        let front = keys.drop_last();
        law_string_keys(front, x);
        let rest = string_keys(front);
        assert(keys == front.push(keys.last()));
        if front.contains(x) {
            let i = front.index_of(x);
            assert(keys[i] == x);
        }
        if keys.contains(x) && !front.contains(x) {
            let i = keys.index_of(x);
            assert(i < front.len() ==> front[i] == x);
        }
        assert(keys[keys.len() - 1] == keys.last());
        let all = rest.push(keys.last());
        assert(all[rest.len() as int] == keys.last());
        if rest.contains(x) {
            let i = rest.index_of(x);
            assert(all[i] == x);
        }
        if all.contains(x) && !rest.contains(x) {
            let i = all.index_of(x);
            assert(i < rest.len() ==> rest[i] == x);
        }
    } else {
        assert(!keys.contains(x));
        assert(!string_keys(keys).contains(x));
    }
}

/// A map has the methods of maps and a set those of sets: each is handed on with its arguments, and
/// the other kind of collection is refused.
pub proof fn law_collections(h: Host, op: u64, m: u64, s: u64, args: Seq<Val>)
    requires
        h.len == 0,
    ensures
        ({
            let map = Some(Val::Ref(Kind::MapVal, m));
            let set = Some(Val::Ref(Kind::SetVal, s));
            &&& map_proto_run(h, 0, op, map, args).out == Err::<Val, _>(
                Halt::Ask(
                    Question {
                        op: Op::MapMethod(op),
                        args: seq![Val::Ref(Kind::MapVal, m)] + args,
                    },
                ),
            )
            &&& set_proto_run(h, 0, op, set, args).out == Err::<Val, _>(
                Halt::Ask(
                    Question {
                        op: Op::SetMethod(op),
                        args: seq![Val::Ref(Kind::SetVal, s)] + args,
                    },
                ),
            )
            &&& (map_proto_run(h, 0, op, set, args).out matches Err(Halt::Throw(_)))
            &&& (set_proto_run(h, 0, op, map, args).out matches Err(Halt::Throw(_)))
            &&& (map_size_run(h, 0, set, args).out matches Err(Halt::Throw(_)))
            &&& (set_size_run(h, 0, map, args).out matches Err(Halt::Throw(_)))
        }),
{
}

/// The size of a collection is what the engine says of it.
pub proof fn law_collection_size(h: Host, m: u64, s: u64, n: Num, args: Seq<Val>)
    requires
        h.len == 1,
    ensures
        (h.reply)(0, Question { op: Op::CollectionSize, args: seq![Val::Ref(Kind::MapVal, m)] })
            == Answer::Value(Val::Num(n)) ==> map_size_run(
            h,
            0,
            Some(Val::Ref(Kind::MapVal, m)),
            args,
        ) == done(Val::Num(n), 1),
        (h.reply)(0, Question { op: Op::CollectionSize, args: seq![Val::Ref(Kind::SetVal, s)] })
            == Answer::Value(Val::Num(n)) ==> set_size_run(
            h,
            0,
            Some(Val::Ref(Kind::SetVal, s)),
            args,
        ) == done(Val::Num(n), 1),
{
}

/// Maps and sets are made where something is being made, with the arguments; a mere call is refused.
pub proof fn law_collection_made(h: Host, b: bool, recv: Option<Val>, args: Seq<Val>)
    requires
        h.len == 1,
        (h.reply)(0, Question { op: Op::HasNewTarget, args: Seq::empty() }) == Answer::Value(
            Val::Bool(b),
        ),
    ensures
        b ==> map_ctor_run(h, 0, recv, args).out == Err::<Val, _>(
            Halt::Ask(Question { op: Op::MakeMap, args }),
        ),
        b ==> set_ctor_run(h, 0, recv, args).out == Err::<Val, _>(
            Halt::Ask(Question { op: Op::MakeSet, args }),
        ),
        !b ==> (map_ctor_run(h, 0, recv, args).out matches Err(Halt::Throw(_))),
        !b ==> (set_ctor_run(h, 0, recv, args).out matches Err(Halt::Throw(_))),
{
}

/// An error is made of its kind, with the text of the message, and is what the call gives.
pub proof fn law_error_made(
    h: Host,
    kind: ErrorKind,
    recv: Option<Val>,
    v: Val,
    s: Seq<char>,
    e: Val,
    u: Val,
)
    requires
        !(v is Undefined),
        h.len == 3,
        (h.reply)(0, Question { op: Op::Display, args: seq![v] }) == Answer::Value(Val::Str(s)),
        (h.reply)(1, Question { op: Op::MakeError(kind), args: seq![Val::Str(s)] })
            == Answer::Value(e),
        (h.reply)(2, Question { op: Op::InstallCause, args: seq![e] + seq![v] }) == Answer::Value(
            u,
        ),
    ensures
        error_ctor_run(h, 0, kind, recv, seq![v]) == done(e, 3),
{
    assert(seq![v][0] == v);
}

/// The rows of keys and values that stand one after the other in a list.
pub open spec fn rows_made(h: Host, pos: nat, l: Seq<Val>, rows: Seq<Val>, i: int) -> bool
    decreases rows.len() - i,
{
    0 <= i < rows.len() ==> {
        let a = ask_value(h, pos, Op::NewArray, seq![l[2 * i], l[2 * i + 1]]);
        &&& settles(a, rows[i])
        &&& a.out is Ok ==> rows_made(h, a.pos, l, rows, i + 1)
    }
}

/// Iterating over a map gives an array for each of its keys, with the value behind the key.
pub proof fn law_entry_rows(h: Host, pos: nat, l: Seq<Val>, rows: Seq<Val>, i: int)
    requires
        0 <= i <= rows.len(),
        l.len() == 2 * rows.len(),
        rows_made(h, pos, l, rows, i),
    ensures
        settles(entry_rows(h, pos, l, 2 * i, rows.take(i)), rows),
    decreases rows.len() - i,
{
    if i < rows.len() {
        let a = ask_value(h, pos, Op::NewArray, seq![l[2 * i], l[2 * i + 1]]);
        if a.out is Ok {
            law_entry_rows(h, a.pos, l, rows, i + 1);
            assert(rows.take(i).push(rows[i]) =~= rows.take(i + 1));
            assert(2 * i + 2 == 2 * (i + 1));
        }
    } else {
        assert(rows.take(i) =~= rows);
    }
}

/// Iterating over a text gives its characters.
pub proof fn law_characters_iterated(h: Host, s: Seq<char>, i: int)
    requires
        0 <= i < s.len(),
    ensures
        iterated_items(h, 0, Val::Str(s)).out matches Ok(l) && l.len() == s.len() && l[i]
            == Val::Str(seq![s[i]]),
{
}

/// The big integer of a truth value tells which one it is, a big integer is its own.
pub proof fn law_big_int(h: Host, recv: Option<Val>, d: Seq<char>, b: bool)
    ensures
        big_int_ctor_run(h, 0, recv, seq![Val::BigInt(d)]) == done(Val::BigInt(d), 0),
        big_int_ctor_run(h, 0, recv, seq![Val::Bool(b)]) == done(
            Val::BigInt(
                if b {
                    seq!['1']
                } else {
                    seq!['0']
                },
            ),
            0,
        ),
{
    reveal_strlit("1");
    reveal_strlit("0");
    assert("1"@ =~= seq!['1'] && "0"@ =~= seq!['0']);
    assert(seq![Val::BigInt(d)][0] == Val::BigInt(d));
    assert(seq![Val::Bool(b)][0] == Val::Bool(b));
}

/// A big integer is asked of a number by its value and of a text by its reading; what gives none is
/// refused.
pub proof fn law_big_int_asked(h: Host, n: Num, s: Seq<char>)
    requires
        h.len == 0,
    ensures
        as_big_int(h, 0, Val::Num(n)).out == Err::<Option<Val>, _>(
            Halt::Ask(Question { op: Op::BigIntOfNumber, args: seq![Val::Num(n)] }),
        ),
        as_big_int(h, 0, Val::Str(s)).out == Err::<Option<Val>, _>(
            Halt::Ask(Question { op: Op::BigIntOfText, args: seq![Val::Str(s)] }),
        ),
        as_big_int(h, 0, Val::Null) == done(None::<Val>, 0),
        as_big_int(h, 0, Val::Undefined) == done(None::<Val>, 0),
{
}

/// The wrapper of a value is made with the prototype of its type and holds the value; an object is
/// its own.
pub proof fn law_wrapped(h: Host, n: Num, b: bool, proto: Val, o: u64)
    requires
        h.len == 1,
        (h.reply)(
            0,
            Question { op: Op::Intrinsic(Intrinsic::NumberPrototype), args: Seq::empty() },
        ) == Answer::Value(proto),
        (h.reply)(
            0,
            Question { op: Op::Intrinsic(Intrinsic::BooleanPrototype), args: Seq::empty() },
        ) == Answer::Value(proto),
    ensures
        to_object(h, 0, Val::Num(n)).out == Err::<Val, _>(
            Halt::Ask(
                Question {
                    op: Op::NewWrapper,
                    args: seq![Val::Num(n), proto, Val::Str("Number"@)] + Seq::<Val>::empty(),
                },
            ),
        ),
        to_object(h, 0, Val::Bool(b)).out == Err::<Val, _>(
            Halt::Ask(
                Question {
                    op: Op::NewWrapper,
                    args: seq![Val::Bool(b), proto, Val::Str("Boolean"@)] + Seq::<Val>::empty(),
                },
            ),
        ),
        to_object(h, 0, Val::Ref(Kind::Obj, o)) == done(Val::Ref(Kind::Obj, o), 0),
{
}

/// An assignment that the engine refuses is an error, any other gives nothing back.
pub proof fn law_set_or_throw(h: Host, o: Val, key: Seq<char>, v: Val, b: bool)
    requires
        h.len == 1,
        (h.reply)(0, Question { op: Op::Assign, args: seq![o, Val::Str(key), v, o] })
            == Answer::Value(Val::Bool(b)),
    ensures
        b ==> set_or_throw(h, 0, o, key, v) == done((), 1),
        !b ==> (set_or_throw(h, 0, o, key, v).out matches Err(Halt::Throw(_))),
{
}

/// The description of a symbol is the one that it was made with.
pub proof fn law_description(h: Host, id: Seq<char>, s: Seq<char>, args: Seq<Val>)
    ensures
        symbol_desc_get_run(h, 0, Some(Val::Symbol(id, Some(s))), args) == done(Val::Str(s), 0),
        symbol_desc_get_run(h, 0, Some(Val::Symbol(id, None)), args) == done(Val::Undefined, 0),
{
}

} // verus!
