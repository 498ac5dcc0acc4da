//! What members, lists of words, code points and promises come to.
use crate::array_live::count_num;
use crate::class_list::{class_contains_run, class_item_run, place_named};
use crate::code_units::{from_char_codes, from_code_points, no_code_point, utf16_text};
use crate::dates::{
    date_now_run, date_parse_run, date_to_primitive, hinted, nan,
};
use crate::elements::{list_item_run, local_name, named_locally};
use crate::functions::{
    error_is_error_run, error_stack_get_run, error_to_string_run, has_own, proxy_revocable_run,
};
use crate::globals::string_ctor_run;
use crate::host::{done, Answer, Halt, Host, Op, Question};
use crate::json::texts_in;
use crate::number::{law_safe_integers_exact, num_of, Num, MAX_SAFE};
use crate::promises::{promise_reject_run, resolvers, response_json_run};
use crate::property::internal_key;
use crate::str_ops::raw_from;
use crate::symbols::{fresh_key, registry_key, symbol_for_run, symbol_key_for_run, symbol_run};
use crate::text::{decimal, index_in};
use crate::value::{object, Kind, Native, Val};
use vstd::prelude::*;

verus! {

/// An object has what it stores under a key that is not the engine's own.
pub proof fn law_own_member(h: Host, o: u64, key: Seq<char>, v: Val)
    requires
        !internal_key(key),
        !(v is Undefined),
        h.len == 1,
        (h.reply)(
            0,
            Question { op: Op::OwnSlot, args: seq![Val::Ref(Kind::Obj, o), Val::Str(key)] },
        ) == Answer::Value(v),
        (h.reply)(
            0,
            Question { op: Op::OwnSlot, args: seq![Val::Ref(Kind::Instance, o), Val::Str(key)] },
        ) == Answer::Value(v),
    ensures
        has_own(h, 0, Val::Ref(Kind::Obj, o), key) == done(true, 1),
        has_own(h, 0, Val::Ref(Kind::Instance, o), key) == done(true, 1),
{
}

/// An array has the elements that are there, and its length.
pub proof fn law_own_element(h: Host, a: u64, key: Seq<char>, i: u64)
    requires
        index_in(key) == Some(i),
        h.len == 1,
        (h.reply)(
            0,
            Question {
                op: Op::ArrayPresent,
                args: seq![Val::Ref(Kind::Arr, a), Val::Num(count_num(i as nat))],
            },
        ) == Answer::Value(Val::Bool(true)),
    ensures
        has_own(h, 0, Val::Ref(Kind::Arr, a), key) == done(true, 1),
        index_in("length"@) is None ==> has_own(h, 0, Val::Ref(Kind::Arr, a), "length"@) == done(
            true,
            0,
        ),
{
}

/// The text of an error is read from its name and its message, in that order.
pub proof fn law_error_shown(h: Host, o: Val, n: Val, m: Val, name: Seq<char>, message: Seq<char>)
    requires
        !(n is Undefined),
        !(m is Undefined),
        name.len() > 0,
        message.len() > 0,
        h.len == 4,
        (h.reply)(0, Question { op: Op::Get, args: seq![o, Val::Str("name"@)] })
            == Answer::Value(n),
        (h.reply)(1, Question { op: Op::Display, args: seq![n] }) == Answer::Value(
            Val::Str(name),
        ),
        (h.reply)(2, Question { op: Op::Get, args: seq![o, Val::Str("message"@)] })
            == Answer::Value(m),
        (h.reply)(3, Question { op: Op::Display, args: seq![m] }) == Answer::Value(
            Val::Str(message),
        ),
    ensures
        error_to_string_run(h, 0, Some(o), Seq::empty()) == done(
            Val::Str(name + seq![':', ' '] + message),
            4,
        ),
{
    reveal_strlit(": ");
    assert(": "@ =~= seq![':', ' ']);
}

/// An error is one that is marked as one.
pub proof fn law_is_error(h: Host, recv: Option<Val>, o: u64, v: Val, s: Seq<char>)
    requires
        !(v is Undefined),
        h.len == 1,
        (h.reply)(
            0,
            Question {
                op: Op::OwnSlot,
                args: seq![Val::Ref(Kind::Obj, o), Val::Str("\0errdata"@)],
            },
        ) == Answer::Value(v),
        (h.reply)(
            0,
            Question {
                op: Op::OwnSlot,
                args: seq![Val::Ref(Kind::Obj, o), Val::Str("\0errstack"@)],
            },
        ) == Answer::Value(Val::Str(s)),
    ensures
        error_is_error_run(h, 0, recv, seq![Val::Ref(Kind::Obj, o)]) == done(
            Val::Bool(v == Val::Bool(true)),
            1,
        ),
        error_is_error_run(h, 0, recv, seq![Val::Str(s)]) == done(Val::Bool(false), 0),
        error_stack_get_run(h, 0, Some(Val::Ref(Kind::Obj, o)), Seq::empty()) == done(
            Val::Str(s),
            1,
        ),
{
    assert(seq![Val::Ref(Kind::Obj, o)][0] == Val::Ref(Kind::Obj, o));
    assert(seq![Val::Str(s)][0] == Val::Str(s));
}

/// A proxy that can be revoked comes with the function that revokes just it.
pub proof fn law_revocable(h: Host, recv: Option<Val>, t: Val, g: Val, proxy: Val, revoke: Val)
    requires
        object(t),
        object(g),
        h.len == 2,
        (h.reply)(0, Question { op: Op::NewProxy, args: seq![t, g] }) == Answer::Value(proxy),
        (h.reply)(
            1,
            Question { op: Op::NewBound, args: seq![Val::Native(Native::ProxyRevoke), proxy] },
        ) == Answer::Value(revoke),
    ensures
        proxy_revocable_run(h, 0, recv, seq![t, g]).out == Err::<Val, _>(
            Halt::Ask(
                Question {
                    op: Op::NewObject,
                    args: seq![Val::Str("proxy"@), proxy, Val::Str("revoke"@), revoke],
                },
            ),
        ),
{
    assert(seq![t, g][0] == t && seq![t, g][1] == g);
}

/// A place in a list of `len` is one from zero on and below `len`.
pub proof fn law_place_named(k: int, len: nat)
    requires
        -MAX_SAFE <= k <= MAX_SAFE,
    ensures
        place_named(num_of(k), len) == (if 0 <= k < len {
            Some(k)
        } else {
            None
        }),
{
    law_safe_integers_exact(k);
    law_safe_integers_exact(0);
    assert(num_of(0).bits == 0);
}

/// `item` of a collection is the node at that place, and null outside.
pub proof fn law_item(h: Host, a: u64, v: Val, k: int, l: Seq<Val>)
    requires
        0 <= k <= MAX_SAFE,
        h.len == 2,
        (h.reply)(0, Question { op: Op::PlainNumber, args: seq![v] }) == Answer::Value(
            Val::Num(num_of(k)),
        ),
        (h.reply)(1, Question { op: Op::Elements, args: seq![Val::Ref(Kind::Arr, a)] })
            == Answer::List(l),
    ensures
        list_item_run(h, 0, Some(Val::Ref(Kind::Arr, a)), seq![v]) == done(
            if k < l.len() {
                l[k]
            } else {
                Val::Null
            },
            2,
        ),
{
    law_place_named(k, l.len());
    law_safe_integers_exact(k);
    assert(num_of(0).bits == 0);
    assert(seq![v][0] == v);
}

proof fn lemma_texts(l: Seq<Val>)
    requires
        forall|j: int| 0 <= j < l.len() ==> (#[trigger] l[j]) is Str,
    ensures
        texts_in(l).len() == l.len(),
        forall|j: int| 0 <= j < l.len() ==> l[j] == Val::Str(#[trigger] texts_in(l)[j]),
    decreases l.len(),
{
    if l.len() > 0 {
        let front = l.drop_last();
        assert forall|j: int| 0 <= j < front.len() implies (#[trigger] front[j]) is Str by {
            assert(l[j] is Str);
        }
        lemma_texts(front);
        assert(l[l.len() - 1] is Str);
        assert forall|j: int| 0 <= j < l.len() implies l[j] == Val::Str(#[trigger] texts_in(l)[j]) by {
            if j < front.len() {
                assert(front[j] == Val::Str(texts_in(front)[j]));
            }
        }
    }
}

/// `item` and `contains` of a class list: by place, and by word.
pub proof fn law_class_words(h: Host, i: u64, v: Val, k: int, word: Seq<char>, l: Seq<Val>)
    requires
        0 <= k <= MAX_SAFE,
        h.len == 2,
        (h.reply)(0, Question { op: Op::PlainNumber, args: seq![v] }) == Answer::Value(
            Val::Num(num_of(k)),
        ),
        (h.reply)(0, Question { op: Op::Display, args: seq![v] }) == Answer::Value(
            Val::Str(word),
        ),
        (h.reply)(1, Question { op: Op::ClassTokens, args: seq![Val::Ref(Kind::ClassList, i)] })
            == Answer::List(l),
        forall|j: int| 0 <= j < l.len() ==> (#[trigger] l[j]) is Str,
    ensures
        class_item_run(h, 0, Some(Val::Ref(Kind::ClassList, i)), seq![v]) == done(
            if k < l.len() {
                l[k]
            } else {
                Val::Null
            },
            2,
        ),
        class_contains_run(h, 0, Some(Val::Ref(Kind::ClassList, i)), seq![v]) == done(
            Val::Bool(l.contains(Val::Str(word))),
            2,
        ),
{
    law_place_named(k, l.len());
    law_safe_integers_exact(k);
    assert(num_of(0).bits == 0);
    assert(seq![v][0] == v);
    let t = texts_in(l);
    lemma_texts(l);
    if t.contains(word) {
        let j = t.index_of(word);
        assert(l[j] == Val::Str(t[j]));
    }
    if l.contains(Val::Str(word)) {
        let j = l.index_of(Val::Str(word));
        assert(l[j] == Val::Str(t[j]));
    }
}

/// An attribute is found by its whole name or by what follows the last colon; the first counts.
pub proof fn law_found_locally(names: Seq<Seq<char>>, i: int, j: int, local: Seq<char>)
    requires
        0 <= i <= j < names.len(),
        names[j] == local || local_name(names[j]) == local,
        forall|m: int|
            i <= m < j ==> (#[trigger] names[m]) != local && local_name(names[m]) != local,
    ensures
        named_locally(names, i, local) == Some(names[j]),
    decreases j - i,
{
    if i < j {
        assert(names[i] != local && local_name(names[i]) != local);
        law_found_locally(names, i + 1, j, local);
    }
}

/// `String.fromCharCode` takes a number modulo the count of the code units.
pub proof fn law_from_char_code(h: Host, v: Val, k: int)
    requires
        -MAX_SAFE <= k <= MAX_SAFE,
        h.len == 1,
        (h.reply)(0, Question { op: Op::ToNumber, args: seq![v] }) == Answer::Value(
            Val::Num(num_of(k)),
        ),
    ensures
        from_char_codes(h, 0, seq![v], 0, Seq::empty()) == done(
            Val::Str(utf16_text(seq![(k % 65536) as u16])),
            1,
        ),
        0 <= k < 0xd800 ==> utf16_text(seq![(k % 65536) as u16]) == seq![k as char],
{
    law_safe_integers_exact(k);
    assert(seq![v][0] == v);
    reveal_with_fuel(from_char_codes, 2);
    let u = (k % 65536) as u16;
    assert(Seq::<u16>::empty().push(u) =~= seq![u]);
    if 0 <= k < 0xd800 {
        reveal_with_fuel(utf16_text, 2);
        assert(seq![u].skip(1) =~= Seq::empty());
        assert(utf16_text(seq![u]) =~= seq![k as char]);
    }
}

/// `String.fromCodePoint` gives the character of a code point, and refuses what is none.
pub proof fn law_from_code_point(h: Host, v: Val, k: int)
    requires
        -MAX_SAFE <= k <= MAX_SAFE,
        h.len == 1,
        (h.reply)(0, Question { op: Op::ToNumber, args: seq![v] }) == Answer::Value(
            Val::Num(num_of(k)),
        ),
    ensures
        0 <= k < 0xd800 || 0xe000 <= k <= 0x10ffff ==> from_code_points(
            h,
            0,
            seq![v],
            0,
            Seq::empty(),
        ) == done(Val::Str(seq![k as char]), 1),
        k < 0 || k > 0x10ffff ==> (from_code_points(h, 0, seq![v], 0, Seq::empty()).out matches Err(
            Halt::Throw(_),
        )),
        no_code_point(num_of(k)) <==> k < 0 || k > 0x10ffff,
{
    law_safe_integers_exact(k);
    assert(seq![v][0] == v);
    reveal_with_fuel(from_code_points, 2);
    assert(Seq::<char>::empty().push(k as char) =~= seq![k as char]);
}

/// The time now, and the time that a text stands for.
pub proof fn law_times(h: Host, recv: Option<Val>, s: Seq<char>, t: Num)
    requires
        h.len == 1,
        (h.reply)(0, Question { op: Op::Now, args: Seq::empty() }) == Answer::Value(Val::Num(t)),
        (h.reply)(0, Question { op: Op::ParseDate, args: seq![Val::Str(s)] }) == Answer::Value(
            Val::Num(t),
        ),
    ensures
        date_now_run(h, 0, recv, Seq::empty()) == done(Val::Num(t), 1),
        date_parse_run(h, 0, recv, seq![Val::Str(s)]) == done(Val::Num(t), 1),
        date_parse_run(h, 0, recv, Seq::empty()) == done(Val::Num(nan()), 0),
{
    assert(seq![Val::Str(s)][0] == Val::Str(s));
}

/// A date is asked for a text, also where nothing is said, or for a number; another word is refused.
pub proof fn law_date_hints(h: Host, d: u64, s: Seq<char>)
    requires
        s != "string"@,
        s != "default"@,
        s != "number"@,
    ensures
        hinted(Val::Str("string"@)) == Some(true),
        hinted(Val::Str("default"@)) == Some(true),
        hinted(Val::Str("number"@)) == Some(false),
        hinted(Val::Str(s)) is None,
        date_to_primitive(h, 0, Val::Ref(Kind::Obj, d), seq![Val::Str(s)]).out matches Err(
            Halt::Throw(_),
        ),
{
    reveal_strlit("string");
    reveal_strlit("default");
    reveal_strlit("number");
    assert("string"@[0] == 's' && "default"@[0] == 'd' && "number"@[0] == 'n');
    assert(seq![Val::Str(s)][0] == Val::Str(s));
}

/// The functions that settle a promise stand under their names.
pub proof fn law_resolvers(h: Host, p: Val, resolve: Val, reject: Val)
    requires
        h.len == 2,
        (h.reply)(
            0,
            Question { op: Op::NewBound, args: seq![Val::Native(Native::PromiseSettleResolve), p] },
        ) == Answer::Value(resolve),
        (h.reply)(
            1,
            Question { op: Op::NewBound, args: seq![Val::Native(Native::PromiseSettleReject), p] },
        ) == Answer::Value(reject),
    ensures
        resolvers(h, 0, p).out == Err::<Val, _>(
            Halt::Ask(
                Question {
                    op: Op::NewObject,
                    args: seq![
                        Val::Str("promise"@),
                        p,
                        Val::Str("resolve"@),
                        resolve,
                        Val::Str("reject"@),
                        reject,
                    ],
                },
            ),
        ),
{
}

/// `Promise.reject` gives a promise that is rejected with the reason.
pub proof fn law_rejected(h: Host, recv: Option<Val>, reason: Val, p: u64, a: Val, b: Val)
    requires
        h.len == 3,
        (h.reply)(0, Question { op: Op::NewPromise, args: Seq::empty() }) == Answer::Value(
            Val::Ref(Kind::Obj, p),
        ),
        (h.reply)(
            1,
            Question {
                op: Op::StoreSlot,
                args: seq![
                    Val::Ref(Kind::Obj, p),
                    Val::Str("\0state"@),
                    Val::Str("rejected"@),
                ],
            },
        ) == Answer::Value(a),
        (h.reply)(
            2,
            Question {
                op: Op::StoreSlot,
                args: seq![Val::Ref(Kind::Obj, p), Val::Str("\0value"@), reason],
            },
        ) == Answer::Value(b),
    ensures
        promise_reject_run(h, 0, recv, seq![reason]) == done(Val::Ref(Kind::Obj, p), 3),
{
    assert(seq![reason][0] == reason);
}

/// The JSON of a response is read from its body.
pub proof fn law_response_read(h: Host, o: u64, t: Seq<char>)
    requires
        h.len == 1,
        (h.reply)(
            0,
            Question { op: Op::OwnSlot, args: seq![Val::Ref(Kind::Obj, o), Val::Str("\0body"@)] },
        ) == Answer::Value(Val::Str(t)),
    ensures
        response_json_run(h, 0, Some(Val::Ref(Kind::Obj, o)), Seq::empty()).out == Err::<Val, _>(
            Halt::Ask(Question { op: Op::ParseJson, args: seq![Val::Str(t)] }),
        ),
{
}

/// A symbol has the description that it is made with, and its key holds the next number.
pub proof fn law_symbol_made(h: Host, v: Val, s: Seq<char>, k: int)
    requires
        !(v is Undefined),
        0 <= k <= MAX_SAFE,
        h.len == 2,
        (h.reply)(0, Question { op: Op::ToText, args: seq![v] }) == Answer::Value(Val::Str(s)),
        (h.reply)(1, Question { op: Op::NextSymbol, args: Seq::empty() }) == Answer::Value(
            Val::Num(num_of(k)),
        ),
    ensures
        symbol_run(h, 0, seq![v]) == done(Val::Symbol(fresh_key(k as nat, Some(s)), Some(s)), 2),
{
    law_safe_integers_exact(k);
    assert(seq![v][0] == v);
}

/// `Symbol.keyFor` gives back the name that `Symbol.for` was asked for.
pub proof fn law_registered_symbol(h: Host, v: Val, s: Seq<char>)
    requires
        h.len == 1,
        (h.reply)(0, Question { op: Op::ToText, args: seq![v] }) == Answer::Value(Val::Str(s)),
    ensures
        symbol_for_run(h, 0, seq![v]).out matches Ok(sym) && symbol_key_for_run(0, seq![sym])
            == done(Val::Str(s), 0),
{
    assert(seq![v][0] == v);
    let sym = Val::Symbol(registry_key(s), Some(s));
    assert(seq![sym][0] == sym);
    reveal_strlit("\0@@for:");
    assert(registry_key(s).skip("\0@@for:"@.len() as int) =~= s);
    assert(registry_key(s).take("\0@@for:"@.len() as int) =~= "\0@@for:"@);
}

/// `String` of a value is its text, of nothing an empty one.
pub proof fn law_string(h: Host, recv: Option<Val>, v: Val, p: Val, s: Seq<char>)
    requires
        h.len == 2,
        (h.reply)(0, Question { op: Op::QuietPrimitive, args: seq![v] }) == Answer::Value(p),
        (h.reply)(1, Question { op: Op::Display, args: seq![p] }) == Answer::Value(Val::Str(s)),
    ensures
        string_ctor_run(h, 0, recv, seq![v]) == done(Val::Str(s), 2),
        string_ctor_run(h, 0, recv, Seq::empty()) == done(Val::Str(Seq::empty()), 0),
{
    assert(seq![v][0] == v);
}

/// `String.raw` puts the values between the pieces.
pub proof fn law_raw(h: Host, raw: Val, t: Val, v: Val, a: Val, b: Val, x: Seq<char>, y: Seq<char>, z: Seq<char>)
    requires
        h.len == 5,
        (h.reply)(0, Question { op: Op::Get, args: seq![raw, Val::Str(decimal(0))] })
            == Answer::Value(a),
        (h.reply)(1, Question { op: Op::ToText, args: seq![a] }) == Answer::Value(Val::Str(x)),
        (h.reply)(2, Question { op: Op::ToText, args: seq![v] }) == Answer::Value(Val::Str(y)),
        (h.reply)(3, Question { op: Op::Get, args: seq![raw, Val::Str(decimal(1))] })
            == Answer::Value(b),
        (h.reply)(4, Question { op: Op::ToText, args: seq![b] }) == Answer::Value(Val::Str(z)),
    ensures
        raw_from(h, 0, raw, seq![t, v], 0, 2, Seq::empty()) == done(Val::Str(x + y + z), 5),
{
    let args = seq![t, v];
    assert(args[1] == v);
    reveal_with_fuel(raw_from, 3);
    assert(Seq::<char>::empty() + x =~= x);
}

} // verus!
