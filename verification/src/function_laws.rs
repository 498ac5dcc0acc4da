//! What calls, iterators and prototypes come to.
use crate::array_live::count_num;
use crate::functions::{
    above_in_chain, error_text, fn_apply_run, fn_bind_run, fn_call_run, iter_next_run,
    obj_to_string_run,
};
use crate::globals::{console_line, displays};
use crate::host::{done, settles, Answer, Halt, Host, Op, Question};
use crate::json_text::joined;
use crate::number::{law_safe_integers_exact, num_of, MAX_SAFE};
use crate::objects::proto_of;
use crate::value::{callable, strictly_equal, Kind, Val};
use vstd::prelude::*;

verus! {

/// `call` and `apply` make the same call of the function: on the first argument, with the others or
/// with the elements of a list. `bind` keeps the function, what it is called on, and the arguments.
pub proof fn law_called(h: Host, g: Host, f: Val, t: Val, args: Seq<Val>, list: u64)
    requires
        callable(f),
        h.len == 0,
        g.len == 1,
        (g.reply)(0, Question { op: Op::Elements, args: seq![Val::Ref(Kind::Arr, list)] })
            == Answer::List(args),
    ensures
        fn_call_run(h, 0, Some(f), seq![t] + args).out == Err::<Val, _>(
            Halt::Ask(Question { op: Op::Call, args: seq![f, t] + args }),
        ),
        fn_apply_run(g, 0, Some(f), seq![t, Val::Ref(Kind::Arr, list)]).out == Err::<Val, _>(
            Halt::Ask(Question { op: Op::Call, args: seq![f, t] + args }),
        ),
        fn_apply_run(h, 0, Some(f), seq![t]).out == Err::<Val, _>(
            Halt::Ask(Question { op: Op::Call, args: seq![f, t] + Seq::<Val>::empty() }),
        ),
        fn_bind_run(h, 0, Some(f), seq![t] + args).out == Err::<Val, _>(
            Halt::Ask(Question { op: Op::NewBound, args: seq![f, t] + args }),
        ),
{
    let all = seq![t] + args;
    assert(all[0] == t);
    assert(all.skip(1) =~= args);
    let two = seq![t, Val::Ref(Kind::Arr, list)];
    assert(two[0] == t && two[1] == Val::Ref(Kind::Arr, list));
    assert(seq![t][0] == t);
}

/// What is not callable is neither called nor bound.
pub proof fn law_not_called(h: Host, f: Val, args: Seq<Val>)
    requires
        !callable(f),
    ensures
        fn_call_run(h, 0, Some(f), args).out matches Err(Halt::Throw(_)),
        fn_apply_run(h, 0, Some(f), args).out matches Err(Halt::Throw(_)),
        fn_bind_run(h, 0, Some(f), args).out matches Err(Halt::Throw(_)),
{
}

/// The text of an error is its name and its message with a colon between, and one of them alone
/// where the other is empty.
pub proof fn law_error_text(name: Seq<char>, message: Seq<char>)
    ensures
        error_text(Seq::empty(), message) == message,
        error_text(name, Seq::empty()) == name,
        name.len() > 0 && message.len() > 0 ==> error_text(name, message) == name + seq![
            ':',
            ' ',
        ] + message,
{
    reveal_strlit(": ");
    assert(": "@ =~= seq![':', ' ']);
    if name.len() == 0 {
        assert(name =~= Seq::empty());
    }
}

/// A list iterator gives the elements one after the other, and then says that it is done.
pub proof fn law_iterator_step(h: Host, o: u64, list: u64, k: int, items: Seq<Val>)
    requires
        0 <= k < MAX_SAFE,
        items.len() <= usize::MAX,
        k <= usize::MAX,
        h.len >= 3,
        (h.reply)(
            0,
            Question { op: Op::OwnSlot, args: seq![Val::Ref(Kind::Obj, o), Val::Str("\0items"@)] },
        ) == Answer::Value(Val::Ref(Kind::Arr, list)),
        (h.reply)(
            1,
            Question { op: Op::OwnSlot, args: seq![Val::Ref(Kind::Obj, o), Val::Str("\0i"@)] },
        ) == Answer::Value(Val::Num(num_of(k))),
        (h.reply)(2, Question { op: Op::Elements, args: seq![Val::Ref(Kind::Arr, list)] })
            == Answer::List(items),
        forall|q: Question| !((#[trigger] (h.reply)(3, q)) is Throw),
    ensures
        ({
            let this = Val::Ref(Kind::Obj, o);
            let r = iter_next_run(h, 0, Some(this), Seq::empty());
            &&& k < items.len() && h.len == 3 ==> r.out == Err::<Val, _>(
                Halt::Ask(
                    Question {
                        op: Op::StoreSlot,
                        args: seq![this, Val::Str("\0i"@), Val::Num(num_of(k + 1))],
                    },
                ),
            )
            &&& k < items.len() && h.len == 4 ==> r.out == Err::<Val, _>(
                Halt::Ask(
                    Question {
                        op: Op::NewObject,
                        args: seq![
                            Val::Str("value"@),
                            items[k],
                            Val::Str("done"@),
                            Val::Bool(false),
                        ],
                    },
                ),
            )
            &&& k >= items.len() && h.len == 3 ==> r.out == Err::<Val, _>(
                Halt::Ask(
                    Question {
                        op: Op::NewObject,
                        args: seq![
                            Val::Str("value"@),
                            Val::Undefined,
                            Val::Str("done"@),
                            Val::Bool(true),
                        ],
                    },
                ),
            )
        }),
{
    law_safe_integers_exact(k);
    let q = Question {
        op: Op::StoreSlot,
        args: seq![Val::Ref(Kind::Obj, o), Val::Str("\0i"@), Val::Num(count_num((k + 1) as nat))],
    };
    assert(!((h.reply)(3, q) is Throw));
}

/// What a value says of itself stands between the brackets.
pub proof fn law_tag_shown(h: Host, v: Val, t: Seq<char>)
    requires
        v is Num || v is Bool || v is Str,
        h.len == 1,
        (h.reply)(0, Question { op: Op::Get, args: seq![v, Val::Str("\0@@toStringTag"@)] })
            == Answer::Value(Val::Str(t)),
    ensures
        obj_to_string_run(h, 0, Some(v), Seq::empty()) == done(
            Val::Str("[object "@ + t + "]"@),
            1,
        ),
{
}

/// The tags of values that say nothing of themselves are different for values of different kinds.
pub proof fn law_tags(h: Host, v: Val, tag: Seq<char>)
    requires
        h.len == 1,
        (h.reply)(0, Question { op: Op::Get, args: seq![v, Val::Str("\0@@toStringTag"@)] })
            == Answer::Value(Val::Undefined),
        tag == match v {
            Val::Undefined => "Undefined"@,
            Val::Null => "Null"@,
            Val::Str(_) => "String"@,
            Val::Num(_) => "Number"@,
            Val::Bool(_) => "Boolean"@,
            Val::Native(_) | Val::Ref(Kind::Fn, _) | Val::Ref(Kind::Bound, _) | Val::Ref(
                Kind::Class,
                _,
            ) => "Function"@,
            Val::Ref(Kind::Arr, _) => "Array"@,
            Val::Ref(Kind::MapVal, _) => "Map"@,
            Val::Ref(Kind::SetVal, _) => "Set"@,
            _ => "Object"@,
        },
        !(v matches Val::Ref(Kind::Obj, _)),
    ensures
        obj_to_string_run(h, 0, Some(v), Seq::empty()).out == Ok::<Val, Halt>(
            Val::Str("[object "@ + tag + "]"@),
        ),
{
}

/// The values on the prototype chain above `cur`, as far as they are looked at.
pub open spec fn chain_is(h: Host, pos: nat, cur: Val, protos: Seq<Val>) -> bool
    decreases protos.len(),
{
    let p = proto_of(h, pos, cur);
    if protos.len() == 0 {
        settles(p, Val::Null)
    } else {
        settles(p, protos[0]) && !(protos[0] is Null) && (p.out is Ok ==> chain_is(
            h,
            p.pos,
            protos[0],
            protos.skip(1),
        ))
    }
}

/// `isPrototypeOf` says whether the value is one of those on the chain.
pub proof fn law_prototype_of(h: Host, pos: nat, cur: Val, proto: Val, protos: Seq<Val>, fuel: nat)
    requires
        chain_is(h, pos, cur, protos),
        protos.len() < fuel,
    ensures
        settles(
            above_in_chain(h, pos, cur, proto, fuel),
            Val::Bool(
                exists|i: int|
                    0 <= i < protos.len() && strictly_equal(#[trigger] protos[i], proto),
            ),
        ),
    decreases protos.len(),
{
    if protos.len() > 0 {
        let p = proto_of(h, pos, cur);
        let rest = protos.skip(1);
        if p.out is Ok {
            law_prototype_of(h, p.pos, protos[0], proto, rest, (fuel - 1) as nat);
            if exists|i: int| 0 <= i < rest.len() && strictly_equal(#[trigger] rest[i], proto) {
                let i = choose|i: int|
                    0 <= i < rest.len() && strictly_equal(#[trigger] rest[i], proto);
                assert(protos[i + 1] == rest[i]);
            }
            if exists|i: int| 1 <= i < protos.len() && strictly_equal(#[trigger] protos[i], proto) {
                let i = choose|i: int|
                    1 <= i < protos.len() && strictly_equal(#[trigger] protos[i], proto);
                assert(rest[i - 1] == protos[i]);
            }
        }
    }
}

/// A line of the console has the texts of two values with a blank between.
pub proof fn law_console_line(h: Host, v: Val, w: Val, a: Seq<char>, b: Seq<char>)
    requires
        h.len >= 2,
        (h.reply)(0, Question { op: Op::Display, args: seq![v] }) == Answer::Value(Val::Str(a)),
        (h.reply)(1, Question { op: Op::Display, args: seq![w] }) == Answer::Value(Val::Str(b)),
    ensures
        console_line(h, 0, seq![v, w]) == done(a + seq![' '] + b, 2),
{
    reveal_strlit(" ");
    assert(" "@ =~= seq![' ']);
    let args = seq![v, w];
    assert(args[0] == v && args[1] == w);
    reveal_with_fuel(displays, 3);
    let parts = Seq::<Seq<char>>::empty().push(a).push(b);
    assert(parts.drop_last() =~= seq![a]);
    assert(seq![a][0] == a);
    reveal_with_fuel(joined, 3);
    assert(joined(parts, " "@) == a + " "@ + b);
}

} // verus!
