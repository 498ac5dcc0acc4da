//! What storage, timers, queries and headers give back.
use crate::event_laws::shown;
use crate::host::{done, Answer, Halt, Host, Op, Question};
use crate::number::{law_safe_integers_exact, num_of, MAX_SAFE, Num};
use crate::value::{Kind, Val};
use crate::web::{
    clear_timer_run, edited_query, headers_get_run, headers_has_run, ls_get_item_run, ls_key_run,
    ls_remove_item_run, ls_set_item_run, set_timer_run, status_words, url_search_get_all_run,
    url_search_get_run, url_search_has_run, QueryEdit,
};
use crate::web_state::{
    first_value, law_storage_remove, law_storage_set, other_timers, others, pairs_in,
    values_of, PairV, TimerV, TimersV,
};
use vstd::prelude::*;

verus! {

/// What `setItem` stores, `getItem` gives; under every other name `getItem` gives what it gave
/// before.
pub proof fn law_item_read_back(
    h: Host,
    s: Seq<PairV>,
    n: Val,
    v: Val,
    name: Seq<char>,
    value: Seq<char>,
    g: Host,
    k: Val,
    key: Seq<char>,
)
    requires
        shown(h, 0, n, name),
        shown(h, 1, v, value),
        shown(g, 0, k, key),
    ensures
        ls_set_item_run(h, 0, s, seq![n, v]).out matches Ok(t) && {
            &&& key == name ==> ls_get_item_run(g, 0, t, seq![k]) == done(Val::Str(value), 1)
            &&& key != name ==> ls_get_item_run(g, 0, t, seq![k]) == ls_get_item_run(
                g,
                0,
                s,
                seq![k],
            )
        },
{
    let args = seq![n, v];
    assert(args[0] == n && args[1] == v);
    assert(seq![k][0] == k);
    law_storage_set(s, name, value, key);
}

/// What `removeItem` removes, `getItem` gives no more; under every other name it gives what it gave
/// before.
pub proof fn law_item_removed(
    h: Host,
    s: Seq<PairV>,
    n: Val,
    name: Seq<char>,
    g: Host,
    k: Val,
    key: Seq<char>,
)
    requires
        shown(h, 0, n, name),
        shown(g, 0, k, key),
    ensures
        ls_remove_item_run(h, 0, s, seq![n]).out matches Ok(t) && {
            &&& key == name ==> ls_get_item_run(g, 0, t, seq![k]) == done(Val::Null, 1)
            &&& key != name ==> ls_get_item_run(g, 0, t, seq![k]) == ls_get_item_run(
                g,
                0,
                s,
                seq![k],
            )
        },
{
    assert(seq![n][0] == n);
    assert(seq![k][0] == k);
    law_storage_remove(s, name, key);
}

/// `key` gives the name at a place, and null where there is none.
pub proof fn law_storage_key(h: Host, s: Seq<PairV>, v: Val, i: int)
    requires
        -MAX_SAFE <= i <= MAX_SAFE,
        h.len >= 1,
        (h.reply)(0, Question { op: Op::PlainNumber, args: seq![v] }) == Answer::Value(
            Val::Num(num_of(i)),
        ),
    ensures
        ls_key_run(h, 0, s, seq![v]) == done(
            if 0 <= i < s.len() {
                Val::Str(s[i].name)
            } else {
                Val::Null
            },
            1,
        ),
{
    law_safe_integers_exact(i);
    assert(seq![v][0] == v);
}

/// A timer that is set gets a number that no earlier one has, and waits with what it was given; one
/// that is cleared waits no more.
pub proof fn law_timer(h: Host, t: TimersV, f: Val, d: Val, delay: Num, repeat: bool, g: Host, n: Val)
    requires
        f is Native || f matches Val::Ref(Kind::Fn, _),
        h.len >= 1,
        (h.reply)(0, Question { op: Op::DelayOf, args: seq![d] }) == Answer::Value(Val::Num(delay)),
        t.next_id <= MAX_SAFE,
        g.len >= 1,
        (g.reply)(0, Question { op: Op::PlainNumber, args: seq![n] }) == Answer::Value(
            Val::Num(num_of(t.next_id as int)),
        ),
    ensures
        set_timer_run(h, 0, t, repeat, seq![f, d]).out matches Ok(r) && {
            &&& r.0 == Val::Num(num_of(t.next_id as int))
            &&& r.1.waiting == t.waiting.push(
                TimerV { id: t.next_id, callback: f, delay, repeat },
            )
            &&& r.1.next_id > t.next_id
            &&& clear_timer_run(g, 0, r.1, seq![n]).out matches Ok(c) && c.0 == Val::Undefined
                && c.1.waiting == other_timers(t.waiting, t.next_id) && c.1.cleared.contains(
                t.next_id,
            )
        },
{
    let args = seq![f, d];
    assert(args[0] == f && args[1] == d);
    assert(seq![n][0] == n);
    law_safe_integers_exact(t.next_id as int);
    let one = TimerV { id: t.next_id, callback: f, delay, repeat };
    assert(t.waiting.push(one).drop_last() =~= t.waiting);
    assert(t.cleared.push(t.next_id)[t.cleared.len() as int] == t.next_id);
}

/// What is no function starts no timer.
pub proof fn law_no_timer(h: Host, t: TimersV, f: Val, repeat: bool)
    requires
        f is Str || f is Undefined || f is Null || f is Num,
    ensures
        set_timer_run(h, 0, t, repeat, seq![f]) == done((Val::Num(num_of(0)), t), 0),
{
    assert(seq![f][0] == f);
}

/// The first value of a name is the value of the first pair that has it, and all values are those of
/// all such pairs: another pair at the end adds its value, and is the first where there was none.
pub proof fn law_values(s: Seq<PairV>, x: PairV, name: Seq<char>)
    ensures
        first_value(Seq::empty(), name) is None,
        values_of(Seq::empty(), name) == Seq::<Seq<char>>::empty(),
        x.name == name ==> values_of(s.push(x), name) == values_of(s, name).push(x.value),
        x.name != name ==> values_of(s.push(x), name) == values_of(s, name),
        values_of(s, name).len() > 0 ==> first_value(s, name) == Some(values_of(s, name)[0]),
        values_of(s, name).len() == 0 ==> first_value(s, name) is None,
    decreases s.len(),
{
    assert(s.push(x).drop_last() =~= s);
    lemma_first_of_values(s, name);
}

proof fn lemma_first_of_values(s: Seq<PairV>, name: Seq<char>)
    ensures
        values_of(s, name).len() > 0 ==> first_value(s, name) == Some(values_of(s, name)[0]),
        values_of(s, name).len() == 0 ==> first_value(s, name) is None,
    decreases s.len(),
{
    if s.len() > 0 {
        let l = s.drop_last();
        lemma_first_of_values(l, name);
        assert(l.push(s.last()) =~= s);
        crate::web_state::lemma_first_pushed(l, s.last(), name);
    }
}

/// The engine says what the query of an object holds, after it was said which name is looked for.
pub open spec fn query_told(
    h: Host,
    o: u64,
    n: Val,
    name: Seq<char>,
    q: Seq<char>,
    l: Seq<Val>,
) -> bool {
    &&& shown(h, 0, n, name)
    &&& h.len == 4
    &&& (h.reply)(
        1,
        Question { op: Op::OwnSlot, args: seq![Val::Ref(Kind::Obj, o), Val::Str("\0query"@)] },
    ) == Answer::Value(Val::Str(q))
    &&& (h.reply)(2, Question { op: Op::Display, args: seq![Val::Str(q)] }) == Answer::Value(
        Val::Str(q),
    )
    &&& (h.reply)(3, Question { op: Op::ParseQuery, args: seq![Val::Str(q)] }) == Answer::List(l)
}

/// `get` of a query gives the first value of a name, `getAll` all of them in order, and `has` says
/// whether there is one.
pub proof fn law_query_read(h: Host, o: u64, n: Val, name: Seq<char>, q: Seq<char>, l: Seq<Val>)
    requires
        query_told(h, o, n, name, q, l),
    ensures
        ({
            let recv = Some(Val::Ref(Kind::Obj, o));
            let all = values_of(pairs_in(l), name);
            &&& all.len() > 0 ==> url_search_get_run(h, 0, recv, seq![n]) == done(
                Val::Str(all[0]),
                4,
            )
            &&& all.len() == 0 ==> url_search_get_run(h, 0, recv, seq![n]) == done(Val::Null, 4)
            &&& url_search_has_run(h, 0, recv, seq![n]) == done(Val::Bool(all.len() > 0), 4)
            &&& url_search_get_all_run(h, 0, recv, seq![n]).out == Err::<Val, _>(
                Halt::Ask(
                    Question {
                        op: Op::NewArray,
                        args: Seq::new(all.len(), |i: int| Val::Str(all[i])),
                    },
                ),
            )
        }),
{
    assert(seq![n][0] == n);
    let all = values_of(pairs_in(l), name);
    lemma_first_of_values(pairs_in(l), name);
    assert(crate::web_state::texts_as_values(all) =~= Seq::new(
        all.len(),
        |i: int| Val::Str(all[i]),
    ));
}

/// After `set` a name has one value, after `append` one more at the end, and after `delete` none;
/// what other names have stays.
pub proof fn law_query_edited(
    s: Seq<PairV>,
    name: Seq<char>,
    value: Seq<char>,
    other: Seq<char>,
)
    ensures
        values_of(edited_query(s, QueryEdit::Put, name, value), name) == seq![value],
        values_of(edited_query(s, QueryEdit::Append, name, value), name) == values_of(s, name).push(
            value,
        ),
        values_of(edited_query(s, QueryEdit::Delete, name, value), name) == Seq::<Seq<char>>::empty(),
        other != name ==> {
            &&& values_of(edited_query(s, QueryEdit::Put, name, value), other) == values_of(
                s,
                other,
            )
            &&& values_of(edited_query(s, QueryEdit::Append, name, value), other) == values_of(
                s,
                other,
            )
            &&& values_of(edited_query(s, QueryEdit::Delete, name, value), other) == values_of(
                s,
                other,
            )
        },
{
    let x = PairV { name, value };
    let o = others(s, name);
    lemma_others_values(s, name, name);
    lemma_others_values(s, name, other);
    assert(s.push(x).drop_last() =~= s);
    assert(o.push(x).drop_last() =~= o);
    assert(values_of(o, name) =~= Seq::empty());
    assert(values_of(o.push(x), name) =~= seq![value]);
}

proof fn lemma_others_values(s: Seq<PairV>, name: Seq<char>, other: Seq<char>)
    ensures
        other != name ==> values_of(others(s, name), other) == values_of(s, other),
        other == name ==> values_of(others(s, name), other).len() == 0,
    decreases s.len(),
{
    if s.len() > 0 {
        lemma_others_values(s.drop_last(), name, other);
        let o = others(s.drop_last(), name);
        assert(o.push(s.last()).drop_last() =~= o);
    }
}

/// A header is found by its name in any case: `get` gives what is kept, null where there is nothing,
/// and `has` says whether there is something.
pub proof fn law_header_read(h: Host, o: u64, n: Val, name: Seq<char>, lower: Seq<char>)
    requires
        shown(h, 0, n, name),
        lower.len() == name.len(),
        forall|i: int|
            0 <= i < name.len() ==> (#[trigger] lower[i]) == if 'A' <= name[i] && name[i] <= 'Z' {
                (name[i] as u32 + 32) as char
            } else {
                name[i]
            },
        h.len == 2,
    ensures
        ({
            let recv = Some(Val::Ref(Kind::Obj, o));
            let q = Question {
                op: Op::OwnSlot,
                args: seq![Val::Ref(Kind::Obj, o), Val::Str("\0h:"@ + lower)],
            };
            &&& (h.reply)(1, q) matches Answer::Value(v) ==> headers_get_run(h, 0, recv, seq![n])
                == done(v, 2) && headers_has_run(h, 0, recv, seq![n]) == done(Val::Bool(true), 2)
            &&& (h.reply)(1, q) is Absent ==> headers_get_run(h, 0, recv, seq![n]) == done(
                Val::Null,
                2,
            ) && headers_has_run(h, 0, recv, seq![n]) == done(Val::Bool(false), 2)
        }),
{
    assert(seq![n][0] == n);
    assert(crate::text::ascii_lower(name) =~= lower);
}

/// The words that go with the statuses of answers; other statuses have none.
pub open spec fn words_of_statuses() -> Seq<(u64, Seq<char>)> {
    seq![
        (200u64, "OK"@),
        (201u64, "Created"@),
        (204u64, "No Content"@),
        (301u64, "Moved Permanently"@),
        (302u64, "Found"@),
        (304u64, "Not Modified"@),
        (400u64, "Bad Request"@),
        (401u64, "Unauthorized"@),
        (403u64, "Forbidden"@),
        (404u64, "Not Found"@),
        (500u64, "Internal Server Error"@),
    ]
}

/// Each status has its words.
pub proof fn law_status_words(i: int, other: u64)
    requires
        0 <= i < words_of_statuses().len(),
        forall|j: int|
            0 <= j < words_of_statuses().len() ==> (#[trigger] words_of_statuses()[j]).0 != other,
    ensures
        status_words(words_of_statuses()[i].0) == words_of_statuses()[i].1,
        status_words(other) == ""@,
{
    let w = words_of_statuses();
    assert(w[0].0 != other && w[1].0 != other && w[2].0 != other && w[3].0 != other && w[4].0
        != other && w[5].0 != other && w[6].0 != other && w[7].0 != other && w[8].0 != other
        && w[9].0 != other && w[10].0 != other);
}

} // verus!
