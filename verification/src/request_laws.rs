//! What requests, sockets and revived values come to.
use crate::array_live::count_num;
use crate::globals::{decoded_uri, json_parse_run};
use crate::host::{done, settles, Answer, Halt, Host, Op, Question};
use crate::json_revive::{last_member, put_revived, revive_context, JsonSrc};
use crate::number::{law_safe_integers_exact, num_of, MAX_SAFE};
use crate::page::send_data;
use crate::text::ascii_lower;
use crate::uri::uri_decoded;
use crate::value::{callable, Kind, Val};
use crate::web::{
    answered, configured, fetch_request_run, header_lines, header_named, header_rows, list_headers,
    request_values, response_values, row_cells, row_header, row_line, status_of, xhr_body,
    xhr_events, xhr_fields, xhr_opened, RequestV,
};
use crate::web_state::{flat_pairs, pairs_in, PairV};
use vstd::prelude::*;

verus! {

/// `fetch` without settings is a `GET` of the full address, with no body and no headers.
pub proof fn law_plain_fetch(h: Host, v: Val, raw: Seq<char>, url: Seq<char>)
    requires
        h.len == 2,
        (h.reply)(0, Question { op: Op::Display, args: seq![v] }) == Answer::Value(Val::Str(raw)),
        (h.reply)(1, Question { op: Op::AbsoluteUrl, args: seq![Val::Str(raw)] }) == Answer::Value(
            Val::Str(url),
        ),
    ensures
        fetch_request_run(h, 0, seq![v]) == done(
            RequestV {
                method: seq!['G', 'E', 'T'],
                url,
                body: None,
                headers: Seq::empty(),
            },
            2,
        ),
{
    reveal_strlit("GET");
    assert("GET"@ =~= seq!['G', 'E', 'T']);
    assert(seq![v][0] == v);
}

/// The settings of a request are its method, its headers and its body.
pub proof fn law_configured_request(h: Host, url: Seq<char>, o: u64, m: Seq<char>, b: Seq<char>)
    requires
        h.len == 5,
        (h.reply)(
            0,
            Question { op: Op::Get, args: seq![Val::Ref(Kind::Obj, o), Val::Str("method"@)] },
        ) == Answer::Value(Val::Str(m)),
        (h.reply)(1, Question { op: Op::Display, args: seq![Val::Str(m)] }) == Answer::Value(
            Val::Str(m),
        ),
        (h.reply)(
            2,
            Question { op: Op::Get, args: seq![Val::Ref(Kind::Obj, o), Val::Str("headers"@)] },
        ) == Answer::Value(Val::Undefined),
        (h.reply)(
            3,
            Question { op: Op::Get, args: seq![Val::Ref(Kind::Obj, o), Val::Str("body"@)] },
        ) == Answer::Value(Val::Str(b)),
        (h.reply)(4, Question { op: Op::Display, args: seq![Val::Str(b)] }) == Answer::Value(
            Val::Str(b),
        ),
    ensures
        configured(h, 0, url, Val::Ref(Kind::Obj, o)) == done(
            RequestV { method: m, url, body: Some(b), headers: Seq::empty() },
            5,
        ),
{
}

/// Names and values that are written one after the other are read back as they were.
pub proof fn law_pairs_read_back(s: Seq<PairV>)
    ensures
        pairs_in(flat_pairs(s)) == s,
{
    let l = flat_pairs(s);
    assert forall|i: int| 0 <= i < s.len() implies (#[trigger] pairs_in(l)[i]) == s[i] by {
        assert((2 * i) / 2 == i && (2 * i + 1) / 2 == i);
        assert(l[2 * i] == Val::Str(s[i].name) && l[2 * i + 1] == Val::Str(s[i].value));
    }
    assert(pairs_in(l) =~= s);
}

/// What is sent of a request: the method, the address and the body come first, in that order.
pub proof fn law_request_sent(r: RequestV, b: Seq<char>)
    requires
        r.headers.len() == 0,
        r.body == Some(b),
    ensures
        request_values(r) == seq![Val::Str(r.method), Val::Str(r.url), Val::Str(b)],
{
    assert(flat_pairs(r.headers) =~= Seq::empty());
}

/// Two cells in each of some rows.
pub open spec fn rows_read(h: Host, pos: nat, rows: Seq<Val>, pairs: Seq<PairV>, i: int) -> bool
    decreases rows.len() - i,
{
    0 <= i < rows.len() ==> {
        let r = row_header(h, pos, rows[i]);
        &&& settles(r, Some(pairs[i]))
        &&& r.out is Ok ==> rows_read(h, r.pos, rows, pairs, i + 1)
    }
}

/// The headers of a list of rows are those of the rows, in their order.
pub proof fn law_headers_listed(h: Host, pos: nat, rows: Seq<Val>, pairs: Seq<PairV>, i: int)
    requires
        0 <= i <= rows.len(),
        rows.len() == pairs.len(),
        rows_read(h, pos, rows, pairs, i),
    ensures
        settles(list_headers(h, pos, rows, i, pairs.take(i)), pairs),
    decreases rows.len() - i,
{
    if i < rows.len() {
        let r = row_header(h, pos, rows[i]);
        if r.out is Ok {
            law_headers_listed(h, r.pos, rows, pairs, i + 1);
            assert(pairs.take(i).push(pairs[i]) =~= pairs.take(i + 1));
        }
    } else {
        assert(pairs.take(i) =~= pairs);
    }
}

/// A row is a header of its first cell's name and its second cell's value.
pub proof fn law_row(h: Host, a: u64, v: Val, w: Val, name: Seq<char>, value: Seq<char>)
    requires
        h.len == 3,
        (h.reply)(0, Question { op: Op::Elements, args: seq![Val::Ref(Kind::Arr, a)] })
            == Answer::List(seq![v, w]),
        (h.reply)(1, Question { op: Op::Display, args: seq![v] }) == Answer::Value(
            Val::Str(name),
        ),
        (h.reply)(2, Question { op: Op::Display, args: seq![w] }) == Answer::Value(
            Val::Str(value),
        ),
    ensures
        row_header(h, 0, Val::Ref(Kind::Arr, a)) == done(Some(PairV { name, value }), 3),
        header_lines(h, 0, seq![Val::Ref(Kind::Arr, a)], 0, Seq::empty()) == done(
            name + seq![':', ' '] + value + seq!['\r', '\n'],
            3,
        ),
{
    let cells = seq![v, w];
    assert(cells[0] == v && cells[1] == w);
    let rows = seq![Val::Ref(Kind::Arr, a)];
    assert(rows[0] == Val::Ref(Kind::Arr, a));
    reveal_strlit(": ");
    reveal_strlit("\r\n");
    assert(": "@ =~= seq![':', ' '] && "\r\n"@ =~= seq!['\r', '\n']);
    reveal_with_fuel(header_lines, 2);
    assert(row_cells(h, 0, rows[0]) == done(Some(cells), 1));
    let line = name + ": "@ + value + "\r\n"@;
    assert(row_line(h, 1, cells) == done(line, 3));
    assert(Seq::<char>::empty() + line =~= line);
}

/// A header is found by its name in either case; another name leads on to the next row, and after
/// the last row there is none.
pub proof fn law_header_found(h: Host, a: u64, v: Val, w: Val, name: Seq<char>, want: Seq<char>)
    requires
        h.len == 2,
        (h.reply)(0, Question { op: Op::Elements, args: seq![Val::Ref(Kind::Arr, a)] })
            == Answer::List(seq![v, w]),
        (h.reply)(1, Question { op: Op::Display, args: seq![v] }) == Answer::Value(
            Val::Str(name),
        ),
    ensures
        header_named(h, 0, seq![Val::Ref(Kind::Arr, a)], 0, want) == done(
            if ascii_lower(name) == ascii_lower(want) {
                w
            } else {
                Val::Null
            },
            2,
        ),
{
    let cells = seq![v, w];
    assert(cells[0] == v && cells[1] == w);
    let rows = seq![Val::Ref(Kind::Arr, a)];
    assert(rows[0] == Val::Ref(Kind::Arr, a));
    reveal_with_fuel(header_named, 2);
    assert(row_cells(h, 0, rows[0]) == done(Some(cells), 1));
}

/// A response tells the status of the answer, whether it is a good one, and the address.
pub proof fn law_response(url: Seq<char>, answer: Seq<Val>, headers: Val, k: int)
    requires
        answer.len() >= 3,
        answer[0] == Val::Num(num_of(k)),
        0 <= k <= MAX_SAFE,
    ensures
        ({
            let r = response_values(url, answer, headers);
            &&& status_of(answer) == k
            &&& r[0] == Val::Str("status"@) && r[1] == Val::Num(count_num(k as nat))
            &&& r[2] == Val::Str("ok"@) && r[3] == Val::Bool(200 <= k <= 299)
            &&& r[4] == Val::Str("\0body"@) && r[5] == answer[1]
            &&& r[10] == Val::Str("\0raw"@) && r[11] == answer[2]
            &&& r[14] == Val::Str("url"@) && r[15] == Val::Str(url)
            &&& r[22] == Val::Str("headers"@) && r[23] == headers
        }),
{
    law_safe_integers_exact(k);
}

/// What a request object holds after an answer: the status and the text, and that it is done.
pub proof fn law_request_answered(rows: Val, answer: Seq<Val>, k: int)
    requires
        answer.len() >= 3,
        answer[0] == Val::Num(num_of(k)),
        0 <= k <= MAX_SAFE,
    ensures
        ({
            let r = xhr_fields(rows, answer);
            &&& r[0] == Val::Str("\0resheaders"@) && r[1] == rows
            &&& r[2] == Val::Str("status"@) && r[3] == Val::Num(count_num(k as nat))
            &&& r[6] == Val::Str("responseText"@) && r[7] == answer[1]
            &&& r[8] == Val::Str("response"@) && r[9] == answer[1]
            &&& r[10] == Val::Str("readyState"@) && r[11] == Val::Num(num_of(4))
        }),
{
    law_safe_integers_exact(k);
}

/// A promise of an answer that did not come is resolved with undefined, and is what the call gives.
pub proof fn law_no_answer(h: Host, promise: Val, url: Seq<char>, u: Val, w: Val)
    requires
        h.len == 2,
        !((h.reply)(
            0,
            Question {
                op: Op::Console,
                args: seq![
                    Val::Str("fetch 실패: "@ + crate::host::text_in(Val::Undefined)),
                ],
            },
        ) is Throw),
        (h.reply)(1, Question { op: Op::ResolvePromise, args: seq![promise, Val::Undefined] })
            == Answer::Value(w),
    ensures
        answered(h, 0, promise, url, Seq::empty()) == done(promise, 2),
{
}

/// Opening a request keeps its method and its address, and then says that it is open.
pub proof fn law_request_opened(h: Host, v: Val, method: Seq<char>, url: Seq<char>, a: Val, b: Val, c: Val)
    requires
        h.len == 3,
        (h.reply)(
            0,
            Question {
                op: Op::StoreSlot,
                args: seq![v, Val::Str("\0method"@), Val::Str(method)],
            },
        ) == Answer::Value(a),
        (h.reply)(
            1,
            Question { op: Op::StoreSlot, args: seq![v, Val::Str("\0url"@), Val::Str(url)] },
        ) == Answer::Value(b),
        (h.reply)(
            2,
            Question {
                op: Op::StoreSlot,
                args: seq![v, Val::Str("readyState"@), Val::Num(num_of(1))],
            },
        ) == Answer::Value(c),
    ensures
        xhr_opened(h, 0, v, method, url) == done(Val::Undefined, 3),
{
}

/// The events of a request come in their order: its state has changed, it is loaded, and it is over.
pub proof fn law_request_events(h: Host, v: Val, a: Val, b: Val, c: Val)
    requires
        h.len == 3,
        (h.reply)(0, Question { op: Op::XhrFire, args: seq![v, Val::Str("readystatechange"@)] })
            == Answer::Value(a),
        (h.reply)(1, Question { op: Op::XhrFire, args: seq![v, Val::Str("load"@)] })
            == Answer::Value(b),
        (h.reply)(2, Question { op: Op::XhrFire, args: seq![v, Val::Str("loadend"@)] })
            == Answer::Value(c),
    ensures
        xhr_events(h, 0, v) == done(Val::Undefined, 3),
{
}

/// A request has a body where one is given.
pub proof fn law_request_body(h: Host, v: Val, s: Seq<char>)
    requires
        h.len == 1,
        (h.reply)(0, Question { op: Op::Display, args: seq![v] }) == Answer::Value(Val::Str(s)),
    ensures
        v is Undefined || v is Null ==> xhr_body(h, 0, seq![v]) == done(None::<Seq<char>>, 0),
        !(v is Undefined) && !(v is Null) ==> xhr_body(h, 0, seq![v]) == done(Some(s), 1),
{
    assert(seq![v][0] == v);
}

/// Rows that are made of names and values, one after the other.
pub open spec fn rows_made(h: Host, pos: nat, s: Seq<PairV>, rows: Seq<Val>, i: int) -> bool
    decreases s.len() - i,
{
    0 <= i < s.len() ==> {
        let a = crate::host::ask_value(
            h,
            pos,
            Op::NewArray,
            seq![Val::Str(s[i].name), Val::Str(s[i].value)],
        );
        &&& settles(a, rows[i])
        &&& a.out is Ok ==> rows_made(h, a.pos, s, rows, i + 1)
    }
}

/// The headers of an answer are kept as rows of a name and a value each, in their order.
pub proof fn law_header_rows(h: Host, pos: nat, s: Seq<PairV>, rows: Seq<Val>, i: int)
    requires
        0 <= i <= s.len(),
        rows.len() == s.len(),
        rows_made(h, pos, s, rows, i),
    ensures
        settles(header_rows(h, pos, s, i, rows.take(i)), rows),
    decreases s.len() - i,
{
    if i < s.len() {
        let a = crate::host::ask_value(
            h,
            pos,
            Op::NewArray,
            seq![Val::Str(s[i].name), Val::Str(s[i].value)],
        );
        if a.out is Ok {
            law_header_rows(h, a.pos, s, rows, i + 1);
            assert(rows.take(i).push(rows[i]) =~= rows.take(i + 1));
        }
    } else {
        assert(rows.take(i) =~= rows);
    }
}

/// A text is sent through its socket as it is.
pub proof fn law_text_sent(h: Host, socket: u64, data: Val, s: Seq<char>)
    requires
        !(data matches Val::Ref(Kind::Arr, _)),
        h.len == 1,
        (h.reply)(0, Question { op: Op::Display, args: seq![data] }) == Answer::Value(
            Val::Str(s),
        ),
    ensures
        send_data(h, 0, socket, data).out == Err::<Val, _>(
            Halt::Ask(
                Question {
                    op: Op::SendText,
                    args: seq![Val::Num(count_num(socket as nat)), Val::Str(s)],
                },
            ),
        ),
{
}

/// A part that the reviver makes undefined is deleted.
pub proof fn law_revived_away(h: Host, o: Val, key: Seq<char>)
    requires
        h.len == 0,
    ensures
        put_revived(h, 0, o, key, Val::Undefined).out == Err::<(), _>(
            Halt::Ask(Question { op: Op::Delete, args: seq![o, Val::Str(key)] }),
        ),
{
}

/// Of members with one key the last counts.
pub proof fn law_last_member(v: Seq<(String, JsonSrc)>, key: Seq<char>, n: nat)
    requires
        n <= v.len(),
    ensures
        match last_member(v, key, n) {
            Some(i) => 0 <= i < n && v[i].0@ == key && forall|j: int|
                i < j < n ==> (#[trigger] v[j]).0@ != key,
            None => forall|j: int| 0 <= j < n ==> (#[trigger] v[j]).0@ != key,
        },
    decreases n,
{
    if n > 0 && v[n - 1].0@ != key {
        law_last_member(v, key, (n - 1) as nat);
    }
}

/// The source of a value that is still what was parsed is told, that of one that is not is kept
/// back.
pub proof fn law_source_told(raw: String, parsed: crate::value::Value, b: bool)
    requires
        parsed@ == Val::Bool(b),
    ensures
        revive_context(Val::Bool(b), Some(&JsonSrc::Prim(raw, parsed))) == seq![
            Val::Str("source"@),
            Val::Str(raw@),
        ],
        revive_context(Val::Bool(!b), Some(&JsonSrc::Prim(raw, parsed))).len() == 0,
        revive_context(Val::Bool(b), None).len() == 0,
{
}

/// What the engine reads in a text is what `JSON.parse` gives where there is no reviver; with one,
/// it is put under an empty name first.
pub proof fn law_parsed(h: Host, t: Val, f: Val, text: Seq<char>, v: Val)
    requires
        h.len == 2,
        (h.reply)(0, Question { op: Op::ToText, args: seq![t] }) == Answer::Value(Val::Str(text)),
        (h.reply)(1, Question { op: Op::ParseJson, args: seq![Val::Str(text)] }) == Answer::Value(
            v,
        ),
    ensures
        json_parse_run(h, 0, seq![t], None) == done(v, 2),
        !callable(f) ==> json_parse_run(h, 0, seq![t, f], None) == done(v, 2),
        callable(f) ==> json_parse_run(h, 0, seq![t, f], None).out == Err::<Val, _>(
            Halt::Ask(Question { op: Op::NewObject, args: seq![Val::Str(Seq::empty()), v] }),
        ),
{
    assert(seq![t][0] == t);
    assert(seq![t, f][0] == t && seq![t, f][1] == f);
}

/// A text that is no URI is refused, one that is one is decoded.
pub proof fn law_decoded(h: Host, v: Val, s: Seq<char>, preserve: bool)
    requires
        h.len == 1,
        (h.reply)(0, Question { op: Op::Display, args: seq![v] }) == Answer::Value(Val::Str(s)),
    ensures
        uri_decoded(s, preserve) is None ==> (decoded_uri(h, 0, seq![v], preserve).out matches Err(
            Halt::Throw(_),
        )),
        uri_decoded(s, preserve) matches Some(t) ==> decoded_uri(h, 0, seq![v], preserve) == done(
            Val::Str(t),
            1,
        ),
{
    assert(seq![v][0] == v);
}

} // verus!
