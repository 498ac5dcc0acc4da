//! What a page asks of the network and of its own state: query strings, storage, headers, timers
//! and requests.
use crate::array_live::count_num;
use crate::canvas::{cat, ctx_slot, ctx_store, display_arg, empty_list};
use crate::functions::{index_number, plain_slot};
use crate::host::{
    ask_list, ask_number, ask_text, ask_value, chain, done, get, halted, list1, list2, list3, list4,
    opt_view, run_list, run_plain, run_slot, run_text, run_value, text_in, text_value, Halt, Host,
    Interp, Op, Run, Stop,
};
use crate::number::{count_of_num, num_of, num_to_count, Num};
use crate::number_format::{this_of, this_or_undefined};
use crate::objects::is_nullish;
use crate::text::{
    append_text, ascii_lower, concat_text, has_prefix, same_text, starts_with_text,
    strip_text_prefix, to_ascii_lower,
};
use crate::value::{arg, arg_at, callable, is_callable, views, Kind, Native, Val, Value};
use crate::web_state::{
    first_value, flat_pairs, get_all, get_first, others, pair_views, pairs_in, read_pairs,
    stored_name, text_of_value, texts_as_values, timer_cleared, timer_started, values_of,
    with_value, without_name, write_pairs, Pair, PairV, Storage, Timers, TimersV,
};
use vstd::prelude::*;

verus! {

/// A property of the receiver as the console shows it; empty where there is none.
pub open spec fn recv_prop_str_run(h: Host, pos: nat, recv: Option<Val>, key: Seq<char>) -> Run<Seq<char>> {
    chain(
        plain_slot(h, pos, this_of(recv), key),
        |s: Option<Val>, p: nat|
            match s {
                Some(v) => ask_text(h, p, Op::Display, seq![v]),
                None => done(Seq::empty(), p),
            },
    )
}

/// `toString` of an address.
pub open spec fn url_to_string_run(h: Host, pos: nat, recv: Option<Val>, args: Seq<Val>) -> Run<Val> {
    chain(
        recv_prop_str_run(h, pos, recv, "href"@),
        |s: Seq<char>, p: nat| done(Val::Str(s), p),
    )
}

/// `toString` of a query.
pub open spec fn url_search_to_string_run(h: Host, pos: nat, recv: Option<Val>, args: Seq<Val>) -> Run<
    Val,
> {
    chain(
        recv_prop_str_run(h, pos, recv, "\0query"@),
        |s: Seq<char>, p: nat| done(Val::Str(s), p),
    )
}

/// The names and values of the receiver's query.
pub open spec fn query_pairs(h: Host, pos: nat, recv: Option<Val>) -> Run<Seq<PairV>> {
    chain(
        recv_prop_str_run(h, pos, recv, "\0query"@),
        |s: Seq<char>, p: nat|
            chain(
                ask_list(h, p, Op::ParseQuery, seq![Val::Str(s)]),
                |l: Seq<Val>, q: nat| done(pairs_in(l), q),
            ),
    )
}

/// The name that is looked for, and the receiver's names and values.
pub open spec fn name_and_pairs(h: Host, pos: nat, recv: Option<Val>, args: Seq<Val>) -> Run<
    (Seq<char>, Seq<PairV>),
> {
    chain(
        display_arg(h, pos, args, 0),
        |name: Seq<char>, p: nat|
            chain(query_pairs(h, p, recv), |s: Seq<PairV>, q: nat| done((name, s), q)),
    )
}

pub open spec fn text_or_null(s: Option<Seq<char>>) -> Val {
    match s {
        Some(t) => Val::Str(t),
        None => Val::Null,
    }
}

/// `get` of a query.
pub open spec fn url_search_get_run(h: Host, pos: nat, recv: Option<Val>, args: Seq<Val>) -> Run<Val> {
    chain(
        name_and_pairs(h, pos, recv, args),
        |np: (Seq<char>, Seq<PairV>), p: nat| done(text_or_null(first_value(np.1, np.0)), p),
    )
}

/// `getAll` of a query.
pub open spec fn url_search_get_all_run(h: Host, pos: nat, recv: Option<Val>, args: Seq<Val>) -> Run<Val> {
    chain(
        name_and_pairs(h, pos, recv, args),
        |np: (Seq<char>, Seq<PairV>), p: nat|
            ask_value(h, p, Op::NewArray, texts_as_values(values_of(np.1, np.0))),
    )
}

/// `has` of a query.
pub open spec fn url_search_has_run(h: Host, pos: nat, recv: Option<Val>, args: Seq<Val>) -> Run<Val> {
    chain(
        name_and_pairs(h, pos, recv, args),
        |np: (Seq<char>, Seq<PairV>), p: nat|
            done(Val::Bool(first_value(np.1, np.0) is Some), p),
    )
}

/// Stores a query of these names and values.
pub open spec fn store_query(h: Host, pos: nat, v: Val, s: Seq<PairV>) -> Run<Val> {
    chain(
        ask_text(h, pos, Op::BuildQuery, flat_pairs(s)),
        |q: Seq<char>, p: nat|
            chain(
                ctx_store(h, p, v, "\0query"@, Val::Str(q)),
                |u: (), r: nat| done(Val::Undefined, r),
            ),
    )
}

/// What a method does to the names and values of a query.
#[derive(Debug, Clone, Copy, PartialEq, Eq, Structural)]
pub enum QueryEdit {
    Append,
    Delete,
    Put,
}

pub open spec fn edited_query(s: Seq<PairV>, edit: QueryEdit, name: Seq<char>, value: Seq<char>) -> Seq<
    PairV,
> {
    match edit {
        QueryEdit::Append => s.push(PairV { name, value }),
        QueryEdit::Delete => others(s, name),
        QueryEdit::Put => others(s, name).push(PairV { name, value }),
    }
}

/// `set`, `append` and `delete` of a query.
pub open spec fn url_search_edit_run(
    h: Host,
    pos: nat,
    edit: QueryEdit,
    recv: Option<Val>,
    args: Seq<Val>,
) -> Run<Val> {
    let v = this_of(recv);
    match v {
        Val::Ref(Kind::Obj, _) => chain(
            query_pairs(h, pos, recv),
            |s: Seq<PairV>, p0: nat|
                chain(
                    display_arg(h, p0, args, 0),
                    |name: Seq<char>, p1: nat|
                        chain(
                            if edit == QueryEdit::Delete {
                                done(Seq::empty(), p1)
                            } else {
                                display_arg(h, p1, args, 1)
                            },
                            |value: Seq<char>, p2: nat|
                                store_query(h, p2, v, edited_query(s, edit, name, value)),
                        ),
                ),
        ),
        _ => done(Val::Undefined, pos),
    }
}

/// `getItem` of the storage.
pub open spec fn ls_get_item_run(h: Host, pos: nat, s: Seq<PairV>, args: Seq<Val>) -> Run<Val> {
    chain(
        display_arg(h, pos, args, 0),
        |name: Seq<char>, p: nat| done(text_or_null(first_value(s, name)), p),
    )
}

/// `key` of the storage.
pub open spec fn ls_key_run(h: Host, pos: nat, s: Seq<PairV>, args: Seq<Val>) -> Run<Val> {
    if args.len() == 0 {
        done(Val::Null, pos)
    } else {
        chain(
            ask_number(h, pos, Op::PlainNumber, seq![args[0]]),
            |n: Num, p: nat| done(text_or_null(stored_name(s, n)), p),
        )
    }
}

/// `setItem` of the storage: the storage after it.
pub open spec fn ls_set_item_run(h: Host, pos: nat, s: Seq<PairV>, args: Seq<Val>) -> Run<Seq<PairV>> {
    chain(
        display_arg(h, pos, args, 0),
        |name: Seq<char>, p: nat|
            chain(
                display_arg(h, p, args, 1),
                |value: Seq<char>, q: nat| done(with_value(s, name, value), q),
            ),
    )
}

/// `removeItem` of the storage: the storage after it.
pub open spec fn ls_remove_item_run(h: Host, pos: nat, s: Seq<PairV>, args: Seq<Val>) -> Run<Seq<PairV>> {
    chain(display_arg(h, pos, args, 0), |name: Seq<char>, p: nat| done(others(s, name), p))
}

/// The key of a header.
pub open spec fn header_key(name: Seq<char>) -> Seq<char> {
    "\0h:"@ + ascii_lower(name)
}

/// A header of the receiver, by a name in any case.
pub open spec fn header_slot(h: Host, pos: nat, recv: Option<Val>, args: Seq<Val>) -> Run<Option<Val>> {
    chain(
        display_arg(h, pos, args, 0),
        |name: Seq<char>, p: nat| plain_slot(h, p, this_of(recv), header_key(name)),
    )
}

/// `get` of headers.
pub open spec fn headers_get_run(h: Host, pos: nat, recv: Option<Val>, args: Seq<Val>) -> Run<Val> {
    chain(
        header_slot(h, pos, recv, args),
        |s: Option<Val>, p: nat|
            done(
                match s {
                    Some(v) => v,
                    None => Val::Null,
                },
                p,
            ),
    )
}

/// `has` of headers.
pub open spec fn headers_has_run(h: Host, pos: nat, recv: Option<Val>, args: Seq<Val>) -> Run<Val> {
    chain(
        header_slot(h, pos, recv, args),
        |s: Option<Val>, p: nat| done(Val::Bool(s is Some), p),
    )
}

/// A callback that a timer takes.
pub open spec fn timer_callback(v: Val) -> bool {
    match v {
        Val::Native(_) => true,
        Val::Ref(k, _) => k == Kind::Fn,
        _ => false,
    }
}

/// The delay that a timer is asked for.
pub open spec fn timer_delay(h: Host, pos: nat, args: Seq<Val>) -> Run<Num> {
    if args.len() > 1 {
        ask_number(h, pos, Op::DelayOf, seq![args[1]])
    } else {
        done(num_of(0), pos)
    }
}

/// `setTimeout` and `setInterval`: the number of the timer, and the timers after it.
pub open spec fn set_timer_run(h: Host, pos: nat, t: TimersV, repeat: bool, args: Seq<Val>) -> Run<
    (Val, TimersV),
> {
    if !timer_callback(arg(args, 0)) {
        done((Val::Num(num_of(0)), t), pos)
    } else {
        chain(
            timer_delay(h, pos, args),
            |delay: Num, p: nat|
                done(
                    (
                        Val::Num(count_num(t.next_id as nat)),
                        timer_started(t, arg(args, 0), delay, repeat),
                    ),
                    p,
                ),
        )
    }
}

/// `clearTimeout` and `clearInterval`: the timers after it.
pub open spec fn clear_timer_run(h: Host, pos: nat, t: TimersV, args: Seq<Val>) -> Run<(Val, TimersV)> {
    if args.len() == 0 {
        done((Val::Undefined, t), pos)
    } else {
        chain(
            ask_number(h, pos, Op::PlainNumber, seq![args[0]]),
            |n: Num, p: nat| done((Val::Undefined, timer_cleared(t, count_of_num(n))), p),
        )
    }
}

/// A method that changes the timers: what it returned and did is what `run` says; where it stopped,
/// the timers are as they were.
pub open spec fn timed_by(
    r: Result<Value, Stop>,
    it: Interp,
    before: TimersV,
    after: TimersV,
    run: Run<(Val, TimersV)>,
) -> bool {
    &&& run.pos == it.pos
    &&& match r {
        Ok(v) => run.out == Ok::<(Val, TimersV), Halt>((v@, after)),
        Err(e) => after == before && run.out == Err::<(Val, TimersV), Halt>(e@),
    }
}

/// `open` of a request.
pub open spec fn xhr_open_run(h: Host, pos: nat, recv: Option<Val>, args: Seq<Val>) -> Run<Val> {
    let v = this_of(recv);
    match v {
        Val::Ref(Kind::Obj, _) => chain(
            if args.len() == 0 {
                done("GET"@, pos)
            } else {
                display_arg(h, pos, args, 0)
            },
            |method: Seq<char>, p0: nat|
                chain(
                    display_arg(h, p0, args, 1),
                    |raw: Seq<char>, p1: nat|
                        chain(
                            ask_text(h, p1, Op::AbsoluteUrl, seq![Val::Str(raw)]),
                            |url: Seq<char>, p2: nat| xhr_opened(h, p2, v, method, url),
                        ),
                ),
        ),
        _ => done(Val::Undefined, pos),
    }
}

pub open spec fn xhr_opened(h: Host, pos: nat, v: Val, method: Seq<char>, url: Seq<char>) -> Run<Val> {
    chain(
        ctx_store(h, pos, v, "\0method"@, Val::Str(method)),
        |a: (), p: nat|
            chain(
                ctx_store(h, p, v, "\0url"@, Val::Str(url)),
                |b: (), q: nat|
                    chain(
                        ctx_store(h, q, v, "readyState"@, Val::Num(num_of(1))),
                        |c: (), r: nat| done(Val::Undefined, r),
                    ),
            ),
    )
}

/// `setRequestHeader`.
pub open spec fn xhr_set_header_run(h: Host, pos: nat, recv: Option<Val>, args: Seq<Val>) -> Run<Val> {
    let v = this_of(recv);
    match v {
        Val::Ref(Kind::Obj, _) => chain(
            display_arg(h, pos, args, 0),
            |k: Seq<char>, p0: nat|
                chain(
                    display_arg(h, p0, args, 1),
                    |x: Seq<char>, p1: nat|
                        chain(
                            ask_value(h, p1, Op::NewArray, seq![Val::Str(k), Val::Str(x)]),
                            |row: Val, p2: nat| add_row(h, p2, v, row),
                        ),
                ),
        ),
        _ => done(Val::Undefined, pos),
    }
}

/// Adds a row to a request's headers; there need not be any yet.
pub open spec fn add_row(h: Host, pos: nat, v: Val, row: Val) -> Run<Val> {
    chain(
        ctx_slot(h, pos, v, "\0reqheaders"@),
        |s: Option<Val>, p: nat|
            chain(
                match s {
                    Some(Val::Ref(Kind::Arr, _)) => crate::canvas::list_append(
                        h,
                        p,
                        v,
                        "\0reqheaders"@,
                        row,
                    ),
                    _ => crate::canvas::store_list(h, p, v, "\0reqheaders"@, seq![row]),
                },
                |u: (), q: nat| done(Val::Undefined, q),
            ),
    )
}

/// The two cells of a row; none where it is no row.
pub open spec fn row_cells(h: Host, pos: nat, row: Val) -> Run<Option<Seq<Val>>> {
    match row {
        Val::Ref(Kind::Arr, _) => chain(
            ask_list(h, pos, Op::Elements, seq![row]),
            |l: Seq<Val>, p: nat| done(Some(l), p),
        ),
        _ => done(None, pos),
    }
}

/// A row as a line of text.
pub open spec fn row_line(h: Host, pos: nat, cells: Seq<Val>) -> Run<Seq<char>> {
    chain(
        ask_text(h, pos, Op::Display, seq![arg(cells, 0)]),
        |k: Seq<char>, p: nat|
            chain(
                ask_text(h, p, Op::Display, seq![arg(cells, 1)]),
                |v: Seq<char>, q: nat| done(k + ": "@ + v + "\r\n"@, q),
            ),
    )
}

/// All rows from the `i`-th on, as lines.
pub open spec fn header_lines(h: Host, pos: nat, rows: Seq<Val>, i: int, out: Seq<char>) -> Run<Seq<char>>
    decreases rows.len() - i,
{
    if !(0 <= i < rows.len()) {
        done(out, pos)
    } else {
        let c = row_cells(h, pos, rows[i]);
        match c.out {
            Err(e) => halted(e, c.pos),
            Ok(None) => header_lines(h, c.pos, rows, i + 1, out),
            Ok(Some(cells)) => {
                let l = row_line(h, c.pos, cells);
                match l.out {
                    Err(e) => halted(e, l.pos),
                    Ok(t) => header_lines(h, l.pos, rows, i + 1, out + t),
                }
            },
        }
    }
}

/// The value of the first row of a name, from the `i`-th on; the case does not count.
pub open spec fn header_named(h: Host, pos: nat, rows: Seq<Val>, i: int, want: Seq<char>) -> Run<Val>
    decreases rows.len() - i,
{
    if !(0 <= i < rows.len()) {
        done(Val::Null, pos)
    } else {
        let c = row_cells(h, pos, rows[i]);
        match c.out {
            Err(e) => halted(e, c.pos),
            Ok(None) => header_named(h, c.pos, rows, i + 1, want),
            Ok(Some(cells)) => {
                let k = ask_text(h, c.pos, Op::Display, seq![arg(cells, 0)]);
                match k.out {
                    Err(e) => halted(e, k.pos),
                    Ok(t) => if ascii_lower(t) == ascii_lower(want) {
                        done(arg(cells, 1), k.pos)
                    } else {
                        header_named(h, k.pos, rows, i + 1, want)
                    },
                }
            },
        }
    }
}

/// The headers of an answer: all of them, or one.
pub open spec fn found_headers(h: Host, pos: nat, rows: Seq<Val>, want: Seq<char>, all: bool) -> Run<Val> {
    if all {
        chain(
            header_lines(h, pos, rows, 0, Seq::empty()),
            |t: Seq<char>, p: nat| done(Val::Str(t), p),
        )
    } else {
        header_named(h, pos, rows, 0, want)
    }
}

/// `getResponseHeader` and `getAllResponseHeaders`.
pub open spec fn xhr_get_header_run(h: Host, pos: nat, recv: Option<Val>, args: Seq<Val>) -> Run<Val> {
    let v = this_of(recv);
    match v {
        Val::Ref(Kind::Obj, _) => chain(
            display_arg(h, pos, args, 0),
            |want: Seq<char>, p: nat|
                chain(
                    crate::canvas::ctx_list(h, p, v, "\0resheaders"@),
                    |l: Option<Seq<Val>>, q: nat|
                        match l {
                            Some(rows) => found_headers(h, q, rows, want, args.len() == 0),
                            None => done(Val::Null, q),
                        },
                ),
        ),
        _ => done(Val::Null, pos),
    }
}

/// A request to be sent.
#[verifier::ext_equal]
pub struct RequestV {
    pub method: Seq<char>,
    pub url: Seq<char>,
    pub body: Option<Seq<char>>,
    pub headers: Seq<PairV>,
}

pub struct Request {
    pub method: String,
    pub url: String,
    pub body: Option<String>,
    pub headers: Vec<Pair>,
}

impl View for Request {
    type V = RequestV;

    open spec fn view(&self) -> RequestV {
        RequestV {
            method: self.method@,
            url: self.url@,
            body: match self.body {
                Some(b) => Some(b@),
                None => None,
            },
            headers: pair_views(self.headers@),
        }
    }
}

pub open spec fn request_run(r: Result<Request, Stop>, it: Interp) -> Run<RequestV> {
    match r {
        Ok(o) => done(o@, it.pos as nat),
        Err(e) => halted(e@, it.pos as nat),
    }
}

pub open spec fn pairs_run(r: Result<Vec<Pair>, Stop>, it: Interp) -> Run<Seq<PairV>> {
    match r {
        Ok(o) => done(pair_views(o@), it.pos as nat),
        Err(e) => halted(e@, it.pos as nat),
    }
}

pub open spec fn named_pairs_run(r: Result<(String, Vec<Pair>), Stop>, it: Interp) -> Run<
    (Seq<char>, Seq<PairV>),
> {
    match r {
        Ok(o) => done((o.0@, pair_views(o.1@)), it.pos as nat),
        Err(e) => halted(e@, it.pos as nat),
    }
}

pub open spec fn opt_body_run(r: Result<Option<String>, Stop>, it: Interp) -> Run<Option<Seq<char>>> {
    match r {
        Ok(Some(o)) => done(Some(o@), it.pos as nat),
        Ok(None) => done(None, it.pos as nat),
        Err(e) => halted(e@, it.pos as nat),
    }
}

/// A field of a request's settings as a text; none where it is undefined or null.
pub open spec fn setting(h: Host, pos: nat, init: Val, key: Seq<char>) -> Run<Option<Seq<char>>> {
    chain(
        get(h, pos, init, key),
        |v: Val, p: nat|
            if v is Undefined || v is Null {
                done(None, p)
            } else {
                chain(
                    ask_text(h, p, Op::Display, seq![v]),
                    |s: Seq<char>, q: nat| done(Some(s), q),
                )
            },
    )
}

/// The name under which a stored field is a header; none where it is none.
pub open spec fn header_name(key: Seq<char>, v: Val) -> Option<Seq<char>> {
    if has_prefix(key, "\0h:"@) {
        Some(key.skip("\0h:"@.len() as int))
    } else if has_prefix(key, "\0"@) || callable(v) {
        None
    } else {
        Some(key)
    }
}

/// The headers that an object's fields give, from the `i`-th field on.
pub open spec fn object_headers(h: Host, pos: nat, fields: Seq<Val>, i: int, out: Seq<PairV>) -> Run<
    Seq<PairV>,
>
    decreases fields.len() - i,
{
    if !(0 <= i && i + 1 < fields.len()) {
        done(out, pos)
    } else {
        match header_name(text_in(fields[i]), fields[i + 1]) {
            None => object_headers(h, pos, fields, i + 2, out),
            Some(name) => {
                let t = ask_text(h, pos, Op::Display, seq![fields[i + 1]]);
                match t.out {
                    Err(e) => halted(e, t.pos),
                    Ok(value) => object_headers(
                        h,
                        t.pos,
                        fields,
                        i + 2,
                        out.push(PairV { name, value }),
                    ),
                }
            },
        }
    }
}

/// A row of two cells as a header.
pub open spec fn row_header(h: Host, pos: nat, row: Val) -> Run<Option<PairV>> {
    chain(
        row_cells(h, pos, row),
        |c: Option<Seq<Val>>, p: nat|
            if c is None || c->0.len() < 2 {
                done(None, p)
            } else {
                chain(
                    ask_text(h, p, Op::Display, seq![c->0[0]]),
                    |name: Seq<char>, q: nat|
                        chain(
                            ask_text(h, q, Op::Display, seq![c->0[1]]),
                            |value: Seq<char>, r: nat| done(Some(PairV { name, value }), r),
                        ),
                )
            },
    )
}

/// The headers that a list of rows gives, from the `i`-th row on.
pub open spec fn list_headers(h: Host, pos: nat, rows: Seq<Val>, i: int, out: Seq<PairV>) -> Run<
    Seq<PairV>,
>
    decreases rows.len() - i,
{
    if !(0 <= i < rows.len()) {
        done(out, pos)
    } else {
        let c = row_header(h, pos, rows[i]);
        match c.out {
            Err(e) => halted(e, c.pos),
            Ok(None) => list_headers(h, c.pos, rows, i + 1, out),
            Ok(Some(x)) => list_headers(h, c.pos, rows, i + 1, out.push(x)),
        }
    }
}

/// The headers that a setting gives: the fields of an object, or rows of two cells.
pub open spec fn setting_headers(h: Host, pos: nat, v: Val) -> Run<Seq<PairV>> {
    match v {
        Val::Ref(Kind::Obj, _) => chain(
            ask_list(h, pos, Op::StoredFields, seq![v]),
            |f: Seq<Val>, p: nat| object_headers(h, p, f, 0, Seq::empty()),
        ),
        Val::Ref(Kind::Arr, _) => chain(
            ask_list(h, pos, Op::Elements, seq![v]),
            |rows: Seq<Val>, p: nat| list_headers(h, p, rows, 0, Seq::empty()),
        ),
        _ => done(Seq::empty(), pos),
    }
}

/// The request that `fetch` is asked for.
pub open spec fn fetch_request_run(h: Host, pos: nat, args: Seq<Val>) -> Run<RequestV> {
    chain(
        display_arg(h, pos, args, 0),
        |raw: Seq<char>, p: nat|
            chain(
                ask_text(h, p, Op::AbsoluteUrl, seq![Val::Str(raw)]),
                |url: Seq<char>, q: nat| configured(h, q, url, arg(args, 1)),
            ),
    )
}

/// A request by its settings: without any it is a `GET`.
pub open spec fn configured(h: Host, pos: nat, url: Seq<char>, init: Val) -> Run<RequestV> {
    if init is Undefined || init is Null {
        done(RequestV { method: "GET"@, url, body: None, headers: Seq::empty() }, pos)
    } else {
        chain(
            setting(h, pos, init, "method"@),
            |m: Option<Seq<char>>, p0: nat|
                chain(
                    get(h, p0, init, "headers"@),
                    |hv: Val, p1: nat|
                        chain(
                            setting_headers(h, p1, hv),
                            |headers: Seq<PairV>, p2: nat|
                                chain(
                                    setting(h, p2, init, "body"@),
                                    |body: Option<Seq<char>>, p3: nat|
                                        done(
                                            RequestV {
                                                method: match m {
                                                    Some(t) => t,
                                                    None => "GET"@,
                                                },
                                                url,
                                                body,
                                                headers,
                                            },
                                            p3,
                                        ),
                                ),
                        ),
                ),
        )
    }
}

/// What is sent of a request.
pub open spec fn request_values(r: RequestV) -> Seq<Val> {
    seq![
        Val::Str(r.method),
        Val::Str(r.url),
        match r.body {
            Some(b) => Val::Str(b),
            None => Val::Undefined,
        },
    ] + flat_pairs(r.headers)
}

/// The words that go with a status.
pub open spec fn status_words(status: u64) -> Seq<char> {
    if status == 200 {
        "OK"@
    } else if status == 201 {
        "Created"@
    } else if status == 204 {
        "No Content"@
    } else if status == 301 {
        "Moved Permanently"@
    } else if status == 302 {
        "Found"@
    } else if status == 304 {
        "Not Modified"@
    } else if status == 400 {
        "Bad Request"@
    } else if status == 401 {
        "Unauthorized"@
    } else if status == 403 {
        "Forbidden"@
    } else if status == 404 {
        "Not Found"@
    } else if status == 500 {
        "Internal Server Error"@
    } else {
        ""@
    }
}

/// The headers of an answer with their names in lower case.
pub open spec fn lowered(s: Seq<PairV>) -> Seq<PairV> {
    Seq::new(s.len(), |i: int| PairV { name: ascii_lower(s[i].name), value: s[i].value })
}

pub open spec fn status_of(answer: Seq<Val>) -> u64 {
    match arg(answer, 0) {
        Val::Num(n) => count_of_num(n),
        _ => 0,
    }
}

/// What follows the first three values of an answer.
pub open spec fn after_head(answer: Seq<Val>) -> Seq<Val> {
    if answer.len() < 3 {
        Seq::empty()
    } else {
        answer.skip(3)
    }
}

/// The fields under which a response keeps its headers.
pub open spec fn header_fields(s: Seq<PairV>) -> Seq<PairV> {
    Seq::new(s.len(), |i: int| PairV { name: header_key(s[i].name), value: s[i].value })
}

/// What the headers of a response are made of.
pub open spec fn headers_object(s: Seq<PairV>, rows: Val) -> Seq<Val> {
    flat_pairs(header_fields(s)) + seq![
        Val::Str("get"@),
        Val::Native(Native::HeadersGet),
        Val::Str("has"@),
        Val::Native(Native::HeadersHas),
        Val::Str("\0items"@),
        rows,
    ]
}

/// What a response is made of.
pub open spec fn response_values(url: Seq<char>, answer: Seq<Val>, headers: Val) -> Seq<Val> {
    let status = status_of(answer);
    seq![
        Val::Str("status"@),
        Val::Num(count_num(status as nat)),
        Val::Str("ok"@),
        Val::Bool(200 <= status < 300),
        Val::Str("\0body"@),
        arg(answer, 1),
        Val::Str("text"@),
        Val::Native(Native::ResponseText),
        Val::Str("json"@),
        Val::Native(Native::ResponseJson),
        Val::Str("\0raw"@),
        arg(answer, 2),
        Val::Str("arrayBuffer"@),
        Val::Native(Native::ResponseArrayBuffer),
        Val::Str("url"@),
        Val::Str(url),
        Val::Str("redirected"@),
        Val::Bool(false),
        Val::Str("type"@),
        Val::Str("basic"@),
        Val::Str("statusText"@),
        Val::Str(status_words(status)),
        Val::Str("headers"@),
        headers,
    ]
}

/// The response object of an answer.
pub open spec fn response_object(h: Host, pos: nat, url: Seq<char>, answer: Seq<Val>) -> Run<Val> {
    let pairs = lowered(pairs_in(after_head(answer)));
    chain(
        header_rows(h, pos, pairs, 0, Seq::empty()),
        |rows: Seq<Val>, p0: nat|
            chain(
                ask_value(h, p0, Op::NewArray, rows),
                |items: Val, p1: nat|
                    chain(
                        ask_value(h, p1, Op::NewObject, headers_object(pairs, items)),
                        |headers: Val, p2: nat|
                            ask_value(
                                h,
                                p2,
                                Op::NewObject,
                                response_values(url, answer, headers),
                            ),
                    ),
            ),
    )
}

/// `fetch`.
pub open spec fn fetch_run(h: Host, pos: nat, recv: Option<Val>, args: Seq<Val>) -> Run<Val> {
    chain(
        fetch_request_run(h, pos, args),
        |req: RequestV, p0: nat|
            chain(
                ask_value(h, p0, Op::NewPromise, Seq::empty()),
                |promise: Val, p1: nat|
                    chain(
                        ask_list(h, p1, Op::Http, request_values(req)),
                        |answer: Seq<Val>, p2: nat| answered(h, p2, promise, req.url, answer),
                    ),
            ),
    )
}

/// Writes to the console why there was no answer.
pub open spec fn failure_logged(h: Host, pos: nat, what: Seq<char>, answer: Seq<Val>) -> Run<Val> {
    chain(
        ask_value(h, pos, Op::Console, seq![Val::Str(what + text_in(arg(answer, 0)))]),
        |u: Val, p: nat| done(Val::Undefined, p),
    )
}

/// Settles a promise with an answer; with undefined where there was none.
pub open spec fn answered(h: Host, pos: nat, promise: Val, url: Seq<char>, answer: Seq<Val>) -> Run<Val> {
    chain(
        if answer.len() < 3 {
            failure_logged(h, pos, "fetch 실패: "@, answer)
        } else {
            response_object(h, pos, url, answer)
        },
        |v: Val, p: nat|
            chain(
                ask_value(h, p, Op::ResolvePromise, seq![promise, v]),
                |u: Val, q: nat| done(promise, q),
            ),
    )
}

/// A text that an own property holds; another where it holds none.
pub open spec fn slot_text(h: Host, pos: nat, v: Val, key: Seq<char>, none: Seq<char>) -> Run<Seq<char>> {
    chain(
        ctx_slot(h, pos, v, key),
        |s: Option<Val>, p: nat|
            done(
                match s {
                    Some(Val::Str(t)) => t,
                    _ => none,
                },
                p,
            ),
    )
}

/// The headers that were set on a request.
pub open spec fn xhr_headers(h: Host, pos: nat, v: Val) -> Run<Seq<PairV>> {
    chain(
        crate::canvas::ctx_list(h, pos, v, "\0reqheaders"@),
        |l: Option<Seq<Val>>, p: nat|
            match l {
                Some(rows) => list_headers(h, p, rows, 0, Seq::empty()),
                None => done(Seq::empty(), p),
            },
    )
}

/// The request that `send` sends.
pub open spec fn xhr_request(h: Host, pos: nat, v: Val, args: Seq<Val>) -> Run<RequestV> {
    chain(
        slot_text(h, pos, v, "\0url"@, Seq::empty()),
        |raw: Seq<char>, p0: nat|
            chain(
                ask_text(h, p0, Op::ResolveUrl, seq![Val::Str(raw)]),
                |url: Seq<char>, p1: nat|
                    chain(
                        slot_text(h, p1, v, "\0method"@, "GET"@),
                        |method: Seq<char>, p2: nat|
                            chain(
                                xhr_headers(h, p2, v),
                                |headers: Seq<PairV>, p3: nat|
                                    chain(
                                        xhr_body(h, p3, args),
                                        |body: Option<Seq<char>>, p4: nat|
                                            done(RequestV { method, url, body, headers }, p4),
                                    ),
                            ),
                    ),
            ),
    )
}

pub open spec fn xhr_body(h: Host, pos: nat, args: Seq<Val>) -> Run<Option<Seq<char>>> {
    if arg(args, 0) is Undefined || arg(args, 0) is Null {
        done(None, pos)
    } else {
        chain(
            ask_text(h, pos, Op::Display, seq![arg(args, 0)]),
            |s: Seq<char>, p: nat| done(Some(s), p),
        )
    }
}

/// Stores fields of an object from the `i`-th pair on.
pub open spec fn store_fields(h: Host, pos: nat, v: Val, fields: Seq<Val>, i: int) -> Run<()>
    decreases fields.len() - i,
{
    if !(0 <= i && i + 1 < fields.len()) {
        done((), pos)
    } else {
        let s = ctx_store(h, pos, v, text_in(fields[i]), fields[i + 1]);
        match s.out {
            Err(e) => halted(e, s.pos),
            Ok(_) => store_fields(h, s.pos, v, fields, i + 2),
        }
    }
}

/// Arrays of each name and value, from the `i`-th on.
pub open spec fn header_rows(h: Host, pos: nat, s: Seq<PairV>, i: int, out: Seq<Val>) -> Run<Seq<Val>>
    decreases s.len() - i,
{
    if !(0 <= i < s.len()) {
        done(out, pos)
    } else {
        let a = ask_value(h, pos, Op::NewArray, seq![Val::Str(s[i].name), Val::Str(s[i].value)]);
        match a.out {
            Err(e) => halted(e, a.pos),
            Ok(row) => header_rows(h, a.pos, s, i + 1, out.push(row)),
        }
    }
}

/// What a request object holds after an answer.
pub open spec fn xhr_answered(h: Host, pos: nat, v: Val, answer: Seq<Val>) -> Run<()> {
    if answer.len() < 3 {
        chain(
            failure_logged(h, pos, "XHR 실패: "@, answer),
            |u: Val, p: nat|
                store_fields(
                    h,
                    p,
                    v,
                    seq![
                        Val::Str("status"@),
                        Val::Num(num_of(0)),
                        Val::Str("readyState"@),
                        Val::Num(num_of(4)),
                    ],
                    0,
                ),
        )
    } else {
        chain(
            header_rows(h, pos, pairs_in(after_head(answer)), 0, Seq::empty()),
            |rows: Seq<Val>, p: nat|
                chain(
                    ask_value(h, p, Op::NewArray, rows),
                    |a: Val, q: nat| store_fields(h, q, v, xhr_fields(a, answer), 0),
                ),
        )
    }
}

pub open spec fn xhr_fields(rows: Val, answer: Seq<Val>) -> Seq<Val> {
    let status = status_of(answer);
    seq![
        Val::Str("\0resheaders"@),
        rows,
        Val::Str("status"@),
        Val::Num(count_num(status as nat)),
        Val::Str("statusText"@),
        Val::Str(
            if status == 200 {
                "OK"@
            } else {
                ""@
            },
        ),
        Val::Str("responseText"@),
        arg(answer, 1),
        Val::Str("response"@),
        arg(answer, 1),
        Val::Str("readyState"@),
        Val::Num(num_of(4)),
    ]
}

pub open spec fn xhr_fire(h: Host, pos: nat, v: Val, name: Seq<char>) -> Run<()> {
    chain(
        ask_value(h, pos, Op::XhrFire, seq![v, Val::Str(name)]),
        |u: Val, p: nat| done((), p),
    )
}

/// The events after an answer, in order.
pub open spec fn xhr_events(h: Host, pos: nat, v: Val) -> Run<Val> {
    chain(
        xhr_fire(h, pos, v, "readystatechange"@),
        |a: (), p: nat|
            chain(
                xhr_fire(h, p, v, "load"@),
                |b: (), q: nat|
                    chain(
                        xhr_fire(h, q, v, "loadend"@),
                        |c: (), r: nat| done(Val::Undefined, r),
                    ),
            ),
    )
}

/// `send` of a request.
pub open spec fn xhr_send_run(h: Host, pos: nat, recv: Option<Val>, args: Seq<Val>) -> Run<Val> {
    let v = this_of(recv);
    match v {
        Val::Ref(Kind::Obj, _) => chain(
            xhr_request(h, pos, v, args),
            |req: RequestV, p0: nat|
                chain(
                    ask_list(h, p0, Op::Http, request_values(req)),
                    |answer: Seq<Val>, p1: nat|
                        chain(
                            xhr_answered(h, p1, v, answer),
                            |u: (), p2: nat| xhr_events(h, p2, v),
                        ),
                ),
        ),
        _ => done(Val::Undefined, pos),
    }
}

pub open spec fn opt_pair_run(r: Result<Option<Pair>, Stop>, it: Interp) -> Run<Option<PairV>> {
    match r {
        Ok(Some(o)) => done(Some(o@), it.pos as nat),
        Ok(None) => done(None, it.pos as nat),
        Err(e) => halted(e@, it.pos as nat),
    }
}

/// A method that changes the storage: what it did is what `run` says, and it returns undefined;
/// where it stopped, the storage is as it was.
pub open spec fn stored_by(
    r: Result<Value, Stop>,
    it: Interp,
    before: Seq<PairV>,
    after: Seq<PairV>,
    run: Run<Seq<PairV>>,
) -> bool {
    &&& run.pos == it.pos
    &&& match r {
        Ok(v) => v@ == Val::Undefined && run.out == Ok::<Seq<PairV>, Halt>(after),
        Err(e) => after == before && run.out == Err::<Seq<PairV>, Halt>(e@),
    }
}

fn null_or_text(s: Option<String>) -> (r: Value)
    ensures
        r@ == text_or_null(
            match s {
                Some(t) => Some(t@),
                None => None,
            },
        ),
{
    match s {
        Some(t) => Value::Str(t),
        None => Value::Null,
    }
}

fn no_pairs() -> (r: Vec<Pair>)
    ensures
        pair_views(r@) == Seq::<PairV>::empty(),
{
    let v: Vec<Pair> = Vec::new();
    assert(pair_views(v@) =~= Seq::<PairV>::empty());
    v
}

fn edit_pairs(s: Vec<Pair>, edit: QueryEdit, name: String, value: String) -> (r: Vec<Pair>)
    ensures
        pair_views(r@) == edited_query(pair_views(s@), edit, name@, value@),
{
    let mut out: Vec<Pair> = match edit {
        QueryEdit::Append => s,
        _ => without_name(s, name.as_str()),
    };
    if edit == QueryEdit::Delete {
        return out;
    }
    let ghost before = pair_views(out@);
    let p: Pair = Pair { name, value };
    out.push(p);
    assert(pair_views(out@) =~= before.push(p@));
    out
}

fn name_of_header(key: &str, v: &Value) -> (r: Option<String>)
    ensures
        match r {
            Some(t) => header_name(key@, v@) == Some(t@),
            None => header_name(key@, v@) is None,
        },
{
    match strip_text_prefix(key, "\0h:") {
        Some(t) => Some(t),
        None => {
            if starts_with_text(key, "\0") || is_callable(v) {
                None
            } else {
                Some(key.to_owned())
            }
        },
    }
}

fn values_of_request(r: &Request) -> (v: Vec<Value>)
    ensures
        views(v@) == request_values(r@),
{
    let body: Value = match &r.body {
        Some(b) => Value::Str(b.clone()),
        None => Value::Undefined,
    };
    cat(
        list3(Value::Str(r.method.clone()), Value::Str(r.url.clone()), body),
        &write_pairs(&r.headers),
    )
}

fn words_of_status(status: u64) -> (r: &'static str)
    ensures
        r@ == status_words(status),
{
    if status == 200 {
        "OK"
    } else if status == 201 {
        "Created"
    } else if status == 204 {
        "No Content"
    } else if status == 301 {
        "Moved Permanently"
    } else if status == 302 {
        "Found"
    } else if status == 304 {
        "Not Modified"
    } else if status == 400 {
        "Bad Request"
    } else if status == 401 {
        "Unauthorized"
    } else if status == 403 {
        "Forbidden"
    } else if status == 404 {
        "Not Found"
    } else if status == 500 {
        "Internal Server Error"
    } else {
        ""
    }
}

fn lower_names(s: Vec<Pair>) -> (r: Vec<Pair>)
    ensures
        pair_views(r@) == lowered(pair_views(s@)),
{
    let ghost goal = lowered(pair_views(s@));
    let mut out: Vec<Pair> = no_pairs();
    let mut i: usize = 0;
    while i < s.len()
        invariant
            i <= s@.len(),
            goal == lowered(pair_views(s@)),
            pair_views(out@) == goal.take(i as int),
        decreases s@.len() - i,
    {
        let ghost before = pair_views(out@);
        let p: Pair = Pair {
            name: to_ascii_lower(s[i].name.as_str()),
            value: s[i].value.clone(),
        };
        out.push(p);
        assert(pair_views(out@) =~= before.push(goal[i as int]));
        i = i + 1;
        assert(pair_views(out@) =~= goal.take(i as int));
    }
    assert(goal.take(i as int) =~= goal);
    out
}

fn after_three(l: &Vec<Value>) -> (r: Vec<Value>)
    ensures
        views(r@) == after_head(views(l@)),
{
    let mut out: Vec<Value> = empty_list();
    if l.len() < 3 {
        assert(views(out@) =~= Seq::empty());
        return out;
    }
    assert(views(out@) =~= views(l@).subrange(3, 3));
    let mut i: usize = 3;
    while i < l.len()
        invariant
            3 <= i <= l@.len(),
            views(out@) == views(l@).subrange(3, i as int),
        decreases l@.len() - i,
    {
        let ghost before = views(out@);
        out.push(l[i].clone());
        assert(views(out@) =~= before.push(l@[i as int]@));
        i = i + 1;
        assert(views(out@) =~= views(l@).subrange(3, i as int));
    }
    assert(views(out@) =~= views(l@).skip(3));
    out
}

fn status_in(answer: &Vec<Value>) -> (r: u64)
    ensures
        r == status_of(views(answer@)),
{
    match arg_at(answer, 0) {
        Value::Num(n) => num_to_count(n),
        _ => 0,
    }
}

fn object_of_headers(s: &Vec<Pair>, rows: Value) -> (r: Vec<Value>)
    ensures
        views(r@) == headers_object(pair_views(s@), rows@),
{
    let ghost goal = header_fields(pair_views(s@));
    let mut fields: Vec<Pair> = no_pairs();
    let mut i: usize = 0;
    while i < s.len()
        invariant
            i <= s@.len(),
            goal == header_fields(pair_views(s@)),
            pair_views(fields@) == goal.take(i as int),
        decreases s@.len() - i,
    {
        let ghost before = pair_views(fields@);
        let p: Pair = Pair {
            name: concat_text("\0h:", to_ascii_lower(s[i].name.as_str()).as_str()),
            value: s[i].value.clone(),
        };
        fields.push(p);
        assert(pair_views(fields@) =~= before.push(goal[i as int]));
        i = i + 1;
        assert(pair_views(fields@) =~= goal.take(i as int));
    }
    assert(goal.take(i as int) =~= goal);
    let tail: Vec<Value> = cat(
        list4(
            text_value("get"),
            Value::Native(Native::HeadersGet),
            text_value("has"),
            Value::Native(Native::HeadersHas),
        ),
        &list2(text_value("\0items"), rows),
    );
    let out: Vec<Value> = cat(write_pairs(&fields), &tail);
    assert(views(out@) =~= headers_object(pair_views(s@), rows@));
    out
}

fn response_of(url: &str, answer: &Vec<Value>, headers: Value) -> (r: Vec<Value>)
    ensures
        views(r@) == response_values(url@, views(answer@), headers@),
{
    let status: u64 = status_in(answer);
    let a: Vec<Value> = cat(
        list4(
            text_value("status"),
            Value::Num(index_number(status)),
            text_value("ok"),
            Value::Bool(200 <= status && status < 300),
        ),
        &list4(
            text_value("\0body"),
            arg_at(answer, 1),
            text_value("text"),
            Value::Native(Native::ResponseText),
        ),
    );
    let b: Vec<Value> = cat(
        list4(
            text_value("json"),
            Value::Native(Native::ResponseJson),
            text_value("\0raw"),
            arg_at(answer, 2),
        ),
        &list4(
            text_value("arrayBuffer"),
            Value::Native(Native::ResponseArrayBuffer),
            text_value("url"),
            text_value(url),
        ),
    );
    let c: Vec<Value> = cat(
        list4(
            text_value("redirected"),
            Value::Bool(false),
            text_value("type"),
            text_value("basic"),
        ),
        &list4(
            text_value("statusText"),
            text_value(words_of_status(status)),
            text_value("headers"),
            headers,
        ),
    );
    let out: Vec<Value> = cat(cat(a, &b), &c);
    assert(views(out@) =~= response_values(url@, views(answer@), headers@));
    out
}

fn fields_of_answer(rows: Value, answer: &Vec<Value>) -> (r: Vec<Value>)
    ensures
        views(r@) == xhr_fields(rows@, views(answer@)),
{
    let status: u64 = status_in(answer);
    let words: &str = if status == 200 {
        "OK"
    } else {
        ""
    };
    let a: Vec<Value> = list4(
        text_value("\0resheaders"),
        rows,
        text_value("status"),
        Value::Num(index_number(status)),
    );
    let b: Vec<Value> = list4(
        text_value("statusText"),
        text_value(words),
        text_value("responseText"),
        arg_at(answer, 1),
    );
    let c: Vec<Value> = list4(
        text_value("response"),
        arg_at(answer, 1),
        text_value("readyState"),
        Value::Num(Num::from_u64(4)),
    );
    let out: Vec<Value> = cat(cat(a, &b), &c);
    assert(views(out@) =~= xhr_fields(rows@, views(answer@)));
    out
}

impl Interp {
    /// A property of the receiver as the console shows it; empty where there is none.
    pub fn recv_prop_str(&mut self, recv: &Option<Value>, key: &str) -> (r: Result<String, Stop>)
        requires
            old(self).wf(),
        ensures
            final(self).follows(*old(self)),
            run_text(r, *final(self)) == recv_prop_str_run(
                old(self).host(),
                old(self).pos as nat,
                opt_view(*recv),
                key@,
            ),
    {
        match self.plain_slot(&this_or_undefined(recv), key)? {
            Some(v) => self.ask_text(Op::Display, list1(v)),
            None => {
                let s: String = String::new();
                assert(s@ =~= Seq::<char>::empty());
                Ok(s)
            },
        }
    }

    /// `toString` of an address.
    pub fn url_to_string(&mut self, recv: &Option<Value>, args: &Vec<Value>) -> (r: Result<Value, Stop>)
        requires
            old(self).wf(),
        ensures
            final(self).follows(*old(self)),
            run_value(r, *final(self)) == url_to_string_run(
                old(self).host(),
                old(self).pos as nat,
                opt_view(*recv),
                views(args@),
            ),
    {
        let s: String = self.recv_prop_str(recv, "href")?;
        Ok(Value::Str(s))
    }

    /// `toString` of a query.
    pub fn url_search_to_string(&mut self, recv: &Option<Value>, args: &Vec<Value>) -> (r: Result<Value, Stop>)
        requires
            old(self).wf(),
        ensures
            final(self).follows(*old(self)),
            run_value(r, *final(self)) == url_search_to_string_run(
                old(self).host(),
                old(self).pos as nat,
                opt_view(*recv),
                views(args@),
            ),
    {
        let s: String = self.recv_prop_str(recv, "\0query")?;
        Ok(Value::Str(s))
    }

    fn query_pairs(&mut self, recv: &Option<Value>) -> (r: Result<Vec<Pair>, Stop>)
        requires
            old(self).wf(),
        ensures
            final(self).follows(*old(self)),
            pairs_run(r, *final(self)) == query_pairs(
                old(self).host(),
                old(self).pos as nat,
                opt_view(*recv),
            ),
    {
        let s: String = self.recv_prop_str(recv, "\0query")?;
        let l: Vec<Value> = self.ask_list(Op::ParseQuery, list1(Value::Str(s)))?;
        Ok(read_pairs(&l))
    }

    fn name_and_pairs(&mut self, recv: &Option<Value>, args: &Vec<Value>) -> (r: Result<(String, Vec<Pair>), Stop>)
        requires
            old(self).wf(),
        ensures
            final(self).follows(*old(self)),
            named_pairs_run(r, *final(self)) == name_and_pairs(
                old(self).host(),
                old(self).pos as nat,
                opt_view(*recv),
                views(args@),
            ),
    {
        let name: String = self.display_arg(args, 0)?;
        let s: Vec<Pair> = self.query_pairs(recv)?;
        Ok((name, s))
    }

    /// `get` of a query.
    pub fn url_search_get(&mut self, recv: &Option<Value>, args: &Vec<Value>) -> (r: Result<Value, Stop>)
        requires
            old(self).wf(),
        ensures
            final(self).follows(*old(self)),
            run_value(r, *final(self)) == url_search_get_run(
                old(self).host(),
                old(self).pos as nat,
                opt_view(*recv),
                views(args@),
            ),
    {
        let (name, s): (String, Vec<Pair>) = self.name_and_pairs(recv, args)?;
        Ok(null_or_text(get_first(&s, name.as_str())))
    }

    /// `getAll` of a query.
    pub fn url_search_get_all(&mut self, recv: &Option<Value>, args: &Vec<Value>) -> (r: Result<Value, Stop>)
        requires
            old(self).wf(),
        ensures
            final(self).follows(*old(self)),
            run_value(r, *final(self)) == url_search_get_all_run(
                old(self).host(),
                old(self).pos as nat,
                opt_view(*recv),
                views(args@),
            ),
    {
        let (name, s): (String, Vec<Pair>) = self.name_and_pairs(recv, args)?;
        self.ask_value(Op::NewArray, get_all(&s, name.as_str()))
    }

    /// `has` of a query.
    pub fn url_search_has(&mut self, recv: &Option<Value>, args: &Vec<Value>) -> (r: Result<Value, Stop>)
        requires
            old(self).wf(),
        ensures
            final(self).follows(*old(self)),
            run_value(r, *final(self)) == url_search_has_run(
                old(self).host(),
                old(self).pos as nat,
                opt_view(*recv),
                views(args@),
            ),
    {
        let (name, s): (String, Vec<Pair>) = self.name_and_pairs(recv, args)?;
        Ok(Value::Bool(get_first(&s, name.as_str()).is_some()))
    }

    fn store_query(&mut self, v: &Value, s: &Vec<Pair>) -> (r: Result<Value, Stop>)
        requires
            old(self).wf(),
        ensures
            final(self).follows(*old(self)),
            run_value(r, *final(self)) == store_query(
                old(self).host(),
                old(self).pos as nat,
                v@,
                pair_views(s@),
            ),
    {
        let q: String = self.ask_text(Op::BuildQuery, write_pairs(s))?;
        self.ctx_store(v, "\0query", Value::Str(q))?;
        Ok(Value::Undefined)
    }

    /// `set`, `append` and `delete` of a query.
    pub fn url_search_edit(&mut self, edit: QueryEdit, recv: &Option<Value>, args: &Vec<Value>) -> (r: Result<Value, Stop>)
        requires
            old(self).wf(),
        ensures
            final(self).follows(*old(self)),
            run_value(r, *final(self)) == url_search_edit_run(
                old(self).host(),
                old(self).pos as nat,
                edit,
                opt_view(*recv),
                views(args@),
            ),
    {
        let v: Value = this_or_undefined(recv);
        match &v {
            Value::Ref(Kind::Obj, _) => {
                let s: Vec<Pair> = self.query_pairs(recv)?;
                let name: String = self.display_arg(args, 0)?;
                let value: String = if edit == QueryEdit::Delete {
                    let e: String = String::new();
                    assert(e@ =~= Seq::<char>::empty());
                    e
                } else {
                    self.display_arg(args, 1)?
                };
                let edited: Vec<Pair> = edit_pairs(s, edit, name, value);
                self.store_query(&v, &edited)
            },
            _ => Ok(Value::Undefined),
        }
    }

    /// `getItem` of the storage.
    pub fn ls_get_item(&mut self, storage: &Storage, args: &Vec<Value>) -> (r: Result<Value, Stop>)
        requires
            old(self).wf(),
        ensures
            final(self).follows(*old(self)),
            run_value(r, *final(self)) == ls_get_item_run(
                old(self).host(),
                old(self).pos as nat,
                storage@,
                views(args@),
            ),
    {
        let name: String = self.display_arg(args, 0)?;
        Ok(null_or_text(storage.get_item(name.as_str())))
    }

    /// `length` of the storage.
    pub fn ls_length(&mut self, storage: &Storage) -> (r: Result<Value, Stop>)
        requires
            old(self).wf(),
        ensures
            *final(self) == *old(self),
            r matches Ok(v) && v@ == Val::Num(count_num(storage@.len())),
    {
        Ok(Value::Num(crate::array_live::count_as_num(storage.length())))
    }

    /// `key` of the storage.
    pub fn ls_key(&mut self, storage: &Storage, args: &Vec<Value>) -> (r: Result<Value, Stop>)
        requires
            old(self).wf(),
        ensures
            final(self).follows(*old(self)),
            run_value(r, *final(self)) == ls_key_run(
                old(self).host(),
                old(self).pos as nat,
                storage@,
                views(args@),
            ),
    {
        if args.len() == 0 {
            return Ok(Value::Null);
        }
        let n: Num = self.ask_number(Op::PlainNumber, list1(args[0].clone()))?;
        Ok(null_or_text(storage.key(n)))
    }

    /// `setItem` of the storage.
    pub fn ls_set_item(&mut self, storage: &mut Storage, args: &Vec<Value>) -> (r: Result<Value, Stop>)
        requires
            old(self).wf(),
        ensures
            final(self).follows(*old(self)),
            stored_by(
                r,
                *final(self),
                old(storage)@,
                final(storage)@,
                ls_set_item_run(
                    old(self).host(),
                    old(self).pos as nat,
                    old(storage)@,
                    views(args@),
                ),
            ),
    {
        let name: String = self.display_arg(args, 0)?;
        let value: String = self.display_arg(args, 1)?;
        storage.set_item(name.as_str(), value.as_str());
        Ok(Value::Undefined)
    }

    /// `removeItem` of the storage.
    pub fn ls_remove_item(&mut self, storage: &mut Storage, args: &Vec<Value>) -> (r: Result<Value, Stop>)
        requires
            old(self).wf(),
        ensures
            final(self).follows(*old(self)),
            stored_by(
                r,
                *final(self),
                old(storage)@,
                final(storage)@,
                ls_remove_item_run(
                    old(self).host(),
                    old(self).pos as nat,
                    old(storage)@,
                    views(args@),
                ),
            ),
    {
        let name: String = self.display_arg(args, 0)?;
        storage.remove_item(name.as_str());
        Ok(Value::Undefined)
    }

    /// `clear` of the storage.
    pub fn ls_clear(&mut self, storage: &mut Storage) -> (r: Result<Value, Stop>)
        ensures
            *final(self) == *old(self),
            r matches Ok(v) && v@ == Val::Undefined,
            final(storage)@ == Seq::<PairV>::empty(),
    {
        storage.clear();
        Ok(Value::Undefined)
    }

    /// `setTimeout` and `setInterval`: the number of the timer, or zero where the callback is none.
    pub fn set_timer(&mut self, timers: &mut Timers, repeat: bool, args: &Vec<Value>) -> (r: Result<
        Value,
        Stop,
    >)
        requires
            old(self).wf(),
            old(timers).wf(),
            old(timers).next_id < u64::MAX,
        ensures
            final(self).follows(*old(self)),
            final(timers).wf(),
            timed_by(
                r,
                *final(self),
                old(timers)@,
                final(timers)@,
                set_timer_run(
                    old(self).host(),
                    old(self).pos as nat,
                    old(timers)@,
                    repeat,
                    views(args@),
                ),
            ),
    {
        let callback: Value = arg_at(args, 0);
        let fits: bool = match &callback {
            Value::Native(_) => true,
            Value::Ref(k, _) => *k == Kind::Fn,
            _ => false,
        };
        if !fits {
            return Ok(Value::Num(Num::from_u64(0)));
        }
        let delay: Num = if args.len() > 1 {
            self.ask_number(Op::DelayOf, list1(args[1].clone()))?
        } else {
            Num::from_u64(0)
        };
        let id: u64 = timers.start(callback, delay, repeat);
        Ok(Value::Num(index_number(id)))
    }

    /// `clearTimeout` and `clearInterval`.
    pub fn clear_timer(&mut self, timers: &mut Timers, args: &Vec<Value>) -> (r: Result<Value, Stop>)
        requires
            old(self).wf(),
            old(timers).wf(),
        ensures
            final(self).follows(*old(self)),
            final(timers).wf(),
            timed_by(
                r,
                *final(self),
                old(timers)@,
                final(timers)@,
                clear_timer_run(
                    old(self).host(),
                    old(self).pos as nat,
                    old(timers)@,
                    views(args@),
                ),
            ),
    {
        if args.len() == 0 {
            return Ok(Value::Undefined);
        }
        let n: Num = self.ask_number(Op::PlainNumber, list1(args[0].clone()))?;
        timers.clear(num_to_count(n));
        Ok(Value::Undefined)
    }

    fn header_slot(&mut self, recv: &Option<Value>, args: &Vec<Value>) -> (r: Result<Option<Value>, Stop>)
        requires
            old(self).wf(),
        ensures
            final(self).follows(*old(self)),
            run_slot(r, *final(self)) == header_slot(
                old(self).host(),
                old(self).pos as nat,
                opt_view(*recv),
                views(args@),
            ),
    {
        let name: String = self.display_arg(args, 0)?;
        let key: String = concat_text("\0h:", to_ascii_lower(name.as_str()).as_str());
        self.plain_slot(&this_or_undefined(recv), key.as_str())
    }

    /// `get` of headers.
    pub fn headers_get(&mut self, recv: &Option<Value>, args: &Vec<Value>) -> (r: Result<Value, Stop>)
        requires
            old(self).wf(),
        ensures
            final(self).follows(*old(self)),
            run_value(r, *final(self)) == headers_get_run(
                old(self).host(),
                old(self).pos as nat,
                opt_view(*recv),
                views(args@),
            ),
    {
        match self.header_slot(recv, args)? {
            Some(v) => Ok(v),
            None => Ok(Value::Null),
        }
    }

    /// `has` of headers.
    pub fn headers_has(&mut self, recv: &Option<Value>, args: &Vec<Value>) -> (r: Result<Value, Stop>)
        requires
            old(self).wf(),
        ensures
            final(self).follows(*old(self)),
            run_value(r, *final(self)) == headers_has_run(
                old(self).host(),
                old(self).pos as nat,
                opt_view(*recv),
                views(args@),
            ),
    {
        let s: Option<Value> = self.header_slot(recv, args)?;
        Ok(Value::Bool(s.is_some()))
    }

    fn xhr_opened(&mut self, v: &Value, method: String, url: String) -> (r: Result<Value, Stop>)
        requires
            old(self).wf(),
        ensures
            final(self).follows(*old(self)),
            run_value(r, *final(self)) == xhr_opened(
                old(self).host(),
                old(self).pos as nat,
                v@,
                method@,
                url@,
            ),
    {
        self.ctx_store(v, "\0method", Value::Str(method))?;
        self.ctx_store(v, "\0url", Value::Str(url))?;
        self.ctx_store(v, "readyState", Value::Num(Num::from_u64(1)))?;
        Ok(Value::Undefined)
    }

    /// `open` of a request.
    pub fn xhr_open(&mut self, recv: &Option<Value>, args: &Vec<Value>) -> (r: Result<Value, Stop>)
        requires
            old(self).wf(),
        ensures
            final(self).follows(*old(self)),
            run_value(r, *final(self)) == xhr_open_run(
                old(self).host(),
                old(self).pos as nat,
                opt_view(*recv),
                views(args@),
            ),
    {
        let v: Value = this_or_undefined(recv);
        match &v {
            Value::Ref(Kind::Obj, _) => {
                let method: String = if args.len() == 0 {
                    "GET".to_owned()
                } else {
                    self.display_arg(args, 0)?
                };
                let raw: String = self.display_arg(args, 1)?;
                let url: String = self.ask_text(Op::AbsoluteUrl, list1(Value::Str(raw)))?;
                self.xhr_opened(&v, method, url)
            },
            _ => Ok(Value::Undefined),
        }
    }

    fn add_row(&mut self, v: &Value, row: Value) -> (r: Result<Value, Stop>)
        requires
            old(self).wf(),
        ensures
            final(self).follows(*old(self)),
            run_value(r, *final(self)) == add_row(
                old(self).host(),
                old(self).pos as nat,
                v@,
                row@,
            ),
    {
        match self.ctx_slot(v, "\0reqheaders")? {
            Some(Value::Ref(Kind::Arr, _)) => {
                self.list_append(v, "\0reqheaders", row)?;
            },
            _ => {
                self.store_list(v, "\0reqheaders", &list1(row))?;
            },
        }
        Ok(Value::Undefined)
    }

    /// `setRequestHeader`.
    pub fn xhr_set_header(&mut self, recv: &Option<Value>, args: &Vec<Value>) -> (r: Result<Value, Stop>)
        requires
            old(self).wf(),
        ensures
            final(self).follows(*old(self)),
            run_value(r, *final(self)) == xhr_set_header_run(
                old(self).host(),
                old(self).pos as nat,
                opt_view(*recv),
                views(args@),
            ),
    {
        let v: Value = this_or_undefined(recv);
        match &v {
            Value::Ref(Kind::Obj, _) => {
                let k: String = self.display_arg(args, 0)?;
                let x: String = self.display_arg(args, 1)?;
                let row: Value = self.ask_value(Op::NewArray, list2(Value::Str(k), Value::Str(x)))?;
                self.add_row(&v, row)
            },
            _ => Ok(Value::Undefined),
        }
    }

    fn row_cells(&mut self, row: &Value) -> (r: Result<Option<Vec<Value>>, Stop>)
        requires
            old(self).wf(),
        ensures
            final(self).follows(*old(self)),
            crate::canvas::opt_list_run(r, *final(self)) == row_cells(
                old(self).host(),
                old(self).pos as nat,
                row@,
            ),
    {
        match row {
            Value::Ref(Kind::Arr, _) => {
                let l: Vec<Value> = self.ask_list(Op::Elements, list1(row.clone()))?;
                Ok(Some(l))
            },
            _ => Ok(None),
        }
    }

    fn row_line(&mut self, cells: &Vec<Value>) -> (r: Result<String, Stop>)
        requires
            old(self).wf(),
        ensures
            final(self).follows(*old(self)),
            run_text(r, *final(self)) == row_line(
                old(self).host(),
                old(self).pos as nat,
                views(cells@),
            ),
    {
        let k: String = self.ask_text(Op::Display, list1(arg_at(cells, 0)))?;
        let v: String = self.ask_text(Op::Display, list1(arg_at(cells, 1)))?;
        let a: String = concat_text(k.as_str(), ": ");
        let b: String = concat_text(a.as_str(), v.as_str());
        Ok(concat_text(b.as_str(), "\r\n"))
    }

    #[verifier::loop_isolation(false)]
    fn header_lines(&mut self, rows: &Vec<Value>) -> (r: Result<String, Stop>)
        requires
            old(self).wf(),
        ensures
            final(self).follows(*old(self)),
            run_text(r, *final(self)) == header_lines(
                old(self).host(),
                old(self).pos as nat,
                views(rows@),
                0,
                Seq::empty(),
            ),
    {
        let ghost all = views(rows@);
        let ghost goal = header_lines(self.host(), self.pos as nat, all, 0, Seq::empty());
        let mut out: String = String::new();
        assert(out@ =~= Seq::<char>::empty());
        let mut i: usize = 0;
        while i < rows.len()
            invariant
                i <= rows@.len(),
                self.follows(*old(self)),
                goal == header_lines(self.host(), self.pos as nat, all, i as int, out@),
            decreases rows@.len() - i,
        {
            assert(all[i as int] == rows@[i as int]@);
            match self.row_cells(&rows[i])? {
                Some(cells) => {
                    let line: String = self.row_line(&cells)?;
                    append_text(&mut out, line.as_str());
                },
                None => {},
            }
            i = i + 1;
        }
        Ok(out)
    }

    #[verifier::loop_isolation(false)]
    fn header_named(&mut self, rows: &Vec<Value>, want: &str) -> (r: Result<Value, Stop>)
        requires
            old(self).wf(),
        ensures
            final(self).follows(*old(self)),
            run_value(r, *final(self)) == header_named(
                old(self).host(),
                old(self).pos as nat,
                views(rows@),
                0,
                want@,
            ),
    {
        let ghost all = views(rows@);
        let ghost goal = header_named(self.host(), self.pos as nat, all, 0, want@);
        let low: String = to_ascii_lower(want);
        let mut i: usize = 0;
        while i < rows.len()
            invariant
                i <= rows@.len(),
                low@ == ascii_lower(want@),
                self.follows(*old(self)),
                goal == header_named(self.host(), self.pos as nat, all, i as int, want@),
            decreases rows@.len() - i,
        {
            assert(all[i as int] == rows@[i as int]@);
            match self.row_cells(&rows[i])? {
                Some(cells) => {
                    let k: String = self.ask_text(Op::Display, list1(arg_at(&cells, 0)))?;
                    if same_text(to_ascii_lower(k.as_str()).as_str(), low.as_str()) {
                        return Ok(arg_at(&cells, 1));
                    }
                },
                None => {},
            }
            i = i + 1;
        }
        Ok(Value::Null)
    }

    fn found_headers(&mut self, rows: &Vec<Value>, want: &str, all: bool) -> (r: Result<Value, Stop>)
        requires
            old(self).wf(),
        ensures
            final(self).follows(*old(self)),
            run_value(r, *final(self)) == found_headers(
                old(self).host(),
                old(self).pos as nat,
                views(rows@),
                want@,
                all,
            ),
    {
        if all {
            let t: String = self.header_lines(rows)?;
            Ok(Value::Str(t))
        } else {
            self.header_named(rows, want)
        }
    }

    /// `getResponseHeader` and `getAllResponseHeaders`.
    pub fn xhr_get_header(&mut self, recv: &Option<Value>, args: &Vec<Value>) -> (r: Result<Value, Stop>)
        requires
            old(self).wf(),
        ensures
            final(self).follows(*old(self)),
            run_value(r, *final(self)) == xhr_get_header_run(
                old(self).host(),
                old(self).pos as nat,
                opt_view(*recv),
                views(args@),
            ),
    {
        let v: Value = this_or_undefined(recv);
        match &v {
            Value::Ref(Kind::Obj, _) => {
                let want: String = self.display_arg(args, 0)?;
                match self.ctx_list(&v, "\0resheaders")? {
                    Some(rows) => self.found_headers(&rows, want.as_str(), args.len() == 0),
                    None => Ok(Value::Null),
                }
            },
            _ => Ok(Value::Null),
        }
    }

    fn setting(&mut self, init: &Value, key: &str) -> (r: Result<Option<String>, Stop>)
        requires
            old(self).wf(),
        ensures
            final(self).follows(*old(self)),
            opt_body_run(r, *final(self)) == setting(
                old(self).host(),
                old(self).pos as nat,
                init@,
                key@,
            ),
    {
        let v: Value = self.member_get(init, key)?;
        if is_nullish(&v) {
            return Ok(None);
        }
        let s: String = self.ask_text(Op::Display, list1(v))?;
        Ok(Some(s))
    }

    #[verifier::loop_isolation(false)]
    fn object_headers(&mut self, fields: &Vec<Value>) -> (r: Result<Vec<Pair>, Stop>)
        requires
            old(self).wf(),
        ensures
            final(self).follows(*old(self)),
            pairs_run(r, *final(self)) == object_headers(
                old(self).host(),
                old(self).pos as nat,
                views(fields@),
                0,
                Seq::empty(),
            ),
    {
        let ghost all = views(fields@);
        let ghost goal = object_headers(self.host(), self.pos as nat, all, 0, Seq::empty());
        let mut out: Vec<Pair> = Vec::new();
        assert(pair_views(out@) =~= Seq::<PairV>::empty());
        let size: usize = fields.len();
        let mut i: usize = 0;
        while i < size && size - i > 1
            invariant
                i <= size,
                size == fields@.len(),
                self.follows(*old(self)),
                goal == object_headers(self.host(), self.pos as nat, all, i as int, pair_views(out@)),
            decreases size - i,
        {
            assert(all[i as int] == fields@[i as int]@ && all[i + 1] == fields@[i + 1]@);
            let ghost before = pair_views(out@);
            let key: String = text_of_value(&fields[i]);
            match name_of_header(key.as_str(), &fields[i + 1]) {
                Some(name) => {
                    let value: String = self.ask_text(Op::Display, list1(fields[i + 1].clone()))?;
                    let p: Pair = Pair { name, value };
                    out.push(p);
                    assert(pair_views(out@) =~= before.push(p@));
                },
                None => {},
            }
            i = i + 2;
        }
        Ok(out)
    }

    fn row_header(&mut self, row: &Value) -> (r: Result<Option<Pair>, Stop>)
        requires
            old(self).wf(),
        ensures
            final(self).follows(*old(self)),
            opt_pair_run(r, *final(self)) == row_header(
                old(self).host(),
                old(self).pos as nat,
                row@,
            ),
    {
        match self.row_cells(row)? {
            Some(cells) => {
                if cells.len() < 2 {
                    return Ok(None);
                }
                let name: String = self.ask_text(Op::Display, list1(cells[0].clone()))?;
                let value: String = self.ask_text(Op::Display, list1(cells[1].clone()))?;
                Ok(Some(Pair { name, value }))
            },
            None => Ok(None),
        }
    }

    #[verifier::loop_isolation(false)]
    fn list_headers(&mut self, rows: &Vec<Value>) -> (r: Result<Vec<Pair>, Stop>)
        requires
            old(self).wf(),
        ensures
            final(self).follows(*old(self)),
            pairs_run(r, *final(self)) == list_headers(
                old(self).host(),
                old(self).pos as nat,
                views(rows@),
                0,
                Seq::empty(),
            ),
    {
        let ghost all = views(rows@);
        let ghost goal = list_headers(self.host(), self.pos as nat, all, 0, Seq::empty());
        let mut out: Vec<Pair> = Vec::new();
        assert(pair_views(out@) =~= Seq::<PairV>::empty());
        let mut i: usize = 0;
        while i < rows.len()
            invariant
                i <= rows@.len(),
                self.follows(*old(self)),
                goal == list_headers(self.host(), self.pos as nat, all, i as int, pair_views(out@)),
            decreases rows@.len() - i,
        {
            assert(all[i as int] == rows@[i as int]@);
            let ghost before = pair_views(out@);
            match self.row_header(&rows[i])? {
                Some(p) => {
                    out.push(p);
                    assert(pair_views(out@) =~= before.push(p@));
                },
                None => {},
            }
            i = i + 1;
        }
        Ok(out)
    }

    fn setting_headers(&mut self, v: &Value) -> (r: Result<Vec<Pair>, Stop>)
        requires
            old(self).wf(),
        ensures
            final(self).follows(*old(self)),
            pairs_run(r, *final(self)) == setting_headers(
                old(self).host(),
                old(self).pos as nat,
                v@,
            ),
    {
        match v {
            Value::Ref(Kind::Obj, _) => {
                let f: Vec<Value> = self.ask_list(Op::StoredFields, list1(v.clone()))?;
                self.object_headers(&f)
            },
            Value::Ref(Kind::Arr, _) => {
                let rows: Vec<Value> = self.ask_list(Op::Elements, list1(v.clone()))?;
                self.list_headers(&rows)
            },
            _ => Ok(no_pairs()),
        }
    }

    fn configured(&mut self, url: String, init: &Value) -> (r: Result<Request, Stop>)
        requires
            old(self).wf(),
        ensures
            final(self).follows(*old(self)),
            request_run(r, *final(self)) == configured(
                old(self).host(),
                old(self).pos as nat,
                url@,
                init@,
            ),
    {
        if is_nullish(init) {
            return Ok(
                Request { method: "GET".to_owned(), url, body: None, headers: no_pairs() },
            );
        }
        let m: Option<String> = self.setting(init, "method")?;
        let hv: Value = self.member_get(init, "headers")?;
        let headers: Vec<Pair> = self.setting_headers(&hv)?;
        let body: Option<String> = self.setting(init, "body")?;
        let method: String = match m {
            Some(t) => t,
            None => "GET".to_owned(),
        };
        Ok(Request { method, url, body, headers })
    }

    /// The request that `fetch` is asked for.
    pub fn fetch_request(&mut self, args: &Vec<Value>) -> (r: Result<Request, Stop>)
        requires
            old(self).wf(),
        ensures
            final(self).follows(*old(self)),
            request_run(r, *final(self)) == fetch_request_run(
                old(self).host(),
                old(self).pos as nat,
                views(args@),
            ),
    {
        let raw: String = self.display_arg(args, 0)?;
        let url: String = self.ask_text(Op::AbsoluteUrl, list1(Value::Str(raw)))?;
        self.configured(url, &arg_at(args, 1))
    }

    fn failure_logged(&mut self, what: &str, answer: &Vec<Value>) -> (r: Result<Value, Stop>)
        requires
            old(self).wf(),
        ensures
            final(self).follows(*old(self)),
            run_value(r, *final(self)) == failure_logged(
                old(self).host(),
                old(self).pos as nat,
                what@,
                views(answer@),
            ),
    {
        let why: String = text_of_value(&arg_at(answer, 0));
        let line: String = concat_text(what, why.as_str());
        let u: Value = self.ask_value(Op::Console, list1(Value::Str(line)))?;
        Ok(Value::Undefined)
    }

    fn response_object(&mut self, url: &str, answer: &Vec<Value>) -> (r: Result<Value, Stop>)
        requires
            old(self).wf(),
        ensures
            final(self).follows(*old(self)),
            run_value(r, *final(self)) == response_object(
                old(self).host(),
                old(self).pos as nat,
                url@,
                views(answer@),
            ),
    {
        let pairs: Vec<Pair> = lower_names(read_pairs(&after_three(answer)));
        let rows: Vec<Value> = self.header_rows(&pairs)?;
        let items: Value = self.ask_value(Op::NewArray, rows)?;
        let headers: Value = self.ask_value(Op::NewObject, object_of_headers(&pairs, items))?;
        self.ask_value(Op::NewObject, response_of(url, answer, headers))
    }

    fn answered(&mut self, promise: Value, url: &str, answer: &Vec<Value>) -> (r: Result<Value, Stop>)
        requires
            old(self).wf(),
        ensures
            final(self).follows(*old(self)),
            run_value(r, *final(self)) == answered(
                old(self).host(),
                old(self).pos as nat,
                promise@,
                url@,
                views(answer@),
            ),
    {
        let v: Value = if answer.len() < 3 {
            self.failure_logged("fetch 실패: ", answer)?
        } else {
            self.response_object(url, answer)?
        };
        let u: Value = self.ask_value(Op::ResolvePromise, list2(promise.clone(), v))?;
        Ok(promise)
    }

    /// `fetch`.
    pub fn fetch(&mut self, recv: &Option<Value>, args: &Vec<Value>) -> (r: Result<Value, Stop>)
        requires
            old(self).wf(),
        ensures
            final(self).follows(*old(self)),
            run_value(r, *final(self)) == fetch_run(
                old(self).host(),
                old(self).pos as nat,
                opt_view(*recv),
                views(args@),
            ),
    {
        let req: Request = self.fetch_request(args)?;
        let promise: Value = self.ask_value(Op::NewPromise, empty_list())?;
        let answer: Vec<Value> = self.ask_list(Op::Http, values_of_request(&req))?;
        self.answered(promise, req.url.as_str(), &answer)
    }

    fn slot_text(&mut self, v: &Value, key: &str, none: String) -> (r: Result<String, Stop>)
        requires
            old(self).wf(),
        ensures
            final(self).follows(*old(self)),
            run_text(r, *final(self)) == slot_text(
                old(self).host(),
                old(self).pos as nat,
                v@,
                key@,
                none@,
            ),
    {
        match self.ctx_slot(v, key)? {
            Some(Value::Str(t)) => Ok(t),
            _ => Ok(none),
        }
    }

    fn xhr_headers(&mut self, v: &Value) -> (r: Result<Vec<Pair>, Stop>)
        requires
            old(self).wf(),
        ensures
            final(self).follows(*old(self)),
            pairs_run(r, *final(self)) == xhr_headers(
                old(self).host(),
                old(self).pos as nat,
                v@,
            ),
    {
        match self.ctx_list(v, "\0reqheaders")? {
            Some(rows) => self.list_headers(&rows),
            None => Ok(no_pairs()),
        }
    }

    fn xhr_body(&mut self, args: &Vec<Value>) -> (r: Result<Option<String>, Stop>)
        requires
            old(self).wf(),
        ensures
            final(self).follows(*old(self)),
            opt_body_run(r, *final(self)) == xhr_body(
                old(self).host(),
                old(self).pos as nat,
                views(args@),
            ),
    {
        let v: Value = arg_at(args, 0);
        if is_nullish(&v) {
            return Ok(None);
        }
        let s: String = self.ask_text(Op::Display, list1(v))?;
        Ok(Some(s))
    }

    fn xhr_request(&mut self, v: &Value, args: &Vec<Value>) -> (r: Result<Request, Stop>)
        requires
            old(self).wf(),
        ensures
            final(self).follows(*old(self)),
            request_run(r, *final(self)) == xhr_request(
                old(self).host(),
                old(self).pos as nat,
                v@,
                views(args@),
            ),
    {
        let none: String = String::new();
        assert(none@ =~= Seq::<char>::empty());
        let raw: String = self.slot_text(v, "\0url", none)?;
        let url: String = self.ask_text(Op::ResolveUrl, list1(Value::Str(raw)))?;
        let method: String = self.slot_text(v, "\0method", "GET".to_owned())?;
        let headers: Vec<Pair> = self.xhr_headers(v)?;
        let body: Option<String> = self.xhr_body(args)?;
        Ok(Request { method, url, body, headers })
    }

    #[verifier::loop_isolation(false)]
    fn store_fields(&mut self, v: &Value, fields: &Vec<Value>) -> (r: Result<(), Stop>)
        requires
            old(self).wf(),
        ensures
            final(self).follows(*old(self)),
            run_plain(r, *final(self)) == store_fields(
                old(self).host(),
                old(self).pos as nat,
                v@,
                views(fields@),
                0,
            ),
    {
        let ghost all = views(fields@);
        let ghost goal = store_fields(self.host(), self.pos as nat, v@, all, 0);
        let size: usize = fields.len();
        let mut i: usize = 0;
        while i < size && size - i > 1
            invariant
                i <= size,
                size == fields@.len(),
                self.follows(*old(self)),
                goal == store_fields(self.host(), self.pos as nat, v@, all, i as int),
            decreases size - i,
        {
            assert(all[i as int] == fields@[i as int]@ && all[i + 1] == fields@[i + 1]@);
            let key: String = text_of_value(&fields[i]);
            self.ctx_store(v, key.as_str(), fields[i + 1].clone())?;
            i = i + 2;
        }
        Ok(())
    }

    #[verifier::loop_isolation(false)]
    fn header_rows(&mut self, s: &Vec<Pair>) -> (r: Result<Vec<Value>, Stop>)
        requires
            old(self).wf(),
        ensures
            final(self).follows(*old(self)),
            run_list(r, *final(self)) == header_rows(
                old(self).host(),
                old(self).pos as nat,
                pair_views(s@),
                0,
                Seq::empty(),
            ),
    {
        let ghost all = pair_views(s@);
        let ghost goal = header_rows(self.host(), self.pos as nat, all, 0, Seq::empty());
        let mut out: Vec<Value> = empty_list();
        let mut i: usize = 0;
        while i < s.len()
            invariant
                i <= s@.len(),
                self.follows(*old(self)),
                goal == header_rows(self.host(), self.pos as nat, all, i as int, views(out@)),
            decreases s@.len() - i,
        {
            assert(all[i as int] == s@[i as int]@);
            let ghost before = views(out@);
            let row: Value = self.ask_value(
                Op::NewArray,
                list2(Value::Str(s[i].name.clone()), Value::Str(s[i].value.clone())),
            )?;
            out.push(row);
            assert(views(out@) =~= before.push(row@));
            i = i + 1;
        }
        Ok(out)
    }

    fn xhr_answered(&mut self, v: &Value, answer: &Vec<Value>) -> (r: Result<(), Stop>)
        requires
            old(self).wf(),
        ensures
            final(self).follows(*old(self)),
            run_plain(r, *final(self)) == xhr_answered(
                old(self).host(),
                old(self).pos as nat,
                v@,
                views(answer@),
            ),
    {
        if answer.len() < 3 {
            let u: Value = self.failure_logged("XHR 실패: ", answer)?;
            return self.store_fields(
                v,
                &list4(
                    text_value("status"),
                    Value::Num(Num::from_u64(0)),
                    text_value("readyState"),
                    Value::Num(Num::from_u64(4)),
                ),
            );
        }
        let rest: Vec<Pair> = read_pairs(&after_three(answer));
        let rows: Vec<Value> = self.header_rows(&rest)?;
        let a: Value = self.ask_value(Op::NewArray, rows)?;
        self.store_fields(v, &fields_of_answer(a, answer))
    }

    fn xhr_fire(&mut self, v: &Value, name: &str) -> (r: Result<(), Stop>)
        requires
            old(self).wf(),
        ensures
            final(self).follows(*old(self)),
            run_plain(r, *final(self)) == xhr_fire(
                old(self).host(),
                old(self).pos as nat,
                v@,
                name@,
            ),
    {
        let u: Value = self.ask_value(Op::XhrFire, list2(v.clone(), text_value(name)))?;
        Ok(())
    }

    fn xhr_events(&mut self, v: &Value) -> (r: Result<Value, Stop>)
        requires
            old(self).wf(),
        ensures
            final(self).follows(*old(self)),
            run_value(r, *final(self)) == xhr_events(
                old(self).host(),
                old(self).pos as nat,
                v@,
            ),
    {
        self.xhr_fire(v, "readystatechange")?;
        self.xhr_fire(v, "load")?;
        self.xhr_fire(v, "loadend")?;
        Ok(Value::Undefined)
    }

    /// `send` of a request.
    pub fn xhr_send(&mut self, recv: &Option<Value>, args: &Vec<Value>) -> (r: Result<Value, Stop>)
        requires
            old(self).wf(),
        ensures
            final(self).follows(*old(self)),
            run_value(r, *final(self)) == xhr_send_run(
                old(self).host(),
                old(self).pos as nat,
                opt_view(*recv),
                views(args@),
            ),
    {
        let v: Value = this_or_undefined(recv);
        match &v {
            Value::Ref(Kind::Obj, _) => {
                let req: Request = self.xhr_request(&v, args)?;
                let answer: Vec<Value> = self.ask_list(Op::Http, values_of_request(&req))?;
                self.xhr_answered(&v, &answer)?;
                self.xhr_events(&v)
            },
            _ => Ok(Value::Undefined),
        }
    }
}

/// A header is found whatever the case of the letters that it is asked for by.
pub proof fn law_header_case(a: Seq<char>, b: Seq<char>)
    requires
        ascii_lower(a) == ascii_lower(b),
    ensures
        header_key(a) == header_key(b),
{
}

/// After a name was set in a query it has that one value, and after it was deleted it has none.
pub proof fn law_query_edits(s: Seq<PairV>, name: Seq<char>, value: Seq<char>)
    ensures
        values_of(edited_query(s, QueryEdit::Put, name, value), name) == seq![value],
        values_of(edited_query(s, QueryEdit::Delete, name, value), name) == Seq::<Seq<char>>::empty(),
        values_of(edited_query(s, QueryEdit::Append, name, value), name) == values_of(
            s,
            name,
        ).push(value),
{
    lemma_no_values(s, name);
    let o = others(s, name);
    let p = o.push(PairV { name, value });
    assert(p.drop_last() =~= o);
    assert(values_of(p, name) =~= seq![value]);
    let q = s.push(PairV { name, value });
    assert(q.drop_last() =~= s);
}

proof fn lemma_no_values(s: Seq<PairV>, name: Seq<char>)
    ensures
        values_of(others(s, name), name) == Seq::<Seq<char>>::empty(),
    decreases s.len(),
{
    if s.len() > 0 {
        lemma_no_values(s.drop_last(), name);
        if s.last().name != name {
            let o = others(s.drop_last(), name);
            assert(o.push(s.last()).drop_last() =~= o);
        }
    }
}

} // verus!
