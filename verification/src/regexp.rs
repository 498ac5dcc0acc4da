//! Regular expressions: `exec` and what the symbols' methods make of it.
use crate::array_live::{count_as_num, count_num};
use crate::array_search::{offset_of, to_offset};
use crate::collect::flattened;
use crate::functions::index_number;
use crate::heap::{put, ItemV, ObjMap};
use crate::host::{
    ask_flag, ask_list, ask_number, ask_slot, ask_text, ask_value, call, chain, construct, done,
    fail, get, halted, list1, list2, list4, number_in, opt_view, raised, run_list, run_plain,
    run_text, run_value, text_in, text_value, Answer, Halt, Host, Interp, Op, Question, Reply, Run,
    Stop,
};
use crate::number::{has_fraction, is_fractional, length_of, num_of, to_length, MAX_SAFE, Num};
use crate::number_format::{this_of, this_or_undefined};
use crate::objects::{is_null, is_nullish, set_or_throw, species_or};
use crate::replace::{capture_views, substitution, Match};
use crate::strings::{clamped, clamped_place};
use crate::text::{
    append_text, char_index, chars_of, concat_text, decimal, decimal_text, find_char, string_of,
    string_of_range, units, units_before,
};
use crate::value::{
    arg, arg_at, callable, is_callable, is_object, object, opt_text, same, same_value, to_bool,
    truthy, views, ErrorKind, Native, Val, Value,
};
use crate::web_state::text_of_value;
use vstd::prelude::*;

verus! {

/// A match: where it starts and ends, and the places of its groups, the whole match first.
pub struct Found {
    pub start: usize,
    pub end: usize,
    pub groups: Vec<Option<(usize, usize)>>,
}

/// The mathematical counterpart of `Found`.
#[verifier::ext_equal]
pub struct FoundV {
    pub start: nat,
    pub end: nat,
    pub groups: Seq<Option<(nat, nat)>>,
}

impl View for Found {
    type V = FoundV;

    open spec fn view(&self) -> FoundV {
        FoundV {
            start: self.start as nat,
            end: self.end as nat,
            groups: Seq::new(
                self.groups@.len(),
                |i: int|
                    match self.groups@[i] {
                        Some(p) => Some((p.0 as nat, p.1 as nat)),
                        None => None,
                    },
            ),
        }
    }
}

/// Every place is in a text of this length, and no group ends before it starts.
pub open spec fn placed(f: FoundV, len: nat) -> bool {
    &&& f.start <= f.end <= len
    &&& forall|i: int|
        0 <= i < f.groups.len() ==> ((#[trigger] f.groups[i]) matches Some(p) ==> p.0 <= p.1 <= len)
}

/// A place in a text of this length.
pub open spec fn place_in(v: Val, len: nat) -> nat {
    clamped(offset_of(number_in(v)), len)
}

pub open spec fn not_before(a: nat, b: nat) -> nat {
    if b < a {
        a
    } else {
        b
    }
}

/// The places of the groups in a reply, from the `i`-th value on.
pub open spec fn groups_in(l: Seq<Val>, i: int, len: nat) -> Seq<Option<(nat, nat)>>
    decreases l.len() - i,
{
    if !(0 <= i && i + 1 < l.len()) {
        Seq::empty()
    } else {
        let g = if l[i] is Undefined {
            None
        } else {
            let a = place_in(l[i], len);
            Some((a, not_before(a, place_in(l[i + 1], len))))
        };
        seq![g] + groups_in(l, i + 2, len)
    }
}

/// The match in a reply.
pub open spec fn found_in(l: Seq<Val>, len: nat) -> FoundV {
    let a = place_in(arg(l, 0), len);
    FoundV { start: a, end: not_before(a, place_in(arg(l, 1), len)), groups: groups_in(l, 2, len) }
}

fn place_of(v: &Value, len: usize) -> (r: usize)
    ensures
        r == place_in(v@, len as nat),
        r <= len,
{
    let n: Num = match v {
        Value::Num(n) => *n,
        _ => Num { bits: crate::host::NAN_BITS },
    };
    clamped_place(to_offset(n), len)
}

fn found_of(l: &Vec<Value>, len: usize) -> (r: Found)
    ensures
        r@ == found_in(views(l@), len as nat),
        placed(r@, len as nat),
{
    let ghost all = views(l@);
    let start: usize = place_of(&arg_at(l, 0), len);
    let e: usize = place_of(&arg_at(l, 1), len);
    let end: usize = if e < start {
        start
    } else {
        e
    };
    let mut groups: Vec<Option<(usize, usize)>> = Vec::new();
    let n: usize = l.len();
    let mut i: usize = 2;
    let ghost mut seen: Seq<Option<(nat, nat)>> = Seq::empty();
    assert(seen + groups_in(all, 2, len as nat) =~= groups_in(all, 2, len as nat));
    while i < n && i + 1 < n
        invariant
            n == l@.len(),
            all == views(l@),
            2 <= i,
            groups@.len() == seen.len(),
            forall|k: int|
                0 <= k < groups@.len() ==> #[trigger] seen[k] == match groups@[k] {
                    Some(p) => Some((p.0 as nat, p.1 as nat)),
                    None => None,
                },
            forall|k: int|
                0 <= k < seen.len() ==> ((#[trigger] seen[k]) matches Some(p) ==> p.0 <= p.1 <= len),
            seen + groups_in(all, i as int, len as nat) == groups_in(all, 2, len as nat),
        decreases n - i,
    {
        assert(all[i as int] == l@[i as int]@);
        assert(all[i + 1] == l@[i + 1]@);
        let ghost before = seen;
        if matches!(&l[i], Value::Undefined) {
            groups.push(None);
            proof {
                seen = seen.push(None);
            }
        } else {
            let a: usize = place_of(&l[i], len);
            let b: usize = place_of(&l[i + 1], len);
            let b: usize = if b < a {
                a
            } else {
                b
            };
            groups.push(Some((a, b)));
            proof {
                seen = seen.push(Some((a as nat, b as nat)));
            }
        }
        assert(seen + groups_in(all, i + 2, len as nat) =~= before + groups_in(
            all,
            i as int,
            len as nat,
        ));
        if i + 2 < n {
            i = i + 2;
        } else {
            assert(groups_in(all, i + 2, len as nat) =~= Seq::<Option<(nat, nat)>>::empty());
            i = n;
            assert(groups_in(all, i as int, len as nat) =~= Seq::<Option<(nat, nat)>>::empty());
        }
    }
    assert(groups_in(all, i as int, len as nat) =~= Seq::<Option<(nat, nat)>>::empty());
    let f: Found = Found { start, end, groups };
    assert(f@.groups =~= seen);
    assert(seen =~= groups_in(all, 2, len as nat));
    f
}

/// The first match of a regular expression from a place on.
pub open spec fn find_run(h: Host, pos: nat, src: Seq<char>, flags: Seq<char>, text: Seq<char>, from: nat) -> Run<
    Option<FoundV>,
> {
    chain(
        crate::host::asked(
            h,
            pos,
            (Question {
                op: Op::RegexFind,
                args: seq![
                    Val::Str(src),
                    Val::Str(flags),
                    Val::Str(text),
                    Val::Num(count_num(from)),
                ],
            }),
        ),
        |a: Answer, p: nat|
            done(
                match a {
                    Answer::List(l) => Some(found_in(l, text.len())),
                    _ => None,
                },
                p,
            ),
    )
}

/// The source and the flags of a regular expression; none of anything else.
pub open spec fn parts_run(h: Host, pos: nat, v: Val) -> Run<Option<(Seq<char>, Seq<char>)>> {
    chain(
        crate::host::asked(h, pos, (Question { op: Op::RegexParts, args: seq![v] })),
        |a: Answer, p: nat|
            done(
                match a {
                    Answer::List(l) => Some((text_in(arg(l, 0)), text_in(arg(l, 1)))),
                    _ => None,
                },
                p,
            ),
    )
}

/// Where a regular expression is used, which decides how a faulty one is reported.
#[derive(Clone, Copy, Debug, PartialEq, Eq, Structural)]
pub enum RegexUse {
    Matching,
    Splitting,
}

/// The error of a faulty regular expression.
pub open spec fn fault_text(usage: RegexUse, src: Seq<char>, why: Seq<char>) -> Seq<char> {
    match usage {
        RegexUse::Matching => "Invalid regular expression: /"@ + src + "/: "@ + why,
        RegexUse::Splitting => "정규식: "@ + why,
    }
}

pub open spec fn fault_kind(usage: RegexUse) -> ErrorKind {
    match usage {
        RegexUse::Matching => ErrorKind::SyntaxError,
        RegexUse::Splitting => ErrorKind::Error,
    }
}

/// Throws where the source and the flags are no regular expression.
pub open spec fn regex_valid(h: Host, pos: nat, usage: RegexUse, src: Seq<char>, flags: Seq<char>) -> Run<
    (),
> {
    chain(
        ask_slot(h, pos, Op::RegexFault, seq![Val::Str(src), Val::Str(flags)]),
        |fault: Option<Val>, p: nat|
            match fault {
                None => done((), p),
                Some(why) => raised(fault_kind(usage), fault_text(usage, src, text_in(why)), p),
            },
    )
}

/// Throws where the flags are not those of a regular expression.
pub open spec fn flags_valid(h: Host, pos: nat, flags: Seq<char>) -> Run<()> {
    chain(
        ask_slot(h, pos, Op::BadRegexFlags, seq![Val::Str(flags)]),
        |bad: Option<Val>, p: nat|
            match bad {
                None => done((), p),
                Some(b) => raised(
                    ErrorKind::SyntaxError,
                    "Invalid regular expression flags: "@ + text_in(b),
                    p,
                ),
            },
    )
}

pub open spec fn has_char(s: Seq<char>, c: char) -> bool {
    char_index(s, c, 0) is Some
}

fn text_has(s: &str, c: char) -> (r: bool)
    ensures
        r == has_char(s@, c),
{
    find_char(&chars_of(s), c, 0).is_some()
}

/// The text of a group.
pub open spec fn group_text(text: Seq<char>, g: Option<(nat, nat)>) -> Val {
    match g {
        Some(p) => Val::Str(text.subrange(p.0 as int, p.1 as int)),
        None => Val::Undefined,
    }
}

/// The texts of all groups.
pub open spec fn group_texts(text: Seq<char>, f: FoundV) -> Seq<Val> {
    Seq::new(f.groups.len(), |i: int| group_text(text, f.groups[i]))
}

/// The text of the group with a number; undefined where there is none.
pub open spec fn numbered_group(text: Seq<char>, f: FoundV, v: Val) -> Val {
    match crate::strings::index_at(offset_of(number_in(v)), f.groups.len()) {
        Some(i) => group_text(text, f.groups[i as int]),
        None => Val::Undefined,
    }
}

/// The named groups of a match, from a list of names and numbers.
pub open spec fn named_groups(text: Seq<char>, f: FoundV, names: Seq<Val>, n: nat) -> Seq<ItemV>
    decreases n,
{
    if n < 2 || n > names.len() {
        Seq::empty()
    } else {
        put(
            named_groups(text, f, names, (n - 2) as nat),
            text_in(names[n - 2]),
            numbered_group(text, f, names[n - 1]),
        )
    }
}

/// The even number up to which a list of pairs goes.
pub open spec fn pairs_len(n: nat) -> nat {
    (n - n % 2) as nat
}

/// The array that a match makes: the texts of its groups, where it begins, the text, and the named
/// groups.
pub open spec fn match_array_run(h: Host, pos: nat, text: Seq<char>, f: FoundV, names: Seq<Val>) -> Run<
    Val,
> {
    chain(
        ask_value(h, pos, Op::NewArray, group_texts(text, f)),
        |a: Val, p: nat|
            chain(
                ask_value(
                    h,
                    p,
                    Op::StoreSlot,
                    seq![
                        a,
                        Val::Str("index"@),
                        Val::Num(count_num(units(text.take(f.start as int)))),
                    ],
                ),
                |u: Val, q: nat|
                    chain(
                        ask_value(
                            h,
                            q,
                            Op::StoreSlot,
                            seq![a, Val::Str("input"@), Val::Str(text)],
                        ),
                        |w: Val, r: nat|
                            chain(
                                if names.len() == 0 {
                                    done(Val::Undefined, r)
                                } else {
                                    let g = named_groups(text, f, names, pairs_len(names.len()));
                                    ask_value(h, r, Op::NewObject, flattened(g, g.len()))
                                },
                                |groups: Val, s: nat|
                                    chain(
                                        ask_value(
                                            h,
                                            s,
                                            Op::StoreSlot,
                                            seq![a, Val::Str("groups"@), groups],
                                        ),
                                        |x: Val, t: nat| done(a, t),
                                    ),
                            ),
                    ),
            ),
    )
}

/// What comes of the search that `exec` makes.
pub open spec fn exec_end(
    h: Host,
    pos: nat,
    r: Val,
    src: Seq<char>,
    flags: Seq<char>,
    text: Seq<char>,
    from: nat,
    moves: bool,
) -> Run<Val> {
    chain(
        find_run(h, pos, src, flags, text, from),
        |m: Option<FoundV>, p: nat|
            {
                let hit = match m {
                    Some(f) => if has_char(flags, 'y') && f.start != from {
                        None
                    } else {
                        Some(f)
                    },
                    None => None,
                };
                match hit {
                    Some(f) => chain(
                        if moves {
                            set_or_throw(h, p, r, "lastIndex"@, Val::Num(count_num(f.end)))
                        } else {
                            done((), p)
                        },
                        |u: (), q: nat|
                            chain(
                                ask_list(h, q, Op::RegexGroups, seq![Val::Str(src), Val::Str(flags)]),
                                |names: Seq<Val>, s: nat| match_array_run(h, s, text, f, names),
                            ),
                    ),
                    None => chain(
                        if moves {
                            set_or_throw(h, p, r, "lastIndex"@, Val::Num(num_of(0)))
                        } else {
                            done((), p)
                        },
                        |u: (), q: nat| done(Val::Null, q),
                    ),
                }
            },
    )
}

/// `RegExp.prototype.exec`.
pub open spec fn regex_exec_run(h: Host, pos: nat, recv: Option<Val>, args: Seq<Val>) -> Run<Val> {
    let r = this_of(recv);
    chain(
        parts_run(h, pos, r),
        |parts: Option<(Seq<char>, Seq<char>)>, p: nat|
            match parts {
                None => raised(
                    ErrorKind::TypeError,
                    "Method RegExp.prototype.exec called on incompatible receiver"@,
                    p,
                ),
                Some(sf) => chain(
                    ask_text(h, p, Op::ToText, seq![arg(args, 0)]),
                    |text: Seq<char>, q: nat|
                        chain(
                            regex_valid(h, q, RegexUse::Matching, sf.0, sf.1),
                            |u: (), s: nat|
                                {
                                    let moves = has_char(sf.1, 'g') || has_char(sf.1, 'y');
                                    if moves {
                                        chain(
                                            get(h, s, r, "lastIndex"@),
                                            |li: Val, t: nat|
                                                chain(
                                                    ask_number(h, t, Op::ToNumber, seq![li]),
                                                    |n: Num, v: nat|
                                                        if length_of(n) > text.len() {
                                                            chain(
                                                                set_or_throw(
                                                                    h,
                                                                    v,
                                                                    r,
                                                                    "lastIndex"@,
                                                                    Val::Num(num_of(0)),
                                                                ),
                                                                |w: (), x: nat| done(Val::Null, x),
                                                            )
                                                        } else {
                                                            exec_end(
                                                                h,
                                                                v,
                                                                r,
                                                                sf.0,
                                                                sf.1,
                                                                text,
                                                                length_of(n),
                                                                true,
                                                            )
                                                        },
                                                ),
                                        )
                                    } else {
                                        exec_end(h, s, r, sf.0, sf.1, text, 0, false)
                                    }
                                },
                        ),
                ),
            },
    )
}

/// `RegExp.prototype.test`.
pub open spec fn regex_test_run(h: Host, pos: nat, recv: Option<Val>, args: Seq<Val>) -> Run<Val> {
    chain(
        parts_run(h, pos, this_of(recv)),
        |parts: Option<(Seq<char>, Seq<char>)>, p: nat|
            match parts {
                None => raised(
                    ErrorKind::TypeError,
                    "Method RegExp.prototype.test called on incompatible receiver"@,
                    p,
                ),
                Some(sf) => chain(
                    ask_text(h, p, Op::ToText, seq![arg(args, 0)]),
                    |text: Seq<char>, q: nat|
                        chain(
                            regex_valid(h, q, RegexUse::Matching, sf.0, sf.1),
                            |u: (), s: nat|
                                chain(
                                    find_run(h, s, sf.0, sf.1, text, 0),
                                    |m: Option<FoundV>, t: nat| done(Val::Bool(m is Some), t),
                                ),
                        ),
                ),
            },
    )
}

/// RegExpExec: the object's own `exec` where it has one, else the built-in one.
pub open spec fn exec_of(h: Host, pos: nat, r: Val, s: Seq<char>) -> Run<Val> {
    chain(
        get(h, pos, r, "exec"@),
        |exec: Val, p: nat|
            if callable(exec) {
                chain(
                    call(h, p, exec, Some(r), seq![Val::Str(s)]),
                    |v: Val, q: nat|
                        if !object(v) && !(v is Null) {
                            raised(
                                ErrorKind::TypeError,
                                "RegExp exec method returned something other than an Object or null"@,
                                q,
                            )
                        } else {
                            done(v, q)
                        },
                )
            } else {
                chain(
                    parts_run(h, p, r),
                    |parts: Option<(Seq<char>, Seq<char>)>, q: nat|
                        match parts {
                            None => raised(
                                ErrorKind::TypeError,
                                "RegExpExec called on non-RegExp"@,
                                q,
                            ),
                            Some(_) => regex_exec_run(h, q, Some(r), seq![Val::Str(s)]),
                        },
                )
            },
    )
}

/// The number after a number.
pub open spec fn plus_one(h: Host, pos: nat, n: Num) -> Run<Num> {
    if n.finite() && !n.negative() && !has_fraction(n) && n.magnitude() < MAX_SAFE {
        done(num_of((n.magnitude() + 1) as int), pos)
    } else {
        ask_number(h, pos, Op::PlusOne, seq![Val::Num(n)])
    }
}

/// Moves `lastIndex` on by one.
pub open spec fn step_on(h: Host, pos: nat, re: Val) -> Run<()> {
    chain(
        get(h, pos, re, "lastIndex"@),
        |li: Val, p: nat|
            chain(
                ask_number(h, p, Op::PlainNumber, seq![li]),
                |n: Num, q: nat|
                    chain(
                        plus_one(h, q, n),
                        |m: Num, r: nat| set_or_throw(h, r, re, "lastIndex"@, Val::Num(m)),
                    ),
            ),
    )
}

/// A result of `exec` and the text of its match.
pub struct Hit {
    pub result: Value,
    pub text: String,
}

/// The mathematical counterpart of `Hit`.
#[verifier::ext_equal]
pub struct HitV {
    pub result: Val,
    pub text: Seq<char>,
}

impl View for Hit {
    type V = HitV;

    open spec fn view(&self) -> HitV {
        HitV { result: self.result@, text: self.text@ }
    }
}

pub open spec fn hit_views(s: Seq<Hit>) -> Seq<HitV> {
    Seq::new(s.len(), |i: int| s[i]@)
}

/// The next result, or none.
pub open spec fn next_hit(h: Host, pos: nat, re: Val, s: Seq<char>) -> Run<Option<HitV>> {
    chain(
        exec_of(h, pos, re, s),
        |result: Val, p: nat|
            if result is Null {
                done(None, p)
            } else {
                chain(
                    get(h, p, result, "0"@),
                    |m: Val, q: nat|
                        chain(
                            ask_text(h, q, Op::ToText, seq![m]),
                            |t: Seq<char>, r: nat| done(Some(HitV { result, text: t }), r),
                        ),
                )
            },
    )
}

/// All results, at most `fuel`; one where the search is not global.
pub open spec fn all_hits(
    h: Host,
    pos: nat,
    re: Val,
    s: Seq<char>,
    global: bool,
    fuel: nat,
    out: Seq<HitV>,
) -> Run<Seq<HitV>>
    decreases fuel,
{
    if fuel == 0 {
        done(out, pos)
    } else {
        let n = next_hit(h, pos, re, s);
        match n.out {
            Err(e) => halted(e, n.pos),
            Ok(None) => done(out, n.pos),
            Ok(Some(hit)) => if !global {
                done(out.push(hit), n.pos)
            } else if hit.text.len() == 0 {
                let m = step_on(h, n.pos, re);
                match m.out {
                    Err(e) => halted(e, m.pos),
                    Ok(_) => all_hits(h, m.pos, re, s, global, (fuel - 1) as nat, out.push(hit)),
                }
            } else {
                all_hits(h, n.pos, re, s, global, (fuel - 1) as nat, out.push(hit))
            },
        }
    }
}

/// How many results are collected at most.
pub open spec fn hit_limit(n: nat) -> nat {
    2 * n + 1000
}

pub open spec fn non_object(method: Seq<char>) -> Seq<char> {
    "RegExp.prototype[Symbol."@ + method + "] called on non-object"@
}

fn not_an_object(method: &str) -> (r: Stop)
    ensures
        r@ == Halt::Throw(
            crate::host::Thrown::Error(ErrorKind::TypeError, non_object(method@)),
        ),
{
    let mut m: String = concat_text("RegExp.prototype[Symbol.", method);
    append_text(&mut m, "] called on non-object");
    fail(ErrorKind::TypeError, m.as_str())
}

/// `RegExp.prototype[@@search]`.
pub open spec fn regex_search_run(h: Host, pos: nat, recv: Option<Val>, args: Seq<Val>) -> Run<Val> {
    let re = this_of(recv);
    if !object(re) {
        raised(ErrorKind::TypeError, non_object("search"@), pos)
    } else {
        chain(
            ask_text(h, pos, Op::ToText, seq![arg(args, 0)]),
            |s: Seq<char>, p: nat|
                chain(
                    get(h, p, re, "lastIndex"@),
                    |prev: Val, q: nat|
                        chain(
                            if same(prev, Val::Num(num_of(0))) {
                                done((), q)
                            } else {
                                set_or_throw(h, q, re, "lastIndex"@, Val::Num(num_of(0)))
                            },
                            |u: (), r: nat|
                                chain(
                                    exec_of(h, r, re, s),
                                    |result: Val, t: nat|
                                        chain(
                                            get(h, t, re, "lastIndex"@),
                                            |cur: Val, v: nat|
                                                chain(
                                                    if same(cur, prev) {
                                                        done((), v)
                                                    } else {
                                                        set_or_throw(h, v, re, "lastIndex"@, prev)
                                                    },
                                                    |w: (), x: nat|
                                                        if result is Null {
                                                            done(Val::Num(num_of(-1)), x)
                                                        } else {
                                                            get(h, x, result, "index"@)
                                                        },
                                                ),
                                        ),
                                ),
                        ),
                ),
        )
    }
}

pub open spec fn hit_texts(s: Seq<HitV>) -> Seq<Val> {
    Seq::new(s.len(), |i: int| Val::Str(s[i].text))
}

/// The flags of a regular expression as text.
pub open spec fn flags_of(h: Host, pos: nat, re: Val) -> Run<Seq<char>> {
    chain(
        get(h, pos, re, "flags"@),
        |f: Val, p: nat| ask_text(h, p, Op::ToText, seq![f]),
    )
}

/// `RegExp.prototype[@@match]`.
pub open spec fn regex_match_run(h: Host, pos: nat, recv: Option<Val>, args: Seq<Val>) -> Run<Val> {
    let re = this_of(recv);
    if !object(re) {
        raised(ErrorKind::TypeError, non_object("match"@), pos)
    } else {
        chain(
            ask_text(h, pos, Op::ToText, seq![arg(args, 0)]),
            |s: Seq<char>, p: nat|
                chain(
                    flags_of(h, p, re),
                    |flags: Seq<char>, q: nat|
                        if !has_char(flags, 'g') {
                            exec_of(h, q, re, s)
                        } else {
                            chain(
                                set_or_throw(h, q, re, "lastIndex"@, Val::Num(num_of(0))),
                                |u: (), r: nat|
                                    chain(
                                        all_hits(
                                            h,
                                            r,
                                            re,
                                            s,
                                            true,
                                            hit_limit(s.len()),
                                            Seq::empty(),
                                        ),
                                        |hits: Seq<HitV>, t: nat|
                                            if hits.len() == 0 {
                                                done(Val::Null, t)
                                            } else {
                                                ask_value(h, t, Op::NewArray, hit_texts(hits))
                                            },
                                    ),
                            )
                        },
                ),
        )
    }
}

/// The number of captures that a result has.
pub open spec fn capture_count(n: Num) -> nat {
    if length_of(n) > 1 {
        (length_of(n) - 1) as nat
    } else {
        0
    }
}

/// The captures of a result from the `i`-th to the `n`-th, as text.
pub open spec fn captures_of(
    h: Host,
    pos: nat,
    result: Val,
    i: nat,
    n: nat,
    out: Seq<Option<Seq<char>>>,
) -> Run<Seq<Option<Seq<char>>>>
    decreases n + 1 - i,
{
    if i > n {
        done(out, pos)
    } else {
        let c = get(h, pos, result, decimal(i));
        match c.out {
            Err(e) => halted(e, c.pos),
            Ok(v) => if v is Undefined {
                captures_of(h, c.pos, result, i + 1, n, out.push(None))
            } else {
                let t = ask_text(h, c.pos, Op::ToText, seq![v]);
                match t.out {
                    Err(e) => halted(e, t.pos),
                    Ok(s) => captures_of(h, t.pos, result, i + 1, n, out.push(Some(s))),
                }
            },
        }
    }
}

/// Captures as values of the language.
pub open spec fn capture_vals(c: Seq<Option<Seq<char>>>) -> Seq<Val> {
    Seq::new(
        c.len(),
        |i: int|
            match c[i] {
                Some(s) => Val::Str(s),
                None => Val::Undefined,
            },
    )
}

/// A match and what takes its place.
#[verifier::ext_equal]
pub struct SwapV {
    pub position: nat,
    pub matched: Seq<char>,
    pub replacement: Seq<char>,
}

pub struct Swap {
    pub position: usize,
    pub matched: String,
    pub replacement: String,
}

impl View for Swap {
    type V = SwapV;

    open spec fn view(&self) -> SwapV {
        SwapV {
            position: self.position as nat,
            matched: self.matched@,
            replacement: self.replacement@,
        }
    }
}

/// The arguments of a replacement function.
pub open spec fn replacer_args(
    matched: Seq<char>,
    captures: Seq<Option<Seq<char>>>,
    position: nat,
    s: Seq<char>,
    named: Val,
) -> Seq<Val> {
    let front = seq![Val::Str(matched)] + capture_vals(captures) + seq![
        Val::Num(count_num(position)),
        Val::Str(s),
    ];
    if named is Undefined {
        front
    } else {
        front.push(named)
    }
}

/// What takes the place of one result's match: what the function gives, or the template with its
/// references replaced.
#[verifier::opaque]
pub open spec fn swap_of(h: Host, pos: nat, result: Val, s: Seq<char>, repl: Val, template: Seq<char>) -> Run<
    SwapV,
> {
    chain(
        get(h, pos, result, "0"@),
        |m: Val, p1: nat|
            chain(
                ask_text(h, p1, Op::ToText, seq![m]),
                |matched: Seq<char>, p2: nat|
                    chain(
                        get(h, p2, result, "length"@),
                        |lv: Val, p3: nat|
                            chain(
                                ask_number(h, p3, Op::ToNumber, seq![lv]),
                                |ln: Num, p4: nat|
                                    chain(
                                        get(h, p4, result, "index"@),
                                        |iv: Val, p5: nat|
                                            chain(
                                                ask_number(h, p5, Op::ToInteger, seq![iv]),
                                                |ix: Num, p6: nat|
                                                    chain(
                                                        captures_of(
                                                            h,
                                                            p6,
                                                            result,
                                                            1,
                                                            capture_count(ln),
                                                            Seq::empty(),
                                                        ),
                                                        |caps: Seq<Option<Seq<char>>>, p7: nat|
                                                            swap_end(
                                                                h,
                                                                p7,
                                                                result,
                                                                s,
                                                                repl,
                                                                template,
                                                                matched,
                                                                clamped(offset_of(ix), s.len()),
                                                                caps,
                                                            ),
                                                    ),
                                            ),
                                    ),
                            ),
                    ),
            ),
    )
}

pub open spec fn swap_end(
    h: Host,
    pos: nat,
    result: Val,
    s: Seq<char>,
    repl: Val,
    template: Seq<char>,
    matched: Seq<char>,
    position: nat,
    caps: Seq<Option<Seq<char>>>,
) -> Run<SwapV> {
    chain(
        get(h, pos, result, "groups"@),
        |named: Val, p: nat|
            chain(
                if callable(repl) {
                    chain(
                        call(h, p, repl, None, replacer_args(matched, caps, position, s, named)),
                        |v: Val, q: nat| ask_text(h, q, Op::ToText, seq![v]),
                    )
                } else {
                    substitution(
                        h,
                        p,
                        template,
                        (Match {
                            matched,
                            text: s,
                            position,
                            captures: caps,
                            named: named != Val::Undefined,
                        }),
                        named,
                        Seq::empty(),
                    )
                },
                |replacement: Seq<char>, q: nat| done(SwapV { position, matched, replacement }, q),
            ),
    )
}

/// The text so far, and up to where it has been copied.
pub open spec fn swapped_in(s: Seq<char>, out: Seq<char>, next: nat, w: SwapV) -> (Seq<char>, nat) {
    if w.position >= next {
        (
            out + s.subrange(next as int, w.position as int) + w.replacement,
            w.position + w.matched.len(),
        )
    } else {
        (out, next)
    }
}

/// The text with the matches from the `i`-th on replaced.
pub open spec fn swap_all(
    h: Host,
    pos: nat,
    hits: Seq<HitV>,
    i: int,
    s: Seq<char>,
    repl: Val,
    template: Seq<char>,
    out: Seq<char>,
    next: nat,
) -> Run<Val>
    decreases hits.len() - i,
{
    if !(0 <= i < hits.len()) {
        done(
            Val::Str(
                if next < s.len() {
                    out + s.skip(next as int)
                } else {
                    out
                },
            ),
            pos,
        )
    } else {
        let w = swap_of(h, pos, hits[i].result, s, repl, template);
        match w.out {
            Err(e) => halted(e, w.pos),
            Ok(x) => {
                let (o, n) = swapped_in(s, out, next, x);
                swap_all(h, w.pos, hits, i + 1, s, repl, template, o, n)
            },
        }
    }
}

/// `RegExp.prototype[@@replace]`.
#[verifier::opaque]
pub open spec fn regex_replace_run(h: Host, pos: nat, recv: Option<Val>, args: Seq<Val>) -> Run<Val> {
    let re = this_of(recv);
    let repl = arg(args, 1);
    if !object(re) {
        raised(ErrorKind::TypeError, non_object("replace"@), pos)
    } else {
        chain(
            ask_text(h, pos, Op::ToText, seq![arg(args, 0)]),
            |s: Seq<char>, p: nat|
                chain(
                    if callable(repl) {
                        done(Seq::empty(), p)
                    } else {
                        ask_text(h, p, Op::ToText, seq![repl])
                    },
                    |template: Seq<char>, q: nat|
                        chain(
                            get(h, q, re, "global"@),
                            |g: Val, r: nat|
                                chain(
                                    if truthy(g) {
                                        set_or_throw(h, r, re, "lastIndex"@, Val::Num(num_of(0)))
                                    } else {
                                        done((), r)
                                    },
                                    |u: (), t: nat|
                                        chain(
                                            all_hits(
                                                h,
                                                t,
                                                re,
                                                s,
                                                truthy(g),
                                                hit_limit(s.len()),
                                                Seq::empty(),
                                            ),
                                            |hits: Seq<HitV>, v: nat|
                                                swap_all(
                                                    h,
                                                    v,
                                                    hits,
                                                    0,
                                                    s,
                                                    repl,
                                                    template,
                                                    Seq::empty(),
                                                    0,
                                                ),
                                        ),
                                ),
                        ),
                ),
        )
    }
}

/// The integer of 32 bits, without a sign, that a reply stands for; zero for anything else.
pub open spec fn uint32_of(n: Num) -> nat {
    if n.finite() && n.magnitude() <= 0xffff_ffff {
        (n.truncated() % 0x1_0000_0000) as nat
    } else {
        0
    }
}

pub fn to_uint32(n: Num) -> (r: u32)
    ensures
        r == uint32_of(n),
{
    if !n.is_finite() {
        return 0;
    }
    let w: u64 = n.whole();
    if w > 0xffff_ffff {
        return 0;
    }
    if n.is_negative() && w > 0 {
        proof {
            assert((-(w as int)) % 0x1_0000_0000 == 0x1_0000_0000 - w);
        }
        (0x1_0000_0000 - w) as u32
    } else {
        w as u32
    }
}

/// At most how many pieces `split` gives.
pub open spec fn split_limit(h: Host, pos: nat, v: Val) -> Run<nat> {
    if v is Undefined {
        done(0xffff_ffff, pos)
    } else {
        chain(
            ask_number(h, pos, Op::ToInt32, seq![v]),
            |n: Num, p: nat| done(uint32_of(n), p),
        )
    }
}

/// The captures from the `i`-th to the `n`-th, as they are, until there are `limit` pieces.
pub open spec fn add_captures(h: Host, pos: nat, z: Val, i: nat, n: nat, limit: nat, out: Seq<Val>) -> Run<
    Seq<Val>,
>
    decreases n + 1 - i,
{
    if i > n || out.len() >= limit {
        done(out, pos)
    } else {
        let c = get(h, pos, z, decimal(i));
        match c.out {
            Err(e) => halted(e, c.pos),
            Ok(v) => add_captures(h, c.pos, z, i + 1, n, limit, out.push(v)),
        }
    }
}

/// What a splitter finds at a place: where its match ends and the result, or none.
pub open spec fn split_at_place(h: Host, pos: nat, splitter: Val, s: Seq<char>, q: nat) -> Run<
    Option<(nat, Val)>,
> {
    chain(
        set_or_throw(h, pos, splitter, "lastIndex"@, Val::Num(count_num(q))),
        |u: (), p1: nat|
            chain(
                exec_of(h, p1, splitter, s),
                |z: Val, p2: nat|
                    if z is Null {
                        done(None, p2)
                    } else {
                        chain(
                            get(h, p2, splitter, "lastIndex"@),
                            |li: Val, p3: nat|
                                chain(
                                    ask_number(h, p3, Op::PlainNumber, seq![li]),
                                    |n: Num, p4: nat|
                                        done(
                                            Some(
                                                (
                                                    if length_of(n) <= s.len() {
                                                        length_of(n)
                                                    } else {
                                                        s.len()
                                                    },
                                                    z,
                                                ),
                                            ),
                                            p4,
                                        ),
                                ),
                        )
                    },
            ),
    )
}

/// The pieces of a text between the matches of a splitter: from `p` the next piece begins, at `q`
/// the splitter is tried next.
pub open spec fn split_loop(
    h: Host,
    pos: nat,
    splitter: Val,
    s: Seq<char>,
    limit: nat,
    p: nat,
    q: nat,
    fuel: nat,
    out: Seq<Val>,
) -> Run<Seq<Val>>
    decreases fuel,
{
    if q >= s.len() || fuel == 0 {
        done(out.push(Val::Str(s.skip(p as int))), pos)
    } else {
        let r = split_at_place(h, pos, splitter, s, q);
        match r.out {
            Err(e) => halted(e, r.pos),
            Ok(None) => split_loop(
                h,
                r.pos,
                splitter,
                s,
                limit,
                p,
                q + 1,
                (fuel - 1) as nat,
                out,
            ),
            Ok(Some(m)) => if m.0 == p {
                split_loop(h, r.pos, splitter, s, limit, p, q + 1, (fuel - 1) as nat, out)
            } else {
                let piece = out.push(Val::Str(s.subrange(p as int, q as int)));
                if piece.len() >= limit {
                    done(piece, r.pos)
                } else {
                    let c = chain(
                        get(h, r.pos, m.1, "length"@),
                        |lv: Val, p1: nat|
                            chain(
                                ask_number(h, p1, Op::ToNumber, seq![lv]),
                                |ln: Num, p2: nat|
                                    add_captures(h, p2, m.1, 1, capture_count(ln), limit, piece),
                            ),
                    );
                    match c.out {
                        Err(e) => halted(e, c.pos),
                        Ok(more) => if more.len() >= limit {
                            done(more, c.pos)
                        } else {
                            split_loop(
                                h,
                                c.pos,
                                splitter,
                                s,
                                limit,
                                m.0,
                                m.0,
                                (fuel - 1) as nat,
                                more,
                            )
                        },
                    }
                }
            },
        }
    }
}

/// A new regular expression of the same kind with other flags.
pub open spec fn same_kind(h: Host, pos: nat, re: Val, flags: Seq<char>) -> Run<Val> {
    chain(
        species_or(h, pos, re, Val::Native(Native::RegExpCtor)),
        |c: Val, p: nat| construct(h, p, c, seq![re, Val::Str(flags)]),
    )
}

pub open spec fn sticky_flags(flags: Seq<char>) -> Seq<char> {
    if has_char(flags, 'y') {
        flags
    } else {
        flags + "y"@
    }
}

/// The array of the pieces of a text between the matches of a splitter.
pub open spec fn split_pieces(h: Host, pos: nat, splitter: Val, s: Seq<char>, limit: nat) -> Run<Val> {
    if limit == 0 {
        ask_value(h, pos, Op::NewArray, Seq::empty())
    } else if s.len() == 0 {
        chain(
            exec_of(h, pos, splitter, s),
            |z: Val, p: nat|
                ask_value(
                    h,
                    p,
                    Op::NewArray,
                    if z is Null {
                        seq![Val::Str(s)]
                    } else {
                        Seq::empty()
                    },
                ),
        )
    } else {
        chain(
            split_loop(
                h,
                pos,
                splitter,
                s,
                limit,
                0,
                0,
                hit_limit(s.len()),
                Seq::empty(),
            ),
            |out: Seq<Val>, p: nat| ask_value(h, p, Op::NewArray, out),
        )
    }
}

/// `RegExp.prototype[@@split]`.
pub open spec fn regex_split_run(h: Host, pos: nat, recv: Option<Val>, args: Seq<Val>) -> Run<Val> {
    let re = this_of(recv);
    if !object(re) {
        raised(ErrorKind::TypeError, non_object("split"@), pos)
    } else {
        chain(
            ask_text(h, pos, Op::ToText, seq![arg(args, 0)]),
            |s: Seq<char>, p: nat|
                chain(
                    flags_of(h, p, re),
                    |flags: Seq<char>, q: nat|
                        chain(
                            same_kind(h, q, re, sticky_flags(flags)),
                            |splitter: Val, r: nat|
                                chain(
                                    split_limit(h, r, arg(args, 1)),
                                    |limit: nat, t: nat| split_pieces(h, t, splitter, s, limit),
                                ),
                        ),
                ),
        )
    }
}

/// The results of a matcher one after the other, at most `fuel`; one where it is not global.
pub open spec fn match_results(
    h: Host,
    pos: nat,
    matcher: Val,
    s: Seq<char>,
    global: bool,
    fuel: nat,
    out: Seq<Val>,
) -> Run<Seq<Val>>
    decreases fuel,
{
    if fuel == 0 {
        done(out, pos)
    } else {
        let r = exec_of(h, pos, matcher, s);
        match r.out {
            Err(e) => halted(e, r.pos),
            Ok(v) => if v is Null {
                done(out, r.pos)
            } else if !global {
                done(out.push(v), r.pos)
            } else {
                let t = chain(
                    get(h, r.pos, v, "0"@),
                    |m: Val, p: nat|
                        chain(
                            ask_text(h, p, Op::ToText, seq![m]),
                            |x: Seq<char>, q: nat|
                                if x.len() == 0 {
                                    step_on(h, q, matcher)
                                } else {
                                    done((), q)
                                },
                        ),
                );
                match t.out {
                    Err(e) => halted(e, t.pos),
                    Ok(_) => match_results(
                        h,
                        t.pos,
                        matcher,
                        s,
                        global,
                        (fuel - 1) as nat,
                        out.push(v),
                    ),
                }
            },
        }
    }
}

/// `RegExp.prototype[@@matchAll]`.
pub open spec fn regex_match_all_run(h: Host, pos: nat, recv: Option<Val>, args: Seq<Val>) -> Run<
    Val,
> {
    let re = this_of(recv);
    if !object(re) {
        raised(ErrorKind::TypeError, non_object("matchAll"@), pos)
    } else {
        chain(
            ask_text(h, pos, Op::ToText, seq![arg(args, 0)]),
            |s: Seq<char>, p: nat|
                chain(
                    flags_of(h, p, re),
                    |flags: Seq<char>, q: nat|
                        chain(
                            same_kind(h, q, re, flags),
                            |matcher: Val, r: nat|
                                chain(
                                    get(h, r, re, "lastIndex"@),
                                    |li: Val, t: nat|
                                        chain(
                                            ask_number(h, t, Op::PlainNumber, seq![li]),
                                            |n: Num, v: nat|
                                                chain(
                                                    set_or_throw(
                                                        h,
                                                        v,
                                                        matcher,
                                                        "lastIndex"@,
                                                        Val::Num(num_of(length_of(n) as int)),
                                                    ),
                                                    |u: (), w: nat|
                                                        chain(
                                                            match_results(
                                                                h,
                                                                w,
                                                                matcher,
                                                                s,
                                                                has_char(flags, 'g'),
                                                                hit_limit(s.len()),
                                                                Seq::empty(),
                                                            ),
                                                            |out: Seq<Val>, x: nat|
                                                                ask_value(
                                                                    h,
                                                                    x,
                                                                    Op::NewIterator,
                                                                    out,
                                                                ),
                                                        ),
                                                ),
                                        ),
                                ),
                        ),
                ),
        )
    }
}

/// The method of a value under a symbol's key, where the value has one; it must be callable.
pub open spec fn symbol_method(h: Host, pos: nat, v: Val, key: Seq<char>, refusal: Seq<char>) -> Run<
    Option<Val>,
> {
    chain(
        get(h, pos, v, key),
        |m: Val, p: nat|
            if m is Undefined || m is Null {
                done(None, p)
            } else if !callable(m) {
                raised(ErrorKind::TypeError, refusal, p)
            } else {
                done(Some(m), p)
            },
    )
}

/// The source and the flags of a regular expression made of a value.
pub open spec fn pattern_of(h: Host, pos: nat, v: Val) -> Run<(Seq<char>, Seq<char>)> {
    if v is Undefined {
        done((Seq::<char>::empty(), Seq::<char>::empty()), pos)
    } else {
        chain(
            parts_run(h, pos, v),
            |parts: Option<(Seq<char>, Seq<char>)>, p: nat|
                match parts {
                    Some(sf) => done(sf, p),
                    None => chain(
                        ask_text(h, p, Op::ToText, seq![v]),
                        |t: Seq<char>, q: nat| done((t, Seq::<char>::empty()), q),
                    ),
                },
        )
    }
}

/// A regular expression made of a value, and its method under a symbol's key called on a text.
/// `fixed` are the flags to use in place of the value's own.
pub open spec fn made_regex_call(
    h: Host,
    pos: nat,
    s: Seq<char>,
    v: Val,
    key: Seq<char>,
    fixed: Option<Seq<char>>,
) -> Run<Val> {
    chain(
        pattern_of(h, pos, v),
        |sf: (Seq<char>, Seq<char>), p: nat|
            {
                let flags = match fixed {
                    Some(f) => f,
                    None => sf.1,
                };
                chain(
                    ask_value(h, p, Op::NewRegex, seq![Val::Str(sf.0), Val::Str(flags)]),
                    |rx: Val, q: nat|
                        chain(
                            get(h, q, rx, key),
                            |m: Val, r: nat| call(h, r, m, Some(rx), seq![Val::Str(s)]),
                        ),
                )
            },
    )
}

/// `String.prototype.match` and `search`: the value's method under the symbol's key, or that of a
/// regular expression made of the value.
pub open spec fn delegated(h: Host, pos: nat, s: Seq<char>, v: Val, key: Seq<char>) -> Run<Val> {
    chain(
        if object(v) {
            symbol_method(h, pos, v, key, "regexp method is not callable"@)
        } else {
            done(None, pos)
        },
        |m: Option<Val>, p: nat|
            match m {
                Some(f) => call(h, p, f, Some(v), seq![Val::Str(s)]),
                None => made_regex_call(h, p, s, v, key, None),
            },
    )
}

/// The flag letters in the order in which `flags` lists them, with the properties they stand for.
pub open spec fn flag_names() -> Seq<(Seq<char>, char)> {
    seq![
        ("hasIndices"@, 'd'),
        ("global"@, 'g'),
        ("ignoreCase"@, 'i'),
        ("multiline"@, 'm'),
        ("dotAll"@, 's'),
        ("unicode"@, 'u'),
        ("unicodeSets"@, 'v'),
        ("sticky"@, 'y'),
    ]
}

/// The letters of the flags that are set, from the `i`-th on.
pub open spec fn collect_flags(h: Host, pos: nat, this: Val, i: int, out: Seq<char>) -> Run<Val>
    decreases flag_names().len() - i,
{
    if !(0 <= i < flag_names().len()) {
        done(Val::Str(out), pos)
    } else {
        let (name, letter) = flag_names()[i];
        let g = get(h, pos, this, name);
        match g.out {
            Err(e) => halted(e, g.pos),
            Ok(v) => collect_flags(
                h,
                g.pos,
                this,
                i + 1,
                if truthy(v) {
                    out.push(letter)
                } else {
                    out
                },
            ),
        }
    }
}

/// The getter `flags`.
pub open spec fn regex_flags_run(h: Host, pos: nat, recv: Option<Val>, args: Seq<Val>) -> Run<Val> {
    let this = this_of(recv);
    if !object(this) {
        raised(
            ErrorKind::TypeError,
            "RegExp.prototype.flags getter called on non-object"@,
            pos,
        )
    } else {
        collect_flags(h, pos, this, 0, Seq::empty())
    }
}

/// The getter `source`.
pub open spec fn regex_source_run(h: Host, pos: nat, recv: Option<Val>, args: Seq<Val>) -> Run<Val> {
    let this = this_of(recv);
    chain(
        parts_run(h, pos, this),
        |parts: Option<(Seq<char>, Seq<char>)>, p: nat|
            match parts {
                Some(sf) => done(
                    Val::Str(
                        if sf.0.len() == 0 {
                            "(?:)"@
                        } else {
                            sf.0
                        },
                    ),
                    p,
                ),
                None => chain(
                    ask_flag(h, p, Op::IsRegexProto, seq![this]),
                    |proto: bool, q: nat|
                        if proto {
                            done(Val::Str("(?:)"@), q)
                        } else {
                            raised(
                                ErrorKind::TypeError,
                                "RegExp.prototype.source getter called on non-RegExp"@,
                                q,
                            )
                        },
                ),
            },
    )
}

/// The getter of one flag.
pub open spec fn regex_flag_run(h: Host, pos: nat, letter: char, recv: Option<Val>) -> Run<Val> {
    let this = this_of(recv);
    chain(
        parts_run(h, pos, this),
        |parts: Option<(Seq<char>, Seq<char>)>, p: nat|
            match parts {
                Some(sf) => done(Val::Bool(has_char(sf.1, letter)), p),
                None => chain(
                    ask_flag(h, p, Op::IsRegexProto, seq![this]),
                    |proto: bool, q: nat|
                        if proto {
                            done(Val::Undefined, q)
                        } else {
                            raised(
                                ErrorKind::TypeError,
                                "RegExp flag getter called on non-RegExp"@,
                                q,
                            )
                        },
                ),
            },
    )
}

/// `RegExp.escape`.
pub open spec fn regexp_escape_run(h: Host, pos: nat, recv: Option<Val>, args: Seq<Val>) -> Run<Val> {
    match arg(args, 0) {
        Val::Str(s) => ask_value(h, pos, Op::RegexEscaped, seq![Val::Str(s)]),
        _ => raised(ErrorKind::TypeError, "RegExp.escape argument must be a string"@, pos),
    }
}

pub open spec fn found_run(r: Result<Option<Found>, Stop>, it: Interp) -> Run<Option<FoundV>> {
    match r {
        Ok(Some(f)) => done(Some(f@), it.pos as nat),
        Ok(None) => done(None, it.pos as nat),
        Err(e) => halted(e@, it.pos as nat),
    }
}

pub open spec fn parts_result(r: Result<Option<(String, String)>, Stop>, it: Interp) -> Run<
    Option<(Seq<char>, Seq<char>)>,
> {
    match r {
        Ok(Some(f)) => done(Some((f.0@, f.1@)), it.pos as nat),
        Ok(None) => done(None, it.pos as nat),
        Err(e) => halted(e@, it.pos as nat),
    }
}

pub open spec fn texts_pair_run(r: Result<(String, String), Stop>, it: Interp) -> Run<
    (Seq<char>, Seq<char>),
> {
    match r {
        Ok(f) => done((f.0@, f.1@), it.pos as nat),
        Err(e) => halted(e@, it.pos as nat),
    }
}

pub open spec fn hit_run(r: Result<Option<Hit>, Stop>, it: Interp) -> Run<Option<HitV>> {
    match r {
        Ok(Some(f)) => done(Some(f@), it.pos as nat),
        Ok(None) => done(None, it.pos as nat),
        Err(e) => halted(e@, it.pos as nat),
    }
}

pub open spec fn hits_run(r: Result<Vec<Hit>, Stop>, it: Interp) -> Run<Seq<HitV>> {
    match r {
        Ok(f) => done(hit_views(f@), it.pos as nat),
        Err(e) => halted(e@, it.pos as nat),
    }
}

pub open spec fn captures_run(r: Result<Vec<Option<String>>, Stop>, it: Interp) -> Run<
    Seq<Option<Seq<char>>>,
> {
    match r {
        Ok(f) => done(capture_views(f@), it.pos as nat),
        Err(e) => halted(e@, it.pos as nat),
    }
}

pub open spec fn swap_run(r: Result<Swap, Stop>, it: Interp) -> Run<SwapV> {
    match r {
        Ok(f) => done(f@, it.pos as nat),
        Err(e) => halted(e@, it.pos as nat),
    }
}

pub open spec fn limit_run(r: Result<u32, Stop>, it: Interp) -> Run<nat> {
    match r {
        Ok(f) => done(f as nat, it.pos as nat),
        Err(e) => halted(e@, it.pos as nat),
    }
}

pub open spec fn place_run(r: Result<Option<(usize, Value)>, Stop>, it: Interp) -> Run<
    Option<(nat, Val)>,
> {
    match r {
        Ok(Some(f)) => done(Some((f.0 as nat, f.1@)), it.pos as nat),
        Ok(None) => done(None, it.pos as nat),
        Err(e) => halted(e@, it.pos as nat),
    }
}

fn empty_text() -> (r: String)
    ensures
        r@ == Seq::<char>::empty(),
{
    let e: String = String::new();
    assert(e@ =~= Seq::<char>::empty());
    e
}

fn no_values() -> (r: Vec<Value>)
    ensures
        views(r@) == Seq::<Val>::empty(),
{
    let v: Vec<Value> = Vec::new();
    assert(views(v@) =~= Seq::<Val>::empty());
    v
}

impl Interp {
    /// The source and the flags of a regular expression; none of anything else.
    pub fn regex_parts(&mut self, v: &Value) -> (r: Result<Option<(String, String)>, Stop>)
        requires
            old(self).wf(),
        ensures
            final(self).follows(*old(self)),
            parts_result(r, *final(self)) == parts_run(
                old(self).host(),
                old(self).pos as nat,
                v@,
            ),
    {
        match self.ask(Op::RegexParts, list1(v.clone()))? {
            Reply::List(l) => {
                let a: String = match arg_at(&l, 0) {
                    Value::Str(s) => s,
                    _ => empty_text(),
                };
                let b: String = match arg_at(&l, 1) {
                    Value::Str(s) => s,
                    _ => empty_text(),
                };
                Ok(Some((a, b)))
            },
            _ => Ok(None),
        }
    }

    /// Throws where the source and the flags are no regular expression.
    pub fn regex_valid(&mut self, usage: RegexUse, src: &str, flags: &str) -> (r: Result<(), Stop>)
        requires
            old(self).wf(),
        ensures
            final(self).follows(*old(self)),
            run_plain(r, *final(self)) == regex_valid(
                old(self).host(),
                old(self).pos as nat,
                usage,
                src@,
                flags@,
            ),
    {
        match self.ask_slot(Op::RegexFault, list2(text_value(src), text_value(flags)))? {
            None => Ok(()),
            Some(v) => {
                let why: String = text_of_value(&v);
                match usage {
                    RegexUse::Matching => {
                        let mut m: String = concat_text("Invalid regular expression: /", src);
                        append_text(&mut m, "/: ");
                        append_text(&mut m, why.as_str());
                        Err(fail(ErrorKind::SyntaxError, m.as_str()))
                    },
                    RegexUse::Splitting => Err(
                        fail(ErrorKind::Error, concat_text("정규식: ", why.as_str()).as_str()),
                    ),
                }
            },
        }
    }

    /// Throws where the flags are not those of a regular expression.
    pub fn flags_valid(&mut self, flags: &str) -> (r: Result<(), Stop>)
        requires
            old(self).wf(),
        ensures
            final(self).follows(*old(self)),
            run_plain(r, *final(self)) == flags_valid(old(self).host(), old(self).pos as nat, flags@),
    {
        match self.ask_slot(Op::BadRegexFlags, list1(text_value(flags)))? {
            None => Ok(()),
            Some(v) => {
                let bad: String = text_of_value(&v);
                let m: String = concat_text("Invalid regular expression flags: ", bad.as_str());
                Err(fail(ErrorKind::SyntaxError, m.as_str()))
            },
        }
    }

    pub fn regex_find(&mut self, src: &str, flags: &str, text: &Vec<char>, from: u64) -> (r: Result<
        Option<Found>,
        Stop,
    >)
        requires
            old(self).wf(),
        ensures
            final(self).follows(*old(self)),
            found_run(r, *final(self)) == find_run(
                old(self).host(),
                old(self).pos as nat,
                src@,
                flags@,
                text@,
                from as nat,
            ),
            r matches Ok(Some(f)) ==> placed(f@, text@.len()),
    {
        match self.ask(
            Op::RegexFind,
            list4(
                text_value(src),
                text_value(flags),
                Value::Str(string_of(text)),
                Value::Num(index_number(from)),
            ),
        )? {
            Reply::List(l) => Ok(Some(found_of(&l, text.len()))),
            _ => Ok(None),
        }
    }

    /// The array that a match makes.
    #[verifier::loop_isolation(false)]
    pub fn regex_match_array(&mut self, chars: &Vec<char>, mt: &Found, group_names: &Vec<Value>) -> (r:
        Result<Value, Stop>)
        requires
            old(self).wf(),
            placed(mt@, chars@.len()),
        ensures
            final(self).follows(*old(self)),
            run_value(r, *final(self)) == match_array_run(
                old(self).host(),
                old(self).pos as nat,
                chars@,
                mt@,
                views(group_names@),
            ),
    {
        let mut items: Vec<Value> = Vec::new();
        let mut i: usize = 0;
        while i < mt.groups.len()
            invariant
                i <= mt.groups@.len(),
                views(items@) == group_texts(chars@, mt@).take(i as int),
            decreases mt.groups@.len() - i,
        {
            let ghost before = views(items@);
            assert(mt@.groups[i as int] == match mt.groups@[i as int] {
                Some(p) => Some((p.0 as nat, p.1 as nat)),
                None => None,
            });
            let v: Value = match mt.groups[i] {
                Some((a, b)) => Value::Str(string_of_range(chars, a, b)),
                None => Value::Undefined,
            };
            items.push(v);
            assert(views(items@) =~= before.push(v@));
            i = i + 1;
            assert(views(items@) =~= group_texts(chars@, mt@).take(i as int));
        }
        assert(views(items@) =~= group_texts(chars@, mt@));
        let a: Value = self.ask_value(Op::NewArray, items)?;
        let u: u128 = units_before(chars, mt.start);
        let index: Num = if u <= MAX_SAFE as u128 {
            Num::from_u64(u as u64)
        } else {
            Num::from_u64(MAX_SAFE)
        };
        let x: Value = self.ask_value(
            Op::StoreSlot,
            crate::host::list3(a.clone(), text_value("index"), Value::Num(index)),
        )?;
        let x: Value = self.ask_value(
            Op::StoreSlot,
            crate::host::list3(a.clone(), text_value("input"), Value::Str(string_of(chars))),
        )?;
        let ghost names = views(group_names@);
        let groups: Value = if group_names.len() == 0 {
            Value::Undefined
        } else {
            let mut g: ObjMap = ObjMap::new();
            let n: usize = group_names.len();
            let mut k: usize = 0;
            while k + 1 < n
                invariant
                    k <= n,
                    n == group_names@.len(),
                    k % 2 == 0,
                    g@ == named_groups(chars@, mt@, names, k as nat),
                decreases n - k,
            {
                assert(names[k as int] == group_names@[k as int]@);
                assert(names[k + 1] == group_names@[k + 1]@);
                let name: String = match &group_names[k] {
                    Value::Str(s) => s.clone(),
                    _ => empty_text(),
                };
                let number: Num = match &group_names[k + 1] {
                    Value::Num(n) => *n,
                    _ => Num { bits: crate::host::NAN_BITS },
                };
                let v: Value = match crate::strings::index_at_place(
                    to_offset(number),
                    mt.groups.len(),
                ) {
                    Some(j) => {
                        assert(mt@.groups[j as int] == match mt.groups@[j as int] {
                            Some(p) => Some((p.0 as nat, p.1 as nat)),
                            None => None,
                        });
                        match mt.groups[j] {
                            Some((b, e)) => Value::Str(string_of_range(chars, b, e)),
                            None => Value::Undefined,
                        }
                    },
                    None => Value::Undefined,
                };
                g.insert(name, v);
                k = k + 2;
            }
            assert(k as nat == pairs_len(n as nat));
            self.ask_value(Op::NewObject, crate::collect::flatten(&g))?
        };
        let x: Value = self.ask_value(
            Op::StoreSlot,
            crate::host::list3(a.clone(), text_value("groups"), groups),
        )?;
        Ok(a)
    }

    fn exec_end(
        &mut self,
        r: &Value,
        src: &str,
        flags: &str,
        text: &Vec<char>,
        from: u64,
        moves: bool,
    ) -> (out: Result<Value, Stop>)
        requires
            old(self).wf(),
        ensures
            final(self).follows(*old(self)),
            run_value(out, *final(self)) == exec_end(
                old(self).host(),
                old(self).pos as nat,
                r@,
                src@,
                flags@,
                text@,
                from as nat,
                moves,
            ),
    {
        let m: Option<Found> = self.regex_find(src, flags, text, from)?;
        let sticky: bool = text_has(flags, 'y');
        match m {
            Some(f) => {
                if !(sticky && f.start as u64 != from) {
                    if moves {
                        self.set_throw(r, "lastIndex", Value::Num(count_as_num(f.end)))?;
                    }
                    let names: Vec<Value> = self.ask_list(
                        Op::RegexGroups,
                        list2(text_value(src), text_value(flags)),
                    )?;
                    return self.regex_match_array(text, &f, &names);
                }
            },
            None => {},
        }
        if moves {
            self.set_throw(r, "lastIndex", Value::Num(Num::from_u64(0)))?;
        }
        Ok(Value::Null)
    }

    /// `RegExp.prototype.exec`.
    pub fn regex_exec(&mut self, recv: &Option<Value>, args: &Vec<Value>) -> (r: Result<Value, Stop>)
        requires
            old(self).wf(),
        ensures
            final(self).follows(*old(self)),
            run_value(r, *final(self)) == regex_exec_run(
                old(self).host(),
                old(self).pos as nat,
                opt_view(*recv),
                views(args@),
            ),
    {
        let r: Value = this_or_undefined(recv);
        let (src, flags): (String, String) = match self.regex_parts(&r)? {
            Some(sf) => sf,
            None => {
                return Err(
                    fail(
                        ErrorKind::TypeError,
                        "Method RegExp.prototype.exec called on incompatible receiver",
                    ),
                );
            },
        };
        let text: String = self.ask_text(Op::ToText, list1(arg_at(args, 0)))?;
        self.regex_valid(RegexUse::Matching, src.as_str(), flags.as_str())?;
        let chars: Vec<char> = chars_of(text.as_str());
        let moves: bool = text_has(flags.as_str(), 'g') || text_has(flags.as_str(), 'y');
        let mut from: u64 = 0;
        if moves {
            let li: Value = self.member_get(&r, "lastIndex")?;
            let n: Num = self.ask_number(Op::ToNumber, list1(li))?;
            from = to_length(n);
            if from > chars.len() as u64 {
                self.set_throw(&r, "lastIndex", Value::Num(Num::from_u64(0)))?;
                return Ok(Value::Null);
            }
        }
        self.exec_end(&r, src.as_str(), flags.as_str(), &chars, from, moves)
    }

    /// `RegExp.prototype.test`.
    pub fn regex_test(&mut self, recv: &Option<Value>, args: &Vec<Value>) -> (r: Result<Value, Stop>)
        requires
            old(self).wf(),
        ensures
            final(self).follows(*old(self)),
            run_value(r, *final(self)) == regex_test_run(
                old(self).host(),
                old(self).pos as nat,
                opt_view(*recv),
                views(args@),
            ),
    {
        let (src, flags): (String, String) = match self.regex_parts(&this_or_undefined(recv))? {
            Some(sf) => sf,
            None => {
                return Err(
                    fail(
                        ErrorKind::TypeError,
                        "Method RegExp.prototype.test called on incompatible receiver",
                    ),
                );
            },
        };
        let text: String = self.ask_text(Op::ToText, list1(arg_at(args, 0)))?;
        self.regex_valid(RegexUse::Matching, src.as_str(), flags.as_str())?;
        let m: Option<Found> = self.regex_find(
            src.as_str(),
            flags.as_str(),
            &chars_of(text.as_str()),
            0,
        )?;
        Ok(Value::Bool(m.is_some()))
    }

    /// RegExpExec: the object's own `exec` where it has one, else the built-in one.
    pub fn regexp_exec(&mut self, re: &Value, s: &str) -> (r: Result<Value, Stop>)
        requires
            old(self).wf(),
        ensures
            final(self).follows(*old(self)),
            run_value(r, *final(self)) == exec_of(
                old(self).host(),
                old(self).pos as nat,
                re@,
                s@,
            ),
    {
        let exec: Value = self.member_get(re, "exec")?;
        if is_callable(&exec) {
            let v: Value = self.call_value(exec, Some(re.clone()), list1(text_value(s)))?;
            if !is_object(&v) && !is_null(&v) {
                return Err(
                    fail(
                        ErrorKind::TypeError,
                        "RegExp exec method returned something other than an Object or null",
                    ),
                );
            }
            return Ok(v);
        }
        match self.regex_parts(re)? {
            None => Err(fail(ErrorKind::TypeError, "RegExpExec called on non-RegExp")),
            Some(_) => self.regex_exec(&Some(re.clone()), &list1(text_value(s))),
        }
    }

    fn plus_one(&mut self, n: Num) -> (r: Result<Num, Stop>)
        requires
            old(self).wf(),
        ensures
            final(self).follows(*old(self)),
            run_plain(r, *final(self)) == plus_one(
                old(self).host(),
                old(self).pos as nat,
                n,
            ),
    {
        if n.is_finite() && !n.is_negative() && !is_fractional(n) {
            let w: u64 = n.whole();
            if w < MAX_SAFE {
                return Ok(Num::from_u64(w + 1));
            }
        }
        self.ask_number(Op::PlusOne, list1(Value::Num(n)))
    }

    fn step_on(&mut self, re: &Value) -> (r: Result<(), Stop>)
        requires
            old(self).wf(),
        ensures
            final(self).follows(*old(self)),
            run_plain(r, *final(self)) == step_on(
                old(self).host(),
                old(self).pos as nat,
                re@,
            ),
    {
        let li: Value = self.member_get(re, "lastIndex")?;
        let n: Num = self.ask_number(Op::PlainNumber, list1(li))?;
        let m: Num = self.plus_one(n)?;
        self.set_throw(re, "lastIndex", Value::Num(m))
    }

    fn next_hit(&mut self, re: &Value, s: &str) -> (r: Result<Option<Hit>, Stop>)
        requires
            old(self).wf(),
        ensures
            final(self).follows(*old(self)),
            hit_run(r, *final(self)) == next_hit(
                old(self).host(),
                old(self).pos as nat,
                re@,
                s@,
            ),
    {
        let result: Value = self.regexp_exec(re, s)?;
        if is_null(&result) {
            return Ok(None);
        }
        let m: Value = self.member_get(&result, "0")?;
        let text: String = self.ask_text(Op::ToText, list1(m))?;
        Ok(Some(Hit { result, text }))
    }

    #[verifier::loop_isolation(false)]
    fn all_hits(&mut self, re: &Value, s: &str, global: bool, limit: u128) -> (r: Result<Vec<Hit>, Stop>)
        requires
            old(self).wf(),
        ensures
            final(self).follows(*old(self)),
            hits_run(r, *final(self)) == all_hits(
                old(self).host(),
                old(self).pos as nat,
                re@,
                s@,
                global,
                limit as nat,
                Seq::empty(),
            ),
    {
        let ghost goal = all_hits(
            self.host(),
            self.pos as nat,
            re@,
            s@,
            global,
            limit as nat,
            Seq::empty(),
        );
        let mut out: Vec<Hit> = Vec::new();
        let mut fuel: u128 = limit;
        assert(hit_views(out@) =~= Seq::<HitV>::empty());
        while fuel > 0
            invariant
                self.follows(*old(self)),
                goal == all_hits(
                    self.host(),
                    self.pos as nat,
                    re@,
                    s@,
                    global,
                    fuel as nat,
                    hit_views(out@),
                ),
            decreases fuel,
        {
            match self.next_hit(re, s)? {
                None => {
                    return Ok(out);
                },
                Some(hit) => {
                    let empty: bool = chars_of(hit.text.as_str()).len() == 0;
                    let ghost before = hit_views(out@);
                    out.push(hit);
                    assert(hit_views(out@) =~= before.push(hit@));
                    if !global {
                        return Ok(out);
                    }
                    if empty {
                        self.step_on(re)?;
                    }
                },
            }
            fuel = fuel - 1;
        }
        Ok(out)
    }

    /// `RegExp.prototype[@@search]`.
    pub fn regex_search(&mut self, recv: &Option<Value>, args: &Vec<Value>) -> (r: Result<Value, Stop>)
        requires
            old(self).wf(),
        ensures
            final(self).follows(*old(self)),
            run_value(r, *final(self)) == regex_search_run(
                old(self).host(),
                old(self).pos as nat,
                opt_view(*recv),
                views(args@),
            ),
    {
        let re: Value = this_or_undefined(recv);
        if !is_object(&re) {
            return Err(not_an_object("search"));
        }
        let s: String = self.ask_text(Op::ToText, list1(arg_at(args, 0)))?;
        let prev: Value = self.member_get(&re, "lastIndex")?;
        let zero: Value = Value::Num(Num::from_u64(0));
        if !same_value(&prev, &zero) {
            self.set_throw(&re, "lastIndex", zero)?;
        }
        let result: Value = self.regexp_exec(&re, s.as_str())?;
        let cur: Value = self.member_get(&re, "lastIndex")?;
        if !same_value(&cur, &prev) {
            self.set_throw(&re, "lastIndex", prev)?;
        }
        if is_null(&result) {
            Ok(Value::Num(Num::from_i64(-1)))
        } else {
            self.member_get(&result, "index")
        }
    }

    fn flags_of(&mut self, re: &Value) -> (r: Result<String, Stop>)
        requires
            old(self).wf(),
        ensures
            final(self).follows(*old(self)),
            run_text(r, *final(self)) == flags_of(
                old(self).host(),
                old(self).pos as nat,
                re@,
            ),
    {
        let f: Value = self.member_get(re, "flags")?;
        self.ask_text(Op::ToText, list1(f))
    }

    /// `RegExp.prototype[@@match]`.
    pub fn regex_match(&mut self, recv: &Option<Value>, args: &Vec<Value>) -> (r: Result<Value, Stop>)
        requires
            old(self).wf(),
        ensures
            final(self).follows(*old(self)),
            run_value(r, *final(self)) == regex_match_run(
                old(self).host(),
                old(self).pos as nat,
                opt_view(*recv),
                views(args@),
            ),
    {
        let re: Value = this_or_undefined(recv);
        if !is_object(&re) {
            return Err(not_an_object("match"));
        }
        let s: String = self.ask_text(Op::ToText, list1(arg_at(args, 0)))?;
        let flags: String = self.flags_of(&re)?;
        if !text_has(flags.as_str(), 'g') {
            return self.regexp_exec(&re, s.as_str());
        }
        self.set_throw(&re, "lastIndex", Value::Num(Num::from_u64(0)))?;
        let hits: Vec<Hit> = self.all_hits(&re, s.as_str(), true, limit_of(s.as_str()))?;
        if hits.len() == 0 {
            return Ok(Value::Null);
        }
        self.ask_value(Op::NewArray, texts_of_hits(&hits))
    }

    #[verifier::loop_isolation(false)]
    fn captures_of(&mut self, result: &Value, n: u64) -> (r: Result<Vec<Option<String>>, Stop>)
        requires
            old(self).wf(),
        ensures
            final(self).follows(*old(self)),
            captures_run(r, *final(self)) == captures_of(
                old(self).host(),
                old(self).pos as nat,
                result@,
                1,
                n as nat,
                Seq::empty(),
            ),
    {
        let ghost goal = captures_of(
            self.host(),
            self.pos as nat,
            result@,
            1,
            n as nat,
            Seq::empty(),
        );
        let mut out: Vec<Option<String>> = Vec::new();
        let mut k: u64 = 0;
        assert(capture_views(out@) =~= Seq::<Option<Seq<char>>>::empty());
        while k < n
            invariant
                k <= n,
                self.follows(*old(self)),
                goal == captures_of(
                    self.host(),
                    self.pos as nat,
                    result@,
                    (k + 1) as nat,
                    n as nat,
                    capture_views(out@),
                ),
            decreases n - k,
        {
            let ghost before = capture_views(out@);
            let v: Value = self.member_get(result, decimal_text(k + 1).as_str())?;
            if matches!(v, Value::Undefined) {
                out.push(None);
                assert(capture_views(out@) =~= before.push(None));
            } else {
                let t: String = self.ask_text(Op::ToText, list1(v))?;
                out.push(Some(t));
                assert(capture_views(out@) =~= before.push(Some(t@)));
            }
            k = k + 1;
        }
        Ok(out)
    }

    fn swap_of(&mut self, result: &Value, s: &str, chars: &Vec<char>, repl: &Value, template: &str) -> (r:
        Result<Swap, Stop>)
        requires
            old(self).wf(),
            chars@ == s@,
        ensures
            final(self).follows(*old(self)),
            swap_run(r, *final(self)) == swap_of(
                old(self).host(),
                old(self).pos as nat,
                result@,
                s@,
                repl@,
                template@,
            ),
            r matches Ok(w) ==> w.position <= chars@.len(),
    {
        reveal(swap_of);
        let m: Value = self.member_get(result, "0")?;
        let matched: String = self.ask_text(Op::ToText, list1(m))?;
        let lv: Value = self.member_get(result, "length")?;
        let ln: Num = self.ask_number(Op::ToNumber, list1(lv))?;
        let iv: Value = self.member_get(result, "index")?;
        let ix: Num = self.ask_number(Op::ToInteger, list1(iv))?;
        let position: usize = clamped_place(to_offset(ix), chars.len());
        let caps: Vec<Option<String>> = self.captures_of(result, count_captures(ln))?;
        let named: Value = self.member_get(result, "groups")?;
        let replacement: String = if is_callable(repl) {
            let given: Vec<Value> = args_of_replacer(
                matched.as_str(),
                &caps,
                position,
                s,
                &named,
            );
            let v: Value = self.call_value(repl.clone(), None, given)?;
            self.ask_text(Op::ToText, list1(v))?
        } else {
            self.get_substitution(
                matched.as_str(),
                chars,
                position,
                &caps,
                &named,
                template,
            )?
        };
        Ok(Swap { position, matched, replacement })
    }

    #[verifier::loop_isolation(false)]
    fn swap_all(&mut self, hits: &Vec<Hit>, s: &str, repl: &Value, template: &str) -> (r: Result<Value, Stop>)
        requires
            old(self).wf(),
        ensures
            final(self).follows(*old(self)),
            run_value(r, *final(self)) == swap_all(
                old(self).host(),
                old(self).pos as nat,
                hit_views(hits@),
                0,
                s@,
                repl@,
                template@,
                Seq::empty(),
                0,
            ),
    {
        let ghost all = hit_views(hits@);
        let ghost goal = swap_all(
            self.host(),
            self.pos as nat,
            all,
            0,
            s@,
            repl@,
            template@,
            Seq::empty(),
            0,
        );
        let chars: Vec<char> = chars_of(s);
        let len: usize = chars.len();
        let mut out: String = empty_text();
        let mut next: u128 = 0;
        let mut i: usize = 0;
        while i < hits.len()
            invariant
                i <= hits@.len(),
                len == s@.len(),
                next <= 2 * usize::MAX,
                self.follows(*old(self)),
                goal == swap_all(
                    self.host(),
                    self.pos as nat,
                    all,
                    i as int,
                    s@,
                    repl@,
                    template@,
                    out@,
                    next as nat,
                ),
            decreases hits@.len() - i,
        {
            assert(all[i as int] == hits@[i as int]@);
            let w: Swap = self.swap_of(&hits[i].result, s, &chars, repl, template)?;
            if w.position as u128 >= next {
                let ghost before = out@;
                let gap: String = string_of_range(&chars, next as usize, w.position);
                append_text(&mut out, gap.as_str());
                append_text(&mut out, w.replacement.as_str());
                let m: usize = chars_of(w.matched.as_str()).len();
                next = w.position as u128 + m as u128;
            }
            i = i + 1;
        }
        if next < len as u128 {
            let tail: String = string_of_range(&chars, next as usize, len);
            assert(tail@ =~= s@.skip(next as int));
            append_text(&mut out, tail.as_str());
        }
        Ok(Value::Str(out))
    }

    /// `RegExp.prototype[@@replace]`.
    pub fn regex_replace(&mut self, recv: &Option<Value>, args: &Vec<Value>) -> (r: Result<Value, Stop>)
        requires
            old(self).wf(),
        ensures
            final(self).follows(*old(self)),
            run_value(r, *final(self)) == regex_replace_run(
                old(self).host(),
                old(self).pos as nat,
                opt_view(*recv),
                views(args@),
            ),
    {
        proof {
            reveal(regex_replace_run);
        }
        let re: Value = this_or_undefined(recv);
        let repl: Value = arg_at(args, 1);
        if !is_object(&re) {
            return Err(not_an_object("replace"));
        }
        let s: String = self.ask_text(Op::ToText, list1(arg_at(args, 0)))?;
        let template: String = if is_callable(&repl) {
            empty_text()
        } else {
            self.ask_text(Op::ToText, list1(repl.clone()))?
        };
        let g: Value = self.member_get(&re, "global")?;
        let global: bool = to_bool(&g);
        if global {
            self.set_throw(&re, "lastIndex", Value::Num(Num::from_u64(0)))?;
        }
        let hits: Vec<Hit> = self.all_hits(&re, s.as_str(), global, limit_of(s.as_str()))?;
        self.swap_all(&hits, s.as_str(), &repl, template.as_str())
    }

    /// At most how many pieces `split` gives.
    pub fn split_limit(&mut self, v: &Value) -> (r: Result<u32, Stop>)
        requires
            old(self).wf(),
        ensures
            final(self).follows(*old(self)),
            limit_run(r, *final(self)) == split_limit(
                old(self).host(),
                old(self).pos as nat,
                v@,
            ),
    {
        if matches!(v, Value::Undefined) {
            return Ok(0xffff_ffff);
        }
        let n: Num = self.ask_number(Op::ToInt32, list1(v.clone()))?;
        Ok(to_uint32(n))
    }

    #[verifier::loop_isolation(false)]
    fn add_captures(&mut self, z: &Value, n: u64, limit: u32, start: Vec<Value>) -> (r: Result<Vec<Value>, Stop>)
        requires
            old(self).wf(),
        ensures
            final(self).follows(*old(self)),
            run_list(r, *final(self)) == add_captures(
                old(self).host(),
                old(self).pos as nat,
                z@,
                1,
                n as nat,
                limit as nat,
                views(start@),
            ),
    {
        let ghost goal = add_captures(
            self.host(),
            self.pos as nat,
            z@,
            1,
            n as nat,
            limit as nat,
            views(start@),
        );
        let mut out: Vec<Value> = start;
        let mut k: u64 = 0;
        while k < n && (out.len() as u64) < limit as u64
            invariant
                k <= n,
                self.follows(*old(self)),
                goal == add_captures(
                    self.host(),
                    self.pos as nat,
                    z@,
                    (k + 1) as nat,
                    n as nat,
                    limit as nat,
                    views(out@),
                ),
            decreases n - k,
        {
            let ghost before = views(out@);
            let v: Value = self.member_get(z, decimal_text(k + 1).as_str())?;
            out.push(v);
            assert(views(out@) =~= before.push(v@));
            k = k + 1;
        }
        Ok(out)
    }

    fn split_at_place(&mut self, splitter: &Value, s: &str, len: usize, q: usize) -> (r: Result<
        Option<(usize, Value)>,
        Stop,
    >)
        requires
            old(self).wf(),
            len == s@.len(),
        ensures
            final(self).follows(*old(self)),
            place_run(r, *final(self)) == split_at_place(
                old(self).host(),
                old(self).pos as nat,
                splitter@,
                s@,
                q as nat,
            ),
            r matches Ok(Some(m)) ==> m.0 <= len,
    {
        self.set_throw(splitter, "lastIndex", Value::Num(count_as_num(q)))?;
        let z: Value = self.regexp_exec(splitter, s)?;
        if is_null(&z) {
            return Ok(None);
        }
        let li: Value = self.member_get(splitter, "lastIndex")?;
        let n: Num = self.ask_number(Op::PlainNumber, list1(li))?;
        let e: u64 = to_length(n);
        Ok(
            Some(
                (
                    if e <= len as u64 {
                        e as usize
                    } else {
                        len
                    },
                    z,
                ),
            ),
        )
    }

    #[verifier::loop_isolation(false)]
    #[verifier::rlimit(60)]
    #[verifier::spinoff_prover]
    fn split_loop(&mut self, splitter: &Value, s: &str, limit: u32) -> (r: Result<Vec<Value>, Stop>)
        requires
            old(self).wf(),
        ensures
            final(self).follows(*old(self)),
            run_list(r, *final(self)) == split_loop(
                old(self).host(),
                old(self).pos as nat,
                splitter@,
                s@,
                limit as nat,
                0,
                0,
                hit_limit(s@.len()),
                Seq::empty(),
            ),
    {
        let ghost goal = split_loop(
            self.host(),
            self.pos as nat,
            splitter@,
            s@,
            limit as nat,
            0,
            0,
            hit_limit(s@.len()),
            Seq::empty(),
        );
        let chars: Vec<char> = chars_of(s);
        let len: usize = chars.len();
        let mut out: Vec<Value> = no_values();
        let mut p: usize = 0;
        let mut q: usize = 0;
        let mut fuel: u128 = limit_of(s);
        while q < len && fuel > 0
            invariant
                len == s@.len(),
                chars@ == s@,
                p <= q <= len,
                self.follows(*old(self)),
                goal == split_loop(
                    self.host(),
                    self.pos as nat,
                    splitter@,
                    s@,
                    limit as nat,
                    p as nat,
                    q as nat,
                    fuel as nat,
                    views(out@),
                ),
            decreases fuel,
        {
            match self.split_at_place(splitter, s, len, q)? {
                None => {
                    q = q + 1;
                },
                Some((e, z)) => {
                    if e == p {
                        q = q + 1;
                    } else {
                        let ghost before = views(out@);
                        let piece: Value = Value::Str(string_of_range(&chars, p, q));
                        out.push(piece);
                        assert(views(out@) =~= before.push(piece@));
                        if out.len() as u64 >= limit as u64 {
                            return Ok(out);
                        }
                        let lv: Value = self.member_get(&z, "length")?;
                        let ln: Num = self.ask_number(Op::ToNumber, list1(lv))?;
                        out = self.add_captures(&z, count_captures(ln), limit, out)?;
                        if out.len() as u64 >= limit as u64 {
                            return Ok(out);
                        }
                        p = e;
                        q = e;
                    }
                },
            }
            fuel = fuel - 1;
        }
        let ghost before = views(out@);
        let tail: String = string_of_range(&chars, p, len);
        assert(tail@ =~= s@.skip(p as int));
        out.push(Value::Str(tail));
        assert(views(out@) =~= before.push(Val::Str(s@.skip(p as int))));
        Ok(out)
    }

    fn same_kind(&mut self, re: &Value, flags: &str) -> (r: Result<Value, Stop>)
        requires
            old(self).wf(),
        ensures
            final(self).follows(*old(self)),
            run_value(r, *final(self)) == same_kind(
                old(self).host(),
                old(self).pos as nat,
                re@,
                flags@,
            ),
    {
        let c: Value = self.species_constructor(re, Value::Native(Native::RegExpCtor))?;
        self.construct(c, list2(re.clone(), text_value(flags)))
    }

    fn split_pieces(&mut self, splitter: &Value, s: &str, limit: u32) -> (r: Result<Value, Stop>)
        requires
            old(self).wf(),
        ensures
            final(self).follows(*old(self)),
            run_value(r, *final(self)) == split_pieces(
                old(self).host(),
                old(self).pos as nat,
                splitter@,
                s@,
                limit as nat,
            ),
    {
        if limit == 0 {
            return self.ask_value(Op::NewArray, no_values());
        }
        if chars_of(s).len() == 0 {
            let z: Value = self.regexp_exec(splitter, s)?;
            let out: Vec<Value> = if is_null(&z) {
                list1(text_value(s))
            } else {
                no_values()
            };
            return self.ask_value(Op::NewArray, out);
        }
        let out: Vec<Value> = self.split_loop(splitter, s, limit)?;
        self.ask_value(Op::NewArray, out)
    }

    /// `RegExp.prototype[@@split]`.
    pub fn regex_split(&mut self, recv: &Option<Value>, args: &Vec<Value>) -> (r: Result<Value, Stop>)
        requires
            old(self).wf(),
        ensures
            final(self).follows(*old(self)),
            run_value(r, *final(self)) == regex_split_run(
                old(self).host(),
                old(self).pos as nat,
                opt_view(*recv),
                views(args@),
            ),
    {
        let re: Value = this_or_undefined(recv);
        if !is_object(&re) {
            return Err(not_an_object("split"));
        }
        let s: String = self.ask_text(Op::ToText, list1(arg_at(args, 0)))?;
        let flags: String = self.flags_of(&re)?;
        let flags: String = if text_has(flags.as_str(), 'y') {
            flags
        } else {
            concat_text(flags.as_str(), "y")
        };
        let splitter: Value = self.same_kind(&re, flags.as_str())?;
        let limit: u32 = self.split_limit(&arg_at(args, 1))?;
        self.split_pieces(&splitter, s.as_str(), limit)
    }

    #[verifier::loop_isolation(false)]
    fn match_results(&mut self, matcher: &Value, s: &str, global: bool, limit: u128) -> (r: Result<Vec<Value>, Stop>)
        requires
            old(self).wf(),
        ensures
            final(self).follows(*old(self)),
            run_list(r, *final(self)) == match_results(
                old(self).host(),
                old(self).pos as nat,
                matcher@,
                s@,
                global,
                limit as nat,
                Seq::empty(),
            ),
    {
        let ghost goal = match_results(
            self.host(),
            self.pos as nat,
            matcher@,
            s@,
            global,
            limit as nat,
            Seq::empty(),
        );
        let mut out: Vec<Value> = no_values();
        let mut fuel: u128 = limit;
        while fuel > 0
            invariant
                self.follows(*old(self)),
                goal == match_results(
                    self.host(),
                    self.pos as nat,
                    matcher@,
                    s@,
                    global,
                    fuel as nat,
                    views(out@),
                ),
            decreases fuel,
        {
            let v: Value = self.regexp_exec(matcher, s)?;
            if is_null(&v) {
                return Ok(out);
            }
            let ghost before = views(out@);
            out.push(v.clone());
            assert(views(out@) =~= before.push(v@));
            if !global {
                return Ok(out);
            }
            let m: Value = self.member_get(&v, "0")?;
            let x: String = self.ask_text(Op::ToText, list1(m))?;
            if chars_of(x.as_str()).len() == 0 {
                self.step_on(matcher)?;
            }
            fuel = fuel - 1;
        }
        Ok(out)
    }

    /// `RegExp.prototype[@@matchAll]`.
    pub fn regex_match_all(&mut self, recv: &Option<Value>, args: &Vec<Value>) -> (r: Result<Value, Stop>)
        requires
            old(self).wf(),
        ensures
            final(self).follows(*old(self)),
            run_value(r, *final(self)) == regex_match_all_run(
                old(self).host(),
                old(self).pos as nat,
                opt_view(*recv),
                views(args@),
            ),
    {
        let re: Value = this_or_undefined(recv);
        if !is_object(&re) {
            return Err(not_an_object("matchAll"));
        }
        let s: String = self.ask_text(Op::ToText, list1(arg_at(args, 0)))?;
        let flags: String = self.flags_of(&re)?;
        let matcher: Value = self.same_kind(&re, flags.as_str())?;
        let li: Value = self.member_get(&re, "lastIndex")?;
        let n: Num = self.ask_number(Op::PlainNumber, list1(li))?;
        self.set_throw(&matcher, "lastIndex", Value::Num(Num::from_u64(to_length(n))))?;
        let out: Vec<Value> = self.match_results(
            &matcher,
            s.as_str(),
            text_has(flags.as_str(), 'g'),
            limit_of(s.as_str()),
        )?;
        self.ask_value(Op::NewIterator, out)
    }

    pub fn symbol_method(&mut self, v: &Value, key: &str, refusal: &str) -> (r: Result<Option<Value>, Stop>)
        requires
            old(self).wf(),
        ensures
            final(self).follows(*old(self)),
            crate::host::run_slot(r, *final(self)) == symbol_method(
                old(self).host(),
                old(self).pos as nat,
                v@,
                key@,
                refusal@,
            ),
    {
        let m: Value = self.member_get(v, key)?;
        if is_nullish(&m) {
            return Ok(None);
        }
        if !is_callable(&m) {
            return Err(fail(ErrorKind::TypeError, refusal));
        }
        Ok(Some(m))
    }

    fn pattern_of(&mut self, v: &Value) -> (r: Result<(String, String), Stop>)
        requires
            old(self).wf(),
        ensures
            final(self).follows(*old(self)),
            texts_pair_run(r, *final(self)) == pattern_of(
                old(self).host(),
                old(self).pos as nat,
                v@,
            ),
    {
        if matches!(v, Value::Undefined) {
            return Ok((empty_text(), empty_text()));
        }
        match self.regex_parts(v)? {
            Some(sf) => Ok(sf),
            None => {
                let t: String = self.ask_text(Op::ToText, list1(v.clone()))?;
                Ok((t, empty_text()))
            },
        }
    }

    pub fn made_regex_call(&mut self, s: &str, v: &Value, key: &str, fixed: Option<String>) -> (r: Result<Value, Stop>)
        requires
            old(self).wf(),
        ensures
            final(self).follows(*old(self)),
            run_value(r, *final(self)) == made_regex_call(
                old(self).host(),
                old(self).pos as nat,
                s@,
                v@,
                key@,
                opt_text(fixed),
            ),
    {
        let (src, own): (String, String) = self.pattern_of(v)?;
        let flags: String = match fixed {
            Some(f) => f,
            None => own,
        };
        let rx: Value = self.ask_value(Op::NewRegex, list2(Value::Str(src), Value::Str(flags)))?;
        let m: Value = self.member_get(&rx, key)?;
        self.call_value(m, Some(rx), list1(text_value(s)))
    }

    /// `match` and `search` of a string: the argument's method under the symbol's key, or that of a
    /// regular expression made of the argument.
    pub fn str_regex_delegate(&mut self, s: &str, arg: Value, sym: &str) -> (r: Result<Value, Stop>)
        requires
            old(self).wf(),
        ensures
            final(self).follows(*old(self)),
            run_value(r, *final(self)) == delegated(
                old(self).host(),
                old(self).pos as nat,
                s@,
                arg@,
                sym@,
            ),
    {
        let m: Option<Value> = if is_object(&arg) {
            self.symbol_method(&arg, sym, "regexp method is not callable")?
        } else {
            None
        };
        match m {
            Some(f) => self.call_value(f, Some(arg), list1(text_value(s))),
            None => self.made_regex_call(s, &arg, sym, None),
        }
    }

    /// The getter `flags`.
    #[verifier::loop_isolation(false)]
    pub fn regex_flags(&mut self, recv: &Option<Value>, args: &Vec<Value>) -> (r: Result<Value, Stop>)
        requires
            old(self).wf(),
        ensures
            final(self).follows(*old(self)),
            run_value(r, *final(self)) == regex_flags_run(
                old(self).host(),
                old(self).pos as nat,
                opt_view(*recv),
                views(args@),
            ),
    {
        let this: Value = this_or_undefined(recv);
        if !is_object(&this) {
            return Err(
                fail(ErrorKind::TypeError, "RegExp.prototype.flags getter called on non-object"),
            );
        }
        let names: [&str; 8] = [
            "hasIndices",
            "global",
            "ignoreCase",
            "multiline",
            "dotAll",
            "unicode",
            "unicodeSets",
            "sticky",
        ];
        let letters: [char; 8] = ['d', 'g', 'i', 'm', 's', 'u', 'v', 'y'];
        let mut out: String = empty_text();
        let ghost goal = collect_flags(self.host(), self.pos as nat, this@, 0, Seq::empty());
        let mut i: usize = 0;
        while i < 8
            invariant
                i <= 8,
                self.follows(*old(self)),
                goal == collect_flags(self.host(), self.pos as nat, this@, i as int, out@),
            decreases 8 - i,
        {
            assert(flag_names()[i as int] == (names@[i as int]@, letters@[i as int]));
            let v: Value = self.member_get(&this, names[i])?;
            if to_bool(&v) {
                out.push(letters[i]);
            }
            i = i + 1;
        }
        Ok(Value::Str(out))
    }

    /// The getter `source`.
    pub fn regex_source(&mut self, recv: &Option<Value>, args: &Vec<Value>) -> (r: Result<Value, Stop>)
        requires
            old(self).wf(),
        ensures
            final(self).follows(*old(self)),
            run_value(r, *final(self)) == regex_source_run(
                old(self).host(),
                old(self).pos as nat,
                opt_view(*recv),
                views(args@),
            ),
    {
        let this: Value = this_or_undefined(recv);
        match self.regex_parts(&this)? {
            Some((s, _)) => if chars_of(s.as_str()).len() == 0 {
                Ok(text_value("(?:)"))
            } else {
                Ok(Value::Str(s))
            },
            None => {
                if self.ask_flag(Op::IsRegexProto, list1(this))? {
                    Ok(text_value("(?:)"))
                } else {
                    Err(
                        fail(
                            ErrorKind::TypeError,
                            "RegExp.prototype.source getter called on non-RegExp",
                        ),
                    )
                }
            },
        }
    }

    /// The getter of one flag.
    pub fn regex_flag(&mut self, letter: char, recv: &Option<Value>) -> (r: Result<Value, Stop>)
        requires
            old(self).wf(),
        ensures
            final(self).follows(*old(self)),
            run_value(r, *final(self)) == regex_flag_run(
                old(self).host(),
                old(self).pos as nat,
                letter,
                opt_view(*recv),
            ),
    {
        let this: Value = this_or_undefined(recv);
        match self.regex_parts(&this)? {
            Some((_, f)) => Ok(Value::Bool(text_has(f.as_str(), letter))),
            None => {
                if self.ask_flag(Op::IsRegexProto, list1(this))? {
                    Ok(Value::Undefined)
                } else {
                    Err(fail(ErrorKind::TypeError, "RegExp flag getter called on non-RegExp"))
                }
            },
        }
    }

    /// `RegExp.escape`.
    pub fn regexp_escape(&mut self, recv: &Option<Value>, args: &Vec<Value>) -> (r: Result<Value, Stop>)
        requires
            old(self).wf(),
        ensures
            final(self).follows(*old(self)),
            run_value(r, *final(self)) == regexp_escape_run(
                old(self).host(),
                old(self).pos as nat,
                opt_view(*recv),
                views(args@),
            ),
    {
        match arg_at(args, 0) {
            Value::Str(s) => self.ask_value(Op::RegexEscaped, list1(Value::Str(s))),
            _ => Err(fail(ErrorKind::TypeError, "RegExp.escape argument must be a string")),
        }
    }
}

fn limit_of(s: &str) -> (r: u128)
    ensures
        r == hit_limit(s@.len()),
{
    let n: usize = chars_of(s).len();
    2 * (n as u128) + 1000
}

fn count_captures(n: Num) -> (r: u64)
    ensures
        r == capture_count(n),
{
    let l: u64 = to_length(n);
    if l > 1 {
        l - 1
    } else {
        0
    }
}

fn texts_of_hits(s: &Vec<Hit>) -> (r: Vec<Value>)
    ensures
        views(r@) == hit_texts(hit_views(s@)),
{
    let mut out: Vec<Value> = no_values();
    let mut i: usize = 0;
    while i < s.len()
        invariant
            i <= s@.len(),
            views(out@) == hit_texts(hit_views(s@)).take(i as int),
        decreases s@.len() - i,
    {
        let ghost before = views(out@);
        out.push(Value::Str(s[i].text.clone()));
        assert(views(out@) =~= before.push(Val::Str(s@[i as int].text@)));
        i = i + 1;
        assert(views(out@) =~= hit_texts(hit_views(s@)).take(i as int));
    }
    assert(views(out@) =~= hit_texts(hit_views(s@)));
    out
}

fn args_of_replacer(
    matched: &str,
    caps: &Vec<Option<String>>,
    position: usize,
    s: &str,
    named: &Value,
) -> (r: Vec<Value>)
    ensures
        views(r@) == replacer_args(
            matched@,
            capture_views(caps@),
            position as nat,
            s@,
            named@,
        ),
{
    let ghost vals = capture_vals(capture_views(caps@));
    let mut out: Vec<Value> = list1(text_value(matched));
    let ghost head = views(out@);
    let mut i: usize = 0;
    assert(views(out@) =~= head + vals.take(0));
    while i < caps.len()
        invariant
            i <= caps@.len(),
            vals == capture_vals(capture_views(caps@)),
            views(out@) == head + vals.take(i as int),
        decreases caps@.len() - i,
    {
        let ghost before = views(out@);
        let v: Value = match &caps[i] {
            Some(t) => Value::Str(t.clone()),
            None => Value::Undefined,
        };
        assert(vals[i as int] == v@);
        out.push(v);
        assert(views(out@) =~= before.push(v@));
        i = i + 1;
        assert(views(out@) =~= head + vals.take(i as int));
    }
    assert(vals.take(i as int) =~= vals);
    let ghost before = views(out@);
    out.push(Value::Num(count_as_num(position)));
    out.push(text_value(s));
    assert(views(out@) =~= before + seq![
        Val::Num(count_num(position as nat)),
        Val::Str(s@),
    ]);
    if !matches!(named, Value::Undefined) {
        let ghost before = views(out@);
        out.push(named.clone());
        assert(views(out@) =~= before.push(named@));
    }
    out
}

} // verus!
