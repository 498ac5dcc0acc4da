//! Global functions and constructors: the console, `JSON`, the URI functions, `Number`, `Boolean`,
//! `String`, `BigInt`, `RegExp` and `Array`.
use crate::arr_ops::texts_joined;
use crate::canvas::{cat, display_arg, empty_list};
use crate::host::{
    ask_flag, ask_list, ask_number, ask_slot, ask_text, ask_value, chain, done, fail, halted, list1,
    list2, list4, opt_view, raised, run_text, run_value, text_value, Answer, Host, Interp, Op,
    Question, Run, Stop,
};
use crate::json::{
    contains_text, is_plain_function, json_value, opt_keys, plain_function, room, text_views,
    texts_run, Identity, JsonCtx, JsonOptions,
};
use crate::json_revive::{revived, JsonSrc};
use crate::json_text::joined;
use crate::number::{count_of_num, has_fraction, is_fractional, num_of, num_to_count, Num};
use crate::number_format::{this_of, this_or_undefined};
use crate::property::Integrity;
use crate::regexp::{flags_valid, parts_run, regex_valid, RegexUse};
use crate::text::{chars_of, concat_text, string_of, string_of_range};
use crate::uri::{
    escape, escaped, unescape, unescaped, uri_decode, uri_decoded, uri_encode, uri_encoded,
};
use crate::value::{
    arg, arg_at, callable, is_callable, to_bool, truthy, views, ErrorKind, Kind, Val, Value,
};
use vstd::prelude::*;

verus! {

/// The arguments as the console shows them, from the `i`-th on.
pub open spec fn displays(h: Host, pos: nat, args: Seq<Val>, i: int, out: Seq<Seq<char>>) -> Run<
    Seq<Seq<char>>,
>
    decreases args.len() - i,
{
    if !(0 <= i < args.len()) {
        done(out, pos)
    } else {
        let t = ask_text(h, pos, Op::Display, seq![args[i]]);
        match t.out {
            Err(e) => halted(e, t.pos),
            Ok(s) => displays(h, t.pos, args, i + 1, out.push(s)),
        }
    }
}

/// A line of the console: the arguments with spaces between them.
pub open spec fn console_line(h: Host, pos: nat, args: Seq<Val>) -> Run<Seq<char>> {
    chain(
        displays(h, pos, args, 0, Seq::empty()),
        |parts: Seq<Seq<char>>, p: nat| done(joined(parts, " "@), p),
    )
}

/// Writes a line to the console.
pub open spec fn write_line(h: Host, pos: nat, line: Seq<char>) -> Run<Val> {
    chain(
        ask_value(h, pos, Op::Console, seq![Val::Str(line)]),
        |u: Val, p: nat| done(Val::Undefined, p),
    )
}

/// `console.log` and `print`.
pub open spec fn console_log_run(h: Host, pos: nat, recv: Option<Val>, args: Seq<Val>) -> Run<Val> {
    chain(console_line(h, pos, args), |line: Seq<char>, p: nat| write_line(h, p, line))
}

/// `alert`.
pub open spec fn alert_run(h: Host, pos: nat, recv: Option<Val>, args: Seq<Val>) -> Run<Val> {
    chain(
        console_line(h, pos, args),
        |line: Seq<char>, p: nat| write_line(h, p, "[alert] "@ + line),
    )
}

/// `Number`.
pub open spec fn number_ctor_run(h: Host, pos: nat, recv: Option<Val>, args: Seq<Val>) -> Run<Val> {
    chain(
        if args.len() == 0 {
            done(num_of(0), pos)
        } else {
            match args[0] {
                Val::BigInt(_) => ask_number(h, pos, Op::BigIntNumber, seq![args[0]]),
                _ => ask_number(h, pos, Op::ToNumber, seq![args[0]]),
            }
        },
        |n: Num, p: nat| done(Val::Num(n), p),
    )
}

/// `Boolean`.
pub open spec fn boolean_ctor_run(h: Host, pos: nat, recv: Option<Val>, args: Seq<Val>) -> Run<Val> {
    done(Val::Bool(truthy(arg(args, 0))), pos)
}

/// `String`.
pub open spec fn string_ctor_run(h: Host, pos: nat, recv: Option<Val>, args: Seq<Val>) -> Run<Val> {
    chain(
        if args.len() == 0 {
            done(Seq::empty(), pos)
        } else {
            chain(
                ask_value(h, pos, Op::QuietPrimitive, seq![args[0]]),
                |v: Val, p: nat| ask_text(h, p, Op::Display, seq![v]),
            )
        },
        |s: Seq<char>, p: nat| done(Val::Str(s), p),
    )
}

/// The base that an argument asks for: ten unless it is a number from 2 to 36.
pub open spec fn base_of(v: Val) -> u64 {
    match v {
        Val::Num(n) => if 2 <= count_of_num(n) <= 36 && (count_of_num(n) < 36 || !has_fraction(n)) {
            count_of_num(n)
        } else {
            10
        },
        _ => 10,
    }
}

/// `toString` of a big integer.
pub open spec fn big_int_to_string_run(h: Host, pos: nat, recv: Option<Val>, args: Seq<Val>) -> Run<Val> {
    chain(
        match this_of(recv) {
            Val::BigInt(b) => ask_text(
                h,
                pos,
                Op::BigIntText,
                seq![Val::BigInt(b), Val::Num(num_of(base_of(arg(args, 0)) as int))],
            ),
            _ => done("0"@, pos),
        },
        |s: Seq<char>, p: nat| done(Val::Str(s), p),
    )
}

/// `queueMicrotask`.
pub open spec fn queue_microtask_run(h: Host, pos: nat, recv: Option<Val>, args: Seq<Val>) -> Run<Val> {
    if !callable(arg(args, 0)) {
        raised(ErrorKind::TypeError, "queueMicrotask requires a callable argument"@, pos)
    } else {
        chain(
            ask_value(h, pos, Op::QueueMicrotask, seq![arg(args, 0)]),
            |u: Val, p: nat| done(Val::Undefined, p),
        )
    }
}

/// `escape`.
pub open spec fn escape_run(h: Host, pos: nat, recv: Option<Val>, args: Seq<Val>) -> Run<Val> {
    chain(
        display_arg(h, pos, args, 0),
        |s: Seq<char>, p: nat| done(Val::Str(escaped(s)), p),
    )
}

/// `unescape`.
pub open spec fn unescape_run(h: Host, pos: nat, recv: Option<Val>, args: Seq<Val>) -> Run<Val> {
    chain(
        display_arg(h, pos, args, 0),
        |s: Seq<char>, p: nat| done(Val::Str(unescaped(s)), p),
    )
}

/// `encodeURI`.
pub open spec fn encode_uri_run(h: Host, pos: nat, recv: Option<Val>, args: Seq<Val>) -> Run<Val> {
    chain(
        display_arg(h, pos, args, 0),
        |s: Seq<char>, p: nat| done(Val::Str(uri_encoded(s, ";,/?:@&=+$#"@)), p),
    )
}

/// `encodeURIComponent`.
pub open spec fn encode_uri_component_run(h: Host, pos: nat, recv: Option<Val>, args: Seq<Val>) -> Run<
    Val,
> {
    chain(
        display_arg(h, pos, args, 0),
        |s: Seq<char>, p: nat| done(Val::Str(uri_encoded(s, ""@)), p),
    )
}

/// The text that a URI stands for.
pub open spec fn decoded_uri(h: Host, pos: nat, args: Seq<Val>, preserve: bool) -> Run<Val> {
    chain(
        display_arg(h, pos, args, 0),
        |s: Seq<char>, p: nat|
            match uri_decoded(s, preserve) {
                Some(t) => done(Val::Str(t), p),
                None => raised(ErrorKind::URIError, "URI malformed"@, p),
            },
    )
}

/// `decodeURI`.
pub open spec fn decode_uri_run(h: Host, pos: nat, recv: Option<Val>, args: Seq<Val>) -> Run<Val> {
    decoded_uri(h, pos, args, true)
}

/// `decodeURIComponent`.
pub open spec fn decode_uri_component_run(h: Host, pos: nat, recv: Option<Val>, args: Seq<Val>) -> Run<
    Val,
> {
    decoded_uri(h, pos, args, false)
}

/// `JSON.parse`; `snap` is how the text's values are written.
pub open spec fn json_parse_run(h: Host, pos: nat, args: Seq<Val>, snap: Option<&JsonSrc>) -> Run<Val> {
    chain(
        ask_text(h, pos, Op::ToText, seq![arg(args, 0)]),
        |text: Seq<char>, p0: nat|
            chain(
                ask_value(h, p0, Op::ParseJson, seq![Val::Str(text)]),
                |v: Val, p1: nat|
                    if callable(arg(args, 1)) {
                        chain(
                            ask_value(h, p1, Op::NewObject, seq![Val::Str(Seq::empty()), v]),
                            |holder: Val, p2: nat|
                                revived(h, p2, holder, Seq::empty(), arg(args, 1), snap),
                        )
                    } else {
                        done(v, p1)
                    },
            ),
    )
}

pub open spec fn json_space(c: char) -> bool {
    c == '\t' || c == '\n' || c == '\r' || c == ' '
}

/// The text that `JSON.rawJSON` is given.
pub open spec fn raw_arg(h: Host, pos: nat, args: Seq<Val>) -> Run<Seq<char>> {
    if args.len() == 0 {
        done("undefined"@, pos)
    } else {
        chain(
            ask_value(h, pos, Op::ToPrimitiveText, seq![args[0]]),
            |v: Val, p: nat| ask_text(h, p, Op::Display, seq![v]),
        )
    }
}

/// What an object of `JSON.rawJSON` stores: its text, the mark by which it is known, and no
/// prototype.
pub open spec fn raw_fields(text: Seq<char>) -> Seq<Val> {
    seq![
        Val::Str("rawJSON"@),
        Val::Str(text),
        Val::Str("\0isRawJSON"@),
        Val::Bool(true),
        Val::Str("__proto__"@),
        Val::Null,
    ]
}

/// A new frozen object of `JSON.rawJSON`.
pub open spec fn new_raw_json(h: Host, pos: nat, text: Seq<char>) -> Run<Val> {
    chain(
        ask_value(h, pos, Op::NewObject, raw_fields(text)),
        |o: Val, p0: nat|
            chain(
                ask_value(
                    h,
                    p0,
                    Op::SetAttributes,
                    seq![
                        o,
                        Val::Str("rawJSON"@),
                        Val::Bool(false),
                        Val::Bool(true),
                        Val::Bool(false),
                    ],
                ),
                |u: Val, p1: nat|
                    chain(
                        ask_value(h, p1, Op::SetIntegrity(Integrity::Frozen), seq![o]),
                        |w: Val, p2: nat| done(o, p2),
                    ),
            ),
    )
}

/// `JSON.rawJSON`.
pub open spec fn json_raw_json_run(h: Host, pos: nat, recv: Option<Val>, args: Seq<Val>) -> Run<Val> {
    chain(
        raw_arg(h, pos, args),
        |text: Seq<char>, p0: nat|
            if text.len() == 0 || json_space(text[0]) || json_space(text.last()) {
                raised(ErrorKind::SyntaxError, "JSON.rawJSON: invalid text"@, p0)
            } else {
                chain(
                    ask_value(h, p0, Op::ParseJson, seq![Val::Str(text)]),
                    |v: Val, p1: nat|
                        if v matches Val::Ref(k, _) && (k == Kind::Obj || k == Kind::Arr) {
                            raised(
                                ErrorKind::SyntaxError,
                                "JSON.rawJSON: value must be primitive"@,
                                p1,
                            )
                        } else {
                            new_raw_json(h, p1, text)
                        },
                )
            },
    )
}

/// `JSON.isRawJSON`.
pub open spec fn json_is_raw_json_run(h: Host, pos: nat, recv: Option<Val>, args: Seq<Val>) -> Run<Val> {
    chain(
        crate::functions::plain_slot(h, pos, arg(args, 0), "\0isRawJSON"@),
        |s: Option<Val>, p: nat| done(Val::Bool(s is Some), p),
    )
}

/// So many spaces.
pub open spec fn spaces(n: nat) -> Seq<char> {
    Seq::new(n, |i: int| ' ')
}

/// The indentation that `JSON.stringify` is asked for: up to ten spaces, or up to ten characters.
pub open spec fn indent_of(space: Val) -> Seq<char> {
    match space {
        Val::Num(n) => spaces(
            if count_of_num(n) > 10 {
                10
            } else {
                count_of_num(n) as nat
            },
        ),
        Val::Str(s) => if s.len() > 10 {
            s.take(10)
        } else {
            s
        },
        _ => Seq::empty(),
    }
}

/// A space argument; what a wrapper wraps stands for the wrapper.
pub open spec fn plain_space(h: Host, pos: nat, v: Val) -> Run<Val> {
    match v {
        Val::Ref(Kind::Obj, _) => chain(
            ask_slot(h, pos, Op::Wrapped, seq![v]),
            |w: Option<Val>, p: nat|
                done(
                    match w {
                        Some(Val::Num(n)) => Val::Num(n),
                        Some(Val::Str(s)) => Val::Str(s),
                        _ => Val::Undefined,
                    },
                    p,
                ),
        ),
        _ => done(v, pos),
    }
}

/// The key that an element of a list of keys stands for; none for what is no text and no number.
pub open spec fn listed_key(h: Host, pos: nat, v: Val) -> Run<Option<Seq<char>>> {
    match v {
        Val::Str(s) => done(Some(s), pos),
        Val::Num(_) => chain(
            ask_text(h, pos, Op::NumberText, seq![v]),
            |s: Seq<char>, p: nat| done(Some(s), p),
        ),
        Val::Ref(Kind::Obj, _) => chain(
            ask_slot(h, pos, Op::Wrapped, seq![v]),
            |w: Option<Val>, p: nat|
                if w is Some && (w->0 is Num || w->0 is Str) {
                    chain(
                        ask_text(h, p, Op::ToText, seq![v]),
                        |s: Seq<char>, q: nat| done(Some(s), q),
                    )
                } else {
                    done(None, p)
                },
        ),
        _ => done(None, pos),
    }
}

/// The keys that a list names from the `i`-th element on, each once.
pub open spec fn listed_keys(h: Host, pos: nat, l: Seq<Val>, i: int, out: Seq<Seq<char>>) -> Run<
    Seq<Seq<char>>,
>
    decreases l.len() - i,
{
    if !(0 <= i < l.len()) {
        done(out, pos)
    } else {
        let k = listed_key(h, pos, l[i]);
        match k.out {
            Err(e) => halted(e, k.pos),
            Ok(None) => listed_keys(h, k.pos, l, i + 1, out),
            Ok(Some(s)) => listed_keys(
                h,
                k.pos,
                l,
                i + 1,
                if out.contains(s) {
                    out
                } else {
                    out.push(s)
                },
            ),
        }
    }
}

/// The keys that a replacer allows; none where it is no list.
pub open spec fn allowed_keys(h: Host, pos: nat, replacer: Val) -> Run<Option<Seq<Seq<char>>>> {
    match replacer {
        Val::Ref(Kind::Arr, _) => chain(
            ask_list(h, pos, Op::Elements, seq![replacer]),
            |l: Seq<Val>, p: nat|
                chain(
                    listed_keys(h, p, l, 0, Seq::empty()),
                    |keys: Seq<Seq<char>>, q: nat| done(Some(keys), q),
                ),
        ),
        _ => done(None, pos),
    }
}

/// How `JSON.stringify` is asked to write.
pub open spec fn stringify_options(h: Host, pos: nat, args: Seq<Val>) -> Run<JsonCtx> {
    chain(
        plain_space(h, pos, arg(args, 2)),
        |space: Val, p: nat|
            chain(
                allowed_keys(h, p, arg(args, 1)),
                |keys: Option<Seq<Seq<char>>>, q: nat|
                    done(
                        JsonCtx {
                            replacer: if plain_function(arg(args, 1)) {
                                Some(arg(args, 1))
                            } else {
                                None
                            },
                            keys,
                            indent: indent_of(space),
                        },
                        q,
                    ),
            ),
    )
}

/// `JSON.stringify`.
pub open spec fn json_stringify_run(h: Host, pos: nat, recv: Option<Val>, args: Seq<Val>) -> Run<Val> {
    chain(
        stringify_options(h, pos, args),
        |ctx: JsonCtx, p: nat|
            chain(
                ask_value(h, p, Op::NewObject, Seq::empty()),
                |holder: Val, q: nat|
                    chain(
                        json_value(
                            h,
                            q,
                            arg(args, 0),
                            Seq::empty(),
                            holder,
                            ctx,
                            0,
                            Seq::empty(),
                        ),
                        |t: Option<Seq<char>>, r: nat|
                            done(
                                match t {
                                    Some(s) => Val::Str(s),
                                    None => Val::Undefined,
                                },
                                r,
                            ),
                    ),
            ),
    )
}

/// The source that a pattern argument stands for, and its own flags where it is a regular
/// expression.
pub open spec fn pattern_source(h: Host, pos: nat, v: Val) -> Run<(Seq<char>, Seq<char>)> {
    chain(
        parts_run(h, pos, v),
        |sf: Option<(Seq<char>, Seq<char>)>, p: nat|
            match sf {
                Some(x) => done(x, p),
                None => if v is Undefined {
                    done((Seq::empty(), Seq::empty()), p)
                } else {
                    chain(
                        ask_text(h, p, Op::Display, seq![v]),
                        |s: Seq<char>, q: nat| done((s, Seq::empty()), q),
                    )
                },
            },
    )
}

/// `RegExp`.
pub open spec fn regexp_ctor_run(h: Host, pos: nat, recv: Option<Val>, args: Seq<Val>) -> Run<Val> {
    chain(
        pattern_source(h, pos, arg(args, 0)),
        |sf: (Seq<char>, Seq<char>), p0: nat|
            chain(
                if args.len() > 1 {
                    ask_text(h, p0, Op::Display, seq![args[1]])
                } else {
                    done(sf.1, p0)
                },
                |flags: Seq<char>, p1: nat|
                    chain(
                        flags_valid(h, p1, flags),
                        |u: (), p2: nat|
                            chain(
                                regex_valid(h, p2, RegexUse::Matching, sf.0, flags),
                                |w: (), p3: nat|
                                    ask_value(
                                        h,
                                        p3,
                                        Op::NewRegex,
                                        seq![Val::Str(sf.0), Val::Str(flags)],
                                    ),
                            ),
                    ),
            ),
    )
}

/// A number that an array can have as its length.
pub open spec fn array_length(n: Num) -> bool {
    &&& n.finite()
    &&& !has_fraction(n)
    &&& (n.zero() || !n.negative())
    &&& n.magnitude() < 0x1_0000_0000
}

/// `Array`.
pub open spec fn array_ctor_run(h: Host, pos: nat, recv: Option<Val>, args: Seq<Val>) -> Run<Val> {
    if args.len() == 1 && (args[0] matches Val::Num(n) && !array_length(n)) {
        raised(ErrorKind::RangeError, "Invalid array length"@, pos)
    } else {
        ask_value(
            h,
            pos,
            Op::CallCtor,
            seq![Val::Native(crate::value::Native::ArrayCtor)] + args,
        )
    }
}

/// `Array.isArray`.
pub open spec fn array_is_array_run(h: Host, pos: nat, recv: Option<Val>, args: Seq<Val>) -> Run<Val> {
    chain(
        ask_flag(h, pos, Op::IsArray, seq![arg(args, 0)]),
        |b: bool, p: nat| done(Val::Bool(b), p),
    )
}

pub open spec fn ctx_run(r: Result<JsonOptions, Stop>, it: Interp) -> Run<JsonCtx> {
    match r {
        Ok(o) => done(o@, it.pos as nat),
        Err(e) => halted(e@, it.pos as nat),
    }
}

pub open spec fn opt_keys_run(r: Result<Option<Vec<String>>, Stop>, it: Interp) -> Run<
    Option<Seq<Seq<char>>>,
> {
    match r {
        Ok(o) => done(opt_keys(o), it.pos as nat),
        Err(e) => halted(e@, it.pos as nat),
    }
}

pub open spec fn opt_string_run(r: Result<Option<String>, Stop>, it: Interp) -> Run<
    Option<Seq<char>>,
> {
    match r {
        Ok(Some(o)) => done(Some(o@), it.pos as nat),
        Ok(None) => done(None, it.pos as nat),
        Err(e) => halted(e@, it.pos as nat),
    }
}

pub open spec fn pair_run(r: Result<(String, String), Stop>, it: Interp) -> Run<
    (Seq<char>, Seq<char>),
> {
    match r {
        Ok(o) => done((o.0@, o.1@), it.pos as nat),
        Err(e) => halted(e@, it.pos as nat),
    }
}

fn empty_text() -> (r: String)
    ensures
        r@ == Seq::<char>::empty(),
{
    let s: String = String::new();
    assert(s@ =~= Seq::<char>::empty());
    s
}

fn base_in(v: &Value) -> (r: u64)
    ensures
        r == base_of(v@),
        2 <= r <= 36,
{
    match v {
        Value::Num(n) => {
            let c: u64 = num_to_count(*n);
            if c < 2 || c > 36 || !n.is_finite() {
                return 10;
            }
            if c == 36 && is_fractional(*n) {
                10
            } else {
                c
            }
        },
        _ => 10,
    }
}

fn is_json_space(c: char) -> (r: bool)
    ensures
        r == json_space(c),
{
    c == '\t' || c == '\n' || c == '\r' || c == ' '
}

fn indent_text(space: &Value) -> (r: String)
    ensures
        r@ == indent_of(space@),
{
    match space {
        Value::Num(n) => {
            let c: u64 = num_to_count(*n);
            let most: u64 = if c > 10 {
                10
            } else {
                c
            };
            let mut out: String = empty_text();
            let mut i: u64 = 0;
            assert(out@ =~= spaces(0));
            while i < most
                invariant
                    i <= most,
                    out@ == spaces(i as nat),
                decreases most - i,
            {
                out.push(' ');
                i = i + 1;
                assert(out@ =~= spaces(i as nat));
            }
            out
        },
        Value::Str(s) => {
            let cs: Vec<char> = chars_of(s.as_str());
            if cs.len() > 10 {
                let t: String = string_of_range(&cs, 0, 10);
                assert(t@ =~= s@.take(10));
                t
            } else {
                s.clone()
            }
        },
        _ => empty_text(),
    }
}

fn is_array_length(n: Num) -> (r: bool)
    ensures
        r == array_length(n),
{
    if !n.is_finite() {
        return false;
    }
    if is_fractional(n) || (!n.is_zero() && n.is_negative()) {
        return false;
    }
    n.whole() < 0x1_0000_0000
}

impl Interp {
    #[verifier::loop_isolation(false)]
    pub fn displays(&mut self, args: &Vec<Value>) -> (r: Result<Vec<String>, Stop>)
        requires
            old(self).wf(),
        ensures
            final(self).follows(*old(self)),
            texts_run(r, *final(self)) == displays(
                old(self).host(),
                old(self).pos as nat,
                views(args@),
                0,
                Seq::empty(),
            ),
    {
        let ghost all = views(args@);
        let ghost goal = displays(self.host(), self.pos as nat, all, 0, Seq::empty());
        let mut out: Vec<String> = Vec::new();
        assert(text_views(out@) =~= Seq::<Seq<char>>::empty());
        let mut i: usize = 0;
        while i < args.len()
            invariant
                i <= args@.len(),
                self.follows(*old(self)),
                goal == displays(self.host(), self.pos as nat, all, i as int, text_views(out@)),
            decreases args@.len() - i,
        {
            assert(all[i as int] == args@[i as int]@);
            let ghost before = text_views(out@);
            let s: String = self.ask_text(Op::Display, list1(args[i].clone()))?;
            out.push(s);
            assert(text_views(out@) =~= before.push(s@));
            i = i + 1;
        }
        Ok(out)
    }

    fn console_line(&mut self, args: &Vec<Value>) -> (r: Result<String, Stop>)
        requires
            old(self).wf(),
        ensures
            final(self).follows(*old(self)),
            run_text(r, *final(self)) == console_line(
                old(self).host(),
                old(self).pos as nat,
                views(args@),
            ),
    {
        let parts: Vec<String> = self.displays(args)?;
        Ok(texts_joined(&parts, " "))
    }

    fn write_line(&mut self, line: String) -> (r: Result<Value, Stop>)
        requires
            old(self).wf(),
        ensures
            final(self).follows(*old(self)),
            run_value(r, *final(self)) == write_line(
                old(self).host(),
                old(self).pos as nat,
                line@,
            ),
    {
        let u: Value = self.ask_value(Op::Console, list1(Value::Str(line)))?;
        Ok(Value::Undefined)
    }

    /// `console.log` and `print`.
    pub fn console_log(&mut self, recv: &Option<Value>, args: &Vec<Value>) -> (r: Result<Value, Stop>)
        requires
            old(self).wf(),
        ensures
            final(self).follows(*old(self)),
            run_value(r, *final(self)) == console_log_run(
                old(self).host(),
                old(self).pos as nat,
                opt_view(*recv),
                views(args@),
            ),
    {
        let line: String = self.console_line(args)?;
        self.write_line(line)
    }

    /// `alert`.
    pub fn alert(&mut self, recv: &Option<Value>, args: &Vec<Value>) -> (r: Result<Value, Stop>)
        requires
            old(self).wf(),
        ensures
            final(self).follows(*old(self)),
            run_value(r, *final(self)) == alert_run(
                old(self).host(),
                old(self).pos as nat,
                opt_view(*recv),
                views(args@),
            ),
    {
        let line: String = self.console_line(args)?;
        self.write_line(concat_text("[alert] ", line.as_str()))
    }

    /// `Number`.
    pub fn number_ctor(&mut self, recv: &Option<Value>, args: &Vec<Value>) -> (r: Result<Value, Stop>)
        requires
            old(self).wf(),
        ensures
            final(self).follows(*old(self)),
            run_value(r, *final(self)) == number_ctor_run(
                old(self).host(),
                old(self).pos as nat,
                opt_view(*recv),
                views(args@),
            ),
    {
        let n: Num = if args.len() == 0 {
            Num::from_u64(0)
        } else {
            match &args[0] {
                Value::BigInt(_) => self.ask_number(Op::BigIntNumber, list1(args[0].clone()))?,
                _ => self.ask_number(Op::ToNumber, list1(args[0].clone()))?,
            }
        };
        Ok(Value::Num(n))
    }

    /// `Boolean`.
    pub fn boolean_ctor(&mut self, recv: &Option<Value>, args: &Vec<Value>) -> (r: Result<Value, Stop>)
        requires
            old(self).wf(),
        ensures
            final(self).follows(*old(self)),
            run_value(r, *final(self)) == boolean_ctor_run(
                old(self).host(),
                old(self).pos as nat,
                opt_view(*recv),
                views(args@),
            ),
    {
        Ok(Value::Bool(to_bool(&arg_at(args, 0))))
    }

    /// `String`.
    pub fn string_ctor(&mut self, recv: &Option<Value>, args: &Vec<Value>) -> (r: Result<Value, Stop>)
        requires
            old(self).wf(),
        ensures
            final(self).follows(*old(self)),
            run_value(r, *final(self)) == string_ctor_run(
                old(self).host(),
                old(self).pos as nat,
                opt_view(*recv),
                views(args@),
            ),
    {
        let s: String = if args.len() == 0 {
            empty_text()
        } else {
            let v: Value = self.ask_value(Op::QuietPrimitive, list1(args[0].clone()))?;
            self.ask_text(Op::Display, list1(v))?
        };
        Ok(Value::Str(s))
    }

    /// `toString` of a big integer.
    pub fn big_int_to_string(&mut self, recv: &Option<Value>, args: &Vec<Value>) -> (r: Result<Value, Stop>)
        requires
            old(self).wf(),
        ensures
            final(self).follows(*old(self)),
            run_value(r, *final(self)) == big_int_to_string_run(
                old(self).host(),
                old(self).pos as nat,
                opt_view(*recv),
                views(args@),
            ),
    {
        let v: Value = this_or_undefined(recv);
        let s: String = match &v {
            Value::BigInt(_) => self.ask_text(
                Op::BigIntText,
                list2(v.clone(), Value::Num(Num::from_u64(base_in(&arg_at(args, 0))))),
            )?,
            _ => "0".to_owned(),
        };
        Ok(Value::Str(s))
    }

    /// `queueMicrotask`.
    pub fn queue_microtask(&mut self, recv: &Option<Value>, args: &Vec<Value>) -> (r: Result<Value, Stop>)
        requires
            old(self).wf(),
        ensures
            final(self).follows(*old(self)),
            run_value(r, *final(self)) == queue_microtask_run(
                old(self).host(),
                old(self).pos as nat,
                opt_view(*recv),
                views(args@),
            ),
    {
        let f: Value = arg_at(args, 0);
        if !is_callable(&f) {
            return Err(
                fail(ErrorKind::TypeError, "queueMicrotask requires a callable argument"),
            );
        }
        let u: Value = self.ask_value(Op::QueueMicrotask, list1(f))?;
        Ok(Value::Undefined)
    }

    /// `escape`.
    pub fn escape(&mut self, recv: &Option<Value>, args: &Vec<Value>) -> (r: Result<Value, Stop>)
        requires
            old(self).wf(),
        ensures
            final(self).follows(*old(self)),
            run_value(r, *final(self)) == escape_run(
                old(self).host(),
                old(self).pos as nat,
                opt_view(*recv),
                views(args@),
            ),
    {
        let s: String = self.display_arg(args, 0)?;
        Ok(Value::Str(escape(s.as_str())))
    }

    /// `unescape`.
    pub fn unescape(&mut self, recv: &Option<Value>, args: &Vec<Value>) -> (r: Result<Value, Stop>)
        requires
            old(self).wf(),
        ensures
            final(self).follows(*old(self)),
            run_value(r, *final(self)) == unescape_run(
                old(self).host(),
                old(self).pos as nat,
                opt_view(*recv),
                views(args@),
            ),
    {
        let s: String = self.display_arg(args, 0)?;
        Ok(Value::Str(unescape(s.as_str())))
    }

    /// `encodeURI`.
    pub fn encode_uri(&mut self, recv: &Option<Value>, args: &Vec<Value>) -> (r: Result<Value, Stop>)
        requires
            old(self).wf(),
        ensures
            final(self).follows(*old(self)),
            run_value(r, *final(self)) == encode_uri_run(
                old(self).host(),
                old(self).pos as nat,
                opt_view(*recv),
                views(args@),
            ),
    {
        let s: String = self.display_arg(args, 0)?;
        Ok(Value::Str(uri_encode(s.as_str(), ";,/?:@&=+$#")))
    }

    /// `encodeURIComponent`.
    pub fn encode_uri_component(&mut self, recv: &Option<Value>, args: &Vec<Value>) -> (r: Result<Value, Stop>)
        requires
            old(self).wf(),
        ensures
            final(self).follows(*old(self)),
            run_value(r, *final(self)) == encode_uri_component_run(
                old(self).host(),
                old(self).pos as nat,
                opt_view(*recv),
                views(args@),
            ),
    {
        let s: String = self.display_arg(args, 0)?;
        Ok(Value::Str(uri_encode(s.as_str(), "")))
    }

    fn decoded_uri(&mut self, args: &Vec<Value>, preserve: bool) -> (r: Result<Value, Stop>)
        requires
            old(self).wf(),
        ensures
            final(self).follows(*old(self)),
            run_value(r, *final(self)) == decoded_uri(
                old(self).host(),
                old(self).pos as nat,
                views(args@),
                preserve,
            ),
    {
        let s: String = self.display_arg(args, 0)?;
        match uri_decode(s.as_str(), preserve) {
            Ok(t) => Ok(Value::Str(t)),
            Err(_) => Err(fail(ErrorKind::URIError, "URI malformed")),
        }
    }

    /// `decodeURI`.
    pub fn decode_uri(&mut self, recv: &Option<Value>, args: &Vec<Value>) -> (r: Result<Value, Stop>)
        requires
            old(self).wf(),
        ensures
            final(self).follows(*old(self)),
            run_value(r, *final(self)) == decode_uri_run(
                old(self).host(),
                old(self).pos as nat,
                opt_view(*recv),
                views(args@),
            ),
    {
        self.decoded_uri(args, true)
    }

    /// `decodeURIComponent`.
    pub fn decode_uri_component(&mut self, recv: &Option<Value>, args: &Vec<Value>) -> (r: Result<Value, Stop>)
        requires
            old(self).wf(),
        ensures
            final(self).follows(*old(self)),
            run_value(r, *final(self)) == decode_uri_component_run(
                old(self).host(),
                old(self).pos as nat,
                opt_view(*recv),
                views(args@),
            ),
    {
        self.decoded_uri(args, false)
    }

    /// `JSON.parse`; `snap` is how the text's values are written.
    pub fn json_parse(&mut self, args: &Vec<Value>, snap: Option<&JsonSrc>) -> (r: Result<Value, Stop>)
        requires
            old(self).wf(),
        ensures
            final(self).follows(*old(self)),
            run_value(r, *final(self)) == json_parse_run(
                old(self).host(),
                old(self).pos as nat,
                views(args@),
                snap,
            ),
    {
        let text: String = self.ask_text(Op::ToText, list1(arg_at(args, 0)))?;
        let v: Value = self.ask_value(Op::ParseJson, list1(Value::Str(text)))?;
        let reviver: Value = arg_at(args, 1);
        if !is_callable(&reviver) {
            return Ok(v);
        }
        let name: String = empty_text();
        let holder: Value = self.ask_value(Op::NewObject, list2(Value::Str(empty_text()), v))?;
        self.json_revive(&holder, name.as_str(), &reviver, snap)
    }

    fn raw_arg(&mut self, args: &Vec<Value>) -> (r: Result<String, Stop>)
        requires
            old(self).wf(),
        ensures
            final(self).follows(*old(self)),
            run_text(r, *final(self)) == raw_arg(
                old(self).host(),
                old(self).pos as nat,
                views(args@),
            ),
    {
        if args.len() == 0 {
            return Ok("undefined".to_owned());
        }
        let v: Value = self.ask_value(Op::ToPrimitiveText, list1(args[0].clone()))?;
        self.ask_text(Op::Display, list1(v))
    }

    fn new_raw_json(&mut self, text: String) -> (r: Result<Value, Stop>)
        requires
            old(self).wf(),
        ensures
            final(self).follows(*old(self)),
            run_value(r, *final(self)) == new_raw_json(
                old(self).host(),
                old(self).pos as nat,
                text@,
            ),
    {
        let ghost goal = raw_fields(text@);
        let mut fields: Vec<Value> = list4(
            text_value("rawJSON"),
            Value::Str(text),
            text_value("\0isRawJSON"),
            Value::Bool(true),
        );
        let mut more: Vec<Value> = list2(text_value("__proto__"), Value::Null);
        let ghost (front, back) = (views(fields@), views(more@));
        fields.append(&mut more);
        assert(views(fields@) =~= front + back);
        assert(front + back =~= goal);
        let o: Value = self.ask_value(Op::NewObject, fields)?;
        let mut bits: Vec<Value> = list4(
            o.clone(),
            text_value("rawJSON"),
            Value::Bool(false),
            Value::Bool(true),
        );
        let ghost before = views(bits@);
        bits.push(Value::Bool(false));
        assert(views(bits@) =~= before.push(Val::Bool(false)));
        assert(views(bits@) =~= seq![
            o@,
            Val::Str("rawJSON"@),
            Val::Bool(false),
            Val::Bool(true),
            Val::Bool(false),
        ]);
        self.ask_value(Op::SetAttributes, bits)?;
        self.ask_value(Op::SetIntegrity(Integrity::Frozen), list1(o.clone()))?;
        Ok(o)
    }

    /// `JSON.rawJSON`.
    pub fn json_raw_json(&mut self, recv: &Option<Value>, args: &Vec<Value>) -> (r: Result<Value, Stop>)
        requires
            old(self).wf(),
        ensures
            final(self).follows(*old(self)),
            run_value(r, *final(self)) == json_raw_json_run(
                old(self).host(),
                old(self).pos as nat,
                opt_view(*recv),
                views(args@),
            ),
    {
        let text: String = self.raw_arg(args)?;
        let cs: Vec<char> = chars_of(text.as_str());
        let n: usize = cs.len();
        if n == 0 || is_json_space(cs[0]) || is_json_space(cs[n - 1]) {
            return Err(fail(ErrorKind::SyntaxError, "JSON.rawJSON: invalid text"));
        }
        let v: Value = self.ask_value(Op::ParseJson, list1(Value::Str(text.clone())))?;
        match &v {
            Value::Ref(Kind::Obj, _) | Value::Ref(Kind::Arr, _) => {
                return Err(fail(ErrorKind::SyntaxError, "JSON.rawJSON: value must be primitive"));
            },
            _ => {},
        }
        self.new_raw_json(text)
    }

    /// `JSON.isRawJSON`.
    pub fn json_is_raw_json(&mut self, recv: &Option<Value>, args: &Vec<Value>) -> (r: Result<Value, Stop>)
        requires
            old(self).wf(),
        ensures
            final(self).follows(*old(self)),
            run_value(r, *final(self)) == json_is_raw_json_run(
                old(self).host(),
                old(self).pos as nat,
                opt_view(*recv),
                views(args@),
            ),
    {
        let s: Option<Value> = self.plain_slot(&arg_at(args, 0), "\0isRawJSON")?;
        Ok(Value::Bool(s.is_some()))
    }

    fn plain_space(&mut self, v: Value) -> (r: Result<Value, Stop>)
        requires
            old(self).wf(),
        ensures
            final(self).follows(*old(self)),
            run_value(r, *final(self)) == plain_space(
                old(self).host(),
                old(self).pos as nat,
                v@,
            ),
    {
        match &v {
            Value::Ref(Kind::Obj, _) => match self.ask_slot(Op::Wrapped, list1(v.clone()))? {
                Some(Value::Num(n)) => Ok(Value::Num(n)),
                Some(Value::Str(s)) => Ok(Value::Str(s)),
                _ => Ok(Value::Undefined),
            },
            _ => Ok(v),
        }
    }

    fn listed_key(&mut self, v: &Value) -> (r: Result<Option<String>, Stop>)
        requires
            old(self).wf(),
        ensures
            final(self).follows(*old(self)),
            opt_string_run(r, *final(self)) == listed_key(
                old(self).host(),
                old(self).pos as nat,
                v@,
            ),
    {
        match v {
            Value::Str(s) => Ok(Some(s.clone())),
            Value::Num(_) => {
                let s: String = self.ask_text(Op::NumberText, list1(v.clone()))?;
                Ok(Some(s))
            },
            Value::Ref(Kind::Obj, _) => {
                let w: Option<Value> = self.ask_slot(Op::Wrapped, list1(v.clone()))?;
                match w {
                    Some(Value::Num(_)) | Some(Value::Str(_)) => {
                        let s: String = self.ask_text(Op::ToText, list1(v.clone()))?;
                        Ok(Some(s))
                    },
                    _ => Ok(None),
                }
            },
            _ => Ok(None),
        }
    }

    #[verifier::loop_isolation(false)]
    fn listed_keys(&mut self, l: &Vec<Value>) -> (r: Result<Vec<String>, Stop>)
        requires
            old(self).wf(),
        ensures
            final(self).follows(*old(self)),
            texts_run(r, *final(self)) == listed_keys(
                old(self).host(),
                old(self).pos as nat,
                views(l@),
                0,
                Seq::empty(),
            ),
    {
        let ghost all = views(l@);
        let ghost goal = listed_keys(self.host(), self.pos as nat, all, 0, Seq::empty());
        let mut out: Vec<String> = Vec::new();
        assert(text_views(out@) =~= Seq::<Seq<char>>::empty());
        let mut i: usize = 0;
        while i < l.len()
            invariant
                i <= l@.len(),
                self.follows(*old(self)),
                goal == listed_keys(self.host(), self.pos as nat, all, i as int, text_views(out@)),
            decreases l@.len() - i,
        {
            assert(all[i as int] == l@[i as int]@);
            let ghost before = text_views(out@);
            match self.listed_key(&l[i])? {
                Some(s) => {
                    if !contains_text(&out, s.as_str()) {
                        out.push(s);
                        assert(text_views(out@) =~= before.push(s@));
                    }
                },
                None => {},
            }
            i = i + 1;
        }
        Ok(out)
    }

    fn allowed_keys(&mut self, replacer: &Value) -> (r: Result<Option<Vec<String>>, Stop>)
        requires
            old(self).wf(),
        ensures
            final(self).follows(*old(self)),
            opt_keys_run(r, *final(self)) == allowed_keys(
                old(self).host(),
                old(self).pos as nat,
                replacer@,
            ),
    {
        match replacer {
            Value::Ref(Kind::Arr, _) => {
                let l: Vec<Value> = self.ask_list(Op::Elements, list1(replacer.clone()))?;
                let keys: Vec<String> = self.listed_keys(&l)?;
                Ok(Some(keys))
            },
            _ => Ok(None),
        }
    }

    fn stringify_options(&mut self, args: &Vec<Value>) -> (r: Result<JsonOptions, Stop>)
        requires
            old(self).wf(),
        ensures
            final(self).follows(*old(self)),
            ctx_run(r, *final(self)) == stringify_options(
                old(self).host(),
                old(self).pos as nat,
                views(args@),
            ),
    {
        let space: Value = self.plain_space(arg_at(args, 2))?;
        let replacer: Value = arg_at(args, 1);
        let keys: Option<Vec<String>> = self.allowed_keys(&replacer)?;
        let function: Option<Value> = if is_plain_function(&replacer) {
            Some(replacer)
        } else {
            None
        };
        Ok(JsonOptions { replacer: function, keys, indent: indent_text(&space) })
    }

    /// `JSON.stringify`.
    pub fn json_stringify(&mut self, recv: &Option<Value>, args: &Vec<Value>) -> (r: Result<Value, Stop>)
        requires
            old(self).wf(),
        ensures
            final(self).follows(*old(self)),
            run_value(r, *final(self)) == json_stringify_run(
                old(self).host(),
                old(self).pos as nat,
                opt_view(*recv),
                views(args@),
            ),
    {
        let options: JsonOptions = self.stringify_options(args)?;
        let holder: Value = self.ask_value(Op::NewObject, empty_list())?;
        let mut path: Vec<Identity> = Vec::new();
        assert(path@ =~= Seq::<Identity>::empty());
        let name: String = empty_text();
        let have: usize = self.replies.len();
        assert(room(self.host(), self.pos as nat) <= have);
        let t: Option<Vec<char>> = self.json_ser(
            &arg_at(args, 0),
            name.as_str(),
            &holder,
            &options,
            0,
            &mut path,
        )?;
        match t {
            Some(cs) => Ok(Value::Str(string_of(&cs))),
            None => Ok(Value::Undefined),
        }
    }

    fn pattern_source(&mut self, v: &Value) -> (r: Result<(String, String), Stop>)
        requires
            old(self).wf(),
        ensures
            final(self).follows(*old(self)),
            pair_run(r, *final(self)) == pattern_source(
                old(self).host(),
                old(self).pos as nat,
                v@,
            ),
    {
        match self.regex_parts(v)? {
            Some(sf) => Ok(sf),
            None => {
                if matches!(v, Value::Undefined) {
                    Ok((empty_text(), empty_text()))
                } else {
                    let s: String = self.ask_text(Op::Display, list1(v.clone()))?;
                    Ok((s, empty_text()))
                }
            },
        }
    }

    /// `RegExp`.
    pub fn regexp_ctor(&mut self, recv: &Option<Value>, args: &Vec<Value>) -> (r: Result<Value, Stop>)
        requires
            old(self).wf(),
        ensures
            final(self).follows(*old(self)),
            run_value(r, *final(self)) == regexp_ctor_run(
                old(self).host(),
                old(self).pos as nat,
                opt_view(*recv),
                views(args@),
            ),
    {
        let (source, own): (String, String) = self.pattern_source(&arg_at(args, 0))?;
        let flags: String = if args.len() > 1 {
            self.ask_text(Op::Display, list1(args[1].clone()))?
        } else {
            own
        };
        self.flags_valid(flags.as_str())?;
        self.regex_valid(RegexUse::Matching, source.as_str(), flags.as_str())?;
        self.ask_value(Op::NewRegex, list2(Value::Str(source), Value::Str(flags)))
    }

    /// `Array`.
    pub fn array_ctor(&mut self, recv: &Option<Value>, args: &Vec<Value>) -> (r: Result<Value, Stop>)
        requires
            old(self).wf(),
        ensures
            final(self).follows(*old(self)),
            run_value(r, *final(self)) == array_ctor_run(
                old(self).host(),
                old(self).pos as nat,
                opt_view(*recv),
                views(args@),
            ),
    {
        if args.len() == 1 {
            match &args[0] {
                Value::Num(n) => {
                    if !is_array_length(*n) {
                        return Err(fail(ErrorKind::RangeError, "Invalid array length"));
                    }
                },
                _ => {},
            }
        }
        self.ask_value(
            Op::CallCtor,
            cat(list1(Value::Native(crate::value::Native::ArrayCtor)), args),
        )
    }

    /// `Array.isArray`.
    pub fn array_is_array(&mut self, recv: &Option<Value>, args: &Vec<Value>) -> (r: Result<Value, Stop>)
        requires
            old(self).wf(),
        ensures
            final(self).follows(*old(self)),
            run_value(r, *final(self)) == array_is_array_run(
                old(self).host(),
                old(self).pos as nat,
                opt_view(*recv),
                views(args@),
            ),
    {
        let b: bool = self.ask_flag(Op::IsArray, list1(arg_at(args, 0)))?;
        Ok(Value::Bool(b))
    }
}

/// No indentation is longer than ten characters.
pub proof fn law_indent_is_short(space: Val)
    ensures
        indent_of(space).len() <= 10,
{
}

/// A list of keys names each key once.
pub proof fn law_listed_keys_once(h: Host, pos: nat, l: Seq<Val>, i: int, out: Seq<Seq<char>>)
    requires
        out.no_duplicates(),
    ensures
        listed_keys(h, pos, l, i, out).out matches Ok(keys) ==> keys.no_duplicates(),
    decreases l.len() - i,
{
    if 0 <= i < l.len() {
        let k = listed_key(h, pos, l[i]);
        match k.out {
            Err(_) => {},
            Ok(None) => law_listed_keys_once(h, k.pos, l, i + 1, out),
            Ok(Some(s)) => {
                let more = if out.contains(s) {
                    out
                } else {
                    out.push(s)
                };
                assert(more.no_duplicates()) by {
                    assert forall|a: int, b: int|
                        0 <= a < more.len() && 0 <= b < more.len() && a != b implies more[a]
                        != more[b] by {
                        if more != out {
                            if a == out.len() {
                                assert(out.contains(out[b]));
                            } else if b == out.len() {
                                assert(out.contains(out[a]));
                            }
                        }
                    }
                }
                law_listed_keys_once(h, k.pos, l, i + 1, more);
            },
        }
    }
}

/// `JSON.stringify` gives the text of an object of `JSON.rawJSON` back as it is, without quotes,
/// whatever the property list and the indentation: where the slots of the object hold what
/// `JSON.rawJSON` stored, and it has no `toJSON`.
pub proof fn law_raw_json_as_it_is(
    h: Host,
    pos: nat,
    args: Seq<Val>,
    ctx: JsonCtx,
    p: nat,
    text: Seq<char>,
)
    requires
        arg(args, 0) matches Val::Ref(Kind::Obj, _),
        stringify_options(h, pos, args) == done(ctx, p),
        ctx.replacer is None,
        p + 4 <= h.len,
        !((h.reply)(p, (Question { op: Op::NewObject, args: Seq::empty() })) is Throw),
        (h.reply)(
            p + 1,
            (Question { op: Op::Get, args: seq![arg(args, 0), Val::Str("toJSON"@)] }),
        ) == Answer::Value(Val::Undefined),
        (h.reply)(
            p + 2,
            (Question { op: Op::OwnSlot, args: seq![arg(args, 0), Val::Str("\0isRawJSON"@)] }),
        ) == Answer::Value(raw_fields(text)[3]),
        (h.reply)(
            p + 3,
            (Question { op: Op::OwnSlot, args: seq![arg(args, 0), Val::Str("rawJSON"@)] }),
        ) == Answer::Value(raw_fields(text)[1]),
    ensures
        json_stringify_run(h, pos, None, args) == done(Val::Str(text), p + 4),
{
    let v = arg(args, 0);
    let o = ask_value(h, p, Op::NewObject, Seq::empty());
    assert(o.out is Ok && o.pos == p + 1);
    let holder = o.out->Ok_0;
    let none = Seq::<Identity>::empty();
    assert(json_value(h, p + 1, v, Seq::empty(), holder, ctx, 0, none) == done(
        Some(text),
        p + 4,
    ));
}

} // verus!
