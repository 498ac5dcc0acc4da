//! The methods of `String.prototype`, and `String.raw`.
use crate::array_live::{count_as_num, count_num};
use crate::array_search::{offset_of, to_offset, Offset};
use crate::array_sort::{is_text_less, text_less};
use crate::code_units::{high_surrogate, low_surrogate, utf16, utf16_text};
use crate::host::{
    ask_flag, ask_number, ask_text, ask_value, call, chain, done, fail, get, halted, list1, list2,
    opt_view, raised, run_list, run_plain, run_text, run_value, text_value, Host, Interp, NAN_BITS,
    Op, Run, Stop,
};
use crate::json_text::repeated;
use crate::number::{length_of, num_of, to_length, Num};
use crate::number_format::{this_of, this_or_undefined};
use crate::numeric_text::nan_val;
use crate::objects::{is_nullish, to_object};
use crate::reflect::{text_vals, values_of_texts};
use crate::regexp::{
    delegated, find_run, group_text, has_char, made_regex_call, not_before, parts_run, regex_valid,
    split_limit, symbol_method, Found, FoundV, RegexUse,
};
use crate::replace::replaced;
use crate::strings::{
    are_units_at, at_most, clamped, clamped_place, find_last_units, find_units, index_at,
    index_at_place, index_from, index_from_place, pad_text, padded, relative, relative_place,
    repeat_text, split_by_text, split_text, trim_leading, trim_trailing, unit_index,
    unit_last_index, units_between, units_of, units_stand, without_leading, without_trailing,
};
use crate::text::{append_text, chars_of, decimal, decimal_text, same_text, string_of_range};
use crate::value::{arg, arg_at, callable, is_object, object, views, ErrorKind, Val, Value};
use vstd::prelude::*;

verus! {

/// The methods of strings.
#[derive(Clone, Copy, Debug, PartialEq, Eq, Structural)]
pub enum StrOp {
    Upper,
    Lower,
    LocaleUpper,
    LocaleLower,
    Trim,
    TrimStart,
    TrimEnd,
    CharAt,
    IndexOf,
    LastIndexOf,
    Includes,
    StartsWith,
    EndsWith,
    Replace,
    ReplaceAll,
    Search,
    Match,
    MatchAll,
    Slice,
    Substring,
    Substr,
    Split,
    Repeat,
    PadStart,
    PadEnd,
    CharCodeAt,
    CodePointAt,
    Concat,
    LocaleCompare,
    At,
}

/// The text in upper case.
pub uninterp spec fn upper_case(s: Seq<char>) -> Seq<char>;

/// The text in lower case.
pub uninterp spec fn lower_case(s: Seq<char>) -> Seq<char>;

/// `str::to_uppercase` of the standard library: the text with every character replaced by its
/// uppercase form. Which form that is is left to the Unicode tables that the library carries.
#[verifier::external_body]
fn to_upper_case(s: &str) -> (r: String)
    ensures
        r@ == upper_case(s@),
{
    s.to_uppercase()
}

/// `str::to_lowercase` of the standard library: the text with every character replaced by its
/// lowercase form. Which form that is is left to the Unicode tables that the library carries.
#[verifier::external_body]
fn to_lower_case(s: &str) -> (r: String)
    ensures
        r@ == lower_case(s@),
{
    s.to_lowercase()
}

/// The receiver of a string method as text.
pub open spec fn this_text(h: Host, pos: nat, recv: Option<Val>) -> Run<Seq<char>> {
    match this_of(recv) {
        Val::Undefined => raised(
            ErrorKind::TypeError,
            "String.prototype method called on null or undefined"@,
            pos,
        ),
        Val::Null => raised(
            ErrorKind::TypeError,
            "String.prototype method called on null or undefined"@,
            pos,
        ),
        Val::Str(s) => done(s, pos),
        Val::Symbol(_, _) => raised(
            ErrorKind::TypeError,
            "Cannot convert a Symbol value to a string"@,
            pos,
        ),
        v => chain(
            ask_value(h, pos, Op::ToPrimitiveText, seq![v]),
            |prim: Val, p: nat|
                if prim is Symbol {
                    raised(
                        ErrorKind::TypeError,
                        "Cannot convert a Symbol value to a string"@,
                        p,
                    )
                } else {
                    ask_text(h, p, Op::Display, seq![prim])
                },
        ),
    }
}

/// An argument as a place; `none` where it is undefined.
pub open spec fn place_arg(h: Host, pos: nat, args: Seq<Val>, i: int, none: Offset) -> Run<Offset> {
    if arg(args, i) is Undefined {
        done(none, pos)
    } else {
        chain(
            ask_number(h, pos, Op::ToInteger, seq![arg(args, i)]),
            |n: Num, p: nat| done(offset_of(n), p),
        )
    }
}

/// An index as a value: minus one where there is none.
pub open spec fn index_val(i: Option<nat>) -> Val {
    match i {
        Some(k) => Val::Num(count_num(k)),
        None => Val::Num(num_of(-1)),
    }
}

fn value_of_index(i: Option<usize>) -> (r: Value)
    ensures
        r@ == index_val(
            match i {
                Some(k) => Some(k as nat),
                None => None,
            },
        ),
{
    match i {
        Some(k) => Value::Num(count_as_num(k)),
        None => Value::Num(Num::from_i64(-1)),
    }
}

/// The text that is looked for, which must not be a regular expression.
pub open spec fn needle_arg(h: Host, pos: nat, args: Seq<Val>, method: Seq<char>) -> Run<Seq<char>> {
    chain(
        ask_flag(h, pos, Op::IsRegexLike, seq![arg(args, 0)]),
        |regex: bool, p: nat|
            if regex {
                raised(
                    ErrorKind::TypeError,
                    "First argument to String.prototype."@ + method
                        + " must not be a regular expression"@,
                    p,
                )
            } else {
                ask_text(h, p, Op::ToText, seq![arg(args, 0)])
            },
    )
}

/// The `@@replace` method of a pattern that is an object.
pub open spec fn replacer_method(h: Host, pos: nat, pat: Val) -> Run<Option<Val>> {
    if object(pat) {
        symbol_method(h, pos, pat, "\0@@replace"@, "Symbol.replace method is not callable"@)
    } else {
        done(None, pos)
    }
}

/// What a replacement comes to, by the pattern's own method where it has one.
pub open spec fn replace_end(
    h: Host,
    pos: nat,
    m: Option<Val>,
    s: Seq<char>,
    args: Seq<Val>,
    all: bool,
) -> Run<Val> {
    match m {
        Some(f) => call(h, pos, f, Some(arg(args, 0)), seq![Val::Str(s), arg(args, 1)]),
        None => chain(
            replaced(h, pos, s, arg(args, 0), arg(args, 1), all),
            |t: Seq<char>, p: nat| done(Val::Str(t), p),
        ),
    }
}

/// A regular expression given to a method that goes through all matches must be global.
pub open spec fn global_only(h: Host, pos: nat, v: Val, refusal: Seq<char>) -> Run<()> {
    if !object(v) {
        done((), pos)
    } else {
        chain(
            ask_flag(h, pos, Op::IsRegexLike, seq![v]),
            |regex: bool, p: nat|
                if !regex {
                    done((), p)
                } else {
                    chain(
                        get(h, p, v, "flags"@),
                        |f: Val, q: nat|
                            if f is Undefined || f is Null {
                                raised(
                                    ErrorKind::TypeError,
                                    "RegExp flags is undefined or null"@,
                                    q,
                                )
                            } else {
                                chain(
                                    ask_text(h, q, Op::ToText, seq![f]),
                                    |t: Seq<char>, r: nat|
                                        if has_char(t, 'g') {
                                            done((), r)
                                        } else {
                                            raised(ErrorKind::TypeError, refusal, r)
                                        },
                                )
                            },
                    )
                },
        )
    }
}

/// The code point at a code unit: a surrogate with its partner, or the unit itself.
pub open spec fn point_at(u: Seq<u16>, i: int) -> int {
    if high_surrogate(u[i]) && i + 1 < u.len() && low_surrogate(u[i + 1]) {
        0x10000 + (u[i] - 0xd800) * 0x400 + (u[i + 1] - 0xdc00)
    } else {
        u[i] as int
    }
}

/// What a text is padded with.
pub open spec fn pad_arg(h: Host, pos: nat, v: Val) -> Run<Seq<char>> {
    if v is Undefined {
        done(" "@, pos)
    } else {
        ask_text(h, pos, Op::ToText, seq![v])
    }
}

/// The texts of the arguments from the `i`-th on, after `out`.
pub open spec fn concat_args(h: Host, pos: nat, args: Seq<Val>, i: int, out: Seq<char>) -> Run<Val>
    decreases args.len() - i,
{
    if !(0 <= i < args.len()) {
        done(Val::Str(out), pos)
    } else {
        let t = ask_text(h, pos, Op::ToText, seq![args[i]]);
        match t.out {
            Err(e) => halted(e, t.pos),
            Ok(s) => concat_args(h, t.pos, args, i + 1, out + s),
        }
    }
}

/// The `@@split` method of a separator that is an object but no regular expression.
pub open spec fn splitter_method(h: Host, pos: nat, sep: Val) -> Run<Option<Val>> {
    if object(sep) {
        chain(
            parts_run(h, pos, sep),
            |parts: Option<(Seq<char>, Seq<char>)>, p: nat|
                if parts is Some {
                    done(None, p)
                } else {
                    symbol_method(h, p, sep, "\0@@split"@, "Symbol.split method is not callable"@)
                },
        )
    } else {
        done(None, pos)
    }
}

/// The groups of a match from the `i`-th on, until there are `limit` pieces.
pub open spec fn add_groups(s: Seq<char>, m: FoundV, i: int, limit: nat, out: Seq<Val>) -> Seq<Val>
    decreases m.groups.len() - i,
{
    if !(0 <= i < m.groups.len()) || out.len() >= limit {
        out
    } else {
        add_groups(s, m, i + 1, limit, out.push(group_text(s, m.groups[i])))
    }
}

/// The last piece, where there is room for it.
pub open spec fn with_tail(s: Seq<char>, p: nat, limit: nat, out: Seq<Val>) -> Seq<Val> {
    if out.len() < limit {
        out.push(Val::Str(s.skip(p as int)))
    } else {
        out
    }
}

/// How much is left of a text after a place.
pub open spec fn left_after(len: nat, q: nat) -> nat {
    if q < len {
        (len - q) as nat
    } else {
        0
    }
}

/// The pieces of a text between the matches of a regular expression: from `p` the next piece
/// begins, from `q` on the next match is looked for.
pub open spec fn regex_pieces(
    h: Host,
    pos: nat,
    src: Seq<char>,
    flags: Seq<char>,
    s: Seq<char>,
    limit: nat,
    p: nat,
    q: nat,
    out: Seq<Val>,
) -> Run<Seq<Val>>
    decreases left_after(s.len(), q),
{
    if q >= s.len() {
        done(with_tail(s, p, limit, out), pos)
    } else {
        let f = find_run(h, pos, src, flags, s, q);
        match f.out {
            Err(e) => halted(e, f.pos),
            Ok(None) => done(with_tail(s, p, limit, out), f.pos),
            Ok(Some(m)) => {
                let a = not_before(q, m.start);
                let e = not_before(a, m.end);
                if e == p {
                    regex_pieces(h, f.pos, src, flags, s, limit, p, a + 1, out)
                } else {
                    let piece = out.push(Val::Str(s.subrange(p as int, a as int)));
                    let more = add_groups(s, m, 1, limit, piece);
                    if more.len() >= limit {
                        done(more, f.pos)
                    } else {
                        regex_pieces(
                            h,
                            f.pos,
                            src,
                            flags,
                            s,
                            limit,
                            e,
                            if e > a {
                                e
                            } else {
                                e + 1
                            },
                            more,
                        )
                    }
                }
            },
        }
    }
}

/// `split` by a regular expression.
pub open spec fn split_regex(h: Host, pos: nat, src: Seq<char>, flags: Seq<char>, s: Seq<char>, limit: nat) -> Run<
    Seq<Val>,
> {
    if s.len() == 0 {
        chain(
            find_run(h, pos, src, flags, s, 0),
            |m: Option<FoundV>, p: nat|
                done(
                    if m is Some {
                        Seq::empty()
                    } else {
                        seq![Val::Str(Seq::empty())]
                    },
                    p,
                ),
        )
    } else {
        regex_pieces(h, pos, src, flags, s, limit, 0, 0, Seq::empty())
    }
}

/// What `split` gives, once the limit is known.
pub open spec fn split_end(h: Host, pos: nat, s: Seq<char>, sep: Val, limit: nat) -> Run<Val> {
    if limit == 0 {
        ask_value(h, pos, Op::NewArray, Seq::empty())
    } else if sep is Undefined {
        ask_value(h, pos, Op::NewArray, seq![Val::Str(s)])
    } else {
        chain(
            parts_run(h, pos, sep),
            |parts: Option<(Seq<char>, Seq<char>)>, p: nat|
                chain(
                    match parts {
                        Some(sf) => chain(
                            regex_valid(h, p, RegexUse::Splitting, sf.0, sf.1),
                            |u: (), q: nat| split_regex(h, q, sf.0, sf.1, s, limit),
                        ),
                        None => chain(
                            ask_text(h, p, Op::ToText, seq![sep]),
                            |t: Seq<char>, q: nat|
                                done(text_vals(at_most(split_text(s, t), limit)), q),
                        ),
                    },
                    |list: Seq<Val>, q: nat| ask_value(h, q, Op::NewArray, list),
                ),
        )
    }
}

/// `charAt`.
pub open spec fn str_char_at(h: Host, pos: nat, s: Seq<char>, args: Seq<Val>) -> Run<Val> {
    chain(
        ask_number(h, pos, Op::ToInteger, seq![arg(args, 0)]),
        |n: Num, p: nat|
            done(
                match index_at(offset_of(n), utf16(s).len()) {
                    Some(i) => Val::Str(utf16_text(utf16(s).subrange(i as int, (i + 1) as int))),
                    None => Val::Str(Seq::empty()),
                },
                p,
            ),
    )
}

/// `indexOf`.
pub open spec fn str_index_of(h: Host, pos: nat, s: Seq<char>, args: Seq<Val>) -> Run<Val> {
    chain(
        ask_text(h, pos, Op::ToText, seq![arg(args, 0)]),
        |needle: Seq<char>, p: nat|
            chain(
                place_arg(h, p, args, 1, Offset::Forward(0)),
                |from: Offset, q: nat|
                    done(
                        index_val(
                            unit_index(utf16(s), utf16(needle), clamped(from, utf16(s).len())),
                        ),
                        q,
                    ),
            ),
    )
}

/// `lastIndexOf`.
pub open spec fn str_last_index_of(h: Host, pos: nat, s: Seq<char>, args: Seq<Val>) -> Run<Val> {
    chain(
        ask_text(h, pos, Op::ToText, seq![arg(args, 0)]),
        |needle: Seq<char>, p: nat|
            done(index_val(unit_last_index(utf16(s), utf16(needle), utf16(s).len())), p),
    )
}

/// `includes`.
pub open spec fn str_includes(h: Host, pos: nat, s: Seq<char>, args: Seq<Val>) -> Run<Val> {
    chain(
        needle_arg(h, pos, args, "includes"@),
        |needle: Seq<char>, p: nat|
            chain(
                ask_number(h, p, Op::ToInteger, seq![arg(args, 1)]),
                |n: Num, q: nat|
                    done(
                        Val::Bool(
                            unit_index(
                                utf16(s),
                                utf16(needle),
                                clamped(offset_of(n), utf16(s).len()),
                            ) is Some,
                        ),
                        q,
                    ),
            ),
    )
}

/// `startsWith`.
pub open spec fn str_starts_with(h: Host, pos: nat, s: Seq<char>, args: Seq<Val>) -> Run<Val> {
    chain(
        needle_arg(h, pos, args, "startsWith"@),
        |needle: Seq<char>, p: nat|
            chain(
                ask_number(h, p, Op::ToInteger, seq![arg(args, 1)]),
                |n: Num, q: nat|
                    done(
                        Val::Bool(
                            units_stand(
                                utf16(s),
                                utf16(needle),
                                clamped(offset_of(n), utf16(s).len()),
                            ),
                        ),
                        q,
                    ),
            ),
    )
}

/// `endsWith`.
pub open spec fn str_ends_with(h: Host, pos: nat, s: Seq<char>, args: Seq<Val>) -> Run<Val> {
    chain(
        needle_arg(h, pos, args, "endsWith"@),
        |needle: Seq<char>, p: nat|
            chain(
                place_arg(h, p, args, 1, Offset::PosInfinity),
                |at: Offset, q: nat|
                    {
                        let end = clamped(at, utf16(s).len());
                        let n = utf16(needle).len();
                        done(
                            Val::Bool(
                                n <= end && units_stand(utf16(s), utf16(needle), (end - n) as nat),
                            ),
                            q,
                        )
                    },
            ),
    )
}

/// `replace`.
pub open spec fn str_replace_op(h: Host, pos: nat, s: Seq<char>, args: Seq<Val>) -> Run<Val> {
    chain(
        replacer_method(h, pos, arg(args, 0)),
        |m: Option<Val>, p: nat| replace_end(h, p, m, s, args, false),
    )
}

/// `replaceAll`.
pub open spec fn str_replace_all_op(h: Host, pos: nat, s: Seq<char>, args: Seq<Val>) -> Run<Val> {
    chain(
        global_only(
            h,
            pos,
            arg(args, 0),
            "replaceAll must be called with a global RegExp"@,
        ),
        |u: (), o: nat|
            chain(
                replacer_method(h, o, arg(args, 0)),
                |m: Option<Val>, p: nat| replace_end(h, p, m, s, args, true),
            ),
    )
}

/// `matchAll`.
pub open spec fn str_match_all(h: Host, pos: nat, s: Seq<char>, args: Seq<Val>) -> Run<Val> {
    let v = arg(args, 0);
    chain(
        global_only(
            h,
            pos,
            v,
            "String.prototype.matchAll called with a non-global RegExp argument"@,
        ),
        |u: (), o: nat|
            chain(
                if object(v) {
                    symbol_method(
                        h,
                        o,
                        v,
                        "\0@@matchAll"@,
                        "Symbol.matchAll method is not callable"@,
                    )
                } else {
                    done(None, o)
                },
                |m: Option<Val>, p: nat|
                    match m {
                        Some(f) => call(h, p, f, Some(v), seq![Val::Str(s)]),
                        None => made_regex_call(h, p, s, v, "\0@@matchAll"@, Some("g"@)),
                    },
            ),
    )
}

/// `slice`.
pub open spec fn str_slice(h: Host, pos: nat, s: Seq<char>, args: Seq<Val>) -> Run<Val> {
    let n = utf16(s).len();
    chain(
        place_arg(h, pos, args, 0, Offset::Forward(0)),
        |a: Offset, p: nat|
            chain(
                place_arg(h, p, args, 1, Offset::PosInfinity),
                |b: Offset, q: nat|
                    {
                        let start = relative(a, n);
                        let end = not_before(start, relative(b, n));
                        done(
                            Val::Str(utf16_text(utf16(s).subrange(start as int, end as int))),
                            q,
                        )
                    },
            ),
    )
}

/// `substring`.
pub open spec fn str_substring(h: Host, pos: nat, s: Seq<char>, args: Seq<Val>) -> Run<Val> {
    let n = utf16(s).len();
    chain(
        ask_number(h, pos, Op::ToInteger, seq![arg(args, 0)]),
        |a: Num, p: nat|
            chain(
                place_arg(h, p, args, 1, Offset::PosInfinity),
                |b: Offset, q: nat|
                    {
                        let x = clamped(offset_of(a), n);
                        let y = clamped(b, n);
                        let (from, to) = if x <= y {
                            (x, y)
                        } else {
                            (y, x)
                        };
                        done(Val::Str(utf16_text(utf16(s).subrange(from as int, to as int))), q)
                    },
            ),
    )
}

/// `substr`.
pub open spec fn str_substr(h: Host, pos: nat, s: Seq<char>, args: Seq<Val>) -> Run<Val> {
    let n = utf16(s).len();
    chain(
        ask_number(h, pos, Op::ToInteger, seq![arg(args, 0)]),
        |a: Num, p: nat|
            chain(
                place_arg(h, p, args, 1, Offset::PosInfinity),
                |b: Offset, q: nat|
                    {
                        let start = relative(offset_of(a), n);
                        let len = clamped(b, n);
                        let end = if start + len <= n {
                            start + len
                        } else {
                            n
                        };
                        done(Val::Str(utf16_text(utf16(s).subrange(start as int, end as int))), q)
                    },
            ),
    )
}

/// `split`.
pub open spec fn str_split(h: Host, pos: nat, s: Seq<char>, args: Seq<Val>) -> Run<Val> {
    let sep = arg(args, 0);
    chain(
        splitter_method(h, pos, sep),
        |m: Option<Val>, p: nat|
            match m {
                Some(f) => call(h, p, f, Some(sep), seq![Val::Str(s), arg(args, 1)]),
                None => chain(
                    split_limit(h, p, arg(args, 1)),
                    |limit: nat, q: nat| split_end(h, q, s, sep, limit),
                ),
            },
    )
}

/// `repeat`.
pub open spec fn str_repeat(h: Host, pos: nat, s: Seq<char>, args: Seq<Val>) -> Run<Val> {
    chain(
        ask_number(h, pos, Op::ToInteger, seq![arg(args, 0)]),
        |n: Num, p: nat|
            match offset_of(n) {
                Offset::Forward(k) => done(Val::Str(repeated(s, k as nat)), p),
                _ => raised(ErrorKind::RangeError, "Invalid count value"@, p),
            },
    )
}

/// `padStart`.
pub open spec fn str_pad_start(h: Host, pos: nat, s: Seq<char>, args: Seq<Val>) -> Run<Val> {
    chain(
        ask_number(h, pos, Op::ToInteger, seq![arg(args, 0)]),
        |n: Num, p: nat|
            chain(
                pad_arg(h, p, arg(args, 1)),
                |pad: Seq<char>, q: nat| done(Val::Str(padded(s, length_of(n), pad, true)), q),
            ),
    )
}

/// `padEnd`.
pub open spec fn str_pad_end(h: Host, pos: nat, s: Seq<char>, args: Seq<Val>) -> Run<Val> {
    chain(
        ask_number(h, pos, Op::ToInteger, seq![arg(args, 0)]),
        |n: Num, p: nat|
            chain(
                pad_arg(h, p, arg(args, 1)),
                |pad: Seq<char>, q: nat| done(Val::Str(padded(s, length_of(n), pad, false)), q),
            ),
    )
}

/// `charCodeAt`.
pub open spec fn str_char_code_at(h: Host, pos: nat, s: Seq<char>, args: Seq<Val>) -> Run<Val> {
    chain(
        ask_number(h, pos, Op::ToInteger, seq![arg(args, 0)]),
        |n: Num, p: nat|
            done(
                match index_at(offset_of(n), utf16(s).len()) {
                    Some(i) => Val::Num(num_of(utf16(s)[i as int] as int)),
                    None => nan_val(),
                },
                p,
            ),
    )
}

/// `codePointAt`.
pub open spec fn str_code_point_at(h: Host, pos: nat, s: Seq<char>, args: Seq<Val>) -> Run<Val> {
    chain(
        ask_number(h, pos, Op::ToInteger, seq![arg(args, 0)]),
        |n: Num, p: nat|
            done(
                match index_at(offset_of(n), utf16(s).len()) {
                    Some(i) => Val::Num(num_of(point_at(utf16(s), i as int))),
                    None => Val::Undefined,
                },
                p,
            ),
    )
}

/// `localeCompare`.
pub open spec fn str_locale_compare(h: Host, pos: nat, s: Seq<char>, args: Seq<Val>) -> Run<Val> {
    chain(
        ask_text(h, pos, Op::ToText, seq![arg(args, 0)]),
        |t: Seq<char>, p: nat|
            done(
                Val::Num(
                    num_of(
                        if s == t {
                            0
                        } else if text_less(s, t) {
                            -1
                        } else {
                            1
                        },
                    ),
                ),
                p,
            ),
    )
}

/// `at`.
pub open spec fn str_at(h: Host, pos: nat, s: Seq<char>, args: Seq<Val>) -> Run<Val> {
    chain(
        ask_number(h, pos, Op::ToInteger, seq![arg(args, 0)]),
        |n: Num, p: nat|
            done(
                match index_from(offset_of(n), utf16(s).len()) {
                    Some(i) => Val::Str(utf16_text(utf16(s).subrange(i as int, (i + 1) as int))),
                    None => Val::Undefined,
                },
                p,
            ),
    )
}

/// A string method on a text.
pub open spec fn str_method(h: Host, pos: nat, op: StrOp, s: Seq<char>, args: Seq<Val>) -> Run<Val> {
    match op {
        StrOp::Upper => done(Val::Str(upper_case(s)), pos),
        StrOp::LocaleUpper => done(Val::Str(upper_case(s)), pos),
        StrOp::Lower => done(Val::Str(lower_case(s)), pos),
        StrOp::LocaleLower => done(Val::Str(lower_case(s)), pos),
        StrOp::Trim => done(Val::Str(without_trailing(without_leading(s))), pos),
        StrOp::TrimStart => done(Val::Str(without_leading(s)), pos),
        StrOp::TrimEnd => done(Val::Str(without_trailing(s)), pos),
        StrOp::CharAt => str_char_at(h, pos, s, args),
        StrOp::IndexOf => str_index_of(h, pos, s, args),
        StrOp::LastIndexOf => str_last_index_of(h, pos, s, args),
        StrOp::Includes => str_includes(h, pos, s, args),
        StrOp::StartsWith => str_starts_with(h, pos, s, args),
        StrOp::EndsWith => str_ends_with(h, pos, s, args),
        StrOp::Replace => str_replace_op(h, pos, s, args),
        StrOp::ReplaceAll => str_replace_all_op(h, pos, s, args),
        StrOp::Search => delegated(h, pos, s, arg(args, 0), "\0@@search"@),
        StrOp::Match => delegated(h, pos, s, arg(args, 0), "\0@@match"@),
        StrOp::MatchAll => str_match_all(h, pos, s, args),
        StrOp::Slice => str_slice(h, pos, s, args),
        StrOp::Substring => str_substring(h, pos, s, args),
        StrOp::Substr => str_substr(h, pos, s, args),
        StrOp::Split => str_split(h, pos, s, args),
        StrOp::Repeat => str_repeat(h, pos, s, args),
        StrOp::PadStart => str_pad_start(h, pos, s, args),
        StrOp::PadEnd => str_pad_end(h, pos, s, args),
        StrOp::CharCodeAt => str_char_code_at(h, pos, s, args),
        StrOp::CodePointAt => str_code_point_at(h, pos, s, args),
        StrOp::Concat => concat_args(h, pos, args, 0, s),
        StrOp::LocaleCompare => str_locale_compare(h, pos, s, args),
        StrOp::At => str_at(h, pos, s, args),
    }
}

/// A method of `String.prototype`.
pub open spec fn str_op_run(h: Host, pos: nat, op: StrOp, recv: Option<Val>, args: Seq<Val>) -> Run<
    Val,
> {
    chain(
        this_text(h, pos, recv),
        |s: Seq<char>, p: nat| str_method(h, p, op, s, args),
    )
}

/// The segments of a template from the `i`-th on, with the substitutions between them.
pub open spec fn raw_from(
    h: Host,
    pos: nat,
    raw: Val,
    args: Seq<Val>,
    i: nat,
    len: nat,
    out: Seq<char>,
) -> Run<Val>
    decreases len - i,
{
    if i >= len {
        done(Val::Str(out), pos)
    } else {
        let seg = chain(
            get(h, pos, raw, decimal(i)),
            |v: Val, p: nat| ask_text(h, p, Op::ToText, seq![v]),
        );
        match seg.out {
            Err(e) => halted(e, seg.pos),
            Ok(t) => if i + 1 == len {
                done(Val::Str(out + t), seg.pos)
            } else if i + 1 < args.len() {
                let sub = ask_text(h, seg.pos, Op::ToText, seq![args[(i + 1) as int]]);
                match sub.out {
                    Err(e) => halted(e, sub.pos),
                    Ok(u) => raw_from(h, sub.pos, raw, args, i + 1, len, out + t + u),
                }
            } else {
                raw_from(h, seg.pos, raw, args, i + 1, len, out + t)
            },
        }
    }
}

/// `String.raw`.
pub open spec fn str_raw_run(h: Host, pos: nat, recv: Option<Val>, args: Seq<Val>) -> Run<Val> {
    let t = arg(args, 0);
    if t is Undefined || t is Null {
        raised(ErrorKind::TypeError, "Cannot convert undefined or null to object"@, pos)
    } else {
        chain(
            get(h, pos, t, "raw"@),
            |r: Val, p: nat|
                if r is Undefined || r is Null {
                    raised(ErrorKind::TypeError, "Cannot convert undefined or null to object"@, p)
                } else {
                    chain(
                        to_object(h, p, r),
                        |raw: Val, q: nat|
                            chain(
                                get(h, q, raw, "length"@),
                                |l: Val, s: nat|
                                    chain(
                                        ask_number(h, s, Op::ToInteger, seq![l]),
                                        |n: Num, u: nat|
                                            raw_from(
                                                h,
                                                u,
                                                raw,
                                                args,
                                                0,
                                                length_of(n),
                                                Seq::empty(),
                                            ),
                                    ),
                            ),
                    )
                },
        )
    }
}

impl Interp {
    /// The receiver of a string method as text.
    pub fn this_text(&mut self, recv: &Option<Value>) -> (r: Result<String, Stop>)
        requires
            old(self).wf(),
        ensures
            final(self).follows(*old(self)),
            run_text(r, *final(self)) == this_text(
                old(self).host(),
                old(self).pos as nat,
                opt_view(*recv),
            ),
    {
        match this_or_undefined(recv) {
            Value::Undefined | Value::Null => Err(
                fail(ErrorKind::TypeError, "String.prototype method called on null or undefined"),
            ),
            Value::Str(s) => Ok(s),
            Value::Symbol(_) => Err(
                fail(ErrorKind::TypeError, "Cannot convert a Symbol value to a string"),
            ),
            v => {
                let prim: Value = self.ask_value(Op::ToPrimitiveText, list1(v))?;
                if matches!(prim, Value::Symbol(_)) {
                    return Err(
                        fail(ErrorKind::TypeError, "Cannot convert a Symbol value to a string"),
                    );
                }
                self.ask_text(Op::Display, list1(prim))
            },
        }
    }

    pub fn place_arg(&mut self, args: &Vec<Value>, i: usize, none: Offset) -> (r: Result<Offset, Stop>)
        requires
            old(self).wf(),
        ensures
            final(self).follows(*old(self)),
            run_plain(r, *final(self)) == place_arg(
                old(self).host(),
                old(self).pos as nat,
                views(args@),
                i as int,
                none,
            ),
    {
        let v: Value = arg_at(args, i);
        if matches!(v, Value::Undefined) {
            return Ok(none);
        }
        let n: Num = self.ask_number(Op::ToInteger, list1(v))?;
        Ok(to_offset(n))
    }

    fn needle_arg(&mut self, args: &Vec<Value>, method: &str) -> (r: Result<String, Stop>)
        requires
            old(self).wf(),
        ensures
            final(self).follows(*old(self)),
            run_text(r, *final(self)) == needle_arg(
                old(self).host(),
                old(self).pos as nat,
                views(args@),
                method@,
            ),
    {
        let v: Value = arg_at(args, 0);
        if self.ask_flag(Op::IsRegexLike, list1(v.clone()))? {
            let mut m: String = crate::text::concat_text(
                "First argument to String.prototype.",
                method,
            );
            append_text(&mut m, " must not be a regular expression");
            return Err(fail(ErrorKind::TypeError, m.as_str()));
        }
        self.ask_text(Op::ToText, list1(v))
    }

    fn replacer_method(&mut self, pat: &Value) -> (r: Result<Option<Value>, Stop>)
        requires
            old(self).wf(),
        ensures
            final(self).follows(*old(self)),
            crate::host::run_slot(r, *final(self)) == replacer_method(
                old(self).host(),
                old(self).pos as nat,
                pat@,
            ),
    {
        if is_object(pat) {
            self.symbol_method(pat, "\0@@replace", "Symbol.replace method is not callable")
        } else {
            Ok(None)
        }
    }

    fn replace_end(&mut self, m: Option<Value>, s: &str, args: &Vec<Value>, all: bool) -> (r: Result<Value, Stop>)
        requires
            old(self).wf(),
        ensures
            final(self).follows(*old(self)),
            run_value(r, *final(self)) == replace_end(
                old(self).host(),
                old(self).pos as nat,
                opt_view(m),
                s@,
                views(args@),
                all,
            ),
    {
        match m {
            Some(f) => self.call_value(
                f,
                Some(arg_at(args, 0)),
                list2(text_value(s), arg_at(args, 1)),
            ),
            None => {
                let t: String = self.str_replace(s, &arg_at(args, 0), &arg_at(args, 1), all)?;
                Ok(Value::Str(t))
            },
        }
    }

    fn global_only(&mut self, v: &Value, refusal: &str) -> (r: Result<(), Stop>)
        requires
            old(self).wf(),
        ensures
            final(self).follows(*old(self)),
            run_plain(r, *final(self)) == global_only(
                old(self).host(),
                old(self).pos as nat,
                v@,
                refusal@,
            ),
    {
        if !is_object(v) {
            return Ok(());
        }
        if !self.ask_flag(Op::IsRegexLike, list1(v.clone()))? {
            return Ok(());
        }
        let f: Value = self.member_get(v, "flags")?;
        if is_nullish(&f) {
            return Err(fail(ErrorKind::TypeError, "RegExp flags is undefined or null"));
        }
        let t: String = self.ask_text(Op::ToText, list1(f))?;
        if crate::text::find_char(&chars_of(t.as_str()), 'g', 0).is_some() {
            Ok(())
        } else {
            Err(fail(ErrorKind::TypeError, refusal))
        }
    }

    fn pad_arg(&mut self, v: &Value) -> (r: Result<String, Stop>)
        requires
            old(self).wf(),
        ensures
            final(self).follows(*old(self)),
            run_text(r, *final(self)) == pad_arg(
                old(self).host(),
                old(self).pos as nat,
                v@,
            ),
    {
        if matches!(v, Value::Undefined) {
            return Ok(" ".to_owned());
        }
        self.ask_text(Op::ToText, list1(v.clone()))
    }

    #[verifier::loop_isolation(false)]
    fn concat_args(&mut self, s: &str, args: &Vec<Value>) -> (r: Result<Value, Stop>)
        requires
            old(self).wf(),
        ensures
            final(self).follows(*old(self)),
            run_value(r, *final(self)) == concat_args(
                old(self).host(),
                old(self).pos as nat,
                views(args@),
                0,
                s@,
            ),
    {
        let ghost all = views(args@);
        let ghost goal = concat_args(self.host(), self.pos as nat, all, 0, s@);
        let mut out: String = s.to_owned();
        let mut i: usize = 0;
        while i < args.len()
            invariant
                i <= args@.len(),
                self.follows(*old(self)),
                goal == concat_args(self.host(), self.pos as nat, all, i as int, out@),
            decreases args@.len() - i,
        {
            assert(all[i as int] == args@[i as int]@);
            let t: String = self.ask_text(Op::ToText, list1(args[i].clone()))?;
            append_text(&mut out, t.as_str());
            i = i + 1;
        }
        Ok(Value::Str(out))
    }

    fn splitter_method(&mut self, sep: &Value) -> (r: Result<Option<Value>, Stop>)
        requires
            old(self).wf(),
        ensures
            final(self).follows(*old(self)),
            crate::host::run_slot(r, *final(self)) == splitter_method(
                old(self).host(),
                old(self).pos as nat,
                sep@,
            ),
    {
        if !is_object(sep) {
            return Ok(None);
        }
        if self.regex_parts(sep)?.is_some() {
            return Ok(None);
        }
        self.symbol_method(sep, "\0@@split", "Symbol.split method is not callable")
    }

    #[verifier::loop_isolation(false)]
    fn regex_pieces(&mut self, src: &str, flags: &str, chars: &Vec<char>, limit: u32) -> (r: Result<Vec<Value>, Stop>)
        requires
            old(self).wf(),
        ensures
            final(self).follows(*old(self)),
            run_list(r, *final(self)) == regex_pieces(
                old(self).host(),
                old(self).pos as nat,
                src@,
                flags@,
                chars@,
                limit as nat,
                0,
                0,
                Seq::empty(),
            ),
    {
        let ghost goal = regex_pieces(
            self.host(),
            self.pos as nat,
            src@,
            flags@,
            chars@,
            limit as nat,
            0,
            0,
            Seq::empty(),
        );
        let n: usize = chars.len();
        let mut out: Vec<Value> = Vec::new();
        let mut p: usize = 0;
        let mut q: usize = 0;
        assert(views(out@) =~= Seq::<Val>::empty());
        while q < n
            invariant
                n == chars@.len(),
                p <= q,
                p <= n,
                self.follows(*old(self)),
                goal == regex_pieces(
                    self.host(),
                    self.pos as nat,
                    src@,
                    flags@,
                    chars@,
                    limit as nat,
                    p as nat,
                    q as nat,
                    views(out@),
                ),
            decreases n - q,
        {
            match self.regex_find(src, flags, chars, q as u64)? {
                None => {
                    push_tail(chars, p, limit, &mut out);
                    return Ok(out);
                },
                Some(m) => {
                    let a: usize = if m.start < q {
                        q
                    } else {
                        m.start
                    };
                    let e: usize = if m.end < a {
                        a
                    } else {
                        m.end
                    };
                    assert(a <= n && e <= n);
                    if e == p {
                        if a == n {
                            assert(regex_pieces(
                                self.host(),
                                self.pos as nat,
                                src@,
                                flags@,
                                chars@,
                                limit as nat,
                                p as nat,
                                (a + 1) as nat,
                                views(out@),
                            ) == done(
                                with_tail(chars@, p as nat, limit as nat, views(out@)),
                                self.pos as nat,
                            ));
                            push_tail(chars, p, limit, &mut out);
                            return Ok(out);
                        }
                        q = a + 1;
                    } else {
                        let ghost before = views(out@);
                        let piece: Value = Value::Str(string_of_range(chars, p, a));
                        out.push(piece);
                        assert(views(out@) =~= before.push(piece@));
                        push_groups(chars, &m, limit, &mut out);
                        if out.len() as u64 >= limit as u64 {
                            return Ok(out);
                        }
                        p = e;
                        if e > a {
                            q = e;
                        } else {
                            if e == n {
                                assert(regex_pieces(
                                    self.host(),
                                    self.pos as nat,
                                    src@,
                                    flags@,
                                    chars@,
                                    limit as nat,
                                    p as nat,
                                    (e + 1) as nat,
                                    views(out@),
                                ) == done(
                                    with_tail(chars@, p as nat, limit as nat, views(out@)),
                                    self.pos as nat,
                                ));
                                push_tail(chars, p, limit, &mut out);
                                return Ok(out);
                            }
                            q = e + 1;
                        }
                    }
                },
            }
        }
        push_tail(chars, p, limit, &mut out);
        Ok(out)
    }

    fn split_regex(&mut self, src: &str, flags: &str, s: &str, limit: u32) -> (r: Result<Vec<Value>, Stop>)
        requires
            old(self).wf(),
        ensures
            final(self).follows(*old(self)),
            run_list(r, *final(self)) == split_regex(
                old(self).host(),
                old(self).pos as nat,
                src@,
                flags@,
                s@,
                limit as nat,
            ),
    {
        let chars: Vec<char> = chars_of(s);
        if chars.len() == 0 {
            let m: Option<Found> = self.regex_find(src, flags, &chars, 0)?;
            if m.is_some() {
                let none: Vec<Value> = Vec::new();
                assert(views(none@) =~= Seq::<Val>::empty());
                return Ok(none);
            }
            let e: String = String::new();
            assert(e@ =~= Seq::<char>::empty());
            return Ok(list1(Value::Str(e)));
        }
        self.regex_pieces(src, flags, &chars, limit)
    }

    fn split_end(&mut self, s: &str, sep: &Value, limit: u32) -> (r: Result<Value, Stop>)
        requires
            old(self).wf(),
        ensures
            final(self).follows(*old(self)),
            run_value(r, *final(self)) == split_end(
                old(self).host(),
                old(self).pos as nat,
                s@,
                sep@,
                limit as nat,
            ),
    {
        if limit == 0 {
            let none: Vec<Value> = Vec::new();
            assert(views(none@) =~= Seq::<Val>::empty());
            return self.ask_value(Op::NewArray, none);
        }
        if matches!(sep, Value::Undefined) {
            return self.ask_value(Op::NewArray, list1(text_value(s)));
        }
        match self.regex_parts(sep)? {
            Some((src, flags)) => {
                self.regex_valid(RegexUse::Splitting, src.as_str(), flags.as_str())?;
                let list: Vec<Value> = self.split_regex(src.as_str(), flags.as_str(), s, limit)?;
                self.ask_value(Op::NewArray, list)
            },
            None => {
                let t: String = self.ask_text(Op::ToText, list1(sep.clone()))?;
                self.ask_value(Op::NewArray, values_of_texts(&split_by_text(s, t.as_str(), limit)))
            },
        }
    }

    /// `charAt`.
    pub fn str_char_at(&mut self, s: &str, args: &Vec<Value>) -> (r: Result<Value, Stop>)
        requires
            old(self).wf(),
        ensures
            final(self).follows(*old(self)),
            run_value(r, *final(self)) == str_char_at(
                old(self).host(),
                old(self).pos as nat,
                s@,
                views(args@),
            ),
    {
        let n: Num = self.ask_number(Op::ToInteger, list1(arg_at(args, 0)))?;
        let u: Vec<u16> = units_of(s);
        match index_at_place(to_offset(n), u.len()) {
            Some(i) => Ok(Value::Str(units_between(&u, i, i + 1))),
            None => {
                let e: String = String::new();
                assert(e@ =~= Seq::<char>::empty());
                Ok(Value::Str(e))
            },
        }
    }

    /// `indexOf`.
    pub fn str_index_of(&mut self, s: &str, args: &Vec<Value>) -> (r: Result<Value, Stop>)
        requires
            old(self).wf(),
        ensures
            final(self).follows(*old(self)),
            run_value(r, *final(self)) == str_index_of(
                old(self).host(),
                old(self).pos as nat,
                s@,
                views(args@),
            ),
    {
        let needle: String = self.ask_text(Op::ToText, list1(arg_at(args, 0)))?;
        let from: Offset = self.place_arg(args, 1, Offset::Forward(0))?;
        let u: Vec<u16> = units_of(s);
        let v: Vec<u16> = units_of(needle.as_str());
        let start: usize = clamped_place(from, u.len());
        Ok(value_of_index(find_units(&u, &v, start)))
    }

    /// `lastIndexOf`.
    pub fn str_last_index_of(&mut self, s: &str, args: &Vec<Value>) -> (r: Result<Value, Stop>)
        requires
            old(self).wf(),
        ensures
            final(self).follows(*old(self)),
            run_value(r, *final(self)) == str_last_index_of(
                old(self).host(),
                old(self).pos as nat,
                s@,
                views(args@),
            ),
    {
        let needle: String = self.ask_text(Op::ToText, list1(arg_at(args, 0)))?;
        let u: Vec<u16> = units_of(s);
        let v: Vec<u16> = units_of(needle.as_str());
        Ok(value_of_index(find_last_units(&u, &v)))
    }

    /// `includes`.
    pub fn str_includes(&mut self, s: &str, args: &Vec<Value>) -> (r: Result<Value, Stop>)
        requires
            old(self).wf(),
        ensures
            final(self).follows(*old(self)),
            run_value(r, *final(self)) == str_includes(
                old(self).host(),
                old(self).pos as nat,
                s@,
                views(args@),
            ),
    {
        let needle: String = self.needle_arg(args, "includes")?;
        let n: Num = self.ask_number(Op::ToInteger, list1(arg_at(args, 1)))?;
        let hay: Vec<u16> = units_of(s);
        let start: usize = clamped_place(to_offset(n), hay.len());
        Ok(Value::Bool(find_units(&hay, &units_of(needle.as_str()), start).is_some()))
    }

    /// `startsWith`.
    pub fn str_starts_with(&mut self, s: &str, args: &Vec<Value>) -> (r: Result<Value, Stop>)
        requires
            old(self).wf(),
        ensures
            final(self).follows(*old(self)),
            run_value(r, *final(self)) == str_starts_with(
                old(self).host(),
                old(self).pos as nat,
                s@,
                views(args@),
            ),
    {
        let needle: String = self.needle_arg(args, "startsWith")?;
        let n: Num = self.ask_number(Op::ToInteger, list1(arg_at(args, 1)))?;
        let hay: Vec<u16> = units_of(s);
        let start: usize = clamped_place(to_offset(n), hay.len());
        Ok(Value::Bool(are_units_at(&hay, &units_of(needle.as_str()), start)))
    }

    /// `endsWith`.
    pub fn str_ends_with(&mut self, s: &str, args: &Vec<Value>) -> (r: Result<Value, Stop>)
        requires
            old(self).wf(),
        ensures
            final(self).follows(*old(self)),
            run_value(r, *final(self)) == str_ends_with(
                old(self).host(),
                old(self).pos as nat,
                s@,
                views(args@),
            ),
    {
        let needle: String = self.needle_arg(args, "endsWith")?;
        let at: Offset = self.place_arg(args, 1, Offset::PosInfinity)?;
        let hay: Vec<u16> = units_of(s);
        let wanted: Vec<u16> = units_of(needle.as_str());
        let end: usize = clamped_place(at, hay.len());
        if wanted.len() > end {
            return Ok(Value::Bool(false));
        }
        Ok(Value::Bool(are_units_at(&hay, &wanted, end - wanted.len())))
    }

    /// `replace`.
    pub fn str_replace_op(&mut self, s: &str, args: &Vec<Value>) -> (r: Result<Value, Stop>)
        requires
            old(self).wf(),
        ensures
            final(self).follows(*old(self)),
            run_value(r, *final(self)) == str_replace_op(
                old(self).host(),
                old(self).pos as nat,
                s@,
                views(args@),
            ),
    {
        let m: Option<Value> = self.replacer_method(&arg_at(args, 0))?;
        self.replace_end(m, s, args, false)
    }

    /// `replaceAll`.
    pub fn str_replace_all_op(&mut self, s: &str, args: &Vec<Value>) -> (r: Result<Value, Stop>)
        requires
            old(self).wf(),
        ensures
            final(self).follows(*old(self)),
            run_value(r, *final(self)) == str_replace_all_op(
                old(self).host(),
                old(self).pos as nat,
                s@,
                views(args@),
            ),
    {
        self.global_only(&arg_at(args, 0), "replaceAll must be called with a global RegExp")?;
        let m: Option<Value> = self.replacer_method(&arg_at(args, 0))?;
        self.replace_end(m, s, args, true)
    }

    /// `matchAll`.
    pub fn str_match_all(&mut self, s: &str, args: &Vec<Value>) -> (r: Result<Value, Stop>)
        requires
            old(self).wf(),
        ensures
            final(self).follows(*old(self)),
            run_value(r, *final(self)) == str_match_all(
                old(self).host(),
                old(self).pos as nat,
                s@,
                views(args@),
            ),
    {
        let v: Value = arg_at(args, 0);
        self.global_only(
            &v,
            "String.prototype.matchAll called with a non-global RegExp argument",
        )?;
        let m: Option<Value> = if is_object(&v) {
            self.symbol_method(&v, "\0@@matchAll", "Symbol.matchAll method is not callable")?
        } else {
            None
        };
        match m {
            Some(f) => self.call_value(f, Some(v), list1(text_value(s))),
            None => self.made_regex_call(s, &v, "\0@@matchAll", Some("g".to_owned())),
        }
    }

    /// `slice`.
    pub fn str_slice(&mut self, s: &str, args: &Vec<Value>) -> (r: Result<Value, Stop>)
        requires
            old(self).wf(),
        ensures
            final(self).follows(*old(self)),
            run_value(r, *final(self)) == str_slice(
                old(self).host(),
                old(self).pos as nat,
                s@,
                views(args@),
            ),
    {
        let a: Offset = self.place_arg(args, 0, Offset::Forward(0))?;
        let b: Offset = self.place_arg(args, 1, Offset::PosInfinity)?;
        let u: Vec<u16> = units_of(s);
        let start: usize = relative_place(a, u.len());
        let end: usize = relative_place(b, u.len());
        let end: usize = if end < start {
            start
        } else {
            end
        };
        Ok(Value::Str(units_between(&u, start, end)))
    }

    /// `substring`.
    pub fn str_substring(&mut self, s: &str, args: &Vec<Value>) -> (r: Result<Value, Stop>)
        requires
            old(self).wf(),
        ensures
            final(self).follows(*old(self)),
            run_value(r, *final(self)) == str_substring(
                old(self).host(),
                old(self).pos as nat,
                s@,
                views(args@),
            ),
    {
        let a: Num = self.ask_number(Op::ToInteger, list1(arg_at(args, 0)))?;
        let b: Offset = self.place_arg(args, 1, Offset::PosInfinity)?;
        let u: Vec<u16> = units_of(s);
        let x: usize = clamped_place(to_offset(a), u.len());
        let y: usize = clamped_place(b, u.len());
        if x <= y {
            Ok(Value::Str(units_between(&u, x, y)))
        } else {
            Ok(Value::Str(units_between(&u, y, x)))
        }
    }

    /// `substr`.
    pub fn str_substr(&mut self, s: &str, args: &Vec<Value>) -> (r: Result<Value, Stop>)
        requires
            old(self).wf(),
        ensures
            final(self).follows(*old(self)),
            run_value(r, *final(self)) == str_substr(
                old(self).host(),
                old(self).pos as nat,
                s@,
                views(args@),
            ),
    {
        let a: Num = self.ask_number(Op::ToInteger, list1(arg_at(args, 0)))?;
        let b: Offset = self.place_arg(args, 1, Offset::PosInfinity)?;
        let u: Vec<u16> = units_of(s);
        let n: usize = u.len();
        let start: usize = relative_place(to_offset(a), n);
        let len: usize = clamped_place(b, n);
        let end: usize = if len <= n - start {
            start + len
        } else {
            n
        };
        Ok(Value::Str(units_between(&u, start, end)))
    }

    /// `split`.
    pub fn str_split(&mut self, s: &str, args: &Vec<Value>) -> (r: Result<Value, Stop>)
        requires
            old(self).wf(),
        ensures
            final(self).follows(*old(self)),
            run_value(r, *final(self)) == str_split(
                old(self).host(),
                old(self).pos as nat,
                s@,
                views(args@),
            ),
    {
        let sep: Value = arg_at(args, 0);
        match self.splitter_method(&sep)? {
            Some(f) => self.call_value(f, Some(sep), list2(text_value(s), arg_at(args, 1))),
            None => {
                let limit: u32 = self.split_limit(&arg_at(args, 1))?;
                self.split_end(s, &sep, limit)
            },
        }
    }

    /// `repeat`.
    pub fn str_repeat(&mut self, s: &str, args: &Vec<Value>) -> (r: Result<Value, Stop>)
        requires
            old(self).wf(),
        ensures
            final(self).follows(*old(self)),
            run_value(r, *final(self)) == str_repeat(
                old(self).host(),
                old(self).pos as nat,
                s@,
                views(args@),
            ),
    {
        let n: Num = self.ask_number(Op::ToInteger, list1(arg_at(args, 0)))?;
        match to_offset(n) {
            Offset::Forward(k) => Ok(Value::Str(repeat_text(s, k))),
            _ => Err(fail(ErrorKind::RangeError, "Invalid count value")),
        }
    }

    /// `padStart`.
    pub fn str_pad_start(&mut self, s: &str, args: &Vec<Value>) -> (r: Result<Value, Stop>)
        requires
            old(self).wf(),
        ensures
            final(self).follows(*old(self)),
            run_value(r, *final(self)) == str_pad_start(
                old(self).host(),
                old(self).pos as nat,
                s@,
                views(args@),
            ),
    {
        let n: Num = self.ask_number(Op::ToInteger, list1(arg_at(args, 0)))?;
        let pad: String = self.pad_arg(&arg_at(args, 1))?;
        Ok(Value::Str(pad_text(s, to_length(n), pad.as_str(), true)))
    }

    /// `padEnd`.
    pub fn str_pad_end(&mut self, s: &str, args: &Vec<Value>) -> (r: Result<Value, Stop>)
        requires
            old(self).wf(),
        ensures
            final(self).follows(*old(self)),
            run_value(r, *final(self)) == str_pad_end(
                old(self).host(),
                old(self).pos as nat,
                s@,
                views(args@),
            ),
    {
        let n: Num = self.ask_number(Op::ToInteger, list1(arg_at(args, 0)))?;
        let pad: String = self.pad_arg(&arg_at(args, 1))?;
        Ok(Value::Str(pad_text(s, to_length(n), pad.as_str(), false)))
    }

    /// `charCodeAt`.
    pub fn str_char_code_at(&mut self, s: &str, args: &Vec<Value>) -> (r: Result<Value, Stop>)
        requires
            old(self).wf(),
        ensures
            final(self).follows(*old(self)),
            run_value(r, *final(self)) == str_char_code_at(
                old(self).host(),
                old(self).pos as nat,
                s@,
                views(args@),
            ),
    {
        let n: Num = self.ask_number(Op::ToInteger, list1(arg_at(args, 0)))?;
        let u: Vec<u16> = units_of(s);
        match index_at_place(to_offset(n), u.len()) {
            Some(i) => Ok(Value::Num(Num::from_u64(u[i] as u64))),
            None => Ok(Value::Num(Num { bits: NAN_BITS })),
        }
    }

    /// `codePointAt`.
    pub fn str_code_point_at(&mut self, s: &str, args: &Vec<Value>) -> (r: Result<Value, Stop>)
        requires
            old(self).wf(),
        ensures
            final(self).follows(*old(self)),
            run_value(r, *final(self)) == str_code_point_at(
                old(self).host(),
                old(self).pos as nat,
                s@,
                views(args@),
            ),
    {
        let n: Num = self.ask_number(Op::ToInteger, list1(arg_at(args, 0)))?;
        let u: Vec<u16> = units_of(s);
        let len: usize = u.len();
        match index_at_place(to_offset(n), len) {
            Some(i) => {
                let a: u16 = u[i];
                let mut p: u64 = a as u64;
                if 0xd800 <= a && a < 0xdc00 && i + 1 < len {
                    let b: u16 = u[i + 1];
                    if 0xdc00 <= b && b < 0xe000 {
                        p = 0x10000 + (a as u64 - 0xd800) * 0x400 + (b as u64 - 0xdc00);
                    }
                }
                Ok(Value::Num(Num::from_u64(p)))
            },
            None => Ok(Value::Undefined),
        }
    }

    /// `localeCompare`.
    pub fn str_locale_compare(&mut self, s: &str, args: &Vec<Value>) -> (r: Result<Value, Stop>)
        requires
            old(self).wf(),
        ensures
            final(self).follows(*old(self)),
            run_value(r, *final(self)) == str_locale_compare(
                old(self).host(),
                old(self).pos as nat,
                s@,
                views(args@),
            ),
    {
        let t: String = self.ask_text(Op::ToText, list1(arg_at(args, 0)))?;
        let n: i64 = if same_text(s, t.as_str()) {
            0
        } else if is_text_less(s, t.as_str()) {
            -1
        } else {
            1
        };
        Ok(Value::Num(Num::from_i64(n)))
    }

    /// `at`.
    pub fn str_at(&mut self, s: &str, args: &Vec<Value>) -> (r: Result<Value, Stop>)
        requires
            old(self).wf(),
        ensures
            final(self).follows(*old(self)),
            run_value(r, *final(self)) == str_at(
                old(self).host(),
                old(self).pos as nat,
                s@,
                views(args@),
            ),
    {
        let n: Num = self.ask_number(Op::ToInteger, list1(arg_at(args, 0)))?;
        let u: Vec<u16> = units_of(s);
        match index_from_place(to_offset(n), u.len()) {
            Some(i) => Ok(Value::Str(units_between(&u, i, i + 1))),
            None => Ok(Value::Undefined),
        }
    }

    /// A method of `String.prototype`.
    pub fn str_op(&mut self, op: StrOp, recv: &Option<Value>, args: &Vec<Value>) -> (r: Result<Value, Stop>)
        requires
            old(self).wf(),
        ensures
            final(self).follows(*old(self)),
            run_value(r, *final(self)) == str_op_run(
                old(self).host(),
                old(self).pos as nat,
                op,
                opt_view(*recv),
                views(args@),
            ),
    {
        let s: String = self.this_text(recv)?;
        let s: &str = s.as_str();
        match op {
            StrOp::Upper | StrOp::LocaleUpper => Ok(Value::Str(to_upper_case(s))),
            StrOp::Lower | StrOp::LocaleLower => Ok(Value::Str(to_lower_case(s))),
            StrOp::Trim => Ok(Value::Str(trim_trailing(trim_leading(s).as_str()))),
            StrOp::TrimStart => Ok(Value::Str(trim_leading(s))),
            StrOp::TrimEnd => Ok(Value::Str(trim_trailing(s))),
            StrOp::CharAt => self.str_char_at(s, args),
            StrOp::IndexOf => self.str_index_of(s, args),
            StrOp::LastIndexOf => self.str_last_index_of(s, args),
            StrOp::Includes => self.str_includes(s, args),
            StrOp::StartsWith => self.str_starts_with(s, args),
            StrOp::EndsWith => self.str_ends_with(s, args),
            StrOp::Replace => self.str_replace_op(s, args),
            StrOp::ReplaceAll => self.str_replace_all_op(s, args),
            StrOp::Search => self.str_regex_delegate(s, arg_at(args, 0), "\0@@search"),
            StrOp::Match => self.str_regex_delegate(s, arg_at(args, 0), "\0@@match"),
            StrOp::MatchAll => self.str_match_all(s, args),
            StrOp::Slice => self.str_slice(s, args),
            StrOp::Substring => self.str_substring(s, args),
            StrOp::Substr => self.str_substr(s, args),
            StrOp::Split => self.str_split(s, args),
            StrOp::Repeat => self.str_repeat(s, args),
            StrOp::PadStart => self.str_pad_start(s, args),
            StrOp::PadEnd => self.str_pad_end(s, args),
            StrOp::CharCodeAt => self.str_char_code_at(s, args),
            StrOp::CodePointAt => self.str_code_point_at(s, args),
            StrOp::Concat => self.concat_args(s, args),
            StrOp::LocaleCompare => self.str_locale_compare(s, args),
            StrOp::At => self.str_at(s, args),
        }
    }

    #[verifier::loop_isolation(false)]
    fn raw_from(&mut self, raw: &Value, args: &Vec<Value>, len: u64) -> (r: Result<Value, Stop>)
        requires
            old(self).wf(),
        ensures
            final(self).follows(*old(self)),
            run_value(r, *final(self)) == raw_from(
                old(self).host(),
                old(self).pos as nat,
                raw@,
                views(args@),
                0,
                len as nat,
                Seq::empty(),
            ),
    {
        let ghost all = views(args@);
        let ghost goal = raw_from(
            self.host(),
            self.pos as nat,
            raw@,
            all,
            0,
            len as nat,
            Seq::empty(),
        );
        let mut out: String = String::new();
        let mut i: u64 = 0;
        assert(out@ =~= Seq::<char>::empty());
        while i < len
            invariant
                i <= len,
                self.follows(*old(self)),
                goal == raw_from(
                    self.host(),
                    self.pos as nat,
                    raw@,
                    all,
                    i as nat,
                    len as nat,
                    out@,
                ),
            decreases len - i,
        {
            let v: Value = self.member_get(raw, decimal_text(i).as_str())?;
            let t: String = self.ask_text(Op::ToText, list1(v))?;
            append_text(&mut out, t.as_str());
            if i + 1 == len {
                return Ok(Value::Str(out));
            }
            let n: usize = args.len();
            if i + 1 < n as u64 {
                let k: usize = (i + 1) as usize;
                assert(all[i + 1] == args@[k as int]@);
                let u: String = self.ask_text(Op::ToText, list1(args[k].clone()))?;
                append_text(&mut out, u.as_str());
            }
            i = i + 1;
        }
        Ok(Value::Str(out))
    }

    /// `String.raw`.
    pub fn str_raw(&mut self, recv: &Option<Value>, args: &Vec<Value>) -> (r: Result<Value, Stop>)
        requires
            old(self).wf(),
        ensures
            final(self).follows(*old(self)),
            run_value(r, *final(self)) == str_raw_run(
                old(self).host(),
                old(self).pos as nat,
                opt_view(*recv),
                views(args@),
            ),
    {
        let t: Value = arg_at(args, 0);
        if is_nullish(&t) {
            return Err(fail(ErrorKind::TypeError, "Cannot convert undefined or null to object"));
        }
        let r: Value = self.member_get(&t, "raw")?;
        if is_nullish(&r) {
            return Err(fail(ErrorKind::TypeError, "Cannot convert undefined or null to object"));
        }
        let raw: Value = self.to_object_value(r)?;
        let l: Value = self.member_get(&raw, "length")?;
        let n: Num = self.ask_number(Op::ToInteger, list1(l))?;
        self.raw_from(&raw, args, to_length(n))
    }
}

fn push_tail(chars: &Vec<char>, p: usize, limit: u32, out: &mut Vec<Value>)
    requires
        p <= chars@.len(),
    ensures
        views(final(out)@) == with_tail(chars@, p as nat, limit as nat, views(old(out)@)),
{
    let ghost before = views(out@);
    if (out.len() as u64) < limit as u64 {
        let tail: String = string_of_range(chars, p, chars.len());
        assert(tail@ =~= chars@.skip(p as int));
        out.push(Value::Str(tail));
        assert(views(out@) =~= before.push(Val::Str(chars@.skip(p as int))));
    }
}

fn push_groups(chars: &Vec<char>, m: &Found, limit: u32, out: &mut Vec<Value>)
    requires
        crate::regexp::placed(m@, chars@.len()),
    ensures
        views(final(out)@) == add_groups(chars@, m@, 1, limit as nat, views(old(out)@)),
{
    let ghost goal = add_groups(chars@, m@, 1, limit as nat, views(out@));
    let mut i: usize = 1;
    while i < m.groups.len() && (out.len() as u64) < limit as u64
        invariant
            1 <= i,
            crate::regexp::placed(m@, chars@.len()),
            goal == add_groups(chars@, m@, i as int, limit as nat, views(out@)),
        decreases m.groups@.len() - i,
    {
        let ghost before = views(out@);
        assert(m@.groups[i as int] == match m.groups@[i as int] {
            Some(p) => Some((p.0 as nat, p.1 as nat)),
            None => None,
        });
        let v: Value = match m.groups[i] {
            Some((a, b)) => Value::Str(string_of_range(chars, a, b)),
            None => Value::Undefined,
        };
        out.push(v);
        assert(views(out@) =~= before.push(v@));
        i = i + 1;
    }
}

} // verus!
