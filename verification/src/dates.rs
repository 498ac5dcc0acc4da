//! Dates: the constructor, the static functions and the methods.
use crate::array_search::{offset_of, to_offset, Offset};
use crate::canvas::empty_list;
use crate::functions::plain_slot;
use crate::host::{
    ask_flag, ask_list, ask_number, ask_text, ask_value, call, chain, done, fail, get, halted,
    list1, list2, list3, opt_view, raised, run_list, run_plain, run_slot, run_value, text_value,
    DateStyle, Host, Interp, NAN_BITS, Op, Run, Stop,
};
use crate::number::{num_of, Num};
use crate::number_format::{this_of, this_or_undefined};
use crate::objects::{is_nullish, to_object};
use crate::text::same_text;
use crate::value::{arg, arg_at, callable, is_callable, views, ErrorKind, Kind, Val, Value};
use vstd::prelude::*;

verus! {

/// What a method of a date is about.
#[derive(Debug, Clone, Copy, PartialEq, Eq, Structural)]
pub enum DateField {
    Date,
    Day,
    FullYear,
    GetYear,
    Hours,
    Minutes,
    Month,
    Ms,
    Seconds,
    SetDate,
    SetFullYear,
    SetHours,
    SetMinutes,
    SetMonth,
    SetMs,
    SetSeconds,
    SetTime,
    SetUtcDate,
    SetUtcFullYear,
    SetUtcHours,
    SetUtcMinutes,
    SetUtcMonth,
    SetUtcMs,
    SetUtcSeconds,
    SetYear,
    Time,
    TimezoneOffset,
    ToDateStr,
    ToIso,
    ToJson,
    ToLocaleDateStr,
    ToLocaleStr,
    ToLocaleTimeStr,
    ToPrimitive,
    ToStr,
    ToTimeStr,
    ToUtcStr,
    UtcDate,
    UtcDay,
    UtcFullYear,
    UtcHours,
    UtcMinutes,
    UtcMonth,
    UtcMs,
    UtcSeconds,
}

pub open spec fn nan() -> Num {
    Num { bits: NAN_BITS }
}

fn not_a_number() -> (r: Num)
    ensures
        r == nan(),
        r.nan(),
{
    let r: Num = Num { bits: NAN_BITS };
    assert(r.nan()) by {
        assert(0x7ff8_0000_0000_0000u64 / 0x10_0000_0000_0000 % 2048 == 2047);
    }
    r
}

/// The number that an argument gives; another where it is missing.
pub open spec fn number_arg(h: Host, pos: nat, args: Seq<Val>, i: int, none: Num) -> Run<Num> {
    if 0 <= i < args.len() {
        ask_number(h, pos, Op::ToNumber, seq![args[i]])
    } else {
        done(none, pos)
    }
}

/// What stands for a part of a date that is not given.
pub open spec fn part_default(i: int) -> Num {
    if i == 0 {
        nan()
    } else if i == 2 {
        num_of(1)
    } else {
        num_of(0)
    }
}

/// The parts of a date from the `i`-th argument on.
pub open spec fn date_args(h: Host, pos: nat, args: Seq<Val>, i: int, out: Seq<Val>) -> Run<Seq<Val>>
    decreases 7 - i,
{
    if i >= 7 {
        done(out, pos)
    } else {
        let n = number_arg(h, pos, args, i, part_default(i));
        match n.out {
            Err(e) => halted(e, n.pos),
            Ok(x) => date_args(h, n.pos, args, i + 1, out.push(Val::Num(x))),
        }
    }
}

/// The time that a date object holds; none for anything else.
pub open spec fn time_of(h: Host, pos: nat, v: Val) -> Run<Option<Num>> {
    match v {
        Val::Ref(Kind::Obj, _) => chain(
            ask_flag(h, pos, Op::IsDate, seq![v]),
            |b: bool, p: nat|
                if !b {
                    done(None, p)
                } else {
                    chain(
                        plain_slot(h, p, v, "\0time"@),
                        |s: Option<Val>, q: nat|
                            done(
                                match s {
                                    Some(Val::Num(n)) => Some(n),
                                    _ => Some(nan()),
                                },
                                q,
                            ),
                    )
                },
        ),
        _ => done(None, pos),
    }
}

/// The time that one argument stands for.
pub open spec fn single_time(h: Host, pos: nat, v: Val) -> Run<Num> {
    chain(
        time_of(h, pos, v),
        |t: Option<Num>, p: nat|
            match t {
                Some(n) => ask_number(h, p, Op::TimeClip, seq![Val::Num(n)]),
                None => chain(
                    ask_value(h, p, Op::ToPrimitiveAny, seq![v]),
                    |x: Val, q: nat|
                        match x {
                            Val::Str(s) => ask_number(h, q, Op::ParseDate, seq![Val::Str(s)]),
                            _ => chain(
                                ask_number(h, q, Op::ToNumber, seq![x]),
                                |n: Num, r: nat| ask_number(h, r, Op::TimeClip, seq![Val::Num(n)]),
                            ),
                        },
                ),
            },
    )
}

/// The time that the arguments of the constructor stand for.
pub open spec fn asked_time(h: Host, pos: nat, args: Seq<Val>) -> Run<Num> {
    if args.len() == 0 {
        ask_number(h, pos, Op::Now, Seq::empty())
    } else if args.len() == 1 {
        single_time(h, pos, args[0])
    } else {
        chain(
            date_args(h, pos, args, 0, Seq::empty()),
            |parts: Seq<Val>, p: nat| ask_number(h, p, Op::FullDate, parts),
        )
    }
}

/// A date from the arguments of the constructor.
pub open spec fn make_date_from_args_run(h: Host, pos: nat, args: Seq<Val>) -> Run<Val> {
    chain(
        asked_time(h, pos, args),
        |t: Num, p: nat| ask_value(h, p, Op::NewDate, seq![Val::Num(t)]),
    )
}

/// `Date`, called or constructed.
pub open spec fn date_ctor_run(h: Host, pos: nat, recv: Option<Val>, args: Seq<Val>) -> Run<Val> {
    chain(
        ask_flag(h, pos, Op::HasNewTarget, Seq::empty()),
        |made: bool, p: nat|
            if made {
                make_date_from_args_run(h, p, args)
            } else {
                chain(
                    ask_number(h, p, Op::Now, Seq::empty()),
                    |t: Num, q: nat| date_text(h, q, DateStyle::Full, t),
                )
            },
    )
}

/// `Date.now`.
pub open spec fn date_now_run(h: Host, pos: nat, recv: Option<Val>, args: Seq<Val>) -> Run<Val> {
    number_value(ask_number(h, pos, Op::Now, Seq::empty()))
}

/// `Date.parse`.
pub open spec fn date_parse_run(h: Host, pos: nat, recv: Option<Val>, args: Seq<Val>) -> Run<Val> {
    if args.len() == 0 {
        done(Val::Num(nan()), pos)
    } else {
        chain(
            match args[0] {
                Val::Str(s) => done(s, pos),
                _ => ask_text(h, pos, Op::Display, seq![args[0]]),
            },
            |s: Seq<char>, p: nat|
                number_value(ask_number(h, p, Op::ParseDate, seq![Val::Str(s)])),
        )
    }
}

/// `Date.UTC`.
pub open spec fn date_utc_run(h: Host, pos: nat, recv: Option<Val>, args: Seq<Val>) -> Run<Val> {
    chain(
        date_args(h, pos, args, 0, Seq::empty()),
        |parts: Seq<Val>, p: nat|
            if args.len() == 0 {
                done(Val::Num(nan()), p)
            } else {
                number_value(ask_number(h, p, Op::FullDate, parts))
            },
    )
}

pub open spec fn number_value(r: Run<Num>) -> Run<Val> {
    chain(r, |n: Num, p: nat| done(Val::Num(n), p))
}

pub open spec fn date_text(h: Host, pos: nat, style: DateStyle, t: Num) -> Run<Val> {
    chain(
        ask_text(h, pos, Op::DateText(style), seq![Val::Num(t)]),
        |s: Seq<char>, p: nat| done(Val::Str(s), p),
    )
}

/// The objects among the values, as far as a conversion of a date looks.
pub open spec fn object_like(v: Val) -> bool {
    match v {
        Val::Ref(k, _) => k == Kind::Obj || k == Kind::Instance || k == Kind::Arr,
        _ => false,
    }
}

/// What a conversion method gives, where there is one and it gives no object.
pub open spec fn converted_by(h: Host, pos: nat, v: Val, name: Seq<char>) -> Run<Option<Val>> {
    chain(
        get(h, pos, v, name),
        |f: Val, p: nat|
            if !callable(f) {
                done(None, p)
            } else {
                chain(
                    call(h, p, f, Some(v), Seq::empty()),
                    |r: Val, q: nat|
                        done(
                            if object_like(r) {
                                None
                            } else {
                                Some(r)
                            },
                            q,
                        ),
                )
            },
    )
}

/// A date as a primitive: by its text first where `text` is set, else by its number first.
pub open spec fn converted(h: Host, pos: nat, v: Val, text: bool) -> Run<Val> {
    let first = if text {
        "toString"@
    } else {
        "valueOf"@
    };
    let second = if text {
        "valueOf"@
    } else {
        "toString"@
    };
    chain(
        converted_by(h, pos, v, first),
        |a: Option<Val>, p: nat|
            match a {
                Some(x) => done(x, p),
                None => chain(
                    converted_by(h, p, v, second),
                    |b: Option<Val>, q: nat|
                        match b {
                            Some(x) => done(x, q),
                            None => raised(
                                ErrorKind::TypeError,
                                "Cannot convert Date to primitive value"@,
                                q,
                            ),
                        },
                ),
            },
    )
}

/// Which form a hint asks for: a text, a number, or none that there is.
pub open spec fn hinted(hint: Val) -> Option<bool> {
    match hint {
        Val::Str(s) => if s == "string"@ || s == "default"@ {
            Some(true)
        } else if s == "number"@ {
            Some(false)
        } else {
            None
        },
        _ => None,
    }
}

/// A date's conversion to a primitive.
pub open spec fn date_to_primitive(h: Host, pos: nat, v: Val, args: Seq<Val>) -> Run<Val> {
    if !object_like(v) {
        raised(
            ErrorKind::TypeError,
            "Date.prototype[Symbol.toPrimitive] called on non-object"@,
            pos,
        )
    } else {
        match hinted(arg(args, 0)) {
            None => raised(
                ErrorKind::TypeError,
                "invalid hint for Date.prototype[Symbol.toPrimitive]"@,
                pos,
            ),
            Some(text) => converted(h, pos, v, text),
        }
    }
}

/// `toJSON`.
pub open spec fn date_to_json(h: Host, pos: nat, v: Val) -> Run<Val> {
    if v is Undefined || v is Null {
        raised(
            ErrorKind::TypeError,
            "Date.prototype.toJSON called on null/undefined"@,
            pos,
        )
    } else {
        chain(
            to_object(h, pos, v),
            |o: Val, p0: nat|
                chain(
                    ask_value(h, p0, Op::ToPrimitiveNumber, seq![o]),
                    |t: Val, p1: nat|
                        if t matches Val::Num(n) && !n.finite() {
                            done(Val::Null, p1)
                        } else {
                            chain(
                                get(h, p1, o, "toISOString"@),
                                |f: Val, p2: nat|
                                    if callable(f) {
                                        call(h, p2, f, Some(o), Seq::empty())
                                    } else {
                                        raised(
                                            ErrorKind::TypeError,
                                            "toISOString is not callable"@,
                                            p2,
                                        )
                                    },
                            )
                        },
                ),
        )
    }
}

/// The same field by local time: there is no offset.
pub open spec fn local_field(f: DateField) -> DateField {
    match f {
        DateField::UtcFullYear => DateField::FullYear,
        DateField::UtcMonth => DateField::Month,
        DateField::UtcDate => DateField::Date,
        DateField::UtcDay => DateField::Day,
        DateField::UtcHours => DateField::Hours,
        DateField::UtcMinutes => DateField::Minutes,
        DateField::UtcSeconds => DateField::Seconds,
        DateField::UtcMs => DateField::Ms,
        DateField::SetUtcFullYear => DateField::SetFullYear,
        DateField::SetUtcMonth => DateField::SetMonth,
        DateField::SetUtcDate => DateField::SetDate,
        DateField::SetUtcHours => DateField::SetHours,
        DateField::SetUtcMinutes => DateField::SetMinutes,
        DateField::SetUtcSeconds => DateField::SetSeconds,
        DateField::SetUtcMs => DateField::SetMs,
        _ => f,
    }
}

/// How many arguments a method that sets something takes; none for the others.
pub open spec fn set_params(f: DateField) -> nat {
    match f {
        DateField::SetTime => 1,
        DateField::SetFullYear => 3,
        DateField::SetMonth => 2,
        DateField::SetDate => 1,
        DateField::SetHours => 4,
        DateField::SetMinutes => 3,
        DateField::SetSeconds => 2,
        DateField::SetMs => 1,
        DateField::SetYear => 1,
        _ => 0,
    }
}

/// The part of a date that the first argument sets; the next ones set the parts after it.
pub open spec fn first_part(f: DateField) -> int {
    match f {
        DateField::SetMonth => 1,
        DateField::SetDate => 2,
        DateField::SetHours => 3,
        DateField::SetMinutes => 4,
        DateField::SetSeconds => 5,
        DateField::SetMs => 6,
        _ => 0,
    }
}

/// The arguments from the `i`-th up to the `n`-th as numbers; undefined stands for a missing one.
pub open spec fn set_numbers(h: Host, pos: nat, args: Seq<Val>, i: int, n: int, out: Seq<Val>) -> Run<
    Seq<Val>,
>
    decreases n - i,
{
    if i >= n {
        done(out, pos)
    } else {
        let x = ask_number(h, pos, Op::ToNumber, seq![arg(args, i)]);
        match x.out {
            Err(e) => halted(e, x.pos),
            Ok(v) => set_numbers(h, x.pos, args, i + 1, n, out.push(Val::Num(v))),
        }
    }
}

pub open spec fn set_count(f: DateField, args: Seq<Val>) -> int {
    let given = if args.len() > 0 {
        args.len() as int
    } else {
        1
    };
    if (set_params(f) as int) < given {
        set_params(f) as int
    } else {
        given
    }
}

/// The seven parts of a date with some of them set.
pub open spec fn parts_set(parts: Seq<Val>, nums: Seq<Val>, first: int) -> Seq<Val> {
    Seq::new(
        7,
        |i: int|
            if first <= i < first + nums.len() {
                nums[i - first]
            } else {
                arg(parts, i)
            },
    )
}

/// A year of two digits is one of the last century.
pub open spec fn long_year(h: Host, pos: nat, y: Num) -> Run<Val> {
    match offset_of(y) {
        Offset::Forward(k) => if k <= 99 {
            done(Val::Num(num_of(1900 + k)), pos)
        } else {
            number_value(ask_number(h, pos, Op::ToInteger, seq![Val::Num(y)]))
        },
        _ => number_value(ask_number(h, pos, Op::ToInteger, seq![Val::Num(y)])),
    }
}

pub open spec fn num_val(v: Val) -> Num {
    match v {
        Val::Num(n) => n,
        _ => nan(),
    }
}

/// The new time of a method that sets something.
pub open spec fn new_time(h: Host, pos: nat, f: DateField, t: Num, nums: Seq<Val>) -> Run<Num> {
    if f == DateField::SetTime {
        ask_number(h, pos, Op::TimeClip, seq![arg(nums, 0)])
    } else if f == DateField::SetYear {
        if num_val(arg(nums, 0)).nan() {
            done(nan(), pos)
        } else {
            chain(
                long_year(h, pos, num_val(arg(nums, 0))),
                |y: Val, p: nat| moved_time(h, p, f, t, seq![y]),
            )
        }
    } else if t.nan() && f != DateField::SetFullYear {
        done(nan(), pos)
    } else {
        moved_time(h, pos, f, t, nums)
    }
}

/// The time with some of its parts set; a year is set on a date that is none from time zero.
pub open spec fn moved_time(h: Host, pos: nat, f: DateField, t: Num, nums: Seq<Val>) -> Run<Num> {
    chain(
        ask_list(
            h,
            pos,
            Op::DateParts,
            seq![
                Val::Num(
                    if t.nan() {
                        num_of(0)
                    } else {
                        t
                    },
                ),
            ],
        ),
        |parts: Seq<Val>, p: nat|
            ask_number(h, p, Op::ExactDate, parts_set(parts, nums, first_part(f))),
    )
}

/// Whether a method leaves a date that is none as it is.
pub open spec fn leaves_invalid(f: DateField) -> bool {
    f != DateField::SetTime && f != DateField::SetFullYear && f != DateField::SetYear
}

/// A method that sets something.
pub open spec fn date_set(h: Host, pos: nat, f: DateField, v: Val, t: Num, args: Seq<Val>) -> Run<Val> {
    chain(
        set_numbers(h, pos, args, 0, set_count(f, args), Seq::empty()),
        |nums: Seq<Val>, p0: nat|
            chain(
                new_time(h, p0, f, t, nums),
                |n: Num, p1: nat|
                    if t.nan() && leaves_invalid(f) {
                        done(Val::Num(n), p1)
                    } else {
                        chain(
                            ask_value(
                                h,
                                p1,
                                Op::StoreSlot,
                                seq![v, Val::Str("\0time"@), Val::Num(n)],
                            ),
                            |u: Val, p2: nat| done(Val::Num(n), p2),
                        )
                    },
            ),
    )
}

/// One part of a date; not a number for a date that is none.
pub open spec fn date_part(h: Host, pos: nat, t: Num, i: int) -> Run<Val> {
    if t.nan() {
        done(Val::Num(nan()), pos)
    } else {
        chain(
            ask_list(h, pos, Op::DateParts, seq![Val::Num(t)]),
            |parts: Seq<Val>, p: nat| done(arg(parts, i), p),
        )
    }
}

/// The part of a date that a method gives.
pub open spec fn got_part(f: DateField) -> Option<int> {
    match f {
        DateField::FullYear => Some(0),
        DateField::Month => Some(1),
        DateField::Date => Some(2),
        DateField::Hours => Some(3),
        DateField::Minutes => Some(4),
        DateField::Seconds => Some(5),
        DateField::Ms => Some(6),
        DateField::Day => Some(7),
        _ => None,
    }
}

/// The form that a method writes a date in.
pub open spec fn text_style(f: DateField) -> Option<DateStyle> {
    match f {
        DateField::ToStr => Some(DateStyle::Full),
        DateField::ToLocaleStr => Some(DateStyle::Full),
        DateField::ToDateStr => Some(DateStyle::DateOnly),
        DateField::ToLocaleDateStr => Some(DateStyle::DateOnly),
        DateField::ToTimeStr => Some(DateStyle::TimeOnly),
        DateField::ToLocaleTimeStr => Some(DateStyle::TimeOnly),
        DateField::ToUtcStr => Some(DateStyle::Utc),
        _ => None,
    }
}

/// A method that gives something.
pub open spec fn date_get(h: Host, pos: nat, f: DateField, t: Num) -> Run<Val> {
    match got_part(f) {
        Some(i) => date_part(h, pos, t, i),
        None => match text_style(f) {
            Some(style) => date_text(h, pos, style, t),
            None => match f {
                DateField::Time => done(Val::Num(t), pos),
                DateField::TimezoneOffset => done(
                    Val::Num(
                        if t.nan() {
                            nan()
                        } else {
                            num_of(0)
                        },
                    ),
                    pos,
                ),
                DateField::GetYear => if t.nan() {
                    done(Val::Num(nan()), pos)
                } else {
                    chain(
                        date_part(h, pos, t, 0),
                        |y: Val, p: nat|
                            number_value(
                                ask_number(h, p, Op::Minus, seq![y, Val::Num(num_of(1900))]),
                            ),
                    )
                },
                DateField::ToIso => if t.finite() {
                    date_text(h, pos, DateStyle::Iso, t)
                } else {
                    raised(ErrorKind::RangeError, "Invalid time value"@, pos)
                },
                _ => done(Val::Undefined, pos),
            },
        },
    }
}

/// A method of a date.
pub open spec fn date_method_run(
    h: Host,
    pos: nat,
    field: DateField,
    recv: Option<Val>,
    args: Seq<Val>,
) -> Run<Val> {
    let v = this_of(recv);
    if field == DateField::ToPrimitive {
        date_to_primitive(h, pos, v, args)
    } else if field == DateField::ToJson {
        date_to_json(h, pos, v)
    } else {
        chain(
            time_of(h, pos, v),
            |t: Option<Num>, p: nat|
                match t {
                    None => raised(ErrorKind::TypeError, "this is not a Date object"@, p),
                    Some(n) => if set_params(local_field(field)) > 0 {
                        date_set(h, p, local_field(field), v, n, args)
                    } else {
                        date_get(h, p, local_field(field), n)
                    },
                },
        )
    }
}

fn to_local(f: DateField) -> (r: DateField)
    ensures
        r == local_field(f),
{
    match f {
        DateField::UtcFullYear => DateField::FullYear,
        DateField::UtcMonth => DateField::Month,
        DateField::UtcDate => DateField::Date,
        DateField::UtcDay => DateField::Day,
        DateField::UtcHours => DateField::Hours,
        DateField::UtcMinutes => DateField::Minutes,
        DateField::UtcSeconds => DateField::Seconds,
        DateField::UtcMs => DateField::Ms,
        DateField::SetUtcFullYear => DateField::SetFullYear,
        DateField::SetUtcMonth => DateField::SetMonth,
        DateField::SetUtcDate => DateField::SetDate,
        DateField::SetUtcHours => DateField::SetHours,
        DateField::SetUtcMinutes => DateField::SetMinutes,
        DateField::SetUtcSeconds => DateField::SetSeconds,
        DateField::SetUtcMs => DateField::SetMs,
        other => other,
    }
}

fn param_count(f: DateField) -> (r: usize)
    ensures
        r == set_params(f),
        r <= 4,
{
    match f {
        DateField::SetTime => 1,
        DateField::SetFullYear => 3,
        DateField::SetMonth => 2,
        DateField::SetDate => 1,
        DateField::SetHours => 4,
        DateField::SetMinutes => 3,
        DateField::SetSeconds => 2,
        DateField::SetMs => 1,
        DateField::SetYear => 1,
        _ => 0,
    }
}

fn first_of(f: DateField) -> (r: usize)
    ensures
        r == first_part(f),
        r <= 6,
{
    match f {
        DateField::SetMonth => 1,
        DateField::SetDate => 2,
        DateField::SetHours => 3,
        DateField::SetMinutes => 4,
        DateField::SetSeconds => 5,
        DateField::SetMs => 6,
        _ => 0,
    }
}

fn set_parts(parts: &Vec<Value>, nums: &Vec<Value>, first: usize) -> (r: Vec<Value>)
    requires
        first <= 6,
    ensures
        views(r@) == parts_set(views(parts@), views(nums@), first as int),
{
    let ghost goal = parts_set(views(parts@), views(nums@), first as int);
    let mut out: Vec<Value> = empty_list();
    let mut i: usize = 0;
    let count: usize = nums.len();
    while i < 7
        invariant
            i <= 7,
            first <= 6,
            count == nums@.len(),
            goal == parts_set(views(parts@), views(nums@), first as int),
            views(out@) == goal.take(i as int),
        decreases 7 - i,
    {
        let ghost before = views(out@);
        let v: Value = if first <= i && i - first < count {
            nums[i - first].clone()
        } else {
            arg_at(parts, i)
        };
        out.push(v);
        assert(views(out@) =~= before.push(goal[i as int]));
        i = i + 1;
        assert(views(out@) =~= goal.take(i as int));
    }
    assert(goal.take(7) =~= goal);
    out
}

fn is_object_like(v: &Value) -> (r: bool)
    ensures
        r == object_like(v@),
{
    match v {
        Value::Ref(k, _) => match k {
            Kind::Obj | Kind::Instance | Kind::Arr => true,
            _ => false,
        },
        _ => false,
    }
}

fn hint_of(v: &Value) -> (r: Option<bool>)
    ensures
        r == hinted(v@),
{
    match v {
        Value::Str(s) => {
            if same_text(s.as_str(), "string") || same_text(s.as_str(), "default") {
                Some(true)
            } else if same_text(s.as_str(), "number") {
                Some(false)
            } else {
                None
            }
        },
        _ => None,
    }
}

fn number_of(v: &Value) -> (r: Num)
    ensures
        r == num_val(v@),
{
    match v {
        Value::Num(n) => *n,
        _ => not_a_number(),
    }
}

fn part_of_field(f: DateField) -> (r: Option<usize>)
    ensures
        match r {
            Some(i) => got_part(f) == Some(i as int),
            None => got_part(f) is None,
        },
{
    match f {
        DateField::FullYear => Some(0),
        DateField::Month => Some(1),
        DateField::Date => Some(2),
        DateField::Hours => Some(3),
        DateField::Minutes => Some(4),
        DateField::Seconds => Some(5),
        DateField::Ms => Some(6),
        DateField::Day => Some(7),
        _ => None,
    }
}

fn style_of(f: DateField) -> (r: Option<DateStyle>)
    ensures
        r == text_style(f),
{
    match f {
        DateField::ToStr | DateField::ToLocaleStr => Some(DateStyle::Full),
        DateField::ToDateStr | DateField::ToLocaleDateStr => Some(DateStyle::DateOnly),
        DateField::ToTimeStr | DateField::ToLocaleTimeStr => Some(DateStyle::TimeOnly),
        DateField::ToUtcStr => Some(DateStyle::Utc),
        _ => None,
    }
}

impl Interp {
    #[verifier::loop_isolation(false)]
    fn date_args(&mut self, args: &Vec<Value>) -> (r: Result<Vec<Value>, Stop>)
        requires
            old(self).wf(),
        ensures
            final(self).follows(*old(self)),
            run_list(r, *final(self)) == date_args(
                old(self).host(),
                old(self).pos as nat,
                views(args@),
                0,
                Seq::empty(),
            ),
    {
        let ghost goal = date_args(self.host(), self.pos as nat, views(args@), 0, Seq::empty());
        let mut out: Vec<Value> = empty_list();
        let mut i: usize = 0;
        while i < 7
            invariant
                i <= 7,
                self.follows(*old(self)),
                goal == date_args(self.host(), self.pos as nat, views(args@), i as int, views(out@)),
            decreases 7 - i,
        {
            let ghost before = views(out@);
            let n: Num = if i < args.len() {
                self.ask_number(Op::ToNumber, list1(args[i].clone()))?
            } else if i == 0 {
                not_a_number()
            } else if i == 2 {
                Num::from_u64(1)
            } else {
                Num::from_u64(0)
            };
            out.push(Value::Num(n));
            assert(views(out@) =~= before.push(Val::Num(n)));
            i = i + 1;
        }
        Ok(out)
    }

    fn time_of(&mut self, v: &Value) -> (r: Result<Option<Num>, Stop>)
        requires
            old(self).wf(),
        ensures
            final(self).follows(*old(self)),
            run_plain(r, *final(self)) == time_of(
                old(self).host(),
                old(self).pos as nat,
                v@,
            ),
    {
        match v {
            Value::Ref(Kind::Obj, _) => {
                if !self.ask_flag(Op::IsDate, list1(v.clone()))? {
                    return Ok(None);
                }
                match self.plain_slot(v, "\0time")? {
                    Some(Value::Num(n)) => Ok(Some(n)),
                    _ => Ok(Some(not_a_number())),
                }
            },
            _ => Ok(None),
        }
    }

    fn single_time(&mut self, v: &Value) -> (r: Result<Num, Stop>)
        requires
            old(self).wf(),
        ensures
            final(self).follows(*old(self)),
            run_plain(r, *final(self)) == single_time(
                old(self).host(),
                old(self).pos as nat,
                v@,
            ),
    {
        match self.time_of(v)? {
            Some(n) => self.ask_number(Op::TimeClip, list1(Value::Num(n))),
            None => {
                let x: Value = self.ask_value(Op::ToPrimitiveAny, list1(v.clone()))?;
                match x {
                    Value::Str(s) => self.ask_number(Op::ParseDate, list1(Value::Str(s))),
                    other => {
                        let n: Num = self.ask_number(Op::ToNumber, list1(other))?;
                        self.ask_number(Op::TimeClip, list1(Value::Num(n)))
                    },
                }
            },
        }
    }

    fn asked_time(&mut self, args: &Vec<Value>) -> (r: Result<Num, Stop>)
        requires
            old(self).wf(),
        ensures
            final(self).follows(*old(self)),
            run_plain(r, *final(self)) == asked_time(
                old(self).host(),
                old(self).pos as nat,
                views(args@),
            ),
    {
        if args.len() == 0 {
            return self.ask_number(Op::Now, empty_list());
        }
        if args.len() == 1 {
            return self.single_time(&args[0]);
        }
        let parts: Vec<Value> = self.date_args(args)?;
        self.ask_number(Op::FullDate, parts)
    }

    /// A date from the arguments of the constructor.
    pub fn make_date_from_args(&mut self, args: &Vec<Value>) -> (r: Result<Value, Stop>)
        requires
            old(self).wf(),
        ensures
            final(self).follows(*old(self)),
            run_value(r, *final(self)) == make_date_from_args_run(
                old(self).host(),
                old(self).pos as nat,
                views(args@),
            ),
    {
        let t: Num = self.asked_time(args)?;
        self.ask_value(Op::NewDate, list1(Value::Num(t)))
    }

    fn date_text(&mut self, style: DateStyle, t: Num) -> (r: Result<Value, Stop>)
        requires
            old(self).wf(),
        ensures
            final(self).follows(*old(self)),
            run_value(r, *final(self)) == date_text(
                old(self).host(),
                old(self).pos as nat,
                style,
                t,
            ),
    {
        let s: String = self.ask_text(Op::DateText(style), list1(Value::Num(t)))?;
        Ok(Value::Str(s))
    }

    /// `Date`, called or constructed.
    pub fn date_ctor(&mut self, recv: &Option<Value>, args: &Vec<Value>) -> (r: Result<Value, Stop>)
        requires
            old(self).wf(),
        ensures
            final(self).follows(*old(self)),
            run_value(r, *final(self)) == date_ctor_run(
                old(self).host(),
                old(self).pos as nat,
                opt_view(*recv),
                views(args@),
            ),
    {
        if self.ask_flag(Op::HasNewTarget, empty_list())? {
            return self.make_date_from_args(args);
        }
        let t: Num = self.ask_number(Op::Now, empty_list())?;
        self.date_text(DateStyle::Full, t)
    }

    /// `Date.now`.
    pub fn date_now(&mut self, recv: &Option<Value>, args: &Vec<Value>) -> (r: Result<Value, Stop>)
        requires
            old(self).wf(),
        ensures
            final(self).follows(*old(self)),
            run_value(r, *final(self)) == date_now_run(
                old(self).host(),
                old(self).pos as nat,
                opt_view(*recv),
                views(args@),
            ),
    {
        let t: Num = self.ask_number(Op::Now, empty_list())?;
        Ok(Value::Num(t))
    }

    /// `Date.parse`.
    pub fn date_parse(&mut self, recv: &Option<Value>, args: &Vec<Value>) -> (r: Result<Value, Stop>)
        requires
            old(self).wf(),
        ensures
            final(self).follows(*old(self)),
            run_value(r, *final(self)) == date_parse_run(
                old(self).host(),
                old(self).pos as nat,
                opt_view(*recv),
                views(args@),
            ),
    {
        if args.len() == 0 {
            return Ok(Value::Num(not_a_number()));
        }
        let s: String = match &args[0] {
            Value::Str(s) => s.clone(),
            other => self.ask_text(Op::Display, list1(other.clone()))?,
        };
        let t: Num = self.ask_number(Op::ParseDate, list1(Value::Str(s)))?;
        Ok(Value::Num(t))
    }

    /// `Date.UTC`.
    pub fn date_utc(&mut self, recv: &Option<Value>, args: &Vec<Value>) -> (r: Result<Value, Stop>)
        requires
            old(self).wf(),
        ensures
            final(self).follows(*old(self)),
            run_value(r, *final(self)) == date_utc_run(
                old(self).host(),
                old(self).pos as nat,
                opt_view(*recv),
                views(args@),
            ),
    {
        let parts: Vec<Value> = self.date_args(args)?;
        if args.len() == 0 {
            return Ok(Value::Num(not_a_number()));
        }
        let t: Num = self.ask_number(Op::FullDate, parts)?;
        Ok(Value::Num(t))
    }

    fn converted_by(&mut self, v: &Value, name: &str) -> (r: Result<Option<Value>, Stop>)
        requires
            old(self).wf(),
        ensures
            final(self).follows(*old(self)),
            run_slot(r, *final(self)) == converted_by(
                old(self).host(),
                old(self).pos as nat,
                v@,
                name@,
            ),
    {
        let f: Value = self.member_get(v, name)?;
        if !is_callable(&f) {
            return Ok(None);
        }
        let r: Value = self.call_value(f, Some(v.clone()), empty_list())?;
        if is_object_like(&r) {
            Ok(None)
        } else {
            Ok(Some(r))
        }
    }

    fn converted(&mut self, v: &Value, text: bool) -> (r: Result<Value, Stop>)
        requires
            old(self).wf(),
        ensures
            final(self).follows(*old(self)),
            run_value(r, *final(self)) == converted(
                old(self).host(),
                old(self).pos as nat,
                v@,
                text,
            ),
    {
        let first: &str = if text {
            "toString"
        } else {
            "valueOf"
        };
        let second: &str = if text {
            "valueOf"
        } else {
            "toString"
        };
        match self.converted_by(v, first)? {
            Some(x) => {
                return Ok(x);
            },
            None => {},
        }
        match self.converted_by(v, second)? {
            Some(x) => Ok(x),
            None => Err(fail(ErrorKind::TypeError, "Cannot convert Date to primitive value")),
        }
    }

    fn date_to_primitive(&mut self, v: &Value, args: &Vec<Value>) -> (r: Result<Value, Stop>)
        requires
            old(self).wf(),
        ensures
            final(self).follows(*old(self)),
            run_value(r, *final(self)) == date_to_primitive(
                old(self).host(),
                old(self).pos as nat,
                v@,
                views(args@),
            ),
    {
        if !is_object_like(v) {
            return Err(
                fail(
                    ErrorKind::TypeError,
                    "Date.prototype[Symbol.toPrimitive] called on non-object",
                ),
            );
        }
        match hint_of(&arg_at(args, 0)) {
            None => Err(
                fail(ErrorKind::TypeError, "invalid hint for Date.prototype[Symbol.toPrimitive]"),
            ),
            Some(text) => self.converted(v, text),
        }
    }

    fn date_to_json(&mut self, v: &Value) -> (r: Result<Value, Stop>)
        requires
            old(self).wf(),
        ensures
            final(self).follows(*old(self)),
            run_value(r, *final(self)) == date_to_json(
                old(self).host(),
                old(self).pos as nat,
                v@,
            ),
    {
        if is_nullish(v) {
            return Err(
                fail(ErrorKind::TypeError, "Date.prototype.toJSON called on null/undefined"),
            );
        }
        let o: Value = self.to_object_value(v.clone())?;
        let t: Value = self.ask_value(Op::ToPrimitiveNumber, list1(o.clone()))?;
        match &t {
            Value::Num(n) => {
                if !n.is_finite() {
                    return Ok(Value::Null);
                }
            },
            _ => {},
        }
        let f: Value = self.member_get(&o, "toISOString")?;
        if !is_callable(&f) {
            return Err(fail(ErrorKind::TypeError, "toISOString is not callable"));
        }
        self.call_value(f, Some(o), empty_list())
    }

    #[verifier::loop_isolation(false)]
    fn set_numbers(&mut self, args: &Vec<Value>, n: usize) -> (r: Result<Vec<Value>, Stop>)
        requires
            old(self).wf(),
        ensures
            final(self).follows(*old(self)),
            run_list(r, *final(self)) == set_numbers(
                old(self).host(),
                old(self).pos as nat,
                views(args@),
                0,
                n as int,
                Seq::empty(),
            ),
    {
        let ghost all = views(args@);
        let ghost goal = set_numbers(self.host(), self.pos as nat, all, 0, n as int, Seq::empty());
        let mut out: Vec<Value> = empty_list();
        let mut i: usize = 0;
        while i < n
            invariant
                i <= n,
                self.follows(*old(self)),
                goal == set_numbers(
                    self.host(),
                    self.pos as nat,
                    all,
                    i as int,
                    n as int,
                    views(out@),
                ),
            decreases n - i,
        {
            let ghost before = views(out@);
            let x: Num = self.ask_number(Op::ToNumber, list1(arg_at(args, i)))?;
            out.push(Value::Num(x));
            assert(views(out@) =~= before.push(Val::Num(x)));
            i = i + 1;
        }
        Ok(out)
    }

    fn long_year(&mut self, y: Num) -> (r: Result<Value, Stop>)
        requires
            old(self).wf(),
        ensures
            final(self).follows(*old(self)),
            run_value(r, *final(self)) == long_year(
                old(self).host(),
                old(self).pos as nat,
                y,
            ),
    {
        match to_offset(y) {
            Offset::Forward(k) => {
                if k <= 99 {
                    return Ok(Value::Num(Num::from_u64(1900 + k)));
                }
            },
            _ => {},
        }
        let n: Num = self.ask_number(Op::ToInteger, list1(Value::Num(y)))?;
        Ok(Value::Num(n))
    }

    fn moved_time(&mut self, f: DateField, t: Num, nums: &Vec<Value>) -> (r: Result<Num, Stop>)
        requires
            old(self).wf(),
        ensures
            final(self).follows(*old(self)),
            run_plain(r, *final(self)) == moved_time(
                old(self).host(),
                old(self).pos as nat,
                f,
                t,
                views(nums@),
            ),
    {
        let base: Num = if t.is_nan() {
            Num::from_u64(0)
        } else {
            t
        };
        let parts: Vec<Value> = self.ask_list(Op::DateParts, list1(Value::Num(base)))?;
        self.ask_number(Op::ExactDate, set_parts(&parts, nums, first_of(f)))
    }

    fn new_time(&mut self, f: DateField, t: Num, nums: &Vec<Value>) -> (r: Result<Num, Stop>)
        requires
            old(self).wf(),
        ensures
            final(self).follows(*old(self)),
            run_plain(r, *final(self)) == new_time(
                old(self).host(),
                old(self).pos as nat,
                f,
                t,
                views(nums@),
            ),
    {
        if f == DateField::SetTime {
            return self.ask_number(Op::TimeClip, list1(arg_at(nums, 0)));
        }
        if f == DateField::SetYear {
            let y: Num = number_of(&arg_at(nums, 0));
            if y.is_nan() {
                return Ok(not_a_number());
            }
            let full: Value = self.long_year(y)?;
            return self.moved_time(f, t, &list1(full));
        }
        if t.is_nan() && f != DateField::SetFullYear {
            return Ok(not_a_number());
        }
        self.moved_time(f, t, nums)
    }

    fn date_set(&mut self, f: DateField, v: &Value, t: Num, args: &Vec<Value>) -> (r: Result<Value, Stop>)
        requires
            old(self).wf(),
        ensures
            final(self).follows(*old(self)),
            run_value(r, *final(self)) == date_set(
                old(self).host(),
                old(self).pos as nat,
                f,
                v@,
                t,
                views(args@),
            ),
    {
        let given: usize = if args.len() > 0 {
            args.len()
        } else {
            1
        };
        let most: usize = param_count(f);
        let count: usize = if most < given {
            most
        } else {
            given
        };
        let nums: Vec<Value> = self.set_numbers(args, count)?;
        let n: Num = self.new_time(f, t, &nums)?;
        let leaves: bool = f != DateField::SetTime && f != DateField::SetFullYear && f
            != DateField::SetYear;
        if !(t.is_nan() && leaves) {
            let u: Value = self.ask_value(
                Op::StoreSlot,
                list3(v.clone(), text_value("\0time"), Value::Num(n)),
            )?;
        }
        Ok(Value::Num(n))
    }

    fn date_part(&mut self, t: Num, i: usize) -> (r: Result<Value, Stop>)
        requires
            old(self).wf(),
        ensures
            final(self).follows(*old(self)),
            run_value(r, *final(self)) == date_part(
                old(self).host(),
                old(self).pos as nat,
                t,
                i as int,
            ),
    {
        if t.is_nan() {
            return Ok(Value::Num(not_a_number()));
        }
        let parts: Vec<Value> = self.ask_list(Op::DateParts, list1(Value::Num(t)))?;
        Ok(arg_at(&parts, i))
    }

    fn date_get(&mut self, f: DateField, t: Num) -> (r: Result<Value, Stop>)
        requires
            old(self).wf(),
        ensures
            final(self).follows(*old(self)),
            run_value(r, *final(self)) == date_get(
                old(self).host(),
                old(self).pos as nat,
                f,
                t,
            ),
    {
        match part_of_field(f) {
            Some(i) => {
                return self.date_part(t, i);
            },
            None => {},
        }
        match style_of(f) {
            Some(style) => {
                return self.date_text(style, t);
            },
            None => {},
        }
        match f {
            DateField::Time => Ok(Value::Num(t)),
            DateField::TimezoneOffset => {
                if t.is_nan() {
                    Ok(Value::Num(not_a_number()))
                } else {
                    Ok(Value::Num(Num::from_u64(0)))
                }
            },
            DateField::GetYear => {
                if t.is_nan() {
                    return Ok(Value::Num(not_a_number()));
                }
                let y: Value = self.date_part(t, 0)?;
                let n: Num = self.ask_number(Op::Minus, list2(y, Value::Num(Num::from_u64(1900))))?;
                Ok(Value::Num(n))
            },
            DateField::ToIso => {
                if t.is_finite() {
                    self.date_text(DateStyle::Iso, t)
                } else {
                    Err(fail(ErrorKind::RangeError, "Invalid time value"))
                }
            },
            _ => Ok(Value::Undefined),
        }
    }

    /// A method of a date.
    pub fn date_method(&mut self, field: DateField, recv: &Option<Value>, args: &Vec<Value>) -> (r: Result<Value, Stop>)
        requires
            old(self).wf(),
        ensures
            final(self).follows(*old(self)),
            run_value(r, *final(self)) == date_method_run(
                old(self).host(),
                old(self).pos as nat,
                field,
                opt_view(*recv),
                views(args@),
            ),
    {
        let v: Value = this_or_undefined(recv);
        if field == DateField::ToPrimitive {
            return self.date_to_primitive(&v, args);
        }
        if field == DateField::ToJson {
            return self.date_to_json(&v);
        }
        match self.time_of(&v)? {
            None => Err(fail(ErrorKind::TypeError, "this is not a Date object")),
            Some(n) => {
                let f: DateField = to_local(field);
                if param_count(f) > 0 {
                    self.date_set(f, &v, n, args)
                } else {
                    self.date_get(f, n)
                }
            },
        }
    }
}

/// A method by universal time does what its namesake by local time does.
pub proof fn law_utc_is_local(h: Host, pos: nat, f: DateField, recv: Option<Val>, args: Seq<Val>)
    requires
        f != DateField::ToPrimitive,
        f != DateField::ToJson,
    ensures
        date_method_run(h, pos, f, recv, args) == date_method_run(
            h,
            pos,
            local_field(f),
            recv,
            args,
        ),
{
    assert(local_field(local_field(f)) == local_field(f));
    assert(local_field(f) != DateField::ToPrimitive && local_field(f) != DateField::ToJson);
}

/// Setting parts of a date changes those parts and no other.
pub proof fn law_parts_set(parts: Seq<Val>, nums: Seq<Val>, first: int, i: int)
    requires
        parts.len() >= 7,
        0 <= i < 7,
        0 <= first,
    ensures
        parts_set(parts, nums, first).len() == 7,
        first <= i < first + nums.len() ==> parts_set(parts, nums, first)[i] == nums[i - first],
        !(first <= i < first + nums.len()) ==> parts_set(parts, nums, first)[i] == parts[i],
{
}

/// A date that is none stays none when any of its parts but the year is set, and what it holds is
/// not touched: the call stores nothing.
pub proof fn law_invalid_date_stays(h: Host, pos: nat, f: DateField, v: Val, t: Num, args: Seq<Val>)
    requires
        t.nan(),
        set_params(f) > 0,
        leaves_invalid(f),
    ensures
        ({
            let s = set_numbers(h, pos, args, 0, set_count(f, args), Seq::empty());
            s.out is Ok ==> date_set(h, pos, f, v, t, args) == done(Val::Num(nan()), s.pos)
        }),
{
}

} // verus!
