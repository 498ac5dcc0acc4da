//! How the methods of dates belong together.
use crate::dates::{
    date_args, date_method_run, date_set, first_part, local_field, make_date_from_args_run,
    moved_time, nan, new_time, parts_set, set_count, set_numbers, set_params, time_of, DateField,
};
use crate::host::{done, number_in, value_in, Answer, DateStyle, Halt, Host, Op, Question};
use crate::number::{num_of, Num};
use crate::value::{Kind, Val};
use vstd::prelude::*;

verus! {

/// The parts of a date, in the order in which the constructor takes them: the methods that give
/// each, and those that set it.
pub open spec fn part_methods() -> Seq<(DateField, DateField, DateField, DateField)> {
    seq![
        (DateField::FullYear, DateField::UtcFullYear, DateField::SetFullYear, DateField::SetUtcFullYear),
        (DateField::Month, DateField::UtcMonth, DateField::SetMonth, DateField::SetUtcMonth),
        (DateField::Date, DateField::UtcDate, DateField::SetDate, DateField::SetUtcDate),
        (DateField::Hours, DateField::UtcHours, DateField::SetHours, DateField::SetUtcHours),
        (DateField::Minutes, DateField::UtcMinutes, DateField::SetMinutes, DateField::SetUtcMinutes),
        (DateField::Seconds, DateField::UtcSeconds, DateField::SetSeconds, DateField::SetUtcSeconds),
        (DateField::Ms, DateField::UtcMs, DateField::SetMs, DateField::SetUtcMs),
    ]
}

pub open spec fn gives_part(f: DateField, i: int) -> bool {
    0 <= i < 7 && (f == part_methods()[i].0 || f == part_methods()[i].1)
}

pub open spec fn sets_part(f: DateField, i: int) -> bool {
    0 <= i < 7 && (f == part_methods()[i].2 || f == part_methods()[i].3)
}

/// The engine answers that a value is a date of this time.
pub open spec fn date_at(h: Host, v: Val, t: Num) -> bool {
    &&& v matches Val::Ref(Kind::Obj, _)
    &&& h.len >= 2
    &&& (h.reply)(0, Question { op: Op::IsDate, args: seq![v] }) == Answer::Value(Val::Bool(true))
    &&& (h.reply)(1, Question { op: Op::OwnSlot, args: seq![v, Val::Str("\0time"@)] })
        == Answer::Value(Val::Num(t))
}

/// The engine answers the question at `pos` for the parts of this time.
pub open spec fn parts_told(h: Host, pos: nat, t: Num, parts: Seq<Val>) -> bool {
    &&& h.len > pos
    &&& parts.len() >= 7
    &&& (h.reply)(pos, Question { op: Op::DateParts, args: seq![Val::Num(t)] }) == Answer::List(
        parts,
    )
}

/// The number that the engine makes of a value at `pos`.
pub open spec fn made_number(h: Host, pos: nat, v: Val) -> Num {
    number_in(value_in((h.reply)(pos, Question { op: Op::ToNumber, args: seq![v] })))
}

/// The engine makes numbers of the first `n` of the values, from `pos` on, and throws at none.
pub open spec fn numbers_made(h: Host, pos: nat, args: Seq<Val>, n: int) -> bool {
    &&& h.len >= pos + n
    &&& forall|i: int|
        0 <= i < n ==> !((#[trigger] (h.reply)(
            (pos + i) as nat,
            Question { op: Op::ToNumber, args: seq![args[i]] },
        )) is Throw)
}

/// A method that gives a part of a date gives what the engine says of that part: the weekday is the
/// last one.
pub proof fn law_date_part(h: Host, v: Val, t: Num, parts: Seq<Val>, f: DateField, i: int)
    requires
        date_at(h, v, t),
        !t.nan(),
        parts_told(h, 2, t, parts),
        gives_part(f, i) || (i == 7 && parts.len() == 8 && (f == DateField::Day || f
            == DateField::UtcDay)),
    ensures
        date_method_run(h, 0, f, Some(v), Seq::empty()) == done(parts[i], 3),
{
}

/// What the constructor takes as the `j`-th part.
pub open spec fn part_given(h: Host, args: Seq<Val>, j: int) -> Val {
    Val::Num(
        if j < args.len() {
            made_number(h, j as nat, args[j])
        } else if j == 0 {
            nan()
        } else if j == 2 {
            num_of(1)
        } else {
            num_of(0)
        },
    )
}

proof fn lemma_date_args(h: Host, pos: nat, args: Seq<Val>, i: int, out: Seq<Val>)
    requires
        0 <= i <= 7,
        out.len() == i,
        args.len() <= 7,
        pos == if i < args.len() {
            i
        } else {
            args.len() as int
        },
        numbers_made(h, 0, args, args.len() as int),
        forall|j: int| 0 <= j < i ==> (#[trigger] out[j]) == part_given(h, args, j),
    ensures
        date_args(h, pos, args, i, out) == done(
            Seq::new(7, |j: int| part_given(h, args, j)),
            args.len(),
        ),
    decreases 7 - i,
{
    if i < 7 {
        let next = if i < args.len() {
            assert(!((h.reply)((0 + i) as nat, Question { op: Op::ToNumber, args: seq![args[i]] }) is Throw));
            pos + 1
        } else {
            pos
        };
        lemma_date_args(h, next, args, i + 1, out.push(part_given(h, args, i)));
    } else {
        assert(out =~= Seq::new(7, |j: int| part_given(h, args, j)));
    }
}

/// A date made of year, month, day and so on has these parts: where the engine finds in the date
/// what it was given to make it of, each method gives the argument at its part's place. What is
/// not given is the first day of the month, and zero for the rest.
pub proof fn law_date_made_of_parts(
    h: Host,
    args: Seq<Val>,
    made: Question,
    g: Host,
    v: Val,
    t: Num,
    parts: Seq<Val>,
    f: DateField,
    i: int,
)
    requires
        2 <= args.len() <= 7,
        h.len == args.len(),
        numbers_made(h, 0, args, args.len() as int),
        make_date_from_args_run(h, 0, args).out == Err::<Val, _>(Halt::Ask(made)),
        date_at(g, v, t),
        !t.nan(),
        parts_told(g, 2, t, parts),
        parts.take(7) == made.args,
        gives_part(f, i),
    ensures
        made.op == Op::FullDate,
        date_method_run(g, 0, f, Some(v), Seq::empty()) == done(
            Val::Num(
                if i < args.len() {
                    made_number(h, i as nat, args[i])
                } else if i == 2 {
                    num_of(1)
                } else {
                    num_of(0)
                },
            ),
            3,
        ),
{
    lemma_date_args(h, 0, args, 0, Seq::empty());
    law_date_part(g, v, t, parts, f, i);
    assert(parts.take(7)[i] == parts[i]);
    let l = Seq::new(7, |j: int| part_given(h, args, j));
    assert(made == (Question { op: Op::FullDate, args: l }));
    assert(parts[i] == l[i]);
}

/// The numbers that the engine makes of some values.
pub open spec fn numbers_of(h: Host, pos: nat, args: Seq<Val>) -> Seq<Val> {
    Seq::new(args.len(), |j: int| Val::Num(made_number(h, (pos + j) as nat, args[j])))
}

proof fn lemma_set_numbers(h: Host, pos: nat, args: Seq<Val>, i: int, out: Seq<Val>)
    requires
        0 <= i <= args.len(),
        out == numbers_of(h, pos, args).take(i),
        numbers_made(h, pos, args, args.len() as int),
    ensures
        set_numbers(h, (pos + i) as nat, args, i, args.len() as int, out) == done(
            numbers_of(h, pos, args),
            pos + args.len(),
        ),
    decreases args.len() - i,
{
    let all = numbers_of(h, pos, args);
    if i < args.len() {
        assert(!((h.reply)((pos + i) as nat, Question { op: Op::ToNumber, args: seq![args[i]] }) is Throw));
        assert(all.take(i + 1) =~= out.push(all[i]));
        lemma_set_numbers(h, pos, args, i + 1, out.push(all[i]));
    } else {
        assert(out =~= all);
    }
}

proof fn lemma_set_asks(
    h: Host,
    v: Val,
    t: Num,
    former: Seq<Val>,
    s: DateField,
    i: int,
    args: Seq<Val>,
)
    requires
        sets_part(s, i),
        1 <= args.len() <= parts_from(i),
        date_at(h, v, t),
        !t.nan(),
        h.len == args.len() + 3,
        numbers_made(h, 2, args, args.len() as int),
        parts_told(h, 2 + args.len(), t, former),
    ensures
        date_method_run(h, 0, s, Some(v), args).out == Err::<Val, _>(
            Halt::Ask(
                Question {
                    op: Op::ExactDate,
                    args: parts_set(former, numbers_of(h, 2, args), i),
                },
            ),
        ),
{
    let nums = numbers_of(h, 2, args);
    assert(nums.take(0) =~= Seq::empty());
    lemma_set_numbers(h, 2, args, 0, Seq::empty());
    let f = local_field(s);
    assert(first_part(f) == i);
    assert(set_params(f) == parts_from(i));
    assert(set_count(f, args) == args.len());
    assert(new_time(h, 2 + args.len(), f, t, nums) == moved_time(h, 2 + args.len(), f, t, nums));
    assert(time_of(h, 0, v) == done(Some(t), 2));
    assert(date_method_run(h, 0, s, Some(v), args) == date_set(h, 2, f, v, t, args));
}

/// How many parts a method that sets the `i`-th one takes: those of the day, or those of the time.
pub open spec fn parts_from(i: int) -> int {
    if i < 3 {
        3 - i
    } else {
        7 - i
    }
}

/// What a method sets, the method of the same name gives: the first argument at its own part, the
/// next ones at the parts that follow, and all other parts are as they were.
pub proof fn law_date_set_then_got(
    h: Host,
    v: Val,
    t: Num,
    former: Seq<Val>,
    s: DateField,
    i: int,
    args: Seq<Val>,
    made: Question,
    g: Host,
    w: Val,
    u: Num,
    parts: Seq<Val>,
    f: DateField,
    j: int,
)
    requires
        sets_part(s, i),
        1 <= args.len() <= parts_from(i),
        date_at(h, v, t),
        !t.nan(),
        h.len == args.len() + 3,
        numbers_made(h, 2, args, args.len() as int),
        parts_told(h, 2 + args.len(), t, former),
        date_method_run(h, 0, s, Some(v), args).out == Err::<Val, _>(Halt::Ask(made)),
        date_at(g, w, u),
        !u.nan(),
        parts_told(g, 2, u, parts),
        parts.take(7) == made.args,
        gives_part(f, j),
    ensures
        made.op == Op::ExactDate,
        date_method_run(g, 0, f, Some(w), Seq::empty()) == done(
            if i <= j < i + args.len() {
                Val::Num(made_number(h, (2 + j - i) as nat, args[j - i]))
            } else {
                former[j]
            },
            3,
        ),
{
    lemma_set_asks(h, v, t, former, s, i, args);
    law_date_part(g, w, u, parts, f, j);
    assert(parts.take(7)[j] == parts[j]);
}

/// `setTime` sets the time that `getTime` gives; `getTimezoneOffset` is zero for every date.
pub proof fn law_time_set_then_got(h: Host, v: Val, t: Num, x: Val, n: Num, g: Host, args: Seq<Val>)
    requires
        date_at(h, v, t),
        h.len == 4,
        numbers_made(h, 2, seq![x], 1),
        (h.reply)(
            3,
            Question { op: Op::TimeClip, args: seq![Val::Num(made_number(h, 2, x))] },
        ) == Answer::Value(Val::Num(n)),
        date_at(g, v, n),
    ensures
        date_method_run(h, 0, DateField::SetTime, Some(v), seq![x]).out == Err::<Val, _>(
            Halt::Ask(
                Question {
                    op: Op::StoreSlot,
                    args: seq![v, Val::Str("\0time"@), Val::Num(n)],
                },
            ),
        ),
        date_method_run(g, 0, DateField::Time, Some(v), args) == done(Val::Num(n), 2),
        !n.nan() ==> date_method_run(g, 0, DateField::TimezoneOffset, Some(v), args) == done(
            Val::Num(num_of(0)),
            2,
        ),
{
    assert(numbers_of(h, 2, seq![x]).take(0) =~= Seq::empty());
    lemma_set_numbers(h, 2, seq![x], 0, Seq::empty());
    assert(time_of(h, 0, v) == done(Some(t), 2));
}

/// The methods that write a date write it in different forms, and those by the locale as their
/// namesakes do.
pub proof fn law_date_texts(h: Host, v: Val, t: Num, f: DateField, style: DateStyle)
    requires
        date_at(h, v, t),
        h.len == 2,
        t.finite(),
        match f {
            DateField::ToStr | DateField::ToLocaleStr => style == DateStyle::Full,
            DateField::ToDateStr | DateField::ToLocaleDateStr => style == DateStyle::DateOnly,
            DateField::ToTimeStr | DateField::ToLocaleTimeStr => style == DateStyle::TimeOnly,
            DateField::ToUtcStr => style == DateStyle::Utc,
            DateField::ToIso => style == DateStyle::Iso,
            _ => false,
        },
    ensures
        date_method_run(h, 0, f, Some(v), Seq::empty()).out == Err::<Val, _>(
            Halt::Ask(Question { op: Op::DateText(style), args: seq![Val::Num(t)] }),
        ),
{
}

} // verus!
