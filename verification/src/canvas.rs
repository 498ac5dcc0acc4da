//! The drawing context of a canvas.
use crate::array_live::count_num;
use crate::functions::{index_number, plain_slot};
use crate::host::{
    ask_flag, ask_list, ask_number, ask_slot, ask_text, ask_value, chain, done, halted, list1,
    list2, list3, list4, opt_view, plays, run_list, run_plain, run_slot, run_text, run_value,
    text_value, Answer, DrawCmd, Halt, Host, Interp, Op, Question, Run, Shape, Stop,
};
use crate::number::{count_of_num, greater, is_greater, num_of, num_to_count, Num};
use crate::number_format::{this_of, this_or_undefined};
use crate::text::{
    chars_of, count_in, is_unicode_space, parse_count, same_text, string_of_range, unicode_space,
};
use crate::value::{
    arg, arg_at, clone_values, strict_eq, strictly_equal, to_bool, truthy, views, Kind, Native, Val,
    Value,
};
use vstd::prelude::*;

verus! {

/// The methods of a drawing context, and `addColorStop` of a gradient.
#[derive(Debug, Clone, Copy, PartialEq, Eq, Structural)]
pub enum CanvasMethod {
    AddColorStop,
    Arc,
    BeginPath,
    BezierCurveTo,
    ClearRect,
    Clip,
    ClosePath,
    CreateImageData,
    CreateLinearGradient,
    CreatePattern,
    CreateRadialGradient,
    DrawImage,
    Ellipse,
    Fill,
    FillRect,
    FillText,
    GetImageData,
    LineTo,
    MeasureText,
    MoveTo,
    Noop,
    PutImageData,
    QuadraticCurveTo,
    Rect,
    ResetTransform,
    Restore,
    Rotate,
    RoundRect,
    Save,
    Scale,
    SetTransform,
    Stroke,
    StrokeRect,
    Transform,
    Translate,
}

pub open spec fn int_val(n: int) -> Val {
    Val::Num(num_of(n))
}

/// An own property of a context, whatever it holds.
pub open spec fn ctx_slot(h: Host, pos: nat, ctx: Val, key: Seq<char>) -> Run<Option<Val>> {
    ask_slot(h, pos, Op::OwnSlot, seq![ctx, Val::Str(key)])
}

pub open spec fn ctx_store(h: Host, pos: nat, ctx: Val, key: Seq<char>, v: Val) -> Run<()> {
    chain(
        ask_value(h, pos, Op::StoreSlot, seq![ctx, Val::Str(key), v]),
        |u: Val, p: nat| done((), p),
    )
}

/// The elements of an array that an own property holds; none where it holds no array.
pub open spec fn ctx_list(h: Host, pos: nat, ctx: Val, key: Seq<char>) -> Run<Option<Seq<Val>>> {
    chain(
        ctx_slot(h, pos, ctx, key),
        |s: Option<Val>, p: nat|
            match s {
                Some(Val::Ref(Kind::Arr, i)) => chain(
                    ask_list(h, p, Op::Elements, seq![Val::Ref(Kind::Arr, i)]),
                    |l: Seq<Val>, q: nat| done(Some(l), q),
                ),
                _ => done(None, p),
            },
    )
}

/// The `i`-th argument as a number of single precision; zero where it is missing.
pub open spec fn single_arg(h: Host, pos: nat, args: Seq<Val>, i: int) -> Run<Val> {
    if 0 <= i < args.len() {
        chain(ask_number(h, pos, Op::Single, seq![args[i]]), |n: Num, p: nat| done(Val::Num(n), p))
    } else {
        done(int_val(0), pos)
    }
}

/// The arguments from the `i`-th up to the `n`-th as numbers of single precision.
pub open spec fn single_args(h: Host, pos: nat, args: Seq<Val>, i: int, n: int, out: Seq<Val>) -> Run<
    Seq<Val>,
>
    decreases n - i,
{
    if i >= n {
        done(out, pos)
    } else {
        let s = single_arg(h, pos, args, i);
        match s.out {
            Err(e) => halted(e, s.pos),
            Ok(v) => single_args(h, s.pos, args, i + 1, n, out.push(v)),
        }
    }
}

/// A number that an own property holds, in single precision.
pub open spec fn ctx_single(h: Host, pos: nat, ctx: Val, key: Seq<char>, none: int) -> Run<Val> {
    chain(
        ctx_slot(h, pos, ctx, key),
        |s: Option<Val>, p: nat|
            match s {
                Some(Val::Num(n)) => chain(
                    ask_number(h, p, Op::Single, seq![Val::Num(n)]),
                    |x: Num, q: nat| done(Val::Num(x), q),
                ),
                _ => done(int_val(none), p),
            },
    )
}

/// A text that an own property holds.
pub open spec fn ctx_text(h: Host, pos: nat, ctx: Val, key: Seq<char>, none: Seq<char>) -> Run<
    Seq<char>,
> {
    chain(
        ctx_slot(h, pos, ctx, key),
        |s: Option<Val>, p: nat|
            done(
                match s {
                    Some(Val::Str(t)) => t,
                    _ => none,
                },
                p,
            ),
    )
}

pub open spec fn black() -> Seq<Val> {
    seq![int_val(0), int_val(0), int_val(0), int_val(255)]
}

pub open spec fn clear() -> Seq<Val> {
    seq![int_val(0), int_val(0), int_val(0), int_val(0)]
}

/// The colour that a text names.
pub open spec fn named_colour(h: Host, pos: nat, text: Seq<char>, none: Seq<Val>) -> Run<Seq<Val>> {
    chain(
        ask_list(h, pos, Op::Colour, seq![Val::Str(text)]),
        |c: Seq<Val>, p: nat|
            done(
                if c.len() == 4 {
                    c
                } else {
                    none
                },
                p,
            ),
    )
}

/// The colour that an own property names.
pub open spec fn ctx_colour(h: Host, pos: nat, ctx: Val, key: Seq<char>, none: Seq<Val>) -> Run<
    Seq<Val>,
> {
    chain(
        ctx_slot(h, pos, ctx, key),
        |s: Option<Val>, p: nat|
            match s {
                Some(Val::Str(t)) => named_colour(h, p, t, none),
                _ => done(none, p),
            },
    )
}

/// Sends a command to a canvas.
pub open spec fn draw(h: Host, pos: nat, canvas: Val, cmd: DrawCmd, params: Seq<Val>) -> Run<()> {
    chain(
        ask_value(h, pos, Op::Draw(cmd), seq![canvas] + params),
        |u: Val, p: nat| done((), p),
    )
}

/// Two lists of the same numbers.
pub open spec fn equal_lists(a: Seq<Val>, b: Seq<Val>) -> bool {
    a.len() == b.len() && forall|i: int|
        0 <= i < a.len() ==> strictly_equal(#[trigger] a[i], b[i])
}

/// The shadow that the context asks for.
pub open spec fn shadow_of(h: Host, pos: nat, ctx: Val) -> Run<Seq<Val>> {
    chain(
        ctx_colour(h, pos, ctx, "shadowColor"@, clear()),
        |c: Seq<Val>, p0: nat|
            chain(
                ctx_single(h, p0, ctx, "shadowBlur"@, 0),
                |blur: Val, p1: nat|
                    chain(
                        ctx_single(h, p1, ctx, "shadowOffsetX"@, 0),
                        |dx: Val, p2: nat|
                            chain(
                                ctx_single(h, p2, ctx, "shadowOffsetY"@, 0),
                                |dy: Val, p3: nat| done(c + seq![blur, dx, dy], p3),
                            ),
                    ),
            ),
    )
}

/// Whether a shadow has to be sent: where it is not the last one, and something shows of it or of
/// one before it.
pub open spec fn shadow_due(last: Seq<Val>, next: Seq<Val>) -> bool {
    !equal_lists(last, next) && (last.len() > 0 || (next.len() > 3 && truthy(next[3])))
}

/// Sends the shadow where it has changed.
pub open spec fn send_shadow(h: Host, pos: nat, ctx: Val, canvas: Val) -> Run<()> {
    chain(
        shadow_of(h, pos, ctx),
        |next: Seq<Val>, p: nat|
            chain(
                ask_list(h, p, Op::LastShadow, seq![canvas]),
                |last: Seq<Val>, q: nat|
                    if shadow_due(last, next) {
                        draw(h, q, canvas, DrawCmd::SetShadow, next)
                    } else {
                        done((), q)
                    },
            ),
    )
}

/// The opacity that everything is drawn with.
pub open spec fn alpha_of(h: Host, pos: nat, ctx: Val) -> Run<Val> {
    chain(
        ctx_slot(h, pos, ctx, "globalAlpha"@),
        |s: Option<Val>, p: nat|
            match s {
                Some(Val::Num(n)) => chain(
                    ask_number(h, p, Op::ClampUnit, seq![Val::Num(n)]),
                    |x: Num, q: nat| done(Val::Num(x), q),
                ),
                _ => done(int_val(1), p),
            },
    )
}

/// A colour of the context, with the opacity applied.
pub open spec fn brush(h: Host, pos: nat, ctx: Val, key: Seq<char>) -> Run<Seq<Val>> {
    chain(
        alpha_of(h, pos, ctx),
        |a: Val, p: nat|
            chain(
                ctx_colour(h, p, ctx, key, black()),
                |c: Seq<Val>, q: nat|
                    chain(
                        ask_number(
                            h,
                            q,
                            Op::ScaleOpacity,
                            seq![
                                if c.len() == 4 {
                                    c[3]
                                } else {
                                    int_val(255)
                                },
                                a,
                            ],
                        ),
                        |x: Num, r: nat| done(c.take(3).push(Val::Num(x)), r),
                    ),
            ),
    )
}

pub open spec fn identity() -> Seq<Val> {
    seq![int_val(1), int_val(0), int_val(0), int_val(1), int_val(0), int_val(0)]
}

/// The transformation that is in force.
pub open spec fn ctm_of(h: Host, pos: nat, ctx: Val) -> Run<Seq<Val>> {
    chain(
        ctx_list(h, pos, ctx, "\0ctm"@),
        |l: Option<Seq<Val>>, p: nat|
            match l {
                Some(m) => single_args(h, p, m, 0, 6, Seq::empty()),
                None => done(identity(), p),
            },
    )
}

pub open spec fn store_list(h: Host, pos: nat, ctx: Val, key: Seq<char>, l: Seq<Val>) -> Run<()> {
    chain(
        ask_value(h, pos, Op::NewArray, l),
        |a: Val, p: nat| ctx_store(h, p, ctx, key, a),
    )
}

/// Starts a path with these points.
pub open spec fn set_path(h: Host, pos: nat, ctx: Val, points: Seq<Val>) -> Run<()> {
    store_list(h, pos, ctx, "\0path"@, points)
}

/// Adds points to the path; nothing happens where there is no path.
pub open spec fn push_path(h: Host, pos: nat, ctx: Val, points: Seq<Val>) -> Run<()> {
    chain(
        ctx_slot(h, pos, ctx, "\0path"@),
        |s: Option<Val>, p: nat|
            match s {
                Some(Val::Ref(Kind::Arr, i)) => chain(
                    ask_list(h, p, Op::Elements, seq![Val::Ref(Kind::Arr, i)]),
                    |l: Seq<Val>, q: nat|
                        chain(
                            ask_value(
                                h,
                                q,
                                Op::StoreElements,
                                seq![Val::Ref(Kind::Arr, i)] + (l + points),
                            ),
                            |u: Val, r: nat| done((), r),
                        ),
                ),
                _ => done((), p),
            },
    )
}

/// The coordinates of whole points.
pub open spec fn whole_points(l: Seq<Val>) -> Seq<Val> {
    l.take(l.len() - l.len() % 2)
}

/// The points of the path, as coordinates; none where there is no path.
pub open spec fn get_path(h: Host, pos: nat, ctx: Val) -> Run<Seq<Val>> {
    chain(
        ctx_list(h, pos, ctx, "\0path"@),
        |l: Option<Seq<Val>>, p: nat|
            match l {
                Some(flat) => chain(
                    ask_list(h, p, Op::Singles, whole_points(flat)),
                    |pts: Seq<Val>, q: nat| done(whole_points(pts), q),
                ),
                None => done(Seq::empty(), p),
            },
    )
}

/// The end of the word that starts at `i`.
pub open spec fn word_end(s: Seq<char>, i: nat) -> nat
    decreases s.len() - i,
{
    if i >= s.len() || unicode_space(s[i as int]) {
        i
    } else {
        word_end(s, i + 1)
    }
}

pub open spec fn space_end(s: Seq<char>, i: nat) -> nat
    decreases s.len() - i,
{
    if i < s.len() && unicode_space(s[i as int]) {
        space_end(s, i + 1)
    } else {
        i
    }
}

/// A word that ends in `px`, without that.
pub open spec fn pixels(w: Seq<char>) -> Option<Seq<char>> {
    if w.len() >= 2 && w[w.len() - 2] == 'p' && w[w.len() - 1] == 'x' {
        Some(w.take(w.len() - 2))
    } else {
        None
    }
}

/// The size in a font's text from `i` on: the first word that is a number of pixels; else ten.
pub open spec fn font_px_from(h: Host, pos: nat, font: Seq<char>, i: nat) -> Run<Num>
    decreases font.len() - i,
{
    let a = space_end(font, i);
    let b = word_end(font, a);
    if i >= font.len() || b <= i || b > font.len() || a > b {
        done(num_of(10), pos)
    } else {
        match pixels(font.subrange(a as int, b as int)) {
            None => font_px_from(h, pos, font, b),
            Some(t) => {
                let s = ask_slot(h, pos, Op::ParseSingle, seq![Val::Str(t)]);
                match s.out {
                    Err(e) => halted(e, s.pos),
                    Ok(Some(Val::Num(n))) => done(n, s.pos),
                    Ok(_) => font_px_from(h, s.pos, font, b),
                }
            },
        }
    }
}

pub open spec fn font_px(h: Host, pos: nat, font: Seq<char>) -> Run<Num> {
    font_px_from(h, pos, font, 0)
}

/// The size of the context's font.
pub open spec fn ctx_font_px(h: Host, pos: nat, ctx: Val) -> Run<Num> {
    chain(
        ctx_slot(h, pos, ctx, "font"@),
        |s: Option<Val>, p: nat|
            match s {
                Some(Val::Str(t)) => font_px(h, p, t),
                _ => done(num_of(10), p),
            },
    )
}

/// A colour of a gradient and where it stands.
#[verifier::ext_equal]
pub struct ColourStopV {
    pub colour: Seq<Val>,
    pub at: Num,
}

pub struct ColourStop {
    pub colour: Vec<Value>,
    pub at: Num,
}

impl View for ColourStop {
    type V = ColourStopV;

    open spec fn view(&self) -> ColourStopV {
        ColourStopV { colour: views(self.colour@), at: self.at }
    }
}

pub open spec fn stop_views(s: Seq<ColourStop>) -> Seq<ColourStopV> {
    Seq::new(s.len(), |i: int| s[i]@)
}

/// The stops with one more, after those that are not beyond it.
pub open spec fn stop_inserted(s: Seq<ColourStopV>, x: ColourStopV) -> Seq<ColourStopV>
    decreases s.len(),
{
    if s.len() == 0 || !greater(s.last().at, x.at) {
        s.push(x)
    } else {
        stop_inserted(s.drop_last(), x).push(s.last())
    }
}

/// One entry of a gradient's list of stops; none where it is no pair.
pub open spec fn stop_at(h: Host, pos: nat, entry: Val) -> Run<Option<ColourStopV>> {
    match entry {
        Val::Ref(Kind::Arr, _) => chain(
            ask_list(h, pos, Op::Elements, seq![entry]),
            |pair: Seq<Val>, p: nat|
                chain(
                    single_arg(h, p, pair, 0),
                    |at: Val, q: nat|
                        chain(
                            if pair.len() > 1 {
                                chain(
                                    ask_text(h, q, Op::Display, seq![pair[1]]),
                                    |t: Seq<char>, r: nat| named_colour(h, r, t, black()),
                                )
                            } else {
                                done(black(), q)
                            },
                            |c: Seq<Val>, r: nat|
                                done(
                                    Some(
                                        ColourStopV {
                                            colour: c,
                                            at: match at {
                                                Val::Num(n) => n,
                                                _ => num_of(0),
                                            },
                                        },
                                    ),
                                    r,
                                ),
                        ),
                ),
        ),
        _ => done(None, pos),
    }
}

/// The stops of a gradient from the `i`-th entry on, in order.
pub open spec fn stops_from(h: Host, pos: nat, list: Seq<Val>, i: int, out: Seq<ColourStopV>) -> Run<
    Seq<ColourStopV>,
>
    decreases list.len() - i,
{
    if !(0 <= i < list.len()) {
        done(out, pos)
    } else {
        let s = stop_at(h, pos, list[i]);
        match s.out {
            Err(e) => halted(e, s.pos),
            Ok(None) => stops_from(h, s.pos, list, i + 1, out),
            Ok(Some(x)) => stops_from(h, s.pos, list, i + 1, stop_inserted(out, x)),
        }
    }
}

/// The stops as a list of numbers: four of the colour and one of the place for each.
pub open spec fn flat_stops(s: Seq<ColourStopV>) -> Seq<Val>
    decreases s.len(),
{
    if s.len() == 0 {
        Seq::empty()
    } else {
        flat_stops(s.drop_last()) + s.last().colour.push(Val::Num(s.last().at))
    }
}

/// What an area is filled with.
#[verifier::ext_equal]
pub enum PaintV {
    Colour,
    Gradient(Seq<Val>, Seq<ColourStopV>),
    Pattern(u64, bool),
}

pub enum Paint {
    Colour,
    Gradient(Vec<Value>, Vec<ColourStop>),
    Pattern(u64, bool),
}

impl View for Paint {
    type V = PaintV;

    open spec fn view(&self) -> PaintV {
        match self {
            Paint::Colour => PaintV::Colour,
            Paint::Gradient(a, b) => PaintV::Gradient(views(a@), stop_views(b@)),
            Paint::Pattern(a, b) => PaintV::Pattern(*a, *b),
        }
    }
}

pub open spec fn paint_run(r: Result<Paint, Stop>, it: Interp) -> Run<PaintV> {
    match r {
        Ok(o) => done(o@, it.pos as nat),
        Err(e) => halted(e@, it.pos as nat),
    }
}

pub open spec fn stops_run(r: Result<Vec<ColourStop>, Stop>, it: Interp) -> Run<Seq<ColourStopV>> {
    match r {
        Ok(o) => done(stop_views(o@), it.pos as nat),
        Err(e) => halted(e@, it.pos as nat),
    }
}

pub open spec fn stop_run(r: Result<Option<ColourStop>, Stop>, it: Interp) -> Run<
    Option<ColourStopV>,
> {
    match r {
        Ok(Some(o)) => done(Some(o@), it.pos as nat),
        Ok(None) => done(None, it.pos as nat),
        Err(e) => halted(e@, it.pos as nat),
    }
}

pub open spec fn opt_list_run(r: Result<Option<Vec<Value>>, Stop>, it: Interp) -> Run<
    Option<Seq<Val>>,
> {
    match r {
        Ok(Some(o)) => done(Some(views(o@)), it.pos as nat),
        Ok(None) => done(None, it.pos as nat),
        Err(e) => halted(e@, it.pos as nat),
    }
}

/// A gradient's stops.
pub open spec fn stops_of(h: Host, pos: nat, v: Val) -> Run<Seq<ColourStopV>> {
    chain(
        ctx_list(h, pos, v, "\0stops"@),
        |l: Option<Seq<Val>>, p: nat|
            match l {
                Some(list) => stops_from(h, p, list, 0, Seq::empty()),
                None => done(Seq::empty(), p),
            },
    )
}

/// A gradient: six numbers for a radial one, four for a linear one.
pub open spec fn gradient_of(h: Host, pos: nat, v: Val, params: Seq<Val>) -> Run<PaintV> {
    chain(
        single_args(
            h,
            pos,
            params,
            0,
            if params.len() >= 6 {
                6
            } else {
                4
            },
            Seq::empty(),
        ),
        |g: Seq<Val>, p: nat|
            chain(
                stops_of(h, p, v),
                |s: Seq<ColourStopV>, q: nat| done(PaintV::Gradient(g, s), q),
            ),
    )
}

/// A pattern: the number of its image, and whether it repeats.
pub open spec fn fill_pattern_of(h: Host, pos: nat, v: Val) -> Run<PaintV> {
    chain(
        ctx_list(h, pos, v, "\0pattern"@),
        |l: Option<Seq<Val>>, p: nat|
            match l {
                None => done(PaintV::Colour, p),
                Some(list) => if list.len() == 0 {
                    done(PaintV::Colour, p)
                } else {
                    chain(
                        ask_number(h, p, Op::PlainNumber, seq![list[0]]),
                        |n: Num, q: nat|
                            done(
                                PaintV::Pattern(
                                    count_of_num(n),
                                    list.len() < 2 || truthy(list[1]),
                                ),
                                q,
                            ),
                    )
                },
            },
    )
}

/// What the context fills with.
pub open spec fn paint_of(h: Host, pos: nat, ctx: Val) -> Run<PaintV> {
    chain(
        ctx_slot(h, pos, ctx, "fillStyle"@),
        |s: Option<Val>, p: nat|
            match s {
                Some(Val::Ref(Kind::Obj, i)) => chain(
                    ctx_list(h, p, Val::Ref(Kind::Obj, i), "\0grad"@),
                    |l: Option<Seq<Val>>, q: nat|
                        match l {
                            Some(params) => gradient_of(h, q, Val::Ref(Kind::Obj, i), params),
                            None => fill_pattern_of(h, q, Val::Ref(Kind::Obj, i)),
                        },
                ),
                _ => done(PaintV::Colour, p),
            },
    )
}

/// Fills an area: the box `rect`, and inside it the polygon `shape` where there is one.
pub open spec fn fill_area(
    h: Host,
    pos: nat,
    ctx: Val,
    canvas: Val,
    rect: Seq<Val>,
    shape: Seq<Val>,
    plain: DrawCmd,
) -> Run<()> {
    chain(
        paint_of(h, pos, ctx),
        |paint: PaintV, p: nat|
            match paint {
                PaintV::Gradient(g, s) => draw(
                    h,
                    p,
                    canvas,
                    DrawCmd::FillGradient,
                    rect + counted(shape) + counted(g) + flat_stops(s),
                ),
                PaintV::Pattern(i, repeat) => draw(
                    h,
                    p,
                    canvas,
                    DrawCmd::FillPattern,
                    rect + counted(shape) + seq![
                        Val::Num(count_num(i as nat)),
                        Val::Bool(repeat),
                    ],
                ),
                PaintV::Colour => chain(
                    brush(h, p, ctx, "fillStyle"@),
                    |c: Seq<Val>, q: nat|
                        draw(
                            h,
                            q,
                            canvas,
                            plain,
                            if plain == DrawCmd::FillPath {
                                counted(shape) + c
                            } else {
                                rect + c
                            },
                        ),
                ),
            },
    )
}

/// A list after its length.
pub open spec fn counted(l: Seq<Val>) -> Seq<Val> {
    seq![Val::Num(count_num(l.len()))] + l
}

pub open spec fn nothing(r: Run<()>) -> Run<Val> {
    chain(r, |u: (), p: nat| done(Val::Undefined, p))
}

/// `addColorStop`.
pub open spec fn add_colour_stop(h: Host, pos: nat, g: Val, args: Seq<Val>) -> Run<Val> {
    chain(
        if args.len() > 0 {
            ask_number(h, pos, Op::PlainNumber, seq![args[0]])
        } else {
            done(num_of(0), pos)
        },
        |at: Num, p0: nat|
            chain(
                display_arg(h, p0, args, 1),
                |col: Seq<char>, p1: nat|
                    chain(
                        ask_value(h, p1, Op::NewArray, seq![Val::Num(at), Val::Str(col)]),
                        |entry: Val, p2: nat| nothing(list_append(h, p2, g, "\0stops"@, entry)),
                    ),
            ),
    )
}

/// An argument as the console shows it; empty where it is missing.
pub open spec fn display_arg(h: Host, pos: nat, args: Seq<Val>, i: int) -> Run<Seq<char>> {
    if 0 <= i < args.len() {
        ask_text(h, pos, Op::Display, seq![args[i]])
    } else {
        done(Seq::empty(), pos)
    }
}

/// Adds a value to the array that an own property holds.
pub open spec fn list_append(h: Host, pos: nat, v: Val, key: Seq<char>, x: Val) -> Run<()> {
    chain(
        ctx_slot(h, pos, v, key),
        |s: Option<Val>, p: nat|
            match s {
                Some(Val::Ref(Kind::Arr, i)) => chain(
                    ask_list(h, p, Op::Elements, seq![Val::Ref(Kind::Arr, i)]),
                    |l: Seq<Val>, q: nat|
                        chain(
                            ask_value(
                                h,
                                q,
                                Op::StoreElements,
                                seq![Val::Ref(Kind::Arr, i)] + l.push(x),
                            ),
                            |u: Val, r: nat| done((), r),
                        ),
                ),
                _ => done((), p),
            },
    )
}

/// `createLinearGradient` and `createRadialGradient`.
pub open spec fn create_gradient(h: Host, pos: nat, args: Seq<Val>, n: int) -> Run<Val> {
    chain(
        single_args(h, pos, args, 0, n, Seq::empty()),
        |params: Seq<Val>, p0: nat|
            chain(
                ask_value(h, p0, Op::NewArray, params),
                |grad: Val, p1: nat|
                    chain(
                        ask_value(h, p1, Op::NewArray, Seq::empty()),
                        |stops: Val, p2: nat|
                            ask_value(
                                h,
                                p2,
                                Op::NewObject,
                                seq![
                                    Val::Str("\0grad"@),
                                    grad,
                                    Val::Str("\0stops"@),
                                    stops,
                                    Val::Str("addColorStop"@),
                                    Val::Native(Native::Canvas(CanvasMethod::AddColorStop)),
                                ],
                            ),
                    ),
            ),
    )
}

/// The number of the image that an element shows: by its full address, or else by its text.
pub open spec fn image_of(h: Host, pos: nat, v: Val) -> Run<Option<Val>> {
    match v {
        Val::Ref(Kind::Dom, _) => chain(
            ask_slot(h, pos, Op::ImageSource, seq![v]),
            |src: Option<Val>, p0: nat|
                match src {
                    None => done(None, p0),
                    Some(raw) => chain(
                        ask_text(h, p0, Op::AbsoluteUrl, seq![raw]),
                        |abs: Seq<char>, p1: nat|
                            chain(
                                ask_slot(h, p1, Op::ImageAt, seq![Val::Str(abs)]),
                                |i: Option<Val>, p2: nat|
                                    match i {
                                        Some(x) => done(Some(x), p2),
                                        None => ask_slot(h, p2, Op::ImageAt, seq![raw]),
                                    },
                            ),
                    ),
                },
        ),
        _ => done(None, pos),
    }
}

pub open spec fn warn(h: Host, pos: nat, message: Seq<char>) -> Run<()> {
    chain(
        ask_value(h, pos, Op::CanvasWarn, seq![Val::Str(message)]),
        |u: Val, p: nat| done((), p),
    )
}

/// `createPattern`.
pub open spec fn create_pattern(h: Host, pos: nat, args: Seq<Val>) -> Run<Val> {
    chain(
        image_of(h, pos, arg(args, 0)),
        |i: Option<Val>, p0: nat|
            match i {
                None => chain(
                    warn(
                        h,
                        p0,
                        "createPattern 의 소스를 찾지 못했다 (<img> 요소만 지원)"@,
                    ),
                    |u: (), p: nat| done(Val::Null, p),
                ),
                Some(idx) => chain(
                    display_arg(h, p0, args, 1),
                    |rep: Seq<char>, p1: nat|
                        chain(
                            ask_value(
                                h,
                                p1,
                                Op::NewArray,
                                seq![
                                    idx,
                                    Val::Bool(args.len() < 2 || rep != "no-repeat"@),
                                ],
                            ),
                            |a: Val, p2: nat|
                                ask_value(h, p2, Op::NewObject, seq![Val::Str("\0pattern"@), a]),
                        ),
                ),
            },
    )
}

/// A size as a canvas element gives it.
pub open spec fn size_attr(h: Host, pos: nat, canvas: Val, name: Seq<char>, none: u64) -> Run<u64> {
    chain(
        ask_slot(h, pos, Op::AttributeText, seq![canvas, Val::Str(name)]),
        |s: Option<Val>, p: nat|
            done(
                match s {
                    Some(Val::Str(t)) => match count_in(t) {
                        Some(n) => n,
                        None => none,
                    },
                    _ => none,
                },
                p,
            ),
    )
}

/// One byte of a picture that is cut out of another: zero outside.
pub open spec fn cut_byte(rgba: Seq<Val>, cw: nat, ch: nat, x: nat, y: nat, k: nat) -> Val {
    let o = (y * cw + x) * 4 + k;
    if x < cw && y < ch && o < rgba.len() {
        rgba[o as int]
    } else {
        int_val(0)
    }
}

/// The four bytes of one point.
pub open spec fn cut_point(rgba: Seq<Val>, cw: nat, ch: nat, x: nat, y: nat) -> Seq<Val> {
    seq![
        cut_byte(rgba, cw, ch, x, y, 0),
        cut_byte(rgba, cw, ch, x, y, 1),
        cut_byte(rgba, cw, ch, x, y, 2),
        cut_byte(rgba, cw, ch, x, y, 3),
    ]
}

/// The first `n` points of a row of a picture that is cut out.
pub open spec fn cut_row(rgba: Seq<Val>, cw: nat, ch: nat, sx: nat, y: nat, n: nat) -> Seq<Val>
    decreases n,
{
    if n == 0 {
        Seq::empty()
    } else {
        cut_row(rgba, cw, ch, sx, y, (n - 1) as nat) + cut_point(
            rgba,
            cw,
            ch,
            (sx + n - 1) as nat,
            y,
        )
    }
}

/// The first `n` rows of a picture that is cut out.
pub open spec fn cut_rows(rgba: Seq<Val>, cw: nat, ch: nat, sx: nat, sy: nat, sw: nat, n: nat) -> Seq<Val>
    decreases n,
{
    if n == 0 {
        Seq::empty()
    } else {
        cut_rows(rgba, cw, ch, sx, sy, sw, (n - 1) as nat) + cut_row(
            rgba,
            cw,
            ch,
            sx,
            (sy + n - 1) as nat,
            sw,
        )
    }
}

pub open spec fn num_in(v: Val) -> Num {
    match v {
        Val::Num(n) => n,
        _ => num_of(0),
    }
}

/// An object with the bytes of a picture.
pub open spec fn image_data(h: Host, pos: nat, w: u64, height: u64, data: Seq<Val>) -> Run<Val> {
    chain(
        ask_value(h, pos, Op::NewArray, data),
        |a: Val, p: nat|
            ask_value(
                h,
                p,
                Op::NewObject,
                seq![
                    Val::Str("width"@),
                    Val::Num(count_num(w as nat)),
                    Val::Str("height"@),
                    Val::Num(count_num(height as nat)),
                    Val::Str("data"@),
                    a,
                ],
            ),
    )
}

/// `getImageData`.
pub open spec fn get_image_data(h: Host, pos: nat, canvas: Val, args: Seq<Val>) -> Run<Val> {
    chain(
        single_args(h, pos, args, 0, 4, Seq::empty()),
        |a: Seq<Val>, p0: nat|
            if a.len() != 4 || count_of_num(num_in(a[2])) == 0 || count_of_num(num_in(a[3])) == 0 {
                done(Val::Null, p0)
            } else {
                chain(
                    ask_flag(h, p0, Op::CanRender, Seq::empty()),
                    |can: bool, p1: nat|
                        if !can {
                            chain(
                                warn(h, p1, "getImageData 는 렌더 컨텍스트가 필요하다"@),
                                |u: (), p: nat| done(Val::Null, p),
                            )
                        } else {
                            cut_out(
                                h,
                                p1,
                                canvas,
                                count_of_num(num_in(a[0])),
                                count_of_num(num_in(a[1])),
                                count_of_num(num_in(a[2])),
                                count_of_num(num_in(a[3])),
                            )
                        },
                )
            },
    )
}

pub open spec fn cut_out(h: Host, pos: nat, canvas: Val, sx: u64, sy: u64, sw: u64, sh: u64) -> Run<
    Val,
> {
    chain(
        size_attr(h, pos, canvas, "width"@, 300),
        |cw: u64, p0: nat|
            chain(
                size_attr(h, p0, canvas, "height"@, 150),
                |ch: u64, p1: nat|
                    chain(
                        ask_list(
                            h,
                            p1,
                            Op::Raster,
                            seq![
                                canvas,
                                Val::Num(count_num(cw as nat)),
                                Val::Num(count_num(ch as nat)),
                            ],
                        ),
                        |rgba: Seq<Val>, p2: nat|
                            image_data(
                                h,
                                p2,
                                sw,
                                sh,
                                cut_rows(
                                    rgba,
                                    cw as nat,
                                    ch as nat,
                                    sx as nat,
                                    sy as nat,
                                    sw as nat,
                                    sh as nat,
                                ),
                            ),
                    ),
            ),
    )
}

/// `createImageData`.
pub open spec fn create_image_data(h: Host, pos: nat, args: Seq<Val>) -> Run<Val> {
    chain(
        single_args(h, pos, args, 0, 2, Seq::empty()),
        |a: Seq<Val>, p: nat|
            {
                let w = if a.len() == 2 {
                    count_of_num(num_in(a[0]))
                } else {
                    0
                };
                let n = if a.len() == 2 {
                    count_of_num(num_in(a[1]))
                } else {
                    0
                };
                image_data(
                    h,
                    p,
                    w,
                    n,
                    cut_rows(Seq::empty(), 0, 0, 0, 0, w as nat, n as nat),
                )
            },
    )
}

/// A number as a byte.
pub open spec fn byte_of(n: Num) -> Val {
    let c = count_of_num(n);
    int_val(
        if c > 255 {
            255
        } else {
            c as int
        },
    )
}

/// The first `n` values as bytes.
pub open spec fn bytes_from(h: Host, pos: nat, l: Seq<Val>, i: int, n: int, out: Seq<Val>) -> Run<
    Seq<Val>,
>
    decreases n - i,
{
    if i >= n || !(0 <= i < l.len()) {
        done(out, pos)
    } else {
        let s = ask_number(h, pos, Op::PlainNumber, seq![l[i]]);
        match s.out {
            Err(e) => halted(e, s.pos),
            Ok(x) => bytes_from(h, s.pos, l, i + 1, n, out.push(byte_of(x))),
        }
    }
}

/// A size that an object gives.
pub open spec fn size_field(h: Host, pos: nat, d: Val, key: Seq<char>) -> Run<u64> {
    chain(
        plain_slot(h, pos, d, key),
        |s: Option<Val>, p: nat|
            match s {
                Some(v) => chain(
                    ask_number(h, p, Op::PlainNumber, seq![v]),
                    |n: Num, q: nat| done(count_of_num(n), q),
                ),
                None => done(0, p),
            },
    )
}

/// `putImageData`.
pub open spec fn put_image_data(h: Host, pos: nat, canvas: Val, args: Seq<Val>) -> Run<Val> {
    let d = arg(args, 0);
    match d {
        Val::Ref(Kind::Obj, _) => chain(
            size_field(h, pos, d, "width"@),
            |w: u64, p0: nat|
                chain(
                    size_field(h, p0, d, "height"@),
                    |n: u64, p1: nat|
                        chain(
                            ctx_list(h, p1, d, "data"@),
                            |l: Option<Seq<Val>>, p2: nat|
                                match l {
                                    Some(px) => if w == 0 || n == 0 || px.len() < w * n * 4 {
                                        done(Val::Undefined, p2)
                                    } else {
                                        put_pixels(h, p2, canvas, args, w, n, px)
                                    },
                                    None => done(Val::Undefined, p2),
                                },
                        ),
                ),
        ),
        _ => done(Val::Undefined, pos),
    }
}

pub open spec fn put_pixels(
    h: Host,
    pos: nat,
    canvas: Val,
    args: Seq<Val>,
    w: u64,
    n: u64,
    px: Seq<Val>,
) -> Run<Val> {
    chain(
        bytes_from(h, pos, px, 0, w * n * 4, Seq::empty()),
        |rgba: Seq<Val>, p: nat|
            chain(
                single_args(h, p, args, 1, 3, Seq::empty()),
                |at: Seq<Val>, q: nat|
                    nothing(
                        draw(
                            h,
                            q,
                            canvas,
                            DrawCmd::PutImage,
                            at + seq![
                                Val::Num(count_num(w as nat)),
                                Val::Num(count_num(n as nat)),
                            ] + rgba,
                        ),
                    ),
            ),
    )
}

/// `clip`.
pub open spec fn clip(h: Host, pos: nat, ctx: Val, canvas: Val) -> Run<Val> {
    chain(
        get_path(h, pos, ctx),
        |pts: Seq<Val>, p: nat|
            if pts.len() < 6 {
                nothing(warn(h, p, "clip() 에 경로가 없다"@))
            } else {
                chain(
                    store_list(h, p, ctx, "\0clip"@, pts),
                    |u: (), q: nat| nothing(draw(h, q, canvas, DrawCmd::Clip, pts)),
                )
            },
    )
}

/// `bezierCurveTo` and `quadraticCurveTo`: nothing happens without a point to start from.
pub open spec fn curve_to(h: Host, pos: nat, ctx: Val, args: Seq<Val>, shape: Shape, n: int) -> Run<Val> {
    chain(
        get_path(h, pos, ctx),
        |path: Seq<Val>, p: nat|
            if path.len() < 2 {
                done(Val::Undefined, p)
            } else {
                chain(
                    single_args(h, p, args, 0, n, Seq::empty()),
                    |c: Seq<Val>, q: nat|
                        chain(
                            ask_list(
                                h,
                                q,
                                Op::Points(shape),
                                path.skip(path.len() - 2) + c,
                            ),
                            |pts: Seq<Val>, r: nat| nothing(push_path(h, r, ctx, pts)),
                        ),
                )
            },
    )
}

/// The methods that add the points of a shape to the path.
pub open spec fn add_shape(h: Host, pos: nat, ctx: Val, args: Seq<Val>, shape: Shape, n: int) -> Run<Val> {
    chain(
        single_args(h, pos, args, 0, n, Seq::empty()),
        |c: Seq<Val>, p: nat|
            chain(
                ask_list(h, p, Op::Points(shape), c),
                |pts: Seq<Val>, q: nat| nothing(push_path(h, q, ctx, pts)),
            ),
    )
}

/// The transformation that a method asks for.
pub open spec fn asked_transform(h: Host, pos: nat, method: CanvasMethod, args: Seq<Val>) -> Run<
    Seq<Val>,
> {
    if method == CanvasMethod::Translate {
        chain(
            single_args(h, pos, args, 0, 2, Seq::empty()),
            |a: Seq<Val>, p: nat|
                done(seq![int_val(1), int_val(0), int_val(0), int_val(1)] + a, p),
        )
    } else if method == CanvasMethod::Scale {
        chain(
            single_arg(h, pos, args, 0),
            |x: Val, p: nat|
                chain(
                    single_arg(h, p, args, 1),
                    |y: Val, q: nat|
                        done(
                            seq![x, int_val(0), int_val(0), y, int_val(0), int_val(0)],
                            q,
                        ),
                ),
        )
    } else if method == CanvasMethod::Rotate {
        chain(
            single_arg(h, pos, args, 0),
            |t: Val, p: nat| ask_list(h, p, Op::Rotation, seq![t]),
        )
    } else if method == CanvasMethod::ResetTransform {
        done(identity(), pos)
    } else {
        single_args(h, pos, args, 0, 6, Seq::empty())
    }
}

/// Whether a method puts its transformation in place of the one in force.
pub open spec fn replaces(method: CanvasMethod) -> bool {
    method == CanvasMethod::SetTransform || method == CanvasMethod::ResetTransform
}

/// The methods that change the transformation.
pub open spec fn transform(h: Host, pos: nat, ctx: Val, canvas: Val, method: CanvasMethod, args: Seq<Val>) -> Run<
    Val,
> {
    chain(
        ctm_of(h, pos, ctx),
        |cur: Seq<Val>, p0: nat|
            chain(
                asked_transform(h, p0, method, args),
                |m: Seq<Val>, p1: nat|
                    chain(
                        if replaces(method) {
                            done(m, p1)
                        } else {
                            ask_list(h, p1, Op::Compose, m + cur)
                        },
                        |new: Seq<Val>, p2: nat|
                            chain(
                                store_list(h, p2, ctx, "\0ctm"@, new),
                                |u: (), p3: nat|
                                    nothing(draw(h, p3, canvas, DrawCmd::SetTransform, new)),
                            ),
                    ),
            ),
    )
}

/// What `save` keeps, but for the clip.
pub open spec fn saved_key(i: int) -> Seq<char> {
    if i == 0 {
        "\0ctm"@
    } else if i == 1 {
        "fillStyle"@
    } else if i == 2 {
        "strokeStyle"@
    } else if i == 3 {
        "lineWidth"@
    } else if i == 4 {
        "font"@
    } else if i == 5 {
        "globalAlpha"@
    } else if i == 6 {
        "lineCap"@
    } else if i == 7 {
        "lineJoin"@
    } else if i == 8 {
        "textAlign"@
    } else if i == 9 {
        "textBaseline"@
    } else if i == 10 {
        "shadowColor"@
    } else if i == 11 {
        "shadowBlur"@
    } else if i == 12 {
        "shadowOffsetX"@
    } else if i == 13 {
        "shadowOffsetY"@
    } else if i == 14 {
        "globalCompositeOperation"@
    } else {
        "miterLimit"@
    }
}

pub const SAVED: usize = 16;

/// The state from the `i`-th property on.
pub open spec fn snapshot_from(h: Host, pos: nat, ctx: Val, i: int, out: Seq<Val>) -> Run<Seq<Val>>
    decreases SAVED - i,
{
    if i >= SAVED {
        done(out, pos)
    } else {
        let s = ctx_slot(h, pos, ctx, saved_key(i));
        match s.out {
            Err(e) => halted(e, s.pos),
            Ok(v) => snapshot_from(
                h,
                s.pos,
                ctx,
                i + 1,
                out.push(
                    match v {
                        Some(x) => x,
                        None => Val::Undefined,
                    },
                ),
            ),
        }
    }
}

/// Everything that `save` keeps.
pub open spec fn snapshot(h: Host, pos: nat, ctx: Val) -> Run<Seq<Val>> {
    chain(
        snapshot_from(h, pos, ctx, 0, Seq::empty()),
        |l: Seq<Val>, p: nat|
            chain(
                ctx_slot(h, p, ctx, "\0clip"@),
                |c: Option<Val>, q: nat|
                    done(
                        l.push(
                            match c {
                                Some(x) => x,
                                None => Val::Null,
                            },
                        ),
                        q,
                    ),
            ),
    )
}

/// `save`.
pub open spec fn save(h: Host, pos: nat, ctx: Val) -> Run<Val> {
    chain(
        snapshot(h, pos, ctx),
        |snap: Seq<Val>, p0: nat|
            chain(
                ask_value(h, p0, Op::NewArray, snap),
                |a: Val, p1: nat|
                    chain(
                        ctx_list(h, p1, ctx, "\0stack"@),
                        |stack: Option<Seq<Val>>, p2: nat|
                            match stack {
                                Some(_) => nothing(list_append(h, p2, ctx, "\0stack"@, a)),
                                None => nothing(store_list(h, p2, ctx, "\0stack"@, seq![a])),
                            },
                    ),
            ),
    )
}

/// Puts the properties from the `i`-th on back to what was kept; what was missing stays as it is.
pub open spec fn state_put_back(h: Host, pos: nat, ctx: Val, snap: Seq<Val>, i: int) -> Run<()>
    decreases SAVED - i,
{
    if i < 0 || i >= SAVED || i >= snap.len() {
        done((), pos)
    } else if snap[i] is Undefined {
        state_put_back(h, pos, ctx, snap, i + 1)
    } else {
        let s = ctx_store(h, pos, ctx, saved_key(i), snap[i]);
        match s.out {
            Err(e) => halted(e, s.pos),
            Ok(_) => state_put_back(h, s.pos, ctx, snap, i + 1),
        }
    }
}

/// The clip that was kept: none is in force where there was none.
pub open spec fn clip_kept(snap: Seq<Val>) -> Val {
    if snap.len() > SAVED {
        snap[SAVED as int]
    } else {
        Val::Null
    }
}

/// Tells the canvas of the clip that is in force again.
pub open spec fn send_clip(h: Host, pos: nat, canvas: Val, kept: Val) -> Run<()> {
    match kept {
        Val::Ref(Kind::Arr, _) => chain(
            ask_list(h, pos, Op::Elements, seq![kept]),
            |l: Seq<Val>, p: nat|
                chain(
                    ask_list(h, p, Op::Singles, whole_points(l)),
                    |pts: Seq<Val>, q: nat| draw(h, q, canvas, DrawCmd::Clip, pts),
                ),
        ),
        _ => draw(h, pos, canvas, DrawCmd::Unclip, Seq::empty()),
    }
}

/// Goes back to a state that was kept.
pub open spec fn restore_state(h: Host, pos: nat, ctx: Val, canvas: Val, snap: Seq<Val>) -> Run<Val> {
    chain(
        state_put_back(h, pos, ctx, snap, 0),
        |u: (), p0: nat|
            chain(
                ctx_store(h, p0, ctx, "\0clip"@, clip_kept(snap)),
                |w: (), p1: nat|
                    chain(
                        ctm_of(h, p1, ctx),
                        |m: Seq<Val>, p2: nat|
                            chain(
                                draw(h, p2, canvas, DrawCmd::SetTransform, m),
                                |z: (), p3: nat|
                                    nothing(send_clip(h, p3, canvas, clip_kept(snap))),
                            ),
                    ),
            ),
    )
}

/// The last state that was kept, taken off the stack; none where the stack is empty.
pub open spec fn pop_state(h: Host, pos: nat, ctx: Val) -> Run<Option<Val>> {
    chain(
        ctx_slot(h, pos, ctx, "\0stack"@),
        |s: Option<Val>, p: nat|
            match s {
                Some(Val::Ref(Kind::Arr, i)) => chain(
                    ask_list(h, p, Op::Elements, seq![Val::Ref(Kind::Arr, i)]),
                    |l: Seq<Val>, q: nat|
                        if l.len() == 0 {
                            done(None, q)
                        } else {
                            chain(
                                ask_value(
                                    h,
                                    q,
                                    Op::StoreElements,
                                    seq![Val::Ref(Kind::Arr, i)] + l.drop_last(),
                                ),
                                |u: Val, r: nat| done(Some(l.last()), r),
                            )
                        },
                ),
                _ => done(None, p),
            },
    )
}

/// `restore`.
pub open spec fn restore(h: Host, pos: nat, ctx: Val, canvas: Val) -> Run<Val> {
    chain(
        pop_state(h, pos, ctx),
        |s: Option<Val>, p: nat|
            match s {
                Some(Val::Ref(Kind::Arr, i)) => chain(
                    ask_list(h, p, Op::Elements, seq![Val::Ref(Kind::Arr, i)]),
                    |snap: Seq<Val>, q: nat| restore_state(h, q, ctx, canvas, snap),
                ),
                _ => done(Val::Undefined, p),
            },
    )
}

/// `measureText`.
pub open spec fn measure_text(h: Host, pos: nat, ctx: Val, args: Seq<Val>) -> Run<Val> {
    chain(
        display_arg(h, pos, args, 0),
        |text: Seq<char>, p0: nat|
            chain(
                ctx_font_px(h, p0, ctx),
                |px: Num, p1: nat|
                    chain(
                        ask_number(h, p1, Op::TextWidth, seq![Val::Str(text), Val::Num(px)]),
                        |w: Num, p2: nat|
                            chain(
                                ask_list(h, p2, Op::TextExtents, seq![Val::Num(px)]),
                                |e: Seq<Val>, p3: nat|
                                    ask_value(
                                        h,
                                        p3,
                                        Op::NewObject,
                                        seq![
                                            Val::Str("width"@),
                                            Val::Num(w),
                                            Val::Str("actualBoundingBoxAscent"@),
                                            arg(e, 0),
                                            Val::Str("actualBoundingBoxDescent"@),
                                            arg(e, 1),
                                        ],
                                    ),
                            ),
                    ),
            ),
    )
}

/// `drawImage`.
pub open spec fn draw_image(h: Host, pos: nat, canvas: Val, args: Seq<Val>) -> Run<Val> {
    chain(
        image_of(h, pos, arg(args, 0)),
        |i: Option<Val>, p0: nat|
            match i {
                None => nothing(
                    warn(h, p0, "drawImage 의 소스를 찾지 못했다 (<img> 요소만 지원)"@),
                ),
                Some(idx) => chain(
                    single_args(h, p0, args, 1, 3, Seq::empty()),
                    |at: Seq<Val>, p1: nat|
                        chain(
                            if args.len() >= 5 {
                                single_args(h, p1, args, 3, 5, Seq::empty())
                            } else {
                                done(seq![int_val(0), int_val(0)], p1)
                            },
                            |size: Seq<Val>, p2: nat|
                                nothing(
                                    draw(
                                        h,
                                        p2,
                                        canvas,
                                        DrawCmd::DrawImage,
                                        seq![idx] + at + size,
                                    ),
                                ),
                        ),
                ),
            },
    )
}

/// `fillRect`.
pub open spec fn fill_rect(h: Host, pos: nat, ctx: Val, canvas: Val, args: Seq<Val>) -> Run<Val> {
    chain(
        single_args(h, pos, args, 0, 4, Seq::empty()),
        |rect: Seq<Val>, p: nat|
            nothing(fill_area(h, p, ctx, canvas, rect, Seq::empty(), DrawCmd::FillRect)),
    )
}

/// `clearRect`.
pub open spec fn clear_rect(h: Host, pos: nat, canvas: Val, args: Seq<Val>) -> Run<Val> {
    chain(
        single_args(h, pos, args, 0, 4, Seq::empty()),
        |rect: Seq<Val>, p: nat| nothing(draw(h, p, canvas, DrawCmd::ClearRect, rect)),
    )
}

/// `strokeRect`.
pub open spec fn stroke_rect(h: Host, pos: nat, ctx: Val, canvas: Val, args: Seq<Val>) -> Run<Val> {
    chain(
        ctx_single(h, pos, ctx, "lineWidth"@, 1),
        |lw: Val, p0: nat|
            chain(
                single_args(h, p0, args, 0, 4, Seq::empty()),
                |rect: Seq<Val>, p1: nat|
                    chain(
                        brush(h, p1, ctx, "strokeStyle"@),
                        |c: Seq<Val>, p2: nat|
                            nothing(
                                draw(h, p2, canvas, DrawCmd::StrokeRect, rect + c + seq![lw]),
                            ),
                    ),
            ),
    )
}

pub open spec fn anchor_of(align: Seq<char>) -> int {
    if align == "center"@ {
        1
    } else if align == "right"@ || align == "end"@ {
        2
    } else {
        0
    }
}

pub open spec fn baseline_of(b: Seq<char>) -> int {
    if b == "top"@ || b == "hanging"@ {
        1
    } else if b == "middle"@ {
        2
    } else if b == "bottom"@ || b == "ideographic"@ {
        3
    } else {
        0
    }
}

/// A number moved by a shift; the shift of kind zero moves nothing.
pub open spec fn shifted(h: Host, pos: nat, x: Val, op: Op, size: Num, kind: int) -> Run<Val> {
    chain(
        if kind == 0 {
            done(num_of(0), pos)
        } else {
            ask_number(h, pos, op, seq![Val::Num(size), int_val(kind)])
        },
        |d: Num, p: nat|
            chain(
                ask_number(h, p, Op::Sum, seq![x, Val::Num(d)]),
                |s: Num, q: nat| done(Val::Num(s), q),
            ),
    )
}

/// Where a text goes, by the context's alignment and baseline.
pub open spec fn text_place(
    h: Host,
    pos: nat,
    ctx: Val,
    args: Seq<Val>,
    width: Num,
    px: Num,
) -> Run<Seq<Val>> {
    chain(
        ctx_text(h, pos, ctx, "textAlign"@, "start"@),
        |align: Seq<char>, p0: nat|
            chain(
                ctx_text(h, p0, ctx, "textBaseline"@, "alphabetic"@),
                |base: Seq<char>, p1: nat|
                    chain(
                        single_args(h, p1, args, 0, 2, Seq::empty()),
                        |at: Seq<Val>, p2: nat|
                            chain(
                                shifted(
                                    h,
                                    p2,
                                    arg(at, 0),
                                    Op::AlignShift,
                                    width,
                                    anchor_of(align),
                                ),
                                |x: Val, p3: nat|
                                    chain(
                                        shifted(
                                            h,
                                            p3,
                                            arg(at, 1),
                                            Op::BaselineShift,
                                            px,
                                            baseline_of(base),
                                        ),
                                        |y: Val, p4: nat| done(seq![x, y], p4),
                                    ),
                            ),
                    ),
            ),
    )
}

/// `fillText` and `strokeText`.
pub open spec fn fill_text(h: Host, pos: nat, ctx: Val, canvas: Val, args: Seq<Val>) -> Run<Val> {
    chain(
        display_arg(h, pos, args, 0),
        |text: Seq<char>, p0: nat|
            chain(
                ctx_font_px(h, p0, ctx),
                |px: Num, p1: nat|
                    chain(
                        ask_number(h, p1, Op::TextWidth, seq![Val::Str(text), Val::Num(px)]),
                        |w: Num, p2: nat|
                            chain(
                                text_place(h, p2, ctx, args, w, px),
                                |at: Seq<Val>, p3: nat|
                                    chain(
                                        brush(h, p3, ctx, "fillStyle"@),
                                        |c: Seq<Val>, p4: nat|
                                            nothing(
                                                draw(
                                                    h,
                                                    p4,
                                                    canvas,
                                                    DrawCmd::FillText,
                                                    seq![Val::Str(text)] + at + c + seq![
                                                        Val::Num(px),
                                                    ],
                                                ),
                                            ),
                                    ),
                            ),
                    ),
            ),
    )
}

/// `fill`: a path needs three points to be filled.
pub open spec fn fill(h: Host, pos: nat, ctx: Val, canvas: Val) -> Run<Val> {
    chain(
        get_path(h, pos, ctx),
        |pts: Seq<Val>, p: nat|
            if pts.len() < 6 {
                done(Val::Undefined, p)
            } else {
                chain(
                    ask_list(h, p, Op::Bounds, pts),
                    |rect: Seq<Val>, q: nat|
                        nothing(fill_area(h, q, ctx, canvas, rect, pts, DrawCmd::FillPath)),
                )
            },
    )
}

/// How lines end and how they are joined.
#[derive(Debug, Clone, Copy, PartialEq, Eq, Structural)]
pub struct LineStyle {
    pub round_cap: bool,
    pub square_cap: bool,
    pub round_join: bool,
    pub miter_join: bool,
}

/// A line that is drawn: its width and colour, and how it ends and bends.
#[verifier::ext_equal]
pub struct PenV {
    pub width: Val,
    pub colour: Seq<Val>,
    pub style: LineStyle,
}

pub struct Pen {
    pub width: Value,
    pub colour: Vec<Value>,
    pub style: LineStyle,
}

impl View for Pen {
    type V = PenV;

    open spec fn view(&self) -> PenV {
        PenV { width: self.width@, colour: views(self.colour@), style: self.style }
    }
}

pub open spec fn pen_run(r: Result<Pen, Stop>, it: Interp) -> Run<PenV> {
    match r {
        Ok(o) => done(o@, it.pos as nat),
        Err(e) => halted(e@, it.pos as nat),
    }
}

/// The width of lines: one at least.
pub open spec fn stroke_width(h: Host, pos: nat, ctx: Val) -> Run<Val> {
    chain(
        ctx_slot(h, pos, ctx, "lineWidth"@),
        |s: Option<Val>, p: nat|
            match s {
                Some(Val::Num(n)) => chain(
                    ask_number(h, p, Op::AtLeastOne, seq![Val::Num(n)]),
                    |x: Num, q: nat| done(Val::Num(x), q),
                ),
                _ => done(int_val(1), p),
            },
    )
}

/// The pen that the context draws lines with.
pub open spec fn pen_of(h: Host, pos: nat, ctx: Val) -> Run<PenV> {
    chain(
        stroke_width(h, pos, ctx),
        |w: Val, p0: nat|
            chain(
                ctx_text(h, p0, ctx, "lineCap"@, "butt"@),
                |cap: Seq<char>, p1: nat|
                    chain(
                        ctx_text(h, p1, ctx, "lineJoin"@, "miter"@),
                        |join: Seq<char>, p2: nat|
                            chain(
                                brush(h, p2, ctx, "strokeStyle"@),
                                |c: Seq<Val>, p3: nat|
                                    done(
                                        PenV {
                                            width: w,
                                            colour: c,
                                            style: LineStyle {
                                                round_cap: cap == "round"@,
                                                square_cap: cap == "square"@,
                                                round_join: join == "round"@,
                                                miter_join: join == "miter"@,
                                            },
                                        },
                                        p3,
                                    ),
                            ),
                    ),
            ),
    )
}

/// Fills a polygon with the pen's colour.
pub open spec fn fill_polygon(h: Host, pos: nat, canvas: Val, pen: PenV, pts: Seq<Val>) -> Run<()> {
    draw(h, pos, canvas, DrawCmd::FillPath, counted(pts) + pen.colour)
}

/// Fills a circle as wide as the line.
pub open spec fn fill_circle(h: Host, pos: nat, canvas: Val, pen: PenV, at: Seq<Val>) -> Run<()> {
    chain(
        ask_list(h, pos, Op::Points(Shape::Circle), at + seq![pen.width]),
        |pts: Seq<Val>, p: nat| fill_polygon(h, p, canvas, pen, pts),
    )
}

/// The `i`-th point of a path.
pub open spec fn point(pts: Seq<Val>, i: int) -> Seq<Val> {
    seq![arg(pts, 2 * i), arg(pts, 2 * i + 1)]
}

/// Whether two points are so close that no line joins them.
pub open spec fn close(h: Host, pos: nat, a: Seq<Val>, b: Seq<Val>) -> Run<bool> {
    ask_flag(h, pos, Op::TooShort, a + b)
}

/// The round ends of a path, where its `i`-th line is at one of them.
pub open spec fn caps(h: Host, pos: nat, canvas: Val, pen: PenV, pts: Seq<Val>, i: int, n: int) -> Run<()> {
    if !pen.style.round_cap {
        done((), pos)
    } else {
        chain(
            if i == 0 {
                fill_circle(h, pos, canvas, pen, point(pts, i))
            } else {
                done((), pos)
            },
            |u: (), p: nat|
                if i + 2 == n {
                    fill_circle(h, p, canvas, pen, point(pts, i + 1))
                } else {
                    done((), p)
                },
        )
    }
}

/// One side of the bend after the `i`-th line.
pub open spec fn bend_side(h: Host, pos: nat, canvas: Val, pen: PenV, pts: Seq<Val>, i: int, side: int) -> Run<
    (),
> {
    chain(
        ask_list(
            h,
            pos,
            Op::BendOutline,
            point(pts, i) + point(pts, i + 1) + point(pts, i + 2) + seq![
                pen.width,
                int_val(side),
                Val::Bool(pen.style.miter_join),
            ],
        ),
        |poly: Seq<Val>, p: nat| fill_polygon(h, p, canvas, pen, poly),
    )
}

/// The bend after the `i`-th line; the last line has none.
pub open spec fn bend(h: Host, pos: nat, canvas: Val, pen: PenV, pts: Seq<Val>, i: int, n: int) -> Run<()> {
    if i + 2 >= n {
        done((), pos)
    } else {
        chain(
            close(h, pos, point(pts, i + 1), point(pts, i + 2)),
            |short: bool, p: nat|
                if short {
                    done((), p)
                } else if pen.style.round_join {
                    fill_circle(h, p, canvas, pen, point(pts, i + 1))
                } else {
                    chain(
                        bend_side(h, p, canvas, pen, pts, i, 1),
                        |u: (), q: nat| bend_side(h, q, canvas, pen, pts, i, -1),
                    )
                },
        )
    }
}

/// The `i`-th line of a path of `n` points: its body, its ends and the bend after it.
pub open spec fn stroke_line(h: Host, pos: nat, canvas: Val, pen: PenV, pts: Seq<Val>, i: int, n: int) -> Run<
    (),
> {
    chain(
        close(h, pos, point(pts, i), point(pts, i + 1)),
        |short: bool, p0: nat|
            if short {
                done((), p0)
            } else {
                chain(
                    ask_list(
                        h,
                        p0,
                        Op::LineOutline,
                        point(pts, i) + point(pts, i + 1) + seq![
                            pen.width,
                            Val::Bool(pen.style.square_cap && i == 0),
                            Val::Bool(pen.style.square_cap && i + 2 == n),
                        ],
                    ),
                    |body: Seq<Val>, p1: nat|
                        chain(
                            fill_polygon(h, p1, canvas, pen, body),
                            |u: (), p2: nat|
                                chain(
                                    caps(h, p2, canvas, pen, pts, i, n),
                                    |w: (), p3: nat| bend(h, p3, canvas, pen, pts, i, n),
                                ),
                        ),
                )
            },
    )
}

/// The lines of a path from the `i`-th on.
pub open spec fn stroke_from(h: Host, pos: nat, canvas: Val, pen: PenV, pts: Seq<Val>, i: int, n: int) -> Run<
    (),
>
    decreases n - i,
{
    if i + 1 >= n {
        done((), pos)
    } else {
        let s = stroke_line(h, pos, canvas, pen, pts, i, n);
        match s.out {
            Err(e) => halted(e, s.pos),
            Ok(_) => stroke_from(h, s.pos, canvas, pen, pts, i + 1, n),
        }
    }
}

/// `stroke`.
pub open spec fn stroke(h: Host, pos: nat, ctx: Val, canvas: Val) -> Run<Val> {
    chain(
        get_path(h, pos, ctx),
        |pts: Seq<Val>, p: nat|
            chain(
                pen_of(h, p, ctx),
                |pen: PenV, q: nat|
                    nothing(stroke_from(h, q, canvas, pen, pts, 0, (pts.len() / 2) as int)),
            ),
    )
}

/// The methods that draw on the canvas or read from it.
pub open spec fn draw_method(h: Host, pos: nat, method: CanvasMethod, ctx: Val, canvas: Val, args: Seq<Val>) -> Run<
    Val,
> {
    match method {
        CanvasMethod::GetImageData => get_image_data(h, pos, canvas, args),
        CanvasMethod::CreateImageData => create_image_data(h, pos, args),
        CanvasMethod::PutImageData => put_image_data(h, pos, canvas, args),
        CanvasMethod::Clip => clip(h, pos, ctx, canvas),
        CanvasMethod::MeasureText => measure_text(h, pos, ctx, args),
        CanvasMethod::DrawImage => draw_image(h, pos, canvas, args),
        CanvasMethod::FillRect => fill_rect(h, pos, ctx, canvas, args),
        CanvasMethod::ClearRect => clear_rect(h, pos, canvas, args),
        CanvasMethod::StrokeRect => stroke_rect(h, pos, ctx, canvas, args),
        CanvasMethod::FillText => fill_text(h, pos, ctx, canvas, args),
        CanvasMethod::Fill => fill(h, pos, ctx, canvas),
        CanvasMethod::Stroke => stroke(h, pos, ctx, canvas),
        _ => done(Val::Undefined, pos),
    }
}

/// The methods that build paths, gradients and patterns, and keep the state.
pub open spec fn state_method(h: Host, pos: nat, method: CanvasMethod, ctx: Val, canvas: Val, args: Seq<Val>) -> Run<
    Val,
> {
    match method {
        CanvasMethod::CreateLinearGradient => create_gradient(h, pos, args, 4),
        CanvasMethod::CreateRadialGradient => create_gradient(h, pos, args, 6),
        CanvasMethod::CreatePattern => create_pattern(h, pos, args),
        CanvasMethod::BezierCurveTo => curve_to(h, pos, ctx, args, Shape::Bezier, 6),
        CanvasMethod::QuadraticCurveTo => curve_to(h, pos, ctx, args, Shape::Quadratic, 4),
        CanvasMethod::Translate => transform(h, pos, ctx, canvas, method, args),
        CanvasMethod::Rotate => transform(h, pos, ctx, canvas, method, args),
        CanvasMethod::Scale => transform(h, pos, ctx, canvas, method, args),
        CanvasMethod::Transform => transform(h, pos, ctx, canvas, method, args),
        CanvasMethod::SetTransform => transform(h, pos, ctx, canvas, method, args),
        CanvasMethod::ResetTransform => transform(h, pos, ctx, canvas, method, args),
        CanvasMethod::Save => save(h, pos, ctx),
        CanvasMethod::Restore => restore(h, pos, ctx, canvas),
        CanvasMethod::Ellipse => add_shape(h, pos, ctx, args, Shape::Ellipse, 7),
        CanvasMethod::RoundRect => add_shape(h, pos, ctx, args, Shape::RoundRect, 5),
        CanvasMethod::Rect => add_shape(h, pos, ctx, args, Shape::Rect, 4),
        CanvasMethod::Arc => add_shape(h, pos, ctx, args, Shape::Arc, 5),
        CanvasMethod::BeginPath => nothing(set_path(h, pos, ctx, Seq::empty())),
        CanvasMethod::MoveTo => chain(
            single_args(h, pos, args, 0, 2, Seq::empty()),
            |at: Seq<Val>, p: nat| nothing(push_path(h, p, ctx, at)),
        ),
        CanvasMethod::LineTo => chain(
            single_args(h, pos, args, 0, 2, Seq::empty()),
            |at: Seq<Val>, p: nat| nothing(push_path(h, p, ctx, at)),
        ),
        _ => draw_method(h, pos, method, ctx, canvas, args),
    }
}

/// A method of a drawing context, or `addColorStop` of a gradient.
pub open spec fn canvas_method_run(
    h: Host,
    pos: nat,
    method: CanvasMethod,
    recv: Option<Val>,
    args: Seq<Val>,
) -> Run<Val> {
    match this_of(recv) {
        Val::Ref(Kind::Obj, i) => if method == CanvasMethod::AddColorStop {
            add_colour_stop(h, pos, Val::Ref(Kind::Obj, i), args)
        } else {
            chain(
                ctx_slot(h, pos, Val::Ref(Kind::Obj, i), "\0canvas"@),
                |c: Option<Val>, p: nat|
                    match c {
                        Some(Val::Num(n)) => chain(
                            send_shadow(h, p, Val::Ref(Kind::Obj, i), Val::Num(n)),
                            |u: (), q: nat|
                                state_method(
                                    h,
                                    q,
                                    method,
                                    Val::Ref(Kind::Obj, i),
                                    Val::Num(n),
                                    args,
                                ),
                        ),
                        _ => done(Val::Undefined, p),
                    },
            )
        },
        _ => done(Val::Undefined, pos),
    }
}

/// A list after another.
pub fn cat(a: Vec<Value>, b: &Vec<Value>) -> (r: Vec<Value>)
    ensures
        views(r@) == views(a@) + views(b@),
{
    let mut out: Vec<Value> = a;
    let ghost front = views(out@);
    let mut rest: Vec<Value> = clone_values(b);
    let ghost back = views(rest@);
    out.append(&mut rest);
    assert(views(out@) =~= front + back);
    out
}

pub fn empty_list() -> (r: Vec<Value>)
    ensures
        views(r@) == Seq::<Val>::empty(),
        r@.len() == 0,
{
    let v: Vec<Value> = Vec::new();
    assert(views(v@) =~= Seq::<Val>::empty());
    v
}

fn whole_number(n: i64) -> (r: Value)
    requires
        -1000 <= n <= 1000,
    ensures
        r@ == int_val(n as int),
{
    Value::Num(Num::from_i64(n))
}

fn opaque_black() -> (r: Vec<Value>)
    ensures
        views(r@) == black(),
{
    list4(whole_number(0), whole_number(0), whole_number(0), whole_number(255))
}

fn transparent() -> (r: Vec<Value>)
    ensures
        views(r@) == clear(),
{
    list4(whole_number(0), whole_number(0), whole_number(0), whole_number(0))
}

fn unit_matrix() -> (r: Vec<Value>)
    ensures
        views(r@) == identity(),
{
    let v: Vec<Value> = cat(
        list4(whole_number(1), whole_number(0), whole_number(0), whole_number(1)),
        &list2(whole_number(0), whole_number(0)),
    );
    assert(views(v@) =~= identity());
    v
}

fn lists_equal(a: &Vec<Value>, b: &Vec<Value>) -> (r: bool)
    ensures
        r == equal_lists(views(a@), views(b@)),
{
    if a.len() != b.len() {
        return false;
    }
    let mut i: usize = 0;
    while i < a.len()
        invariant
            i <= a@.len(),
            a@.len() == b@.len(),
            forall|j: int|
                0 <= j < i ==> strictly_equal(#[trigger] views(a@)[j], views(b@)[j]),
        decreases a@.len() - i,
    {
        assert(views(a@)[i as int] == a@[i as int]@ && views(b@)[i as int] == b@[i as int]@);
        if !strict_eq(&a[i], &b[i]) {
            return false;
        }
        i = i + 1;
    }
    true
}

fn is_shadow_due(last: &Vec<Value>, next: &Vec<Value>) -> (r: bool)
    ensures
        r == shadow_due(views(last@), views(next@)),
{
    if lists_equal(last, next) {
        return false;
    }
    if last.len() > 0 {
        return true;
    }
    if next.len() > 3 {
        assert(views(next@)[3] == next@[3]@);
        to_bool(&next[3])
    } else {
        false
    }
}

/// The values from one place up to another.
fn part(l: &Vec<Value>, from: usize, to: usize) -> (r: Vec<Value>)
    requires
        from <= to <= l@.len(),
    ensures
        views(r@) == views(l@).subrange(from as int, to as int),
{
    let mut out: Vec<Value> = empty_list();
    let mut i: usize = from;
    while i < to
        invariant
            from <= i <= to <= l@.len(),
            views(out@) == views(l@).subrange(from as int, i as int),
        decreases to - i,
    {
        let ghost before = views(out@);
        out.push(l[i].clone());
        assert(views(out@) =~= before.push(l@[i as int]@));
        i = i + 1;
        assert(views(out@) =~= views(l@).subrange(from as int, i as int));
    }
    out
}

fn whole(l: &Vec<Value>) -> (r: Vec<Value>)
    ensures
        views(r@) == whole_points(views(l@)),
{
    let n: usize = l.len();
    let r: Vec<Value> = part(l, 0, n - n % 2);
    assert(views(r@) =~= whole_points(views(l@)));
    r
}

fn px_text(cs: &Vec<char>, a: usize, b: usize) -> (r: Option<String>)
    requires
        a <= b <= cs@.len(),
    ensures
        match r {
            Some(t) => pixels(cs@.subrange(a as int, b as int)) == Some(t@),
            None => pixels(cs@.subrange(a as int, b as int)) is None,
        },
{
    if b - a >= 2 && cs[b - 2] == 'p' && cs[b - 1] == 'x' {
        let t: String = string_of_range(cs, a, b - 2);
        assert(t@ =~= cs@.subrange(a as int, b as int).take(b - a - 2));
        Some(t)
    } else {
        None
    }
}

fn skip_spaces(cs: &Vec<char>, from: usize) -> (r: usize)
    requires
        from <= cs@.len(),
    ensures
        r == space_end(cs@, from as nat),
        from <= r <= cs@.len(),
{
    let mut i: usize = from;
    while i < cs.len() && is_unicode_space(cs[i])
        invariant
            from <= i <= cs@.len(),
            space_end(cs@, from as nat) == space_end(cs@, i as nat),
        decreases cs@.len() - i,
    {
        i = i + 1;
    }
    i
}

fn skip_word(cs: &Vec<char>, from: usize) -> (r: usize)
    requires
        from <= cs@.len(),
    ensures
        r == word_end(cs@, from as nat),
        from <= r <= cs@.len(),
{
    let mut i: usize = from;
    while i < cs.len() && !is_unicode_space(cs[i])
        invariant
            from <= i <= cs@.len(),
            word_end(cs@, from as nat) == word_end(cs@, i as nat),
        decreases cs@.len() - i,
    {
        i = i + 1;
    }
    i
}

/// Puts a stop in its place.
fn insert_stop(stops: &mut Vec<ColourStop>, x: ColourStop)
    ensures
        stop_views(final(stops)@) == stop_inserted(stop_views(old(stops)@), x@),
{
    let ghost before = stop_views(stops@);
    let mut i: usize = stops.len();
    assert(before.take(i as int) =~= before);
    assert(before.skip(i as int) =~= Seq::<ColourStopV>::empty());
    assert(stop_inserted(before, x@) =~= stop_inserted(before.take(i as int), x@) + before.skip(
        i as int,
    ));
    while i > 0 && is_greater(stops[i - 1].at, x.at)
        invariant
            i <= stops@.len(),
            before == stop_views(stops@),
            stop_inserted(before, x@) == stop_inserted(before.take(i as int), x@) + before.skip(
                i as int,
            ),
        decreases i,
    {
        assert(before.take(i as int).last() == stops@[i - 1]@);
        assert(before.take(i as int).drop_last() =~= before.take(i - 1));
        assert(stop_inserted(before.take(i as int), x@) == stop_inserted(
            before.take(i - 1),
            x@,
        ).push(before[i - 1]));
        assert(stop_inserted(before.take(i - 1), x@).push(before[i - 1]) + before.skip(i as int)
            =~= stop_inserted(before.take(i - 1), x@) + before.skip(i - 1));
        i = i - 1;
    }
    if i > 0 {
        assert(before.take(i as int).last() == stops@[i - 1]@);
    }
    assert(stop_inserted(before.take(i as int), x@) == before.take(i as int).push(x@));
    stops.insert(i, x);
    assert(stop_views(stops@) =~= before.take(i as int).push(x@) + before.skip(i as int));
}

fn stops_flat(stops: &Vec<ColourStop>) -> (r: Vec<Value>)
    ensures
        views(r@) == flat_stops(stop_views(stops@)),
{
    let ghost all = stop_views(stops@);
    let mut out: Vec<Value> = empty_list();
    let mut i: usize = 0;
    assert(all.take(0) =~= Seq::<ColourStopV>::empty());
    while i < stops.len()
        invariant
            i <= stops@.len(),
            all == stop_views(stops@),
            views(out@) == flat_stops(all.take(i as int)),
        decreases stops@.len() - i,
    {
        let mut one: Vec<Value> = clone_values(&stops[i].colour);
        let ghost c = views(one@);
        one.push(Value::Num(stops[i].at));
        assert(views(one@) =~= c.push(Val::Num(stops@[i as int].at)));
        out = cat(out, &one);
        assert(all.take(i + 1).drop_last() =~= all.take(i as int));
        assert(all.take(i + 1).last() == stops@[i as int]@);
        i = i + 1;
    }
    assert(all.take(i as int) =~= all);
    out
}

fn with_count(l: &Vec<Value>) -> (r: Vec<Value>)
    ensures
        views(r@) == counted(views(l@)),
{
    let n: usize = l.len();
    cat(list1(Value::Num(crate::array_live::count_as_num(n))), l)
}

fn byte_value(n: Num) -> (r: Value)
    ensures
        r@ == byte_of(n),
{
    let c: u64 = num_to_count(n);
    if c > 255 {
        whole_number(255)
    } else {
        whole_number(c as i64)
    }
}

fn number_in(v: &Value) -> (r: Num)
    ensures
        r == num_in(v@),
{
    match v {
        Value::Num(n) => *n,
        _ => Num::from_u64(0),
    }
}

fn point_at(pts: &Vec<Value>, i: usize) -> (r: Vec<Value>)
    requires
        2 * i + 1 <= usize::MAX,
    ensures
        views(r@) == point(views(pts@), i as int),
{
    list2(arg_at(pts, 2 * i), arg_at(pts, 2 * i + 1))
}

fn byte_at(rgba: &Vec<Value>, cw: u64, ch: u64, x: u128, y: u128, k: u128) -> (r: Value)
    requires
        x <= 2 * u64::MAX,
        y <= 2 * u64::MAX,
        k < 4,
    ensures
        r@ == cut_byte(views(rgba@), cw as nat, ch as nat, x as nat, y as nat, k as nat),
{
    if x >= cw as u128 || y >= ch as u128 {
        return whole_number(0);
    }
    let size: usize = rgba.len();
    proof {
        assert(y * cw <= 0xffff_ffff_ffff_ffff * 0xffff_ffff_ffff_ffff) by (nonlinear_arith)
            requires
                y <= 0xffff_ffff_ffff_ffff,
                cw <= 0xffff_ffff_ffff_ffff,
        ;
    }
    let base: u128 = y * (cw as u128);
    if base >= size as u128 {
        proof {
            assert(base as int == y * cw);
        }
        return whole_number(0);
    }
    let o: u128 = (base + x) * 4 + k;
    if o < size as u128 {
        assert(views(rgba@)[o as int] == rgba@[o as int]@);
        rgba[o as usize].clone()
    } else {
        whole_number(0)
    }
}

fn row_of(rgba: &Vec<Value>, cw: u64, ch: u64, sx: u64, y: u128, n: u64) -> (r: Vec<Value>)
    requires
        y <= 2 * u64::MAX,
    ensures
        views(r@) == cut_row(
            views(rgba@),
            cw as nat,
            ch as nat,
            sx as nat,
            y as nat,
            n as nat,
        ),
{
    let mut out: Vec<Value> = empty_list();
    let mut i: u64 = 0;
    while i < n
        invariant
            i <= n,
            y <= 2 * u64::MAX,
            views(out@) == cut_row(
                views(rgba@),
                cw as nat,
                ch as nat,
                sx as nat,
                y as nat,
                i as nat,
            ),
        decreases n - i,
    {
        let x: u128 = sx as u128 + i as u128;
        let four: Vec<Value> = list4(
            byte_at(rgba, cw, ch, x, y, 0),
            byte_at(rgba, cw, ch, x, y, 1),
            byte_at(rgba, cw, ch, x, y, 2),
            byte_at(rgba, cw, ch, x, y, 3),
        );
        out = cat(out, &four);
        i = i + 1;
        assert((sx + i - 1) as nat == x as nat);
    }
    out
}

fn rows_of(rgba: &Vec<Value>, cw: u64, ch: u64, sx: u64, sy: u64, sw: u64, sh: u64) -> (r: Vec<Value>)
    ensures
        views(r@) == cut_rows(
            views(rgba@),
            cw as nat,
            ch as nat,
            sx as nat,
            sy as nat,
            sw as nat,
            sh as nat,
        ),
{
    let mut out: Vec<Value> = empty_list();
    let mut i: u64 = 0;
    while i < sh
        invariant
            i <= sh,
            views(out@) == cut_rows(
                views(rgba@),
                cw as nat,
                ch as nat,
                sx as nat,
                sy as nat,
                sw as nat,
                i as nat,
            ),
        decreases sh - i,
    {
        let y: u128 = sy as u128 + i as u128;
        let row: Vec<Value> = row_of(rgba, cw, ch, sx, y, sw);
        out = cat(out, &row);
        i = i + 1;
        assert((sy + i - 1) as nat == y as nat);
    }
    out
}

/// Whether so many bytes of four for each point are more than there are.
fn too_few(len: usize, w: u64, n: u64) -> (r: bool)
    ensures
        r == ((len as int) < w * n * 4),
{
    proof {
        assert(w * n <= 0xffff_ffff_ffff_ffff * 0xffff_ffff_ffff_ffff) by (nonlinear_arith)
            requires
                w <= 0xffff_ffff_ffff_ffff,
                n <= 0xffff_ffff_ffff_ffff,
        ;
    }
    let all: u128 = (w as u128) * (n as u128);
    if all > len as u128 {
        true
    } else {
        (len as u128) < all * 4
    }
}

fn key_of(i: usize) -> (r: &'static str)
    ensures
        r@ == saved_key(i as int),
{
    if i == 0 {
        "\0ctm"
    } else if i == 1 {
        "fillStyle"
    } else if i == 2 {
        "strokeStyle"
    } else if i == 3 {
        "lineWidth"
    } else if i == 4 {
        "font"
    } else if i == 5 {
        "globalAlpha"
    } else if i == 6 {
        "lineCap"
    } else if i == 7 {
        "lineJoin"
    } else if i == 8 {
        "textAlign"
    } else if i == 9 {
        "textBaseline"
    } else if i == 10 {
        "shadowColor"
    } else if i == 11 {
        "shadowBlur"
    } else if i == 12 {
        "shadowOffsetX"
    } else if i == 13 {
        "shadowOffsetY"
    } else if i == 14 {
        "globalCompositeOperation"
    } else {
        "miterLimit"
    }
}

impl Interp {
    pub fn ctx_slot(&mut self, ctx: &Value, key: &str) -> (r: Result<Option<Value>, Stop>)
        requires
            old(self).wf(),
        ensures
            final(self).follows(*old(self)),
            run_slot(r, *final(self)) == ctx_slot(
                old(self).host(),
                old(self).pos as nat,
                ctx@,
                key@,
            ),
    {
        self.ask_slot(Op::OwnSlot, list2(ctx.clone(), text_value(key)))
    }

    pub fn ctx_store(&mut self, ctx: &Value, key: &str, v: Value) -> (r: Result<(), Stop>)
        requires
            old(self).wf(),
        ensures
            final(self).follows(*old(self)),
            run_plain(r, *final(self)) == ctx_store(
                old(self).host(),
                old(self).pos as nat,
                ctx@,
                key@,
                v@,
            ),
    {
        let u: Value = self.ask_value(Op::StoreSlot, list3(ctx.clone(), text_value(key), v))?;
        Ok(())
    }

    pub fn ctx_list(&mut self, ctx: &Value, key: &str) -> (r: Result<Option<Vec<Value>>, Stop>)
        requires
            old(self).wf(),
        ensures
            final(self).follows(*old(self)),
            opt_list_run(r, *final(self)) == ctx_list(
                old(self).host(),
                old(self).pos as nat,
                ctx@,
                key@,
            ),
    {
        match self.ctx_slot(ctx, key)? {
            Some(Value::Ref(Kind::Arr, i)) => {
                let l: Vec<Value> = self.ask_list(Op::Elements, list1(Value::Ref(Kind::Arr, i)))?;
                Ok(Some(l))
            },
            _ => Ok(None),
        }
    }

    fn single_arg(&mut self, args: &Vec<Value>, i: usize) -> (r: Result<Value, Stop>)
        requires
            old(self).wf(),
        ensures
            final(self).follows(*old(self)),
            run_value(r, *final(self)) == single_arg(
                old(self).host(),
                old(self).pos as nat,
                views(args@),
                i as int,
            ),
    {
        if i < args.len() {
            let n: Num = self.ask_number(Op::Single, list1(args[i].clone()))?;
            Ok(Value::Num(n))
        } else {
            Ok(whole_number(0))
        }
    }

    #[verifier::loop_isolation(false)]
    fn single_args(&mut self, args: &Vec<Value>, from: usize, to: usize) -> (r: Result<Vec<Value>, Stop>)
        requires
            old(self).wf(),
            from <= to,
        ensures
            final(self).follows(*old(self)),
            run_list(r, *final(self)) == single_args(
                old(self).host(),
                old(self).pos as nat,
                views(args@),
                from as int,
                to as int,
                Seq::empty(),
            ),
            r matches Ok(l) ==> l@.len() == to - from,
    {
        let ghost goal = single_args(
            self.host(),
            self.pos as nat,
            views(args@),
            from as int,
            to as int,
            Seq::empty(),
        );
        let mut out: Vec<Value> = empty_list();
        let mut i: usize = from;
        while i < to
            invariant
                from <= i <= to,
                out@.len() == i - from,
                self.follows(*old(self)),
                goal == single_args(
                    self.host(),
                    self.pos as nat,
                    views(args@),
                    i as int,
                    to as int,
                    views(out@),
                ),
            decreases to - i,
        {
            let ghost before = views(out@);
            let v: Value = self.single_arg(args, i)?;
            out.push(v);
            assert(views(out@) =~= before.push(v@));
            i = i + 1;
        }
        Ok(out)
    }

    fn ctx_single(&mut self, ctx: &Value, key: &str, none: i64) -> (r: Result<Value, Stop>)
        requires
            old(self).wf(),
            0 <= none <= 1,
        ensures
            final(self).follows(*old(self)),
            run_value(r, *final(self)) == ctx_single(
                old(self).host(),
                old(self).pos as nat,
                ctx@,
                key@,
                none as int,
            ),
    {
        match self.ctx_slot(ctx, key)? {
            Some(Value::Num(n)) => {
                let x: Num = self.ask_number(Op::Single, list1(Value::Num(n)))?;
                Ok(Value::Num(x))
            },
            _ => Ok(whole_number(none)),
        }
    }

    fn ctx_text(&mut self, ctx: &Value, key: &str, none: &str) -> (r: Result<String, Stop>)
        requires
            old(self).wf(),
        ensures
            final(self).follows(*old(self)),
            run_text(r, *final(self)) == ctx_text(
                old(self).host(),
                old(self).pos as nat,
                ctx@,
                key@,
                none@,
            ),
    {
        match self.ctx_slot(ctx, key)? {
            Some(Value::Str(t)) => Ok(t),
            _ => Ok(none.to_owned()),
        }
    }

    fn named_colour(&mut self, text: &str, none: Vec<Value>) -> (r: Result<Vec<Value>, Stop>)
        requires
            old(self).wf(),
        ensures
            final(self).follows(*old(self)),
            run_list(r, *final(self)) == named_colour(
                old(self).host(),
                old(self).pos as nat,
                text@,
                views(none@),
            ),
    {
        let c: Vec<Value> = self.ask_list(Op::Colour, list1(text_value(text)))?;
        if c.len() == 4 {
            Ok(c)
        } else {
            Ok(none)
        }
    }

    fn ctx_colour(&mut self, ctx: &Value, key: &str, none: Vec<Value>) -> (r: Result<Vec<Value>, Stop>)
        requires
            old(self).wf(),
        ensures
            final(self).follows(*old(self)),
            run_list(r, *final(self)) == ctx_colour(
                old(self).host(),
                old(self).pos as nat,
                ctx@,
                key@,
                views(none@),
            ),
    {
        match self.ctx_slot(ctx, key)? {
            Some(Value::Str(t)) => self.named_colour(t.as_str(), none),
            _ => Ok(none),
        }
    }

    fn draw(&mut self, canvas: &Value, cmd: DrawCmd, params: &Vec<Value>) -> (r: Result<(), Stop>)
        requires
            old(self).wf(),
        ensures
            final(self).follows(*old(self)),
            run_plain(r, *final(self)) == draw(
                old(self).host(),
                old(self).pos as nat,
                canvas@,
                cmd,
                views(params@),
            ),
    {
        let u: Value = self.ask_value(Op::Draw(cmd), cat(list1(canvas.clone()), params))?;
        Ok(())
    }

    fn shadow_of(&mut self, ctx: &Value) -> (r: Result<Vec<Value>, Stop>)
        requires
            old(self).wf(),
        ensures
            final(self).follows(*old(self)),
            run_list(r, *final(self)) == shadow_of(
                old(self).host(),
                old(self).pos as nat,
                ctx@,
            ),
    {
        let c: Vec<Value> = self.ctx_colour(ctx, "shadowColor", transparent())?;
        let blur: Value = self.ctx_single(ctx, "shadowBlur", 0)?;
        let dx: Value = self.ctx_single(ctx, "shadowOffsetX", 0)?;
        let dy: Value = self.ctx_single(ctx, "shadowOffsetY", 0)?;
        Ok(cat(c, &list3(blur, dx, dy)))
    }

    fn send_shadow(&mut self, ctx: &Value, canvas: &Value) -> (r: Result<(), Stop>)
        requires
            old(self).wf(),
        ensures
            final(self).follows(*old(self)),
            run_plain(r, *final(self)) == send_shadow(
                old(self).host(),
                old(self).pos as nat,
                ctx@,
                canvas@,
            ),
    {
        let next: Vec<Value> = self.shadow_of(ctx)?;
        let last: Vec<Value> = self.ask_list(Op::LastShadow, list1(canvas.clone()))?;
        if is_shadow_due(&last, &next) {
            self.draw(canvas, DrawCmd::SetShadow, &next)
        } else {
            Ok(())
        }
    }

    fn alpha_of(&mut self, ctx: &Value) -> (r: Result<Value, Stop>)
        requires
            old(self).wf(),
        ensures
            final(self).follows(*old(self)),
            run_value(r, *final(self)) == alpha_of(
                old(self).host(),
                old(self).pos as nat,
                ctx@,
            ),
    {
        match self.ctx_slot(ctx, "globalAlpha")? {
            Some(Value::Num(n)) => {
                let x: Num = self.ask_number(Op::ClampUnit, list1(Value::Num(n)))?;
                Ok(Value::Num(x))
            },
            _ => Ok(whole_number(1)),
        }
    }

    fn brush(&mut self, ctx: &Value, key: &str) -> (r: Result<Vec<Value>, Stop>)
        requires
            old(self).wf(),
        ensures
            final(self).follows(*old(self)),
            run_list(r, *final(self)) == brush(
                old(self).host(),
                old(self).pos as nat,
                ctx@,
                key@,
            ),
    {
        let a: Value = self.alpha_of(ctx)?;
        let c: Vec<Value> = self.ctx_colour(ctx, key, opaque_black())?;
        let ghost all = views(c@);
        let full: bool = c.len() == 4;
        let opacity: Value = if full {
            assert(all[3] == c@[3]@);
            c[3].clone()
        } else {
            whole_number(255)
        };
        let x: Num = self.ask_number(Op::ScaleOpacity, list2(opacity, a))?;
        let n: usize = c.len();
        let mut out: Vec<Value> = if n >= 3 {
            part(&c, 0, 3)
        } else {
            c
        };
        assert(views(out@) =~= all.take(3));
        out.push(Value::Num(x));
        assert(views(out@) =~= all.take(3).push(Val::Num(x)));
        Ok(out)
    }

    fn ctm_of(&mut self, ctx: &Value) -> (r: Result<Vec<Value>, Stop>)
        requires
            old(self).wf(),
        ensures
            final(self).follows(*old(self)),
            run_list(r, *final(self)) == ctm_of(
                old(self).host(),
                old(self).pos as nat,
                ctx@,
            ),
    {
        match self.ctx_list(ctx, "\0ctm")? {
            Some(m) => self.single_args(&m, 0, 6),
            None => Ok(unit_matrix()),
        }
    }

    pub fn store_list(&mut self, ctx: &Value, key: &str, l: &Vec<Value>) -> (r: Result<(), Stop>)
        requires
            old(self).wf(),
        ensures
            final(self).follows(*old(self)),
            run_plain(r, *final(self)) == store_list(
                old(self).host(),
                old(self).pos as nat,
                ctx@,
                key@,
                views(l@),
            ),
    {
        let a: Value = self.ask_value(Op::NewArray, clone_values(l))?;
        self.ctx_store(ctx, key, a)
    }

    pub fn set_path(&mut self, ctx: &Value, points: &Vec<Value>) -> (r: Result<(), Stop>)
        requires
            old(self).wf(),
        ensures
            final(self).follows(*old(self)),
            run_plain(r, *final(self)) == set_path(
                old(self).host(),
                old(self).pos as nat,
                ctx@,
                views(points@),
            ),
    {
        self.store_list(ctx, "\0path", points)
    }

    pub fn push_path(&mut self, ctx: &Value, points: &Vec<Value>) -> (r: Result<(), Stop>)
        requires
            old(self).wf(),
        ensures
            final(self).follows(*old(self)),
            run_plain(r, *final(self)) == push_path(
                old(self).host(),
                old(self).pos as nat,
                ctx@,
                views(points@),
            ),
    {
        match self.ctx_slot(ctx, "\0path")? {
            Some(Value::Ref(Kind::Arr, i)) => {
                let a: Value = Value::Ref(Kind::Arr, i);
                let l: Vec<Value> = self.ask_list(Op::Elements, list1(a.clone()))?;
                let all: Vec<Value> = cat(l, points);
                let u: Value = self.ask_value(Op::StoreElements, cat(list1(a), &all))?;
                Ok(())
            },
            _ => Ok(()),
        }
    }

    pub fn get_path(&mut self, ctx: &Value) -> (r: Result<Vec<Value>, Stop>)
        requires
            old(self).wf(),
        ensures
            final(self).follows(*old(self)),
            run_list(r, *final(self)) == get_path(
                old(self).host(),
                old(self).pos as nat,
                ctx@,
            ),
    {
        match self.ctx_list(ctx, "\0path")? {
            Some(flat) => {
                let pts: Vec<Value> = self.ask_list(Op::Singles, whole(&flat))?;
                Ok(whole(&pts))
            },
            None => Ok(empty_list()),
        }
    }

    /// The size in a font's text.
    #[verifier::loop_isolation(false)]
    pub fn font_px(&mut self, font: &str) -> (r: Result<Num, Stop>)
        requires
            old(self).wf(),
        ensures
            final(self).follows(*old(self)),
            run_plain(r, *final(self)) == font_px(old(self).host(), old(self).pos as nat, font@),
    {
        let cs: Vec<char> = chars_of(font);
        let ghost goal = font_px(self.host(), self.pos as nat, font@);
        let mut i: usize = 0;
        while i < cs.len()
            invariant
                i <= cs@.len(),
                cs@ == font@,
                self.follows(*old(self)),
                goal == font_px_from(self.host(), self.pos as nat, font@, i as nat),
            decreases cs@.len() - i,
        {
            let a: usize = skip_spaces(&cs, i);
            let b: usize = skip_word(&cs, a);
            if b <= i {
                return Ok(Num::from_u64(10));
            }
            match px_text(&cs, a, b) {
                Some(t) => {
                    match self.ask_slot(Op::ParseSingle, list1(Value::Str(t)))? {
                        Some(Value::Num(n)) => {
                            return Ok(n);
                        },
                        _ => {},
                    }
                },
                None => {},
            }
            i = b;
        }
        Ok(Num::from_u64(10))
    }

    fn ctx_font_px(&mut self, ctx: &Value) -> (r: Result<Num, Stop>)
        requires
            old(self).wf(),
        ensures
            final(self).follows(*old(self)),
            run_plain(r, *final(self)) == ctx_font_px(
                old(self).host(),
                old(self).pos as nat,
                ctx@,
            ),
    {
        match self.ctx_slot(ctx, "font")? {
            Some(Value::Str(t)) => self.font_px(t.as_str()),
            _ => Ok(Num::from_u64(10)),
        }
    }

    fn stop_at(&mut self, entry: &Value) -> (r: Result<Option<ColourStop>, Stop>)
        requires
            old(self).wf(),
        ensures
            final(self).follows(*old(self)),
            stop_run(r, *final(self)) == stop_at(
                old(self).host(),
                old(self).pos as nat,
                entry@,
            ),
    {
        match entry {
            Value::Ref(Kind::Arr, _) => {
                let pair: Vec<Value> = self.ask_list(Op::Elements, list1(entry.clone()))?;
                let at: Value = self.single_arg(&pair, 0)?;
                let colour: Vec<Value> = if pair.len() > 1 {
                    let t: String = self.ask_text(Op::Display, list1(pair[1].clone()))?;
                    self.named_colour(t.as_str(), opaque_black())?
                } else {
                    opaque_black()
                };
                Ok(Some(ColourStop { colour, at: number_in(&at) }))
            },
            _ => Ok(None),
        }
    }

    #[verifier::loop_isolation(false)]
    fn stops_from(&mut self, list: &Vec<Value>) -> (r: Result<Vec<ColourStop>, Stop>)
        requires
            old(self).wf(),
        ensures
            final(self).follows(*old(self)),
            stops_run(r, *final(self)) == stops_from(
                old(self).host(),
                old(self).pos as nat,
                views(list@),
                0,
                Seq::empty(),
            ),
    {
        let ghost all = views(list@);
        let ghost goal = stops_from(self.host(), self.pos as nat, all, 0, Seq::empty());
        let mut out: Vec<ColourStop> = Vec::new();
        assert(stop_views(out@) =~= Seq::<ColourStopV>::empty());
        let mut i: usize = 0;
        while i < list.len()
            invariant
                i <= list@.len(),
                self.follows(*old(self)),
                goal == stops_from(self.host(), self.pos as nat, all, i as int, stop_views(out@)),
            decreases list@.len() - i,
        {
            assert(all[i as int] == list@[i as int]@);
            match self.stop_at(&list[i])? {
                Some(x) => {
                    insert_stop(&mut out, x);
                },
                None => {},
            }
            i = i + 1;
        }
        Ok(out)
    }

    fn stops_of(&mut self, v: &Value) -> (r: Result<Vec<ColourStop>, Stop>)
        requires
            old(self).wf(),
        ensures
            final(self).follows(*old(self)),
            stops_run(r, *final(self)) == stops_of(
                old(self).host(),
                old(self).pos as nat,
                v@,
            ),
    {
        match self.ctx_list(v, "\0stops")? {
            Some(list) => self.stops_from(&list),
            None => {
                let none: Vec<ColourStop> = Vec::new();
                assert(stop_views(none@) =~= Seq::<ColourStopV>::empty());
                Ok(none)
            },
        }
    }

    fn gradient_of(&mut self, v: &Value, params: &Vec<Value>) -> (r: Result<Paint, Stop>)
        requires
            old(self).wf(),
        ensures
            final(self).follows(*old(self)),
            paint_run(r, *final(self)) == gradient_of(
                old(self).host(),
                old(self).pos as nat,
                v@,
                views(params@),
            ),
    {
        let n: usize = if params.len() >= 6 {
            6
        } else {
            4
        };
        let g: Vec<Value> = self.single_args(params, 0, n)?;
        let s: Vec<ColourStop> = self.stops_of(v)?;
        Ok(Paint::Gradient(g, s))
    }

    fn fill_pattern_of(&mut self, v: &Value) -> (r: Result<Paint, Stop>)
        requires
            old(self).wf(),
        ensures
            final(self).follows(*old(self)),
            paint_run(r, *final(self)) == fill_pattern_of(
                old(self).host(),
                old(self).pos as nat,
                v@,
            ),
    {
        match self.ctx_list(v, "\0pattern")? {
            None => Ok(Paint::Colour),
            Some(list) => {
                if list.len() == 0 {
                    return Ok(Paint::Colour);
                }
                let n: Num = self.ask_number(Op::PlainNumber, list1(list[0].clone()))?;
                let repeat: bool = list.len() < 2 || to_bool(&list[1]);
                Ok(Paint::Pattern(num_to_count(n), repeat))
            },
        }
    }

    fn paint_of(&mut self, ctx: &Value) -> (r: Result<Paint, Stop>)
        requires
            old(self).wf(),
        ensures
            final(self).follows(*old(self)),
            paint_run(r, *final(self)) == paint_of(
                old(self).host(),
                old(self).pos as nat,
                ctx@,
            ),
    {
        match self.ctx_slot(ctx, "fillStyle")? {
            Some(Value::Ref(Kind::Obj, i)) => {
                let v: Value = Value::Ref(Kind::Obj, i);
                match self.ctx_list(&v, "\0grad")? {
                    Some(params) => self.gradient_of(&v, &params),
                    None => self.fill_pattern_of(&v),
                }
            },
            _ => Ok(Paint::Colour),
        }
    }

    fn fill_area(&mut self, ctx: &Value, canvas: &Value, rect: Vec<Value>, shape: &Vec<Value>, plain: DrawCmd) -> (r: Result<(), Stop>)
        requires
            old(self).wf(),
        ensures
            final(self).follows(*old(self)),
            run_plain(r, *final(self)) == fill_area(
                old(self).host(),
                old(self).pos as nat,
                ctx@,
                canvas@,
                views(rect@),
                views(shape@),
                plain,
            ),
    {
        match self.paint_of(ctx)? {
            Paint::Gradient(g, s) => {
                let params: Vec<Value> = cat(
                    cat(cat(rect, &with_count(shape)), &with_count(&g)),
                    &stops_flat(&s),
                );
                self.draw(canvas, DrawCmd::FillGradient, &params)
            },
            Paint::Pattern(i, repeat) => {
                let params: Vec<Value> = cat(
                    cat(rect, &with_count(shape)),
                    &list2(Value::Num(index_number(i)), Value::Bool(repeat)),
                );
                self.draw(canvas, DrawCmd::FillPattern, &params)
            },
            Paint::Colour => {
                let c: Vec<Value> = self.brush(ctx, "fillStyle")?;
                let params: Vec<Value> = if plain == DrawCmd::FillPath {
                    cat(with_count(shape), &c)
                } else {
                    cat(rect, &c)
                };
                self.draw(canvas, plain, &params)
            },
        }
    }

    pub fn display_arg(&mut self, args: &Vec<Value>, i: usize) -> (r: Result<String, Stop>)
        requires
            old(self).wf(),
        ensures
            final(self).follows(*old(self)),
            run_text(r, *final(self)) == display_arg(
                old(self).host(),
                old(self).pos as nat,
                views(args@),
                i as int,
            ),
    {
        if i < args.len() {
            self.ask_text(Op::Display, list1(args[i].clone()))
        } else {
            let s: String = String::new();
            assert(s@ =~= Seq::<char>::empty());
            Ok(s)
        }
    }

    pub fn list_append(&mut self, v: &Value, key: &str, x: Value) -> (r: Result<(), Stop>)
        requires
            old(self).wf(),
        ensures
            final(self).follows(*old(self)),
            run_plain(r, *final(self)) == list_append(
                old(self).host(),
                old(self).pos as nat,
                v@,
                key@,
                x@,
            ),
    {
        match self.ctx_slot(v, key)? {
            Some(Value::Ref(Kind::Arr, i)) => {
                let a: Value = Value::Ref(Kind::Arr, i);
                let mut l: Vec<Value> = self.ask_list(Op::Elements, list1(a.clone()))?;
                let ghost before = views(l@);
                l.push(x);
                assert(views(l@) =~= before.push(x@));
                let u: Value = self.ask_value(Op::StoreElements, cat(list1(a), &l))?;
                Ok(())
            },
            _ => Ok(()),
        }
    }

    fn add_colour_stop(&mut self, g: &Value, args: &Vec<Value>) -> (r: Result<Value, Stop>)
        requires
            old(self).wf(),
        ensures
            final(self).follows(*old(self)),
            run_value(r, *final(self)) == add_colour_stop(
                old(self).host(),
                old(self).pos as nat,
                g@,
                views(args@),
            ),
    {
        let at: Num = if args.len() > 0 {
            self.ask_number(Op::PlainNumber, list1(args[0].clone()))?
        } else {
            Num::from_u64(0)
        };
        let col: String = self.display_arg(args, 1)?;
        let entry: Value = self.ask_value(Op::NewArray, list2(Value::Num(at), Value::Str(col)))?;
        self.list_append(g, "\0stops", entry)?;
        Ok(Value::Undefined)
    }

    fn create_gradient(&mut self, args: &Vec<Value>, n: usize) -> (r: Result<Value, Stop>)
        requires
            old(self).wf(),
        ensures
            final(self).follows(*old(self)),
            run_value(r, *final(self)) == create_gradient(
                old(self).host(),
                old(self).pos as nat,
                views(args@),
                n as int,
            ),
    {
        let params: Vec<Value> = self.single_args(args, 0, n)?;
        let grad: Value = self.ask_value(Op::NewArray, params)?;
        let stops: Value = self.ask_value(Op::NewArray, empty_list())?;
        let fields: Vec<Value> = cat(
            list4(text_value("\0grad"), grad, text_value("\0stops"), stops),
            &list2(
                text_value("addColorStop"),
                Value::Native(Native::Canvas(CanvasMethod::AddColorStop)),
            ),
        );
        assert(views(fields@) =~= seq![
            Val::Str("\0grad"@),
            grad@,
            Val::Str("\0stops"@),
            stops@,
            Val::Str("addColorStop"@),
            Val::Native(Native::Canvas(CanvasMethod::AddColorStop)),
        ]);
        self.ask_value(Op::NewObject, fields)
    }

    fn image_of(&mut self, v: &Value) -> (r: Result<Option<Value>, Stop>)
        requires
            old(self).wf(),
        ensures
            final(self).follows(*old(self)),
            run_slot(r, *final(self)) == image_of(
                old(self).host(),
                old(self).pos as nat,
                v@,
            ),
    {
        match v {
            Value::Ref(Kind::Dom, _) => match self.ask_slot(Op::ImageSource, list1(v.clone()))? {
                None => Ok(None),
                Some(raw) => {
                    let abs: String = self.ask_text(Op::AbsoluteUrl, list1(raw.clone()))?;
                    match self.ask_slot(Op::ImageAt, list1(Value::Str(abs)))? {
                        Some(x) => Ok(Some(x)),
                        None => self.ask_slot(Op::ImageAt, list1(raw)),
                    }
                },
            },
            _ => Ok(None),
        }
    }

    fn warn(&mut self, message: &str) -> (r: Result<(), Stop>)
        requires
            old(self).wf(),
        ensures
            final(self).follows(*old(self)),
            run_plain(r, *final(self)) == warn(
                old(self).host(),
                old(self).pos as nat,
                message@,
            ),
    {
        let u: Value = self.ask_value(Op::CanvasWarn, list1(text_value(message)))?;
        Ok(())
    }

    fn create_pattern(&mut self, args: &Vec<Value>) -> (r: Result<Value, Stop>)
        requires
            old(self).wf(),
        ensures
            final(self).follows(*old(self)),
            run_value(r, *final(self)) == create_pattern(
                old(self).host(),
                old(self).pos as nat,
                views(args@),
            ),
    {
        match self.image_of(&arg_at(args, 0))? {
            None => {
                self.warn("createPattern 의 소스를 찾지 못했다 (<img> 요소만 지원)")?;
                Ok(Value::Null)
            },
            Some(idx) => {
                let rep: String = self.display_arg(args, 1)?;
                let repeat: bool = args.len() < 2 || !same_text(rep.as_str(), "no-repeat");
                let a: Value = self.ask_value(Op::NewArray, list2(idx, Value::Bool(repeat)))?;
                self.ask_value(Op::NewObject, list2(text_value("\0pattern"), a))
            },
        }
    }

    fn size_attr(&mut self, canvas: &Value, name: &str, none: u64) -> (r: Result<u64, Stop>)
        requires
            old(self).wf(),
        ensures
            final(self).follows(*old(self)),
            run_plain(r, *final(self)) == size_attr(
                old(self).host(),
                old(self).pos as nat,
                canvas@,
                name@,
                none,
            ),
    {
        match self.ask_slot(Op::AttributeText, list2(canvas.clone(), text_value(name)))? {
            Some(Value::Str(t)) => match parse_count(t.as_str()) {
                Some(n) => Ok(n),
                None => Ok(none),
            },
            _ => Ok(none),
        }
    }

    fn image_data(&mut self, w: u64, height: u64, data: Vec<Value>) -> (r: Result<Value, Stop>)
        requires
            old(self).wf(),
        ensures
            final(self).follows(*old(self)),
            run_value(r, *final(self)) == image_data(
                old(self).host(),
                old(self).pos as nat,
                w,
                height,
                views(data@),
            ),
    {
        let a: Value = self.ask_value(Op::NewArray, data)?;
        let fields: Vec<Value> = cat(
            list4(
                text_value("width"),
                Value::Num(index_number(w)),
                text_value("height"),
                Value::Num(index_number(height)),
            ),
            &list2(text_value("data"), a),
        );
        assert(views(fields@) =~= seq![
            Val::Str("width"@),
            Val::Num(count_num(w as nat)),
            Val::Str("height"@),
            Val::Num(count_num(height as nat)),
            Val::Str("data"@),
            a@,
        ]);
        self.ask_value(Op::NewObject, fields)
    }

    fn cut_out(&mut self, canvas: &Value, sx: u64, sy: u64, sw: u64, sh: u64) -> (r: Result<Value, Stop>)
        requires
            old(self).wf(),
        ensures
            final(self).follows(*old(self)),
            run_value(r, *final(self)) == cut_out(
                old(self).host(),
                old(self).pos as nat,
                canvas@,
                sx,
                sy,
                sw,
                sh,
            ),
    {
        let cw: u64 = self.size_attr(canvas, "width", 300)?;
        let ch: u64 = self.size_attr(canvas, "height", 150)?;
        let rgba: Vec<Value> = self.ask_list(
            Op::Raster,
            list3(canvas.clone(), Value::Num(index_number(cw)), Value::Num(index_number(ch))),
        )?;
        self.image_data(sw, sh, rows_of(&rgba, cw, ch, sx, sy, sw, sh))
    }

    fn get_image_data(&mut self, canvas: &Value, args: &Vec<Value>) -> (r: Result<Value, Stop>)
        requires
            old(self).wf(),
        ensures
            final(self).follows(*old(self)),
            run_value(r, *final(self)) == get_image_data(
                old(self).host(),
                old(self).pos as nat,
                canvas@,
                views(args@),
            ),
    {
        let a: Vec<Value> = self.single_args(args, 0, 4)?;
        let sw: u64 = num_to_count(number_in(&a[2]));
        let sh: u64 = num_to_count(number_in(&a[3]));
        if sw == 0 || sh == 0 {
            return Ok(Value::Null);
        }
        if !self.ask_flag(Op::CanRender, empty_list())? {
            self.warn("getImageData 는 렌더 컨텍스트가 필요하다")?;
            return Ok(Value::Null);
        }
        let sx: u64 = num_to_count(number_in(&a[0]));
        let sy: u64 = num_to_count(number_in(&a[1]));
        self.cut_out(canvas, sx, sy, sw, sh)
    }

    fn create_image_data(&mut self, args: &Vec<Value>) -> (r: Result<Value, Stop>)
        requires
            old(self).wf(),
        ensures
            final(self).follows(*old(self)),
            run_value(r, *final(self)) == create_image_data(
                old(self).host(),
                old(self).pos as nat,
                views(args@),
            ),
    {
        let a: Vec<Value> = self.single_args(args, 0, 2)?;
        let w: u64 = num_to_count(number_in(&a[0]));
        let n: u64 = num_to_count(number_in(&a[1]));
        let data: Vec<Value> = rows_of(&empty_list(), 0, 0, 0, 0, w, n);
        self.image_data(w, n, data)
    }

    #[verifier::loop_isolation(false)]
    fn bytes_from(&mut self, l: &Vec<Value>, n: usize) -> (r: Result<Vec<Value>, Stop>)
        requires
            old(self).wf(),
            n <= l@.len(),
        ensures
            final(self).follows(*old(self)),
            run_list(r, *final(self)) == bytes_from(
                old(self).host(),
                old(self).pos as nat,
                views(l@),
                0,
                n as int,
                Seq::empty(),
            ),
    {
        let ghost all = views(l@);
        let ghost goal = bytes_from(
            self.host(),
            self.pos as nat,
            all,
            0,
            n as int,
            Seq::empty(),
        );
        let mut out: Vec<Value> = empty_list();
        let mut i: usize = 0;
        while i < n
            invariant
                i <= n <= l@.len(),
                self.follows(*old(self)),
                goal == bytes_from(
                    self.host(),
                    self.pos as nat,
                    all,
                    i as int,
                    n as int,
                    views(out@),
                ),
            decreases n - i,
        {
            assert(all[i as int] == l@[i as int]@);
            let ghost before = views(out@);
            let x: Num = self.ask_number(Op::PlainNumber, list1(l[i].clone()))?;
            let b: Value = byte_value(x);
            out.push(b);
            assert(views(out@) =~= before.push(b@));
            i = i + 1;
        }
        Ok(out)
    }

    fn size_field(&mut self, d: &Value, key: &str) -> (r: Result<u64, Stop>)
        requires
            old(self).wf(),
        ensures
            final(self).follows(*old(self)),
            run_plain(r, *final(self)) == size_field(
                old(self).host(),
                old(self).pos as nat,
                d@,
                key@,
            ),
    {
        match self.plain_slot(d, key)? {
            Some(v) => {
                let n: Num = self.ask_number(Op::PlainNumber, list1(v))?;
                Ok(num_to_count(n))
            },
            None => Ok(0),
        }
    }

    fn put_pixels(&mut self, canvas: &Value, args: &Vec<Value>, w: u64, n: u64, px: &Vec<Value>) -> (r:
        Result<Value, Stop>)
        requires
            old(self).wf(),
            w * n * 4 <= px@.len(),
        ensures
            final(self).follows(*old(self)),
            run_value(r, *final(self)) == put_pixels(
                old(self).host(),
                old(self).pos as nat,
                canvas@,
                views(args@),
                w,
                n,
                views(px@),
            ),
    {
        let len: usize = px.len();
        assert(0 <= w * n) by (nonlinear_arith);
        let count: usize = ((w as u128 * n as u128) * 4) as usize;
        let rgba: Vec<Value> = self.bytes_from(px, count)?;
        let at: Vec<Value> = self.single_args(args, 1, 3)?;
        let params: Vec<Value> = cat(
            cat(at, &list2(Value::Num(index_number(w)), Value::Num(index_number(n)))),
            &rgba,
        );
        self.draw(canvas, DrawCmd::PutImage, &params)?;
        Ok(Value::Undefined)
    }

    fn put_image_data(&mut self, canvas: &Value, args: &Vec<Value>) -> (r: Result<Value, Stop>)
        requires
            old(self).wf(),
        ensures
            final(self).follows(*old(self)),
            run_value(r, *final(self)) == put_image_data(
                old(self).host(),
                old(self).pos as nat,
                canvas@,
                views(args@),
            ),
    {
        let d: Value = arg_at(args, 0);
        match &d {
            Value::Ref(Kind::Obj, _) => {
                let w: u64 = self.size_field(&d, "width")?;
                let n: u64 = self.size_field(&d, "height")?;
                match self.ctx_list(&d, "data")? {
                    Some(px) => {
                        if w == 0 || n == 0 || too_few(px.len(), w, n) {
                            Ok(Value::Undefined)
                        } else {
                            self.put_pixels(canvas, args, w, n, &px)
                        }
                    },
                    None => Ok(Value::Undefined),
                }
            },
            _ => Ok(Value::Undefined),
        }
    }

    fn clip(&mut self, ctx: &Value, canvas: &Value) -> (r: Result<Value, Stop>)
        requires
            old(self).wf(),
        ensures
            final(self).follows(*old(self)),
            run_value(r, *final(self)) == clip(
                old(self).host(),
                old(self).pos as nat,
                ctx@,
                canvas@,
            ),
    {
        let pts: Vec<Value> = self.get_path(ctx)?;
        if pts.len() < 6 {
            self.warn("clip() 에 경로가 없다")?;
            return Ok(Value::Undefined);
        }
        self.store_list(ctx, "\0clip", &pts)?;
        self.draw(canvas, DrawCmd::Clip, &pts)?;
        Ok(Value::Undefined)
    }

    fn curve_to(&mut self, ctx: &Value, args: &Vec<Value>, shape: Shape, n: usize) -> (r: Result<Value, Stop>)
        requires
            old(self).wf(),
        ensures
            final(self).follows(*old(self)),
            run_value(r, *final(self)) == curve_to(
                old(self).host(),
                old(self).pos as nat,
                ctx@,
                views(args@),
                shape,
                n as int,
            ),
    {
        let path: Vec<Value> = self.get_path(ctx)?;
        let len: usize = path.len();
        if len < 2 {
            return Ok(Value::Undefined);
        }
        let c: Vec<Value> = self.single_args(args, 0, n)?;
        let last: Vec<Value> = part(&path, len - 2, len);
        assert(views(last@) =~= views(path@).skip(len - 2));
        let pts: Vec<Value> = self.ask_list(Op::Points(shape), cat(last, &c))?;
        self.push_path(ctx, &pts)?;
        Ok(Value::Undefined)
    }

    fn add_shape(&mut self, ctx: &Value, args: &Vec<Value>, shape: Shape, n: usize) -> (r: Result<Value, Stop>)
        requires
            old(self).wf(),
        ensures
            final(self).follows(*old(self)),
            run_value(r, *final(self)) == add_shape(
                old(self).host(),
                old(self).pos as nat,
                ctx@,
                views(args@),
                shape,
                n as int,
            ),
    {
        let c: Vec<Value> = self.single_args(args, 0, n)?;
        let pts: Vec<Value> = self.ask_list(Op::Points(shape), c)?;
        self.push_path(ctx, &pts)?;
        Ok(Value::Undefined)
    }

    fn asked_transform(&mut self, method: CanvasMethod, args: &Vec<Value>) -> (r: Result<Vec<Value>, Stop>)
        requires
            old(self).wf(),
        ensures
            final(self).follows(*old(self)),
            run_list(r, *final(self)) == asked_transform(
                old(self).host(),
                old(self).pos as nat,
                method,
                views(args@),
            ),
    {
        if method == CanvasMethod::Translate {
            let a: Vec<Value> = self.single_args(args, 0, 2)?;
            return Ok(
                cat(
                    list4(whole_number(1), whole_number(0), whole_number(0), whole_number(1)),
                    &a,
                ),
            );
        }
        if method == CanvasMethod::Scale {
            let x: Value = self.single_arg(args, 0)?;
            let y: Value = self.single_arg(args, 1)?;
            let m: Vec<Value> = cat(
                list4(x, whole_number(0), whole_number(0), y),
                &list2(whole_number(0), whole_number(0)),
            );
            assert(views(m@) =~= seq![x@, int_val(0), int_val(0), y@, int_val(0), int_val(0)]);
            return Ok(m);
        }
        if method == CanvasMethod::Rotate {
            let t: Value = self.single_arg(args, 0)?;
            return self.ask_list(Op::Rotation, list1(t));
        }
        if method == CanvasMethod::ResetTransform {
            return Ok(unit_matrix());
        }
        self.single_args(args, 0, 6)
    }

    fn transform(&mut self, ctx: &Value, canvas: &Value, method: CanvasMethod, args: &Vec<Value>) -> (r: Result<Value, Stop>)
        requires
            old(self).wf(),
        ensures
            final(self).follows(*old(self)),
            run_value(r, *final(self)) == transform(
                old(self).host(),
                old(self).pos as nat,
                ctx@,
                canvas@,
                method,
                views(args@),
            ),
    {
        let cur: Vec<Value> = self.ctm_of(ctx)?;
        let m: Vec<Value> = self.asked_transform(method, args)?;
        let new: Vec<Value> = if method == CanvasMethod::SetTransform || method
            == CanvasMethod::ResetTransform {
            m
        } else {
            self.ask_list(Op::Compose, cat(m, &cur))?
        };
        self.store_list(ctx, "\0ctm", &new)?;
        self.draw(canvas, DrawCmd::SetTransform, &new)?;
        Ok(Value::Undefined)
    }

    #[verifier::loop_isolation(false)]
    fn snapshot_from(&mut self, ctx: &Value) -> (r: Result<Vec<Value>, Stop>)
        requires
            old(self).wf(),
        ensures
            final(self).follows(*old(self)),
            run_list(r, *final(self)) == snapshot_from(
                old(self).host(),
                old(self).pos as nat,
                ctx@,
                0,
                Seq::empty(),
            ),
    {
        let ghost goal = snapshot_from(self.host(), self.pos as nat, ctx@, 0, Seq::empty());
        let mut out: Vec<Value> = empty_list();
        let mut i: usize = 0;
        while i < SAVED
            invariant
                i <= SAVED,
                self.follows(*old(self)),
                goal == snapshot_from(self.host(), self.pos as nat, ctx@, i as int, views(out@)),
            decreases SAVED - i,
        {
            let ghost before = views(out@);
            let v: Value = match self.ctx_slot(ctx, key_of(i))? {
                Some(x) => x,
                None => Value::Undefined,
            };
            out.push(v);
            assert(views(out@) =~= before.push(v@));
            i = i + 1;
        }
        Ok(out)
    }

    fn snapshot(&mut self, ctx: &Value) -> (r: Result<Vec<Value>, Stop>)
        requires
            old(self).wf(),
        ensures
            final(self).follows(*old(self)),
            run_list(r, *final(self)) == snapshot(
                old(self).host(),
                old(self).pos as nat,
                ctx@,
            ),
    {
        let mut l: Vec<Value> = self.snapshot_from(ctx)?;
        let ghost before = views(l@);
        let c: Value = match self.ctx_slot(ctx, "\0clip")? {
            Some(x) => x,
            None => Value::Null,
        };
        l.push(c);
        assert(views(l@) =~= before.push(c@));
        Ok(l)
    }

    fn save(&mut self, ctx: &Value) -> (r: Result<Value, Stop>)
        requires
            old(self).wf(),
        ensures
            final(self).follows(*old(self)),
            run_value(r, *final(self)) == save(
                old(self).host(),
                old(self).pos as nat,
                ctx@,
            ),
    {
        let snap: Vec<Value> = self.snapshot(ctx)?;
        let a: Value = self.ask_value(Op::NewArray, snap)?;
        match self.ctx_list(ctx, "\0stack")? {
            Some(_) => {
                self.list_append(ctx, "\0stack", a)?;
            },
            None => {
                self.store_list(ctx, "\0stack", &list1(a))?;
            },
        }
        Ok(Value::Undefined)
    }

    #[verifier::loop_isolation(false)]
    fn state_put_back(&mut self, ctx: &Value, snap: &Vec<Value>) -> (r: Result<(), Stop>)
        requires
            old(self).wf(),
        ensures
            final(self).follows(*old(self)),
            run_plain(r, *final(self)) == state_put_back(
                old(self).host(),
                old(self).pos as nat,
                ctx@,
                views(snap@),
                0,
            ),
    {
        let ghost all = views(snap@);
        let ghost goal = state_put_back(self.host(), self.pos as nat, ctx@, all, 0);
        let mut i: usize = 0;
        while i < SAVED && i < snap.len()
            invariant
                i <= SAVED,
                i <= snap@.len(),
                self.follows(*old(self)),
                goal == state_put_back(self.host(), self.pos as nat, ctx@, all, i as int),
            decreases SAVED - i,
        {
            assert(all[i as int] == snap@[i as int]@);
            if !matches!(&snap[i], Value::Undefined) {
                self.ctx_store(ctx, key_of(i), snap[i].clone())?;
            }
            i = i + 1;
        }
        Ok(())
    }

    fn send_clip(&mut self, canvas: &Value, kept: &Value) -> (r: Result<(), Stop>)
        requires
            old(self).wf(),
        ensures
            final(self).follows(*old(self)),
            run_plain(r, *final(self)) == send_clip(
                old(self).host(),
                old(self).pos as nat,
                canvas@,
                kept@,
            ),
    {
        match kept {
            Value::Ref(Kind::Arr, _) => {
                let l: Vec<Value> = self.ask_list(Op::Elements, list1(kept.clone()))?;
                let pts: Vec<Value> = self.ask_list(Op::Singles, whole(&l))?;
                self.draw(canvas, DrawCmd::Clip, &pts)
            },
            _ => self.draw(canvas, DrawCmd::Unclip, &empty_list()),
        }
    }

    fn restore_state(&mut self, ctx: &Value, canvas: &Value, snap: &Vec<Value>) -> (r: Result<Value, Stop>)
        requires
            old(self).wf(),
        ensures
            final(self).follows(*old(self)),
            run_value(r, *final(self)) == restore_state(
                old(self).host(),
                old(self).pos as nat,
                ctx@,
                canvas@,
                views(snap@),
            ),
    {
        let kept: Value = if snap.len() > SAVED {
            snap[SAVED].clone()
        } else {
            Value::Null
        };
        assert(kept@ == clip_kept(views(snap@)));
        self.state_put_back(ctx, snap)?;
        self.ctx_store(ctx, "\0clip", kept.clone())?;
        let m: Vec<Value> = self.ctm_of(ctx)?;
        self.draw(canvas, DrawCmd::SetTransform, &m)?;
        self.send_clip(canvas, &kept)?;
        Ok(Value::Undefined)
    }

    fn pop_state(&mut self, ctx: &Value) -> (r: Result<Option<Value>, Stop>)
        requires
            old(self).wf(),
        ensures
            final(self).follows(*old(self)),
            run_slot(r, *final(self)) == pop_state(
                old(self).host(),
                old(self).pos as nat,
                ctx@,
            ),
    {
        match self.ctx_slot(ctx, "\0stack")? {
            Some(Value::Ref(Kind::Arr, i)) => {
                let a: Value = Value::Ref(Kind::Arr, i);
                let l: Vec<Value> = self.ask_list(Op::Elements, list1(a.clone()))?;
                let n: usize = l.len();
                if n == 0 {
                    return Ok(None);
                }
                let left: Vec<Value> = part(&l, 0, n - 1);
                assert(views(left@) =~= views(l@).drop_last());
                let u: Value = self.ask_value(Op::StoreElements, cat(list1(a), &left))?;
                Ok(Some(l[n - 1].clone()))
            },
            _ => Ok(None),
        }
    }

    fn restore(&mut self, ctx: &Value, canvas: &Value) -> (r: Result<Value, Stop>)
        requires
            old(self).wf(),
        ensures
            final(self).follows(*old(self)),
            run_value(r, *final(self)) == restore(
                old(self).host(),
                old(self).pos as nat,
                ctx@,
                canvas@,
            ),
    {
        match self.pop_state(ctx)? {
            Some(Value::Ref(Kind::Arr, i)) => {
                let snap: Vec<Value> = self.ask_list(Op::Elements, list1(Value::Ref(Kind::Arr, i)))?;
                self.restore_state(ctx, canvas, &snap)
            },
            _ => Ok(Value::Undefined),
        }
    }

    fn measure_text(&mut self, ctx: &Value, args: &Vec<Value>) -> (r: Result<Value, Stop>)
        requires
            old(self).wf(),
        ensures
            final(self).follows(*old(self)),
            run_value(r, *final(self)) == measure_text(
                old(self).host(),
                old(self).pos as nat,
                ctx@,
                views(args@),
            ),
    {
        let text: String = self.display_arg(args, 0)?;
        let px: Num = self.ctx_font_px(ctx)?;
        let w: Num = self.ask_number(Op::TextWidth, list2(Value::Str(text), Value::Num(px)))?;
        let e: Vec<Value> = self.ask_list(Op::TextExtents, list1(Value::Num(px)))?;
        let fields: Vec<Value> = cat(
            list4(
                text_value("width"),
                Value::Num(w),
                text_value("actualBoundingBoxAscent"),
                arg_at(&e, 0),
            ),
            &list2(text_value("actualBoundingBoxDescent"), arg_at(&e, 1)),
        );
        assert(views(fields@) =~= seq![
            Val::Str("width"@),
            Val::Num(w),
            Val::Str("actualBoundingBoxAscent"@),
            arg(views(e@), 0),
            Val::Str("actualBoundingBoxDescent"@),
            arg(views(e@), 1),
        ]);
        self.ask_value(Op::NewObject, fields)
    }

    fn draw_image(&mut self, canvas: &Value, args: &Vec<Value>) -> (r: Result<Value, Stop>)
        requires
            old(self).wf(),
        ensures
            final(self).follows(*old(self)),
            run_value(r, *final(self)) == draw_image(
                old(self).host(),
                old(self).pos as nat,
                canvas@,
                views(args@),
            ),
    {
        match self.image_of(&arg_at(args, 0))? {
            None => {
                self.warn("drawImage 의 소스를 찾지 못했다 (<img> 요소만 지원)")?;
                Ok(Value::Undefined)
            },
            Some(idx) => {
                let at: Vec<Value> = self.single_args(args, 1, 3)?;
                let size: Vec<Value> = if args.len() >= 5 {
                    self.single_args(args, 3, 5)?
                } else {
                    list2(whole_number(0), whole_number(0))
                };
                let params: Vec<Value> = cat(cat(list1(idx), &at), &size);
                self.draw(canvas, DrawCmd::DrawImage, &params)?;
                Ok(Value::Undefined)
            },
        }
    }

    fn fill_rect(&mut self, ctx: &Value, canvas: &Value, args: &Vec<Value>) -> (r: Result<Value, Stop>)
        requires
            old(self).wf(),
        ensures
            final(self).follows(*old(self)),
            run_value(r, *final(self)) == fill_rect(
                old(self).host(),
                old(self).pos as nat,
                ctx@,
                canvas@,
                views(args@),
            ),
    {
        let rect: Vec<Value> = self.single_args(args, 0, 4)?;
        self.fill_area(ctx, canvas, rect, &empty_list(), DrawCmd::FillRect)?;
        Ok(Value::Undefined)
    }

    fn clear_rect(&mut self, canvas: &Value, args: &Vec<Value>) -> (r: Result<Value, Stop>)
        requires
            old(self).wf(),
        ensures
            final(self).follows(*old(self)),
            run_value(r, *final(self)) == clear_rect(
                old(self).host(),
                old(self).pos as nat,
                canvas@,
                views(args@),
            ),
    {
        let rect: Vec<Value> = self.single_args(args, 0, 4)?;
        self.draw(canvas, DrawCmd::ClearRect, &rect)?;
        Ok(Value::Undefined)
    }

    fn stroke_rect(&mut self, ctx: &Value, canvas: &Value, args: &Vec<Value>) -> (r: Result<Value, Stop>)
        requires
            old(self).wf(),
        ensures
            final(self).follows(*old(self)),
            run_value(r, *final(self)) == stroke_rect(
                old(self).host(),
                old(self).pos as nat,
                ctx@,
                canvas@,
                views(args@),
            ),
    {
        let lw: Value = self.ctx_single(ctx, "lineWidth", 1)?;
        let rect: Vec<Value> = self.single_args(args, 0, 4)?;
        let c: Vec<Value> = self.brush(ctx, "strokeStyle")?;
        let params: Vec<Value> = cat(cat(rect, &c), &list1(lw));
        self.draw(canvas, DrawCmd::StrokeRect, &params)?;
        Ok(Value::Undefined)
    }

    fn shifted(&mut self, x: Value, op: Op, size: Num, kind: i64) -> (r: Result<Value, Stop>)
        requires
            old(self).wf(),
            0 <= kind <= 3,
        ensures
            final(self).follows(*old(self)),
            run_value(r, *final(self)) == shifted(
                old(self).host(),
                old(self).pos as nat,
                x@,
                op,
                size,
                kind as int,
            ),
    {
        let d: Num = if kind == 0 {
            Num::from_u64(0)
        } else {
            self.ask_number(op, list2(Value::Num(size), whole_number(kind)))?
        };
        let s: Num = self.ask_number(Op::Sum, list2(x, Value::Num(d)))?;
        Ok(Value::Num(s))
    }

    fn text_place(&mut self, ctx: &Value, args: &Vec<Value>, width: Num, px: Num) -> (r: Result<Vec<Value>, Stop>)
        requires
            old(self).wf(),
        ensures
            final(self).follows(*old(self)),
            run_list(r, *final(self)) == text_place(
                old(self).host(),
                old(self).pos as nat,
                ctx@,
                views(args@),
                width,
                px,
            ),
    {
        let align: String = self.ctx_text(ctx, "textAlign", "start")?;
        let base: String = self.ctx_text(ctx, "textBaseline", "alphabetic")?;
        let at: Vec<Value> = self.single_args(args, 0, 2)?;
        let x: Value = self.shifted(
            arg_at(&at, 0),
            Op::AlignShift,
            width,
            anchor_kind(align.as_str()),
        )?;
        let y: Value = self.shifted(
            arg_at(&at, 1),
            Op::BaselineShift,
            px,
            baseline_kind(base.as_str()),
        )?;
        Ok(list2(x, y))
    }

    fn fill_text(&mut self, ctx: &Value, canvas: &Value, args: &Vec<Value>) -> (r: Result<Value, Stop>)
        requires
            old(self).wf(),
        ensures
            final(self).follows(*old(self)),
            run_value(r, *final(self)) == fill_text(
                old(self).host(),
                old(self).pos as nat,
                ctx@,
                canvas@,
                views(args@),
            ),
    {
        let text: String = self.display_arg(args, 0)?;
        let px: Num = self.ctx_font_px(ctx)?;
        let w: Num = self.ask_number(
            Op::TextWidth,
            list2(Value::Str(text.clone()), Value::Num(px)),
        )?;
        let at: Vec<Value> = self.text_place(ctx, args, w, px)?;
        let c: Vec<Value> = self.brush(ctx, "fillStyle")?;
        let params: Vec<Value> = cat(
            cat(cat(list1(Value::Str(text)), &at), &c),
            &list1(Value::Num(px)),
        );
        self.draw(canvas, DrawCmd::FillText, &params)?;
        Ok(Value::Undefined)
    }

    fn fill(&mut self, ctx: &Value, canvas: &Value) -> (r: Result<Value, Stop>)
        requires
            old(self).wf(),
        ensures
            final(self).follows(*old(self)),
            run_value(r, *final(self)) == fill(
                old(self).host(),
                old(self).pos as nat,
                ctx@,
                canvas@,
            ),
    {
        let pts: Vec<Value> = self.get_path(ctx)?;
        if pts.len() < 6 {
            return Ok(Value::Undefined);
        }
        let rect: Vec<Value> = self.ask_list(Op::Bounds, clone_values(&pts))?;
        self.fill_area(ctx, canvas, rect, &pts, DrawCmd::FillPath)?;
        Ok(Value::Undefined)
    }

    fn stroke_width(&mut self, ctx: &Value) -> (r: Result<Value, Stop>)
        requires
            old(self).wf(),
        ensures
            final(self).follows(*old(self)),
            run_value(r, *final(self)) == stroke_width(
                old(self).host(),
                old(self).pos as nat,
                ctx@,
            ),
    {
        match self.ctx_slot(ctx, "lineWidth")? {
            Some(Value::Num(n)) => {
                let x: Num = self.ask_number(Op::AtLeastOne, list1(Value::Num(n)))?;
                Ok(Value::Num(x))
            },
            _ => Ok(whole_number(1)),
        }
    }

    fn pen_of(&mut self, ctx: &Value) -> (r: Result<Pen, Stop>)
        requires
            old(self).wf(),
        ensures
            final(self).follows(*old(self)),
            pen_run(r, *final(self)) == pen_of(
                old(self).host(),
                old(self).pos as nat,
                ctx@,
            ),
    {
        let width: Value = self.stroke_width(ctx)?;
        let cap: String = self.ctx_text(ctx, "lineCap", "butt")?;
        let join: String = self.ctx_text(ctx, "lineJoin", "miter")?;
        let colour: Vec<Value> = self.brush(ctx, "strokeStyle")?;
        Ok(
            Pen {
                width,
                colour,
                style: LineStyle {
                    round_cap: same_text(cap.as_str(), "round"),
                    square_cap: same_text(cap.as_str(), "square"),
                    round_join: same_text(join.as_str(), "round"),
                    miter_join: same_text(join.as_str(), "miter"),
                },
            },
        )
    }

    fn fill_polygon(&mut self, canvas: &Value, pen: &Pen, pts: &Vec<Value>) -> (r: Result<(), Stop>)
        requires
            old(self).wf(),
        ensures
            final(self).follows(*old(self)),
            run_plain(r, *final(self)) == fill_polygon(
                old(self).host(),
                old(self).pos as nat,
                canvas@,
                pen@,
                views(pts@),
            ),
    {
        self.draw(canvas, DrawCmd::FillPath, &cat(with_count(pts), &pen.colour))
    }

    fn fill_circle(&mut self, canvas: &Value, pen: &Pen, at: Vec<Value>) -> (r: Result<(), Stop>)
        requires
            old(self).wf(),
        ensures
            final(self).follows(*old(self)),
            run_plain(r, *final(self)) == fill_circle(
                old(self).host(),
                old(self).pos as nat,
                canvas@,
                pen@,
                views(at@),
            ),
    {
        let pts: Vec<Value> = self.ask_list(
            Op::Points(Shape::Circle),
            cat(at, &list1(pen.width.clone())),
        )?;
        self.fill_polygon(canvas, pen, &pts)
    }

    fn close(&mut self, a: Vec<Value>, b: &Vec<Value>) -> (r: Result<bool, Stop>)
        requires
            old(self).wf(),
        ensures
            final(self).follows(*old(self)),
            run_plain(r, *final(self)) == close(
                old(self).host(),
                old(self).pos as nat,
                views(a@),
                views(b@),
            ),
    {
        self.ask_flag(Op::TooShort, cat(a, b))
    }

    fn caps(&mut self, canvas: &Value, pen: &Pen, pts: &Vec<Value>, i: usize, n: usize) -> (r: Result<(), Stop>)
        requires
            old(self).wf(),
            2 * n + 1 <= usize::MAX,
            i + 1 < n,
        ensures
            final(self).follows(*old(self)),
            run_plain(r, *final(self)) == caps(
                old(self).host(),
                old(self).pos as nat,
                canvas@,
                pen@,
                views(pts@),
                i as int,
                n as int,
            ),
    {
        if !pen.style.round_cap {
            return Ok(());
        }
        if i == 0 {
            self.fill_circle(canvas, pen, point_at(pts, i))?;
        }
        if i + 2 == n {
            self.fill_circle(canvas, pen, point_at(pts, i + 1))?;
        }
        Ok(())
    }

    fn bend_side(&mut self, canvas: &Value, pen: &Pen, pts: &Vec<Value>, i: usize, side: i64) -> (r: Result<
        (),
        Stop,
    >)
        requires
            old(self).wf(),
            2 * i + 5 <= usize::MAX,
            -1 <= side <= 1,
        ensures
            final(self).follows(*old(self)),
            run_plain(r, *final(self)) == bend_side(
                old(self).host(),
                old(self).pos as nat,
                canvas@,
                pen@,
                views(pts@),
                i as int,
                side as int,
            ),
    {
        let all: Vec<Value> = cat(
            cat(cat(point_at(pts, i), &point_at(pts, i + 1)), &point_at(pts, i + 2)),
            &list3(
                pen.width.clone(),
                whole_number(side),
                Value::Bool(pen.style.miter_join),
            ),
        );
        let poly: Vec<Value> = self.ask_list(Op::BendOutline, all)?;
        self.fill_polygon(canvas, pen, &poly)
    }

    fn bend(&mut self, canvas: &Value, pen: &Pen, pts: &Vec<Value>, i: usize, n: usize) -> (r: Result<(), Stop>)
        requires
            old(self).wf(),
            2 * n + 1 <= usize::MAX,
            i + 1 < n,
        ensures
            final(self).follows(*old(self)),
            run_plain(r, *final(self)) == bend(
                old(self).host(),
                old(self).pos as nat,
                canvas@,
                pen@,
                views(pts@),
                i as int,
                n as int,
            ),
    {
        if i + 2 >= n {
            return Ok(());
        }
        if self.close(point_at(pts, i + 1), &point_at(pts, i + 2))? {
            return Ok(());
        }
        if pen.style.round_join {
            return self.fill_circle(canvas, pen, point_at(pts, i + 1));
        }
        self.bend_side(canvas, pen, pts, i, 1)?;
        self.bend_side(canvas, pen, pts, i, -1)
    }

    fn stroke_line(&mut self, canvas: &Value, pen: &Pen, pts: &Vec<Value>, i: usize, n: usize) -> (r: Result<(), Stop>)
        requires
            old(self).wf(),
            2 * n + 1 <= usize::MAX,
            i + 1 < n,
        ensures
            final(self).follows(*old(self)),
            run_plain(r, *final(self)) == stroke_line(
                old(self).host(),
                old(self).pos as nat,
                canvas@,
                pen@,
                views(pts@),
                i as int,
                n as int,
            ),
    {
        if self.close(point_at(pts, i), &point_at(pts, i + 1))? {
            return Ok(());
        }
        let square: bool = pen.style.square_cap;
        let all: Vec<Value> = cat(
            cat(point_at(pts, i), &point_at(pts, i + 1)),
            &list3(
                pen.width.clone(),
                Value::Bool(square && i == 0),
                Value::Bool(square && i + 2 == n),
            ),
        );
        let body: Vec<Value> = self.ask_list(Op::LineOutline, all)?;
        self.fill_polygon(canvas, pen, &body)?;
        self.caps(canvas, pen, pts, i, n)?;
        self.bend(canvas, pen, pts, i, n)
    }

    #[verifier::loop_isolation(false)]
    fn stroke_from(&mut self, canvas: &Value, pen: &Pen, pts: &Vec<Value>, n: usize) -> (r: Result<(), Stop>)
        requires
            old(self).wf(),
            2 * n + 1 <= usize::MAX,
        ensures
            final(self).follows(*old(self)),
            run_plain(r, *final(self)) == stroke_from(
                old(self).host(),
                old(self).pos as nat,
                canvas@,
                pen@,
                views(pts@),
                0,
                n as int,
            ),
    {
        let ghost goal = stroke_from(
            self.host(),
            self.pos as nat,
            canvas@,
            pen@,
            views(pts@),
            0,
            n as int,
        );
        let mut i: usize = 0;
        while i + 1 < n
            invariant
                i <= n,
                2 * n + 1 <= usize::MAX,
                self.follows(*old(self)),
                goal == stroke_from(
                    self.host(),
                    self.pos as nat,
                    canvas@,
                    pen@,
                    views(pts@),
                    i as int,
                    n as int,
                ),
            decreases n - i,
        {
            self.stroke_line(canvas, pen, pts, i, n)?;
            i = i + 1;
        }
        Ok(())
    }

    fn stroke(&mut self, ctx: &Value, canvas: &Value) -> (r: Result<Value, Stop>)
        requires
            old(self).wf(),
        ensures
            final(self).follows(*old(self)),
            run_value(r, *final(self)) == stroke(
                old(self).host(),
                old(self).pos as nat,
                ctx@,
                canvas@,
            ),
    {
        let pts: Vec<Value> = self.get_path(ctx)?;
        let pen: Pen = self.pen_of(ctx)?;
        let n: usize = pts.len() / 2;
        self.stroke_from(canvas, &pen, &pts, n)?;
        Ok(Value::Undefined)
    }

    fn draw_method(&mut self, method: CanvasMethod, ctx: &Value, canvas: &Value, args: &Vec<Value>) -> (r: Result<Value, Stop>)
        requires
            old(self).wf(),
        ensures
            final(self).follows(*old(self)),
            run_value(r, *final(self)) == draw_method(
                old(self).host(),
                old(self).pos as nat,
                method,
                ctx@,
                canvas@,
                views(args@),
            ),
    {
        match method {
            CanvasMethod::GetImageData => self.get_image_data(canvas, args),
            CanvasMethod::CreateImageData => self.create_image_data(args),
            CanvasMethod::PutImageData => self.put_image_data(canvas, args),
            CanvasMethod::Clip => self.clip(ctx, canvas),
            CanvasMethod::MeasureText => self.measure_text(ctx, args),
            CanvasMethod::DrawImage => self.draw_image(canvas, args),
            CanvasMethod::FillRect => self.fill_rect(ctx, canvas, args),
            CanvasMethod::ClearRect => self.clear_rect(canvas, args),
            CanvasMethod::StrokeRect => self.stroke_rect(ctx, canvas, args),
            CanvasMethod::FillText => self.fill_text(ctx, canvas, args),
            CanvasMethod::Fill => self.fill(ctx, canvas),
            CanvasMethod::Stroke => self.stroke(ctx, canvas),
            _ => Ok(Value::Undefined),
        }
    }

    fn state_method(&mut self, method: CanvasMethod, ctx: &Value, canvas: &Value, args: &Vec<Value>) -> (r: Result<Value, Stop>)
        requires
            old(self).wf(),
        ensures
            final(self).follows(*old(self)),
            run_value(r, *final(self)) == state_method(
                old(self).host(),
                old(self).pos as nat,
                method,
                ctx@,
                canvas@,
                views(args@),
            ),
    {
        match method {
            CanvasMethod::CreateLinearGradient => self.create_gradient(args, 4),
            CanvasMethod::CreateRadialGradient => self.create_gradient(args, 6),
            CanvasMethod::CreatePattern => self.create_pattern(args),
            CanvasMethod::BezierCurveTo => self.curve_to(ctx, args, Shape::Bezier, 6),
            CanvasMethod::QuadraticCurveTo => self.curve_to(ctx, args, Shape::Quadratic, 4),
            CanvasMethod::Translate
            | CanvasMethod::Rotate
            | CanvasMethod::Scale
            | CanvasMethod::Transform
            | CanvasMethod::SetTransform
            | CanvasMethod::ResetTransform => self.transform(ctx, canvas, method, args),
            CanvasMethod::Save => self.save(ctx),
            CanvasMethod::Restore => self.restore(ctx, canvas),
            CanvasMethod::Ellipse => self.add_shape(ctx, args, Shape::Ellipse, 7),
            CanvasMethod::RoundRect => self.add_shape(ctx, args, Shape::RoundRect, 5),
            CanvasMethod::Rect => self.add_shape(ctx, args, Shape::Rect, 4),
            CanvasMethod::Arc => self.add_shape(ctx, args, Shape::Arc, 5),
            CanvasMethod::BeginPath => {
                self.set_path(ctx, &empty_list())?;
                Ok(Value::Undefined)
            },
            CanvasMethod::MoveTo | CanvasMethod::LineTo => {
                let at: Vec<Value> = self.single_args(args, 0, 2)?;
                self.push_path(ctx, &at)?;
                Ok(Value::Undefined)
            },
            _ => self.draw_method(method, ctx, canvas, args),
        }
    }

    /// A method of a drawing context, or `addColorStop` of a gradient.
    pub fn canvas_method(&mut self, method: CanvasMethod, recv: &Option<Value>, args: &Vec<Value>) -> (r: Result<Value, Stop>)
        requires
            old(self).wf(),
        ensures
            final(self).follows(*old(self)),
            run_value(r, *final(self)) == canvas_method_run(
                old(self).host(),
                old(self).pos as nat,
                method,
                opt_view(*recv),
                views(args@),
            ),
    {
        let v: Value = this_or_undefined(recv);
        match &v {
            Value::Ref(Kind::Obj, _) => {
                if method == CanvasMethod::AddColorStop {
                    return self.add_colour_stop(&v, args);
                }
                match self.ctx_slot(&v, "\0canvas")? {
                    Some(Value::Num(n)) => {
                        let canvas: Value = Value::Num(n);
                        self.send_shadow(&v, &canvas)?;
                        self.state_method(method, &v, &canvas, args)
                    },
                    _ => Ok(Value::Undefined),
                }
            },
            _ => Ok(Value::Undefined),
        }
    }
}

fn anchor_kind(align: &str) -> (r: i64)
    ensures
        r == anchor_of(align@),
        0 <= r <= 3,
{
    if same_text(align, "center") {
        1
    } else if same_text(align, "right") || same_text(align, "end") {
        2
    } else {
        0
    }
}

fn baseline_kind(b: &str) -> (r: i64)
    ensures
        r == baseline_of(b@),
        0 <= r <= 3,
{
    if same_text(b, "top") || same_text(b, "hanging") {
        1
    } else if same_text(b, "middle") {
        2
    } else if same_text(b, "bottom") || same_text(b, "ideographic") {
        3
    } else {
        0
    }
}

/// The messages that a canvas has warned of.
pub struct Warnings {
    pub seen: Vec<String>,
}

impl Warnings {
    pub open spec fn warned(self, message: Seq<char>) -> bool {
        exists|i: int| 0 <= i < self.seen@.len() && (#[trigger] self.seen@[i])@ == message
    }

    /// Whether a message has to be shown: each is shown once.
    pub fn canvas_warn(&mut self, message: &str) -> (r: bool)
        ensures
            r == !old(self).warned(message@),
            forall|m: Seq<char>|
                #[trigger] final(self).warned(m) == (old(self).warned(m) || m == message@),
    {
        let mut i: usize = 0;
        while i < self.seen.len()
            invariant
                i <= self.seen@.len(),
                *self == *old(self),
                forall|j: int| 0 <= j < i ==> (#[trigger] self.seen@[j])@ != message@,
            decreases self.seen@.len() - i,
        {
            if same_text(self.seen[i].as_str(), message) {
                return false;
            }
            i = i + 1;
        }
        let ghost before = self.seen@;
        self.seen.push(message.to_owned());
        assert forall|m: Seq<char>| #[trigger] self.warned(m) == (old(self).warned(m) || m
            == message@) by {
            if old(self).warned(m) {
                let k = choose|k: int| 0 <= k < before.len() && (#[trigger] before[k])@ == m;
                assert(self.seen@[k]@ == m);
            }
            if m == message@ {
                assert(self.seen@[before.len() as int]@ == m);
            }
        }
        true
    }
}

/// Stops in order: none stands before one that it is beyond.
pub open spec fn in_order(s: Seq<ColourStopV>) -> bool {
    forall|i: int, j: int|
        0 <= i < j < s.len() ==> !greater((#[trigger] s[i]).at, (#[trigger] s[j]).at)
}

pub open spec fn all_numbers(s: Seq<ColourStopV>) -> bool {
    forall|i: int| 0 <= i < s.len() ==> !(#[trigger] s[i]).at.nan()
}

/// A gradient's stops come in order, however they were added: putting one more among stops that
/// are in order leaves them in order and loses none.
pub proof fn law_stops_in_order(s: Seq<ColourStopV>, x: ColourStopV)
    requires
        in_order(s),
        all_numbers(s),
        !x.at.nan(),
    ensures
        in_order(stop_inserted(s, x)),
        all_numbers(stop_inserted(s, x)),
        stop_inserted(s, x).to_multiset() == s.to_multiset().insert(x),
    decreases s.len(),
{
    broadcast use vstd::seq_lib::group_to_multiset_ensures;

    if s.len() == 0 || !greater(s.last().at, x.at) {
        let r = s.push(x);
        assert forall|i: int, j: int| 0 <= i < j < r.len() implies !greater(
            (#[trigger] r[i]).at,
            (#[trigger] r[j]).at,
        ) by {
            if j == s.len() && i < s.len() - 1 {
                assert(!greater(s[i].at, s[s.len() - 1].at));
            }
        }
    } else {
        let init = s.drop_last();
        let t = stop_inserted(init, x);
        law_stops_in_order(init, x);
        let r = t.push(s.last());
        assert(init.push(s.last()) =~= s);
        assert(init.to_multiset().insert(s.last()) =~= s.to_multiset());
        assert(r.to_multiset() =~= s.to_multiset().insert(x));
        assert forall|i: int, j: int| 0 <= i < j < r.len() implies !greater(
            (#[trigger] r[i]).at,
            (#[trigger] r[j]).at,
        ) by {
            if j == t.len() {
                assert(t.to_multiset().count(t[i]) > 0);
                assert(init.to_multiset().insert(x).count(t[i]) > 0);
                if t[i] == x {
                } else {
                    assert(init.to_multiset().count(t[i]) > 0);
                    assert(init.contains(t[i]));
                    let k = choose|k: int| 0 <= k < init.len() && init[k] == t[i];
                    assert(!greater(s[k].at, s[s.len() - 1].at));
                }
            }
        }
        assert(all_numbers(r)) by {
            assert(!s[s.len() - 1].at.nan());
        }
    }
}

/// The question for a property that `save` keeps.
pub open spec fn saved_question(ctx: Val, i: int) -> Question {
    Question { op: Op::OwnSlot, args: seq![ctx, Val::Str(saved_key(i))] }
}

/// The question for the clip.
pub open spec fn clip_question(ctx: Val) -> Question {
    Question { op: Op::OwnSlot, args: seq![ctx, Val::Str("\0clip"@)] }
}

proof fn lemma_snapshot_from(h: Host, pos: nat, ctx: Val, kept: Seq<Val>, i: nat)
    requires
        i <= SAVED,
        kept.len() == SAVED + 1,
        pos + SAVED <= h.len,
        forall|j: int|
            0 <= j < SAVED ==> (h.reply)((pos + j) as nat, #[trigger] saved_question(ctx, j))
                == Answer::Value(kept[j]),
    ensures
        snapshot_from(h, pos + i, ctx, i as int, kept.take(i as int)) == done(
            kept.take(SAVED as int),
            pos + SAVED as nat,
        ),
    decreases SAVED - i,
{
    if i < SAVED {
        assert((h.reply)((pos + i) as nat, saved_question(ctx, i as int)) == Answer::Value(
            kept[i as int],
        ));
        assert(kept.take(i as int).push(kept[i as int]) =~= kept.take(i as int + 1));
        lemma_snapshot_from(h, pos, ctx, kept, i + 1);
    }
}

/// `save` keeps the transform, the styles, the line, text and shadow settings and the clip, as they
/// are.
pub proof fn law_save_keeps(h: Host, pos: nat, ctx: Val, kept: Seq<Val>)
    requires
        kept.len() == SAVED + 1,
        h.len == pos + SAVED + 1,
        forall|j: int|
            0 <= j < SAVED ==> (h.reply)((pos + j) as nat, #[trigger] saved_question(ctx, j))
                == Answer::Value(kept[j]),
        (h.reply)((pos + SAVED) as nat, clip_question(ctx)) == Answer::Value(kept[SAVED as int]),
    ensures
        snapshot(h, pos, ctx) == done(kept, h.len),
        save(h, pos, ctx) == halted::<Val>(
            Halt::Ask(Question { op: Op::NewArray, args: kept }),
            h.len,
        ),
{
    lemma_snapshot_from(h, pos, ctx, kept, 0);
    assert(kept.take(0) =~= Seq::<Val>::empty());
    assert(kept.take(SAVED as int).push(kept[SAVED as int]) =~= kept);
    assert(snapshot(h, pos, ctx) == done(kept, h.len));
}

/// The questions by which the first `n` properties get back what was kept of them.
pub open spec fn put_back(ctx: Val, kept: Seq<Val>, n: nat) -> Seq<Question> {
    Seq::new(
        n,
        |i: int| Question { op: Op::StoreSlot, args: seq![ctx, Val::Str(saved_key(i)), kept[i]] },
    )
}

/// The question by which the clip comes back.
pub open spec fn put_clip(ctx: Val, kept: Seq<Val>) -> Question {
    Question { op: Op::StoreSlot, args: seq![ctx, Val::Str("\0clip"@), kept[SAVED as int]] }
}

proof fn lemma_put_back(h: Host, pos: nat, ctx: Val, kept: Seq<Val>, i: nat)
    requires
        i <= SAVED,
        kept.len() == SAVED + 1,
        pos + i <= h.len,
        forall|j: int| 0 <= j < SAVED ==> !(#[trigger] kept[j] is Undefined),
        forall|j: int|
            0 <= j < SAVED ==> !((h.reply)(
                (pos + j) as nat,
                #[trigger] put_back(ctx, kept, SAVED as nat)[j],
            ) is Throw),
    ensures
        state_put_back(h, pos + i, ctx, kept, i as int) == plays(
            h,
            pos,
            put_back(ctx, kept, SAVED as nat),
            (),
        ),
    decreases SAVED - i,
{
    if i < SAVED {
        let q = put_back(ctx, kept, SAVED as nat)[i as int];
        assert(!((h.reply)((pos + i) as nat, q) is Throw));
        if pos + i < h.len {
            lemma_put_back(h, pos, ctx, kept, i + 1);
        }
    }
}

/// `restore` gives back what `save` kept: every property is stored as it was kept, then the clip.
/// After that the canvas is told of the transform that is in force again and, last of all, of the
/// clip.
#[verifier::rlimit(60)]
pub proof fn law_restore_gives_back(h: Host, pos: nat, ctx: Val, canvas: Val, kept: Seq<Val>)
    requires
        kept.len() == SAVED + 1,
        pos <= h.len,
        forall|j: int| 0 <= j < SAVED ==> !(#[trigger] kept[j] is Undefined),
        forall|j: int|
            0 <= j < SAVED ==> !((h.reply)(
                (pos + j) as nat,
                #[trigger] put_back(ctx, kept, SAVED as nat)[j],
            ) is Throw),
        !((h.reply)((pos + SAVED) as nat, put_clip(ctx, kept)) is Throw),
    ensures
        ({
            let r = restore_state(h, pos, ctx, canvas, kept);
            let p = (pos + SAVED + 1) as nat;
            let stores = put_back(ctx, kept, SAVED as nat).push(put_clip(ctx, kept));
            if h.len < p {
                r == halted::<Val>(Halt::Ask(stores[h.len - pos]), h.len)
            } else {
                let m = ctm_of(h, p, ctx);
                match m.out {
                    Err(e) => r == halted::<Val>(e, m.pos),
                    Ok(ctm) => {
                        let t = draw(h, m.pos, canvas, DrawCmd::SetTransform, ctm);
                        match t.out {
                            Err(e) => r == halted::<Val>(e, t.pos),
                            Ok(_) => r == nothing(
                                send_clip(h, t.pos, canvas, kept[SAVED as int]),
                            ),
                        }
                    },
                }
            }
        }),
{
    lemma_put_back(h, pos, ctx, kept, 0);
    let stores = put_back(ctx, kept, SAVED as nat).push(put_clip(ctx, kept));
    assert(stores[SAVED as int] == put_clip(ctx, kept));
    assert(forall|j: int|
        0 <= j < SAVED ==> stores[j] == #[trigger] put_back(ctx, kept, SAVED as nat)[j]);
}

/// The shadows that a canvas has been sent, after one more call that asks for `next`.
pub open spec fn shadows_after(sent: Seq<Seq<Val>>, next: Seq<Val>) -> Seq<Seq<Val>> {
    let last = if sent.len() == 0 {
        Seq::empty()
    } else {
        sent.last()
    };
    if shadow_due(last, next) {
        sent.push(next)
    } else {
        sent
    }
}

/// The shadows that a canvas has been sent after calls that asked for these.
pub open spec fn shadows_sent(wanted: Seq<Seq<Val>>) -> Seq<Seq<Val>>
    decreases wanted.len(),
{
    if wanted.len() == 0 {
        Seq::empty()
    } else {
        shadows_after(shadows_sent(wanted.drop_last()), wanted.last())
    }
}

/// A call sends the canvas at most one shadow, and just where the list of its shadows grows.
pub proof fn law_shadow_call(
    h: Host,
    pos: nat,
    ctx: Val,
    canvas: Val,
    sent: Seq<Seq<Val>>,
    next: Seq<Val>,
    p: nat,
)
    requires
        shadow_of(h, pos, ctx) == done(next, p),
        p + 1 <= h.len,
        (h.reply)(p, Question { op: Op::LastShadow, args: seq![canvas] }) == Answer::List(
            if sent.len() == 0 {
                Seq::empty()
            } else {
                sent.last()
            },
        ),
    ensures
        shadows_after(sent, next) == sent ==> send_shadow(h, pos, ctx, canvas) == done((), p + 1),
        shadows_after(sent, next) != sent ==> {
            &&& shadows_after(sent, next) == sent.push(next)
            &&& send_shadow(h, pos, ctx, canvas) == draw(
                h,
                p + 1,
                canvas,
                DrawCmd::SetShadow,
                next,
            )
        },
{
    assert(sent.push(next).len() != sent.len());
}

/// No shadow follows one that is the same, and the first is one of which something shows.
pub proof fn law_shadows_differ(wanted: Seq<Seq<Val>>)
    ensures
        forall|i: int|
            0 < i < shadows_sent(wanted).len() ==> !equal_lists(
                shadows_sent(wanted)[i - 1],
                #[trigger] shadows_sent(wanted)[i],
            ),
        shadows_sent(wanted).len() > 0 ==> shadows_sent(wanted)[0].len() > 3 && truthy(
            shadows_sent(wanted)[0][3],
        ),
    decreases wanted.len(),
{
    if wanted.len() > 0 {
        law_shadows_differ(wanted.drop_last());
        let before = shadows_sent(wanted.drop_last());
        let all = shadows_sent(wanted);
        assert forall|i: int| 0 < i < all.len() implies !equal_lists(all[i - 1], #[trigger] all[i]) by {
            if i < before.len() {
                assert(all[i] == before[i]);
            }
        }
    }
}

/// A shadow that was sent is not sent again as long as it stays the same.
pub proof fn law_shadow_sent_once(s: Seq<Val>)
    requires
        forall|i: int| 0 <= i < s.len() ==> (#[trigger] s[i] matches Val::Num(n) && !n.nan()),
    ensures
        !shadow_due(s, s),
{
    assert forall|i: int| 0 <= i < s.len() implies strictly_equal(#[trigger] s[i], s[i]) by {}
}

/// Cutting out of a picture gives four bytes for each point.
pub proof fn law_cut_size(rgba: Seq<Val>, cw: nat, ch: nat, sx: nat, sy: nat, sw: nat, sh: nat)
    ensures
        cut_rows(rgba, cw, ch, sx, sy, sw, sh).len() == 4 * sw * sh,
    decreases sh,
{
    if sh > 0 {
        law_cut_size(rgba, cw, ch, sx, sy, sw, (sh - 1) as nat);
        lemma_row_size(rgba, cw, ch, sx, (sy + sh - 1) as nat, sw);
        assert(4 * sw * sh == 4 * sw * (sh - 1) + 4 * sw) by (nonlinear_arith);
    } else {
        assert(4 * sw * sh == 0) by (nonlinear_arith)
            requires
                sh == 0,
        ;
    }
}

proof fn lemma_row_size(rgba: Seq<Val>, cw: nat, ch: nat, sx: nat, y: nat, n: nat)
    ensures
        cut_row(rgba, cw, ch, sx, y, n).len() == 4 * n,
    decreases n,
{
    if n > 0 {
        lemma_row_size(rgba, cw, ch, sx, y, (n - 1) as nat);
    }
}

} // verus!
