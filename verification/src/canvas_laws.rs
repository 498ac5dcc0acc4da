//! What is drawn on a canvas and what is read from it.
use crate::canvas::{
    anchor_of, asked_transform, baseline_of, byte_of, clear_rect, cut_byte, cut_row, cut_rows,
    flat_stops, font_px, pixels, pop_state, push_path, replaces, space_end, whole_points, word_end,
    CanvasMethod, ColourStopV,
};
use crate::host::{done, Answer, DrawCmd, Halt, Host, Op, Question};
use crate::number::{law_safe_integers_exact, num_of, Num, MAX_SAFE};
use crate::text::unicode_space;
use crate::value::{Kind, Val};
use vstd::prelude::*;

verus! {

proof fn lemma_row_length(rgba: Seq<Val>, cw: nat, ch: nat, sx: nat, y: nat, n: nat)
    ensures
        cut_row(rgba, cw, ch, sx, y, n).len() == 4 * n,
    decreases n,
{
    if n > 0 {
        lemma_row_length(rgba, cw, ch, sx, y, (n - 1) as nat);
    }
}

proof fn lemma_row_byte(
    rgba: Seq<Val>,
    cw: nat,
    ch: nat,
    sx: nat,
    y: nat,
    n: nat,
    x: nat,
    k: nat,
)
    requires
        x < n,
        k < 4,
    ensures
        cut_row(rgba, cw, ch, sx, y, n)[(4 * x + k) as int] == cut_byte(rgba, cw, ch, sx + x, y, k),
    decreases n,
{
    lemma_row_length(rgba, cw, ch, sx, y, (n - 1) as nat);
    if x < n - 1 {
        lemma_row_byte(rgba, cw, ch, sx, y, (n - 1) as nat, x, k);
    }
}

proof fn lemma_rows_length(rgba: Seq<Val>, cw: nat, ch: nat, sx: nat, sy: nat, sw: nat, n: nat)
    ensures
        cut_rows(rgba, cw, ch, sx, sy, sw, n).len() == 4 * (n * sw),
    decreases n,
{
    if n > 0 {
        lemma_rows_length(rgba, cw, ch, sx, sy, sw, (n - 1) as nat);
        lemma_row_length(rgba, cw, ch, sx, (sy + n - 1) as nat, sw);
        assert((n - 1) * sw + sw == n * sw) by (nonlinear_arith);
    } else {
        assert(n * sw == 0) by (nonlinear_arith)
            requires
                n == 0,
        ;
    }
}

/// A picture that is cut out has at each of its points what the canvas has there, moved by the
/// corner of the cut, row after row.
pub proof fn law_cut_out(
    rgba: Seq<Val>,
    cw: nat,
    ch: nat,
    sx: nat,
    sy: nat,
    sw: nat,
    n: nat,
    x: nat,
    y: nat,
    k: nat,
)
    requires
        x < sw,
        y < n,
        k < 4,
    ensures
        cut_rows(rgba, cw, ch, sx, sy, sw, n)[(4 * (y * sw + x) + k) as int] == cut_byte(
            rgba,
            cw,
            ch,
            sx + x,
            sy + y,
            k,
        ),
    decreases n,
{
    let m = (n - 1) as nat;
    lemma_rows_length(rgba, cw, ch, sx, sy, sw, m);
    lemma_row_length(rgba, cw, ch, sx, (sy + n - 1) as nat, sw);
    if y < m {
        law_cut_out(rgba, cw, ch, sx, sy, sw, m, x, y, k);
        assert(y * sw + x < m * sw) by (nonlinear_arith)
            requires
                x < sw,
                y < m,
        ;
    } else {
        lemma_row_byte(rgba, cw, ch, sx, sy + y, sw, x, k);
        assert(y * sw == m * sw);
    }
}

/// The bytes of a picture stand row after row, four for a point; outside there is nothing.
pub proof fn law_picture_bytes(rgba: Seq<Val>, cw: nat, ch: nat, x: nat, y: nat, k: nat)
    requires
        rgba.len() == 4 * (cw * ch),
        k < 4,
    ensures
        x < cw && y < ch ==> cut_byte(rgba, cw, ch, x, y, k) == rgba[(4 * (y * cw + x) + k) as int],
        x >= cw || y >= ch ==> cut_byte(rgba, cw, ch, x, y, k) == Val::Num(num_of(0)),
{
    if x < cw && y < ch {
        assert(y * cw + x < cw * ch) by (nonlinear_arith)
            requires
                x < cw,
                y < ch,
        ;
    }
}

/// A number is taken as a byte by cutting it off at either end.
pub proof fn law_byte(k: int)
    requires
        -MAX_SAFE <= k <= MAX_SAFE,
    ensures
        k <= 0 ==> byte_of(num_of(k)) == Val::Num(num_of(0)),
        0 <= k <= 255 ==> byte_of(num_of(k)) == Val::Num(num_of(k)),
        k > 255 ==> byte_of(num_of(k)) == Val::Num(num_of(255)),
{
    law_safe_integers_exact(k);
}

/// What a method asks of the transformation: a shift keeps the axes, a scale keeps the origin, and a
/// reset keeps all.
pub proof fn law_transforms(h: Host, v: Val, w: Val, a: Num, b: Num)
    requires
        h.len >= 2,
        (h.reply)(0, Question { op: Op::Single, args: seq![v] }) == Answer::Value(Val::Num(a)),
        (h.reply)(1, Question { op: Op::Single, args: seq![w] }) == Answer::Value(Val::Num(b)),
    ensures
        ({
            let one = Val::Num(num_of(1));
            let zero = Val::Num(num_of(0));
            &&& asked_transform(h, 0, CanvasMethod::Translate, seq![v, w]) == done(
                seq![one, zero, zero, one, Val::Num(a), Val::Num(b)],
                2,
            )
            &&& asked_transform(h, 0, CanvasMethod::Scale, seq![v, w]) == done(
                seq![Val::Num(a), zero, zero, Val::Num(b), zero, zero],
                2,
            )
            &&& asked_transform(h, 0, CanvasMethod::ResetTransform, seq![v, w]) == done(
                seq![one, zero, zero, one, zero, zero],
                0,
            )
        }),
{
    let args = seq![v, w];
    assert(args[0] == v && args[1] == w);
    reveal_with_fuel(crate::canvas::single_args, 3);
    let one = Val::Num(num_of(1));
    let zero = Val::Num(num_of(0));
    let moved = Seq::<Val>::empty().push(Val::Num(a)).push(Val::Num(b));
    assert(seq![one, zero, zero, one] + moved =~= seq![
        one,
        zero,
        zero,
        one,
        Val::Num(a),
        Val::Num(b),
    ]);
}

/// Only a transformation that is set, or reset, takes the place of the one in force.
pub proof fn law_replacing(m: CanvasMethod)
    ensures
        replaces(m) <==> m == CanvasMethod::SetTransform || m == CanvasMethod::ResetTransform,
        !replaces(CanvasMethod::Translate),
        !replaces(CanvasMethod::Rotate),
        !replaces(CanvasMethod::Scale),
{
}

/// `clearRect` clears the box that its arguments give, in their order.
pub proof fn law_clear_rect(h: Host, canvas: Val, v: Seq<Val>, n: Seq<Num>)
    requires
        v.len() == 4,
        n.len() == 4,
        h.len == 4,
        (h.reply)(0, Question { op: Op::Single, args: seq![v[0]] }) == Answer::Value(
            Val::Num(n[0]),
        ),
        (h.reply)(1, Question { op: Op::Single, args: seq![v[1]] }) == Answer::Value(
            Val::Num(n[1]),
        ),
        (h.reply)(2, Question { op: Op::Single, args: seq![v[2]] }) == Answer::Value(
            Val::Num(n[2]),
        ),
        (h.reply)(3, Question { op: Op::Single, args: seq![v[3]] }) == Answer::Value(
            Val::Num(n[3]),
        ),
    ensures
        clear_rect(h, 0, canvas, v).out == Err::<Val, _>(
            Halt::Ask(
                Question {
                    op: Op::Draw(DrawCmd::ClearRect),
                    args: seq![canvas] + n.map_values(|x: Num| Val::Num(x)),
                },
            ),
        ),
{
    reveal_with_fuel(crate::canvas::single_args, 5);
    let l = Seq::<Val>::empty().push(Val::Num(n[0])).push(Val::Num(n[1])).push(
        Val::Num(n[2]),
    ).push(Val::Num(n[3]));
    assert(l =~= n.map_values(|x: Num| Val::Num(x)));
}

/// New points come behind those of the path.
pub proof fn law_path_grows(h: Host, ctx: Val, i: u64, l: Seq<Val>, points: Seq<Val>)
    requires
        h.len == 2,
        (h.reply)(0, Question { op: Op::OwnSlot, args: seq![ctx, Val::Str("\0path"@)] })
            == Answer::Value(Val::Ref(Kind::Arr, i)),
        (h.reply)(1, Question { op: Op::Elements, args: seq![Val::Ref(Kind::Arr, i)] })
            == Answer::List(l),
    ensures
        push_path(h, 0, ctx, points).out == Err::<(), _>(
            Halt::Ask(
                Question {
                    op: Op::StoreElements,
                    args: seq![Val::Ref(Kind::Arr, i)] + (l + points),
                },
            ),
        ),
{
}

/// The last state that was kept is the first that is taken, and the others stay.
pub proof fn law_state_taken(h: Host, ctx: Val, i: u64, l: Seq<Val>, x: Val, u: Val)
    requires
        h.len == 3,
        (h.reply)(0, Question { op: Op::OwnSlot, args: seq![ctx, Val::Str("\0stack"@)] })
            == Answer::Value(Val::Ref(Kind::Arr, i)),
        (h.reply)(1, Question { op: Op::Elements, args: seq![Val::Ref(Kind::Arr, i)] })
            == Answer::List(l.push(x)),
        (h.reply)(
            2,
            Question { op: Op::StoreElements, args: seq![Val::Ref(Kind::Arr, i)] + l },
        ) == Answer::Value(u),
    ensures
        pop_state(h, 0, ctx) == done(Some(x), 3),
{
    assert(l.push(x).drop_last() =~= l);
    assert(l.push(x).last() == x);
}

/// Half a point is no point.
pub proof fn law_whole_points(l: Seq<Val>, x: Val)
    requires
        l.len() % 2 == 0,
    ensures
        whole_points(l) == l,
        whole_points(l.push(x)) == l,
{
    assert(l.take(l.len() as int) =~= l);
    assert(l.push(x).take(l.len() as int) =~= l);
}

/// A stop of a gradient is sent as the four numbers of its colour and then its place.
pub proof fn law_stop_sent(s: Seq<ColourStopV>, x: ColourStopV)
    ensures
        flat_stops(Seq::empty()) == Seq::<Val>::empty(),
        flat_stops(s.push(x)) == flat_stops(s) + x.colour + seq![Val::Num(x.at)],
{
    assert(s.push(x).drop_last() =~= s);
}

/// The names of the alignments and of the baselines.
pub proof fn law_text_anchors()
    ensures
        anchor_of("left"@) == 0,
        anchor_of("start"@) == 0,
        anchor_of("center"@) == 1,
        anchor_of("right"@) == anchor_of("end"@),
        anchor_of("right"@) == 2,
        baseline_of("alphabetic"@) == 0,
        baseline_of("top"@) == 1,
        baseline_of("hanging"@) == baseline_of("top"@),
        baseline_of("middle"@) == 2,
        baseline_of("bottom"@) == 3,
        baseline_of("ideographic"@) == baseline_of("bottom"@),
{
    reveal_strlit("left");
    reveal_strlit("start");
    reveal_strlit("center");
    reveal_strlit("right");
    reveal_strlit("end");
    reveal_strlit("alphabetic");
    reveal_strlit("top");
    reveal_strlit("hanging");
    reveal_strlit("middle");
    reveal_strlit("bottom");
    reveal_strlit("ideographic");
    assert("left"@.len() == 4 && "start"@.len() == 5 && "center"@.len() == 6 && "right"@.len() == 5
        && "end"@.len() == 3);
    assert("start"@[0] == 's' && "right"@[0] == 'r');
    assert("alphabetic"@.len() == 10 && "top"@.len() == 3 && "hanging"@.len() == 7
        && "middle"@.len() == 6 && "bottom"@.len() == 6 && "ideographic"@.len() == 11);
    assert("middle"@[0] == 'm' && "bottom"@[0] == 'b');
}

proof fn lemma_word(s: Seq<char>, i: nat)
    requires
        i <= s.len(),
        forall|j: int| 0 <= j < s.len() ==> !unicode_space(#[trigger] s[j]),
    ensures
        word_end(s, i) == s.len(),
    decreases s.len() - i,
{
    if i < s.len() {
        lemma_word(s, i + 1);
    }
}

/// The size of a font that is one word is the number before its `px`.
pub proof fn law_font_size(h: Host, t: Seq<char>, n: Num)
    requires
        forall|j: int| 0 <= j < t.len() ==> !unicode_space(#[trigger] t[j]),
        h.len == 1,
        (h.reply)(0, Question { op: Op::ParseSingle, args: seq![Val::Str(t)] }) == Answer::Value(
            Val::Num(n),
        ),
    ensures
        font_px(h, 0, t + seq!['p', 'x']) == done(n, 1),
{
    let s = t + seq!['p', 'x'];
    assert(s[t.len() as int] == 'p' && s[t.len() as int + 1] == 'x');
    assert forall|j: int| 0 <= j < s.len() implies !unicode_space(#[trigger] s[j]) by {
        if j < t.len() {
            assert(s[j] == t[j]);
        }
    }
    lemma_word(s, 0);
    assert(!unicode_space(s[0]));
    assert(space_end(s, 0) == 0);
    assert(s.subrange(0, s.len() as int) =~= s);
    assert(s.take(s.len() - 2) =~= t);
    assert(pixels(s) == Some(t));
}

} // verus!
