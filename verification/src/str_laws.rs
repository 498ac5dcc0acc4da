//! What the methods of strings find, cut out and put together.
use crate::arr_laws::{law_places, place};
use crate::array_sort::text_less;
use crate::code_units::{high_surrogate, law_code_units, low_surrogate, utf16, utf16_text};
use crate::host::{done, settles, Answer, Halt, Host, Op, Question};
use crate::json_text::repeated;
use crate::number::{law_safe_integers_exact, num_of, MAX_SAFE};
use crate::str_ops::{concat_args, lower_case, str_method, upper_case, StrOp};
use crate::strings::{
    law_padding, law_trim, law_unit_index, lemma_leading_are_blank, padded, units_stand, without_leading, without_trailing,
};
use crate::text::js_space;
use crate::value::Val;
use vstd::prelude::*;

verus! {

/// The engine makes an integer of a value at `pos`.
pub open spec fn integer_made(h: Host, pos: nat, v: Val, k: int) -> bool {
    &&& h.len > pos
    &&& -MAX_SAFE <= k <= MAX_SAFE
    &&& (h.reply)(pos, Question { op: Op::ToInteger, args: seq![v] }) == Answer::Value(
        Val::Num(num_of(k)),
    )
}

/// The engine makes a text of a value at `pos`.
pub open spec fn text_made(h: Host, pos: nat, v: Val, t: Seq<char>) -> bool {
    &&& h.len > pos
    &&& (h.reply)(pos, Question { op: Op::ToText, args: seq![v] }) == Answer::Value(Val::Str(t))
}

/// The engine says at `pos` that a value is no regular expression, and then what text it is.
pub open spec fn needle_made(h: Host, pos: nat, v: Val, t: Seq<char>) -> bool {
    &&& h.len > pos
    &&& (h.reply)(pos, Question { op: Op::IsRegexLike, args: seq![v] }) == Answer::Value(
        Val::Bool(false),
    )
    &&& text_made(h, pos + 1, v, t)
}

/// The text of the code units of another from one place up to another.
pub open spec fn units_text(s: Seq<char>, from: int, to: int) -> Val {
    Val::Str(utf16_text(utf16(s).subrange(from, to)))
}

/// `charAt` and `at` give the code unit at a place as a text, `charCodeAt` its number. Only `at`
/// counts a negative place from the end.
pub proof fn law_unit_at(h: Host, pos: nat, s: Seq<char>, v: Val, k: int)
    requires
        integer_made(h, pos, v, k),
    ensures
        ({
            let n = utf16(s).len();
            &&& 0 <= k < n ==> {
                &&& str_method(h, pos, StrOp::CharAt, s, seq![v]) == done(
                    units_text(s, k, k + 1),
                    pos + 1,
                )
                &&& str_method(h, pos, StrOp::At, s, seq![v]) == done(
                    units_text(s, k, k + 1),
                    pos + 1,
                )
                &&& str_method(h, pos, StrOp::CharCodeAt, s, seq![v]) == done(
                    Val::Num(num_of(utf16(s)[k] as int)),
                    pos + 1,
                )
            }
            &&& -(n as int) <= k < 0 ==> str_method(h, pos, StrOp::At, s, seq![v]) == done(
                units_text(s, n + k, n + k + 1),
                pos + 1,
            )
            &&& k < 0 || k >= n ==> {
                &&& str_method(h, pos, StrOp::CharAt, s, seq![v]) == done(
                    Val::Str(Seq::empty()),
                    pos + 1,
                )
                &&& str_method(h, pos, StrOp::CharCodeAt, s, seq![v]).out matches Ok(Val::Num(x))
                    && x.nan()
            }
            &&& k < -(n as int) || k >= n ==> str_method(h, pos, StrOp::At, s, seq![v]) == done(
                Val::Undefined,
                pos + 1,
            )
        }),
{
    law_places(k, utf16(s).len());
    assert(crate::dates::nan().nan()) by {
        assert(0x7ff8_0000_0000_0000u64 / 0x10_0000_0000_0000 % 2048 == 2047);
    }
}

/// `codePointAt` gives the number of a whole character where one begins at the place: a pair of
/// surrogates counts as one.
pub proof fn law_code_point_at(h: Host, pos: nat, s: Seq<char>, v: Val, k: int)
    requires
        integer_made(h, pos, v, k),
    ensures
        ({
            let u = utf16(s);
            let r = str_method(h, pos, StrOp::CodePointAt, s, seq![v]);
            &&& 0 <= k < u.len() && !(high_surrogate(u[k]) && k + 1 < u.len() && low_surrogate(
                u[k + 1],
            )) ==> r == done(Val::Num(num_of(u[k] as int)), pos + 1)
            &&& 0 <= k && k + 1 < u.len() && high_surrogate(u[k]) && low_surrogate(u[k + 1])
                ==> r == done(
                Val::Num(num_of(0x10000 + (u[k] - 0xd800) * 0x400 + (u[k + 1] - 0xdc00))),
                pos + 1,
            )
            &&& k < 0 || k >= u.len() ==> r == done(Val::Undefined, pos + 1)
        }),
{
    law_places(k, utf16(s).len());
}

/// `indexOf` gives the least place from the start on where the other text stands, and minus one
/// where there is none.
pub proof fn law_index_of(h: Host, pos: nat, s: Seq<char>, v: Val, t: Seq<char>)
    requires
        text_made(h, pos, v, t),
        utf16(s).len() <= MAX_SAFE,
    ensures
        ({
            let r = str_method(h, pos, StrOp::IndexOf, s, seq![v]);
            let l = str_method(h, pos, StrOp::LastIndexOf, s, seq![v]);
            let u = utf16(s);
            let w = utf16(t);
            &&& (exists|i: int|
                0 <= i <= u.len() - w.len() && #[trigger] u.subrange(i, i + w.len()) == w) ==> {
                &&& exists|i: int|
                    0 <= i <= u.len() - w.len() && #[trigger] u.subrange(i, i + w.len()) == w && r
                        == done(Val::Num(num_of(i)), pos + 1) && forall|j: int|
                        0 <= j < i ==> #[trigger] u.subrange(j, j + w.len()) != w
                &&& exists|i: int|
                    0 <= i <= u.len() - w.len() && #[trigger] u.subrange(i, i + w.len()) == w && l
                        == done(Val::Num(num_of(i)), pos + 1) && forall|j: int|
                        i < j <= u.len() - w.len() ==> #[trigger] u.subrange(j, j + w.len()) != w
            }
            &&& !(exists|i: int|
                0 <= i <= u.len() - w.len() && #[trigger] u.subrange(i, i + w.len()) == w) ==> r
                == done(Val::Num(num_of(-1)), pos + 1) && l == done(Val::Num(num_of(-1)), pos + 1)
        }),
{
    let u = utf16(s);
    let w = utf16(t);
    law_unit_index(u, w, 0);
    law_unit_index(u, w, u.len());
    let r = crate::strings::unit_index(u, w, 0);
    let l = crate::strings::unit_last_index(u, w, u.len());
    if exists|i: int| 0 <= i <= u.len() - w.len() && #[trigger] u.subrange(i, i + w.len()) == w {
        let i = choose|i: int|
            0 <= i <= u.len() - w.len() && #[trigger] u.subrange(i, i + w.len()) == w;
        assert(units_stand(u, w, i as nat));
        let a = r->0 as int;
        assert(u.subrange(a, a + w.len()) == w);
        assert forall|j: int| 0 <= j < a implies #[trigger] u.subrange(j, j + w.len()) != w by {
            assert(!units_stand(u, w, j as nat));
        }
        let b = l->0 as int;
        assert(u.subrange(b, b + w.len()) == w);
        assert forall|j: int| b < j <= u.len() - w.len() implies #[trigger] u.subrange(
            j,
            j + w.len(),
        ) != w by {
            assert(!units_stand(u, w, j as nat));
        }
    } else {
        if r is Some {
            let a = r->0 as int;
            assert(u.subrange(a, a + w.len()) == w);
        }
        if l is Some {
            let b = l->0 as int;
            assert(u.subrange(b, b + w.len()) == w);
        }
    }
}

/// `includes`, `startsWith` and `endsWith` say whether the other text stands anywhere from the
/// place on, at the place, and right before the end.
pub proof fn law_contained(h: Host, pos: nat, s: Seq<char>, v: Val, t: Seq<char>, w: Val, k: int)
    requires
        needle_made(h, pos, v, t),
        integer_made(h, pos + 2, w, k),
        !(w is Undefined),
        0 <= k <= utf16(s).len(),
    ensures
        ({
            let u = utf16(s);
            let n = utf16(t);
            let a = str_method(h, pos, StrOp::Includes, s, seq![v, w]);
            let b = str_method(h, pos, StrOp::StartsWith, s, seq![v, w]);
            let c = str_method(h, pos, StrOp::EndsWith, s, seq![v, w]);
            &&& a.out matches Ok(Val::Bool(x)) && (x <==> exists|i: int|
                k <= i <= u.len() - n.len() && #[trigger] u.subrange(i, i + n.len()) == n)
            &&& b.out matches Ok(Val::Bool(y)) && (y <==> k + n.len() <= u.len() && u.subrange(
                k,
                k + n.len(),
            ) == n)
            &&& c.out matches Ok(Val::Bool(z)) && (z <==> n.len() <= k && u.subrange(
                k - n.len(),
                k,
            ) == n)
        }),
{
    let u = utf16(s);
    let n = utf16(t);
    law_places(k, u.len());
    law_unit_index(u, n, k as nat);
    let args = seq![v, w];
    assert(args[0] == v && args[1] == w);
    let r = crate::strings::unit_index(u, n, k as nat);
    if r is Some {
        let a = r->0 as int;
        assert(u.subrange(a, a + n.len()) == n);
    }
    if exists|i: int| k <= i <= u.len() - n.len() && #[trigger] u.subrange(i, i + n.len()) == n {
        let i = choose|i: int|
            k <= i <= u.len() - n.len() && #[trigger] u.subrange(i, i + n.len()) == n;
        assert(units_stand(u, n, i as nat));
    }
}

/// `slice`, `substring` and `substr` cut code units out of a text: the first counts negative places
/// from the end, the second takes the places in either order, and the third takes a length.
pub proof fn law_cut(h: Host, pos: nat, s: Seq<char>, v: Val, w: Val, k: int, l: int)
    requires
        integer_made(h, pos, v, k),
        integer_made(h, pos + 1, w, l),
        !(v is Undefined),
        !(w is Undefined),
    ensures
        ({
            let n = utf16(s).len();
            let a = place(k, n);
            let b = place(l, n);
            let x = if k < 0 {
                0
            } else {
                a
            };
            let y = if l < 0 {
                0
            } else {
                b
            };
            &&& str_method(h, pos, StrOp::Slice, s, seq![v, w]) == done(
                if a < b {
                    units_text(s, a, b)
                } else {
                    Val::Str(Seq::empty())
                },
                pos + 2,
            )
            &&& str_method(h, pos, StrOp::Substring, s, seq![v, w]) == done(
                if x < y {
                    units_text(s, x, y)
                } else {
                    units_text(s, y, x)
                },
                pos + 2,
            )
            &&& str_method(h, pos, StrOp::Substr, s, seq![v, w]) == done(
                if l <= 0 {
                    Val::Str(Seq::empty())
                } else if a + l <= n {
                    units_text(s, a, a + l)
                } else {
                    units_text(s, a, n as int)
                },
                pos + 2,
            )
        }),
{
    let u = utf16(s);
    law_places(k, u.len());
    law_places(l, u.len());
    let args = seq![v, w];
    assert(args[0] == v && args[1] == w);
    let a = place(k, u.len());
    assert(u.subrange(a, a) =~= Seq::empty());
    assert(utf16_text(Seq::<u16>::empty()) =~= Seq::empty());
}

/// What `slice` cuts off at a place and what it leaves are the whole text again, where the place
/// does not part a character.
pub proof fn law_cut_whole(s: Seq<char>)
    ensures
        units_text(s, 0, utf16(s).len() as int) == Val::Str(s),
{
    law_code_units(s);
    assert(utf16(s).subrange(0, utf16(s).len() as int) =~= utf16(s));
}

/// `repeat` gives the text as often as it is told, and refuses a negative number.
pub proof fn law_repeat(h: Host, pos: nat, s: Seq<char>, v: Val, k: int)
    requires
        integer_made(h, pos, v, k),
    ensures
        k == 0 ==> str_method(h, pos, StrOp::Repeat, s, seq![v]) == done(
            Val::Str(Seq::empty()),
            pos + 1,
        ),
        k > 0 ==> str_method(h, pos, StrOp::Repeat, s, seq![v]) == done(
            Val::Str(repeated(s, (k - 1) as nat) + s),
            pos + 1,
        ),
        k < 0 ==> str_method(h, pos, StrOp::Repeat, s, seq![v]).out matches Err(Halt::Throw(_)),
{
    law_safe_integers_exact(k);
}

#[verifier::rlimit(60)]
proof fn lemma_pads(h: Host, pos: nat, s: Seq<char>, v: Val, k: int, w: Val, pad: Seq<char>)
    requires
        integer_made(h, pos, v, k),
        text_made(h, pos + 1, w, pad),
        !(w is Undefined),
        k >= 0,
    ensures
        str_method(h, pos, StrOp::PadStart, s, seq![v, w]) == done(
            Val::Str(padded(s, k as nat, pad, true)),
            pos + 2,
        ),
        str_method(h, pos, StrOp::PadEnd, s, seq![v, w]) == done(
            Val::Str(padded(s, k as nat, pad, false)),
            pos + 2,
        ),
{
    law_safe_integers_exact(k);
    let args = seq![v, w];
    assert(args[0] == v && args[1] == w);
}

/// `padStart` and `padEnd` make a text as long as they are told, with the text at the end of the
/// one and at the start of the other.
#[verifier::rlimit(60)]
pub proof fn law_pad(h: Host, pos: nat, s: Seq<char>, v: Val, k: int, w: Val, pad: Seq<char>)
    requires
        integer_made(h, pos, v, k),
        text_made(h, pos + 1, w, pad),
        !(w is Undefined),
        pad.len() > 0,
        k >= utf16(s).len(),
    ensures
        ({
            let a = str_method(h, pos, StrOp::PadStart, s, seq![v, w]);
            let b = str_method(h, pos, StrOp::PadEnd, s, seq![v, w]);
            &&& a.out matches Ok(Val::Str(x)) && utf16(x).len() == k && x.skip(x.len() - s.len())
                == s
            &&& b.out matches Ok(Val::Str(y)) && utf16(y).len() == k && y.take(s.len() as int) == s
        }),
{
    lemma_pads(h, pos, s, v, k, w, pad);
    law_padding(s, k as nat, pad, true);
    law_padding(s, k as nat, pad, false);
}

/// `trimStart` and `trimEnd` take blanks away at one end, and `trim` at both.
pub proof fn law_trims(
    h: Host,
    pos: nat,
    s: Seq<char>,
    args: Seq<Val>,
    a: Seq<char>,
    b: Seq<char>,
    c: Seq<char>,
)
    requires
        str_method(h, pos, StrOp::TrimStart, s, args).out == Ok::<Val, Halt>(Val::Str(a)),
        str_method(h, pos, StrOp::TrimEnd, s, args).out == Ok::<Val, Halt>(Val::Str(b)),
        str_method(h, pos, StrOp::TrimEnd, a, args).out == Ok::<Val, Halt>(Val::Str(c)),
    ensures
        a.len() <= s.len(),
        a == s.skip(s.len() - a.len()),
        a.len() > 0 ==> !js_space(a[0]),
        forall|i: int| 0 <= i < s.len() - a.len() ==> js_space(#[trigger] s[i]),
        b.len() <= s.len(),
        b == s.take(b.len() as int),
        b.len() > 0 ==> !js_space(b.last()),
        forall|i: int| b.len() <= i < s.len() ==> js_space(#[trigger] s[i]),
        str_method(h, pos, StrOp::Trim, s, args) == done(Val::Str(c), pos),
{
    assert(a == without_leading(s));
    assert(b == without_trailing(s));
    assert(c == without_trailing(a));
    lemma_trim_end(s);
    lemma_trim_start(s);
}

proof fn lemma_trim_start(s: Seq<char>)
    ensures
        ({
            let a = without_leading(s);
            &&& a.len() <= s.len()
            &&& a == s.skip(s.len() - a.len())
            &&& a.len() > 0 ==> !js_space(a[0])
            &&& forall|i: int| 0 <= i < s.len() - a.len() ==> js_space(#[trigger] s[i])
        }),
{
    lemma_leading_are_blank(s);
    let a = without_leading(s);
    assert(a =~= s.skip(s.len() - a.len()));
}

proof fn lemma_trim_end(s: Seq<char>)
    ensures
        ({
            let b = without_trailing(s);
            &&& b.len() <= s.len()
            &&& b == s.take(b.len() as int)
            &&& b.len() > 0 ==> !js_space(b.last())
            &&& forall|i: int| b.len() <= i < s.len() ==> js_space(#[trigger] s[i])
        }),
{
    law_trim(s);
    lemma_trailing_len(s);
}

proof fn lemma_trailing_len(s: Seq<char>)
    ensures
        without_trailing(s).len() <= s.len(),
    decreases s.len(),
{
    if s.len() > 0 {
        lemma_trailing_len(s.drop_last());
    }
}

/// The characters that count as blanks, by their numbers.
pub proof fn law_blanks(c: char)
    ensures
        js_space(c) <==> c == '\t' || c == '\n' || c == '\r' || c == ' ' || seq![
            0x0bu32,
            0x0c,
            0xa0,
            0x1680,
            0x2028,
            0x2029,
            0x202f,
            0x205f,
            0x3000,
            0xfeff,
        ].contains(c as u32) || 0x2000 <= c as u32 <= 0x200a,
{
    let l = seq![0x0bu32, 0x0c, 0xa0, 0x1680, 0x2028, 0x2029, 0x202f, 0x205f, 0x3000, 0xfeff];
    if js_space(c) {
        let n = c as u32;
        assert(l[0] == 0x0b && l[1] == 0x0c && l[2] == 0xa0 && l[3] == 0x1680 && l[4] == 0x2028
            && l[5] == 0x2029 && l[6] == 0x202f && l[7] == 0x205f && l[8] == 0x3000 && l[9]
            == 0xfeff);
    }
}

/// `concat` puts the texts of its arguments behind the text, in order.
pub proof fn law_concat(h: Host, pos: nat, s: Seq<char>, v: Val, w: Val, t: Seq<char>, u: Seq<char>)
    requires
        text_made(h, pos, v, t),
        text_made(h, pos + 1, w, u),
    ensures
        str_method(h, pos, StrOp::Concat, s, Seq::empty()) == done(Val::Str(s), pos),
        str_method(h, pos, StrOp::Concat, s, seq![v]) == done(Val::Str(s + t), pos + 1),
        str_method(h, pos, StrOp::Concat, s, seq![v, w]) == done(Val::Str(s + t + u), pos + 2),
{
    reveal_with_fuel(concat_args, 3);
    assert(seq![v, w][0] == v && seq![v, w][1] == w);
}

/// `localeCompare` is zero for equal texts, and changes its sign with the order of the texts.
pub proof fn law_compare(h: Host, pos: nat, s: Seq<char>, v: Val, t: Seq<char>, g: Host, w: Val)
    requires
        text_made(h, pos, v, t),
        text_made(g, pos, w, s),
    ensures
        ({
            let a = str_method(h, pos, StrOp::LocaleCompare, s, seq![v]);
            let b = str_method(g, pos, StrOp::LocaleCompare, t, seq![w]);
            &&& s == t ==> a == done(Val::Num(num_of(0)), pos + 1)
            &&& text_less(s, t) ==> a == done(Val::Num(num_of(-1)), pos + 1) && b == done(
                Val::Num(num_of(1)),
                pos + 1,
            )
        }),
{
    if text_less(s, t) {
        crate::array_sort::lemma_text_order(s, t);
    }
}

/// The methods that write a text in upper or lower case do so, whatever the locale.
pub proof fn law_cases(h: Host, pos: nat, s: Seq<char>, args: Seq<Val>)
    ensures
        str_method(h, pos, StrOp::Upper, s, args) == done(Val::Str(upper_case(s)), pos),
        str_method(h, pos, StrOp::Lower, s, args) == done(Val::Str(lower_case(s)), pos),
        str_method(h, pos, StrOp::LocaleUpper, s, args) == str_method(h, pos, StrOp::Upper, s, args),
        str_method(h, pos, StrOp::LocaleLower, s, args) == str_method(h, pos, StrOp::Lower, s, args),
{
}

} // verus!
