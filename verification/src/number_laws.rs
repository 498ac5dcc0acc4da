//! What the functions of numbers compute.
use crate::globals::{indent_of, spaces};
use crate::host::{done, Answer, Halt, Host, Op, PrimBrand, Question};
use crate::maths::{
    absolute, bit_length, from_bits, greatest, math_op_run, math_pow, sign_of, signed32, MathOp,
    INFINITY_BITS,
};
use crate::number::{
    greater, law_safe_integers_exact, lemma_nat_bits, num_of, Num, MAX_SAFE, SIGN_BIT,
};
use crate::number_format::{
    integral, named_number, prim_to_string_run, radix_text_run, safe_integer,
};
use crate::numeric_text::{
    digit_in, integer_prefix, negated, parse_int_run, radix_end, radix_value,
    trimmed_start, IntegerV,
};
use crate::value::Val;
use vstd::arithmetic::power2::{lemma2_to64, lemma_pow2_adds, pow2};
use vstd::prelude::*;

verus! {

/// The greatest of some numbers is one of them or minus infinity, and none of them is above it.
pub proof fn law_greatest(s: Seq<Num>, i: int)
    requires
        forall|j: int| 0 <= j < s.len() ==> !(#[trigger] s[j]).nan(),
        0 <= i < s.len(),
    ensures
        !greater(s[i], greatest(s)),
        !greatest(s).nan(),
        s.contains(greatest(s)) || greatest(s) == from_bits((INFINITY_BITS + SIGN_BIT) as u64),
    decreases s.len(),
{
    let low = from_bits((INFINITY_BITS + SIGN_BIT) as u64);
    assert(!low.nan()) by {
        assert(0xfff0_0000_0000_0000u64 / 0x10_0000_0000_0000 % 2048 == 2047);
        assert(0xfff0_0000_0000_0000u64 % 0x10_0000_0000_0000 == 0);
    }
    let init = s.drop_last();
    assert forall|j: int| 0 <= j < init.len() implies !(#[trigger] init[j]).nan() by {
        assert(!s[j].nan());
    }
    assert(!s[s.len() - 1].nan());
    if init.len() > 0 {
        law_greatest(
            init,
            if i < init.len() {
                i
            } else {
                0
            },
        );
        if init.contains(greatest(init)) {
            let k = choose|k: int| 0 <= k < init.len() && init[k] == greatest(init);
            assert(s[k] == greatest(init));
        }
        if i < init.len() {
            assert(init[i] == s[i]);
        }
    } else {
        assert(greatest(init) == low);
    }
    assert(s.last() == s[s.len() - 1]);
}

/// Where one of some numbers is none, there is no greatest and no least one.
pub proof fn law_extreme_of_none(s: Seq<Num>, i: int)
    requires
        0 <= i < s.len(),
        s[i].nan(),
    ensures
        greatest(s).nan(),
        crate::maths::least(s).nan(),
    decreases s.len(),
{
    assert(crate::dates::nan().nan()) by {
        assert(0x7ff8_0000_0000_0000u64 / 0x10_0000_0000_0000 % 2048 == 2047);
    }
    if i < s.len() - 1 {
        assert(s.drop_last()[i] == s[i]);
        law_extreme_of_none(s.drop_last(), i);
    }
}

/// `Math.min` and `Math.max` of one and two numbers, each of its name.
pub proof fn law_min_max(h: Host, v: Val, w: Val, a: Num, b: Num)
    requires
        h.len >= 2,
        (h.reply)(0, Question { op: Op::ToNumber, args: seq![v] }) == Answer::Value(Val::Num(a)),
        (h.reply)(1, Question { op: Op::ToNumber, args: seq![w] }) == Answer::Value(Val::Num(b)),
        !a.nan(),
        !b.nan(),
    ensures
        math_op_run(h, 0, MathOp::MaxOf, seq![v, w]).out matches Ok(Val::Num(x)) && !greater(a, x)
            && !greater(b, x),
        math_op_run(h, 0, MathOp::MinOf, seq![v, w]).out matches Ok(Val::Num(y)) && !greater(y, a)
            && !greater(y, b),
{
    let args = seq![v, w];
    assert(args[0] == v && args[1] == w);
    reveal_with_fuel(crate::maths::all_numbers, 3);
    let s = Seq::<Num>::empty().push(a).push(b);
    assert(s[0] == a && s[1] == b);
    law_greatest(s, 0);
    law_greatest(s, 1);
    crate::maths::law_least(s, 0);
    crate::maths::law_least(s, 1);
}

/// `Math.abs` and `Math.sign` of integers.
pub proof fn law_abs_sign(k: int)
    requires
        -MAX_SAFE <= k <= MAX_SAFE,
    ensures
        k >= 0 ==> absolute(num_of(k)) == num_of(k),
        k < 0 ==> absolute(num_of(k)) == num_of(-k),
        k > 0 ==> sign_of(num_of(k)) == num_of(1),
        k == 0 ==> sign_of(num_of(k)) == num_of(0),
        k < 0 ==> sign_of(num_of(k)) == num_of(-1),
        negated(num_of(k)) == num_of(-k) || k == 0,
{
    law_safe_integers_exact(k);
    law_safe_integers_exact(-k);
    if k != 0 {
        lemma_nat_bits(if k < 0 {
            (-k) as nat
        } else {
            k as nat
        });
    }
}

/// The functions of `Math` by their names: the number without its sign, and its sign.
pub proof fn law_unary_by_name(h: Host, v: Val, a: Num)
    requires
        h.len == 1,
        (h.reply)(0, Question { op: Op::ToNumber, args: seq![v] }) == Answer::Value(Val::Num(a)),
    ensures
        math_op_run(h, 0, MathOp::Abs, seq![v]) == done(Val::Num(absolute(a)), 1),
        math_op_run(h, 0, MathOp::Sign, seq![v]) == done(Val::Num(sign_of(a)), 1),
        !absolute(a).negative(),
{
    assert(seq![v][0] == v);
}

/// The part of an integer within 32 bits is congruent to it and has a sign.
pub proof fn law_signed32(n: int)
    ensures
        -0x8000_0000 <= signed32(n) < 0x8000_0000,
        (signed32(n) - n) % 0x1_0000_0000 == 0,
{
    let m = n % 0x1_0000_0000;
    let q = n / 0x1_0000_0000;
    assert(n == q * 0x1_0000_0000 + m);
    let d = signed32(n) - n;
    if m >= 0x8000_0000 {
        assert(d == -(q + 1) * 0x1_0000_0000);
        vstd::arithmetic::div_mod::lemma_mod_multiples_basic(-(q + 1), 0x1_0000_0000);
    } else {
        assert(d == -q * 0x1_0000_0000);
        vstd::arithmetic::div_mod::lemma_mod_multiples_basic(-q, 0x1_0000_0000);
    }
}

/// An integer needs so many bits that a power of two with one bit less is not above it, and one with
/// so many is.
pub proof fn law_bit_length(n: nat)
    requires
        n > 0,
    ensures
        bit_length(n) > 0,
        pow2((bit_length(n) - 1) as nat) <= n < pow2(bit_length(n)),
    decreases n,
{
    lemma2_to64();
    if n == 1 {
        reveal_with_fuel(bit_length, 2);
    } else {
        law_bit_length(n / 2);
        let b = bit_length(n / 2);
        lemma_pow2_adds(1, b);
        lemma_pow2_adds(1, (b - 1) as nat);
        assert(bit_length(n) == b + 1);
    }
}

/// Anything to the power of zero is one, even what is no number; otherwise what is no number stays
/// none.
pub proof fn law_power_rules(h: Host, pos: nat, base: Num, exp: Num)
    ensures
        exp.zero() ==> math_pow(h, pos, base, exp) == done(num_of(1), pos),
        !exp.zero() && (exp.nan() || base.nan()) ==> (math_pow(h, pos, base, exp).out matches Ok(n)
            && n.nan()),
{
    assert(crate::dates::nan().nan()) by {
        assert(0x7ff8_0000_0000_0000u64 / 0x10_0000_0000_0000 % 2048 == 2047);
    }
}

/// A digit of a base: the ten figures, and then the letters in either case.
pub proof fn law_digit(d: nat, radix: nat, c: char)
    requires
        2 <= radix <= 36,
        d < radix,
    ensures
        digit_in(c, radix) == Some(d) <==> if d < 10 {
            c as u32 == 48 + d
        } else {
            c as u32 == 55 + d || c as u32 == 87 + d
        },
{
}

/// One more digit makes a number so many times as much as the base is, and the digit more.
pub proof fn law_radix_value(s: Seq<char>, c: char, radix: nat, d: nat)
    requires
        digit_in(c, radix) == Some(d),
    ensures
        radix_value(Seq::empty(), radix) == 0,
        radix_value(s.push(c), radix) == radix_value(s, radix) * radix + d,
{
    assert(s.push(c).drop_last() =~= s);
}

proof fn lemma_all_digits(s: Seq<char>, i: nat, radix: nat)
    requires
        i <= s.len(),
        forall|j: int| 0 <= j < s.len() ==> digit_in(#[trigger] s[j], radix) is Some,
    ensures
        radix_end(s, i, radix) == s.len(),
    decreases s.len() - i,
{
    if i < s.len() {
        lemma_all_digits(s, i + 1, radix);
    }
}

/// `parseInt` of digits of a base gives the number that they stand for in that base.
pub proof fn law_parse_int(h: Host, v: Val, r: Val, s: Seq<char>, radix: int)
    requires
        2 <= radix <= 36,
        s.len() > 0,
        forall|j: int| 0 <= j < s.len() ==> digit_in(#[trigger] s[j], radix as nat) is Some,
        radix_value(s, radix as nat) <= MAX_SAFE,
        h.len >= 2,
        (h.reply)(0, Question { op: Op::ToText, args: seq![v] }) == Answer::Value(Val::Str(s)),
        (h.reply)(1, Question { op: Op::ToInt32, args: seq![r] }) == Answer::Value(
            Val::Num(num_of(radix)),
        ),
        radix <= 33 || !(s[0] == '0' && s.len() > 1 && (s[1] == 'x' || s[1] == 'X')),
    ensures
        parse_int_run(h, 0, seq![v, r]) == done(
            Val::Num(num_of(radix_value(s, radix as nat) as int)),
            2,
        ),
{
    let args = seq![v, r];
    assert(args[0] == v && args[1] == r);
    law_safe_integers_exact(radix);
    assert(digit_in(s[0], radix as nat) is Some);
    assert(s.skip(0) =~= s);
    assert(trimmed_start(s) == s);
    lemma_all_digits(s, 0, radix as nat);
    assert(s.subrange(0, s.len() as int) =~= s);
    if s.len() > 1 {
        assert(digit_in(s[1], radix as nat) is Some);
    }
    assert(integer_prefix(s, radix) == Some(
        IntegerV { negative: false, radix: radix as nat, digits: s },
    ));
}

/// A number is written in the base that is asked for, and a base that there is not is refused.
pub proof fn law_radix_text(h: Host, n: Num, v: Val, k: int)
    requires
        !(v is Undefined),
        -MAX_SAFE <= k <= MAX_SAFE,
        h.len == 1,
        (h.reply)(0, Question { op: Op::PlainNumber, args: seq![v] }) == Answer::Value(
            Val::Num(num_of(k)),
        ),
    ensures
        ({
            let r = radix_text_run(h, 0, n, seq![v]);
            &&& k < 2 || k > 36 ==> (r.out matches Err(Halt::Throw(_)))
            &&& k == 10 ==> r.out == Err::<Val, _>(
                Halt::Ask(Question { op: Op::Display, args: seq![Val::Num(n)] }),
            )
            &&& 2 <= k <= 36 && k != 10 ==> r.out == Err::<Val, _>(
                Halt::Ask(
                    Question { op: Op::RadixText, args: seq![Val::Num(n), Val::Num(num_of(k))] },
                ),
            )
        }),
{
    law_safe_integers_exact(k);
    assert(seq![v][0] == v);
}

/// The text of a boolean tells which one it is.
pub proof fn law_boolean_text(h: Host, v: Val, b: bool, args: Seq<Val>)
    requires
        h.len == 1,
        (h.reply)(0, Question { op: Op::ThisPrimitive(PrimBrand::Boolean), args: seq![v] })
            == Answer::Value(Val::Bool(b)),
    ensures
        prim_to_string_run(h, 0, PrimBrand::Boolean, Some(v), args).out matches Ok(Val::Str(t)) && (
        t == seq!['t', 'r', 'u', 'e'] <==> b) && (t == seq!['f', 'a', 'l', 's', 'e'] <==> !b),
{
    reveal_strlit("true");
    reveal_strlit("false");
    assert("true"@ =~= seq!['t', 'r', 'u', 'e']);
    assert("false"@ =~= seq!['f', 'a', 'l', 's', 'e']);
    assert("true"@.len() == 4 && "false"@.len() == 5);
}

/// What is no finite number is written by its name: the infinities differ by a minus.
pub proof fn law_named_numbers(n: Num, m: Num)
    requires
        !n.finite(),
        !n.nan(),
        !n.negative(),
        !m.finite(),
        !m.nan(),
        m.negative(),
    ensures
        named_number(n) matches Some(t) && named_number(m) == Some(seq!['-'] + t) && t[0] == 'I',
{
    reveal_strlit("Infinity");
    reveal_strlit("-Infinity");
    assert("-Infinity"@ =~= seq!['-'] + "Infinity"@);
}

/// Integers are integers, and safe ones as far as doubles tell them apart.
pub proof fn law_integral(k: int)
    requires
        -MAX_SAFE <= k <= MAX_SAFE,
    ensures
        integral(Val::Num(num_of(k))),
        safe_integer(Val::Num(num_of(k))),
{
    law_safe_integers_exact(k);
}

/// A number of blanks to indent by is taken as it is, up to ten, and a text up to its tenth
/// character.
pub proof fn law_indentation(k: int, s: Seq<char>)
    requires
        -MAX_SAFE <= k <= MAX_SAFE,
    ensures
        k <= 0 ==> indent_of(Val::Num(num_of(k))).len() == 0,
        0 <= k <= 10 ==> indent_of(Val::Num(num_of(k))) == spaces(k as nat),
        k > 10 ==> indent_of(Val::Num(num_of(k))) == spaces(10),
        s.len() <= 10 ==> indent_of(Val::Str(s)) == s,
        s.len() > 10 ==> indent_of(Val::Str(s)) == s.subrange(0, 10),
        forall|i: int| 0 <= i < spaces(10).len() ==> (#[trigger] spaces(10)[i]) == ' ',
{
    law_safe_integers_exact(k);
    assert(spaces(0) =~= Seq::empty());
    if s.len() > 10 {
        assert(s.take(10) =~= s.subrange(0, 10));
    }
}

} // verus!
