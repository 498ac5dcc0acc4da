//! `Math`.
use crate::array_search::{offset_of, to_offset, Offset};
use crate::canvas::empty_list;
use crate::dates::nan;
use crate::host::{
    ask_number, chain, done, halted, list1, list2, run_plain, run_value, Host, Interp, NAN_BITS, Op,
    RealFn, Run, Stop,
};
use crate::number::{greater, is_greater, num_of, Num, SIGN_BIT};
use crate::objects::number_arg;
use crate::value::{arg, arg_at, views, Val, Value};
use vstd::arithmetic::div_mod::*;
use vstd::prelude::*;

verus! {

/// The functions of `Math`.
#[derive(Debug, Clone, Copy, PartialEq, Eq, Structural)]
pub enum MathOp {
    Abs,
    Atan2,
    Clz32,
    Hypot,
    Imul,
    MaxOf,
    MinOf,
    Pow,
    Random,
    Real(RealFn),
    Round,
    Sign,
}

pub const INFINITY_BITS: u64 = 0x7ff0_0000_0000_0000;

pub const HALF_BITS: u64 = 0x3fe0_0000_0000_0000;

pub open spec fn from_bits(bits: u64) -> Num {
    Num { bits }
}

/// The number without its sign.
pub open spec fn absolute(n: Num) -> Num {
    if n.negative() {
        Num { bits: (n.bits - SIGN_BIT) as u64 }
    } else {
        n
    }
}

/// The lesser of two numbers; not a number where either is none.
pub open spec fn lesser(a: Num, b: Num) -> Num {
    if a.nan() || b.nan() {
        nan()
    } else if greater(a, b) {
        b
    } else {
        a
    }
}

/// The greater of two numbers; not a number where either is none.
pub open spec fn larger(a: Num, b: Num) -> Num {
    if a.nan() || b.nan() {
        nan()
    } else if greater(b, a) {
        b
    } else {
        a
    }
}

/// The least of some numbers; infinity where there are none.
pub open spec fn least(s: Seq<Num>) -> Num
    decreases s.len(),
{
    if s.len() == 0 {
        from_bits(INFINITY_BITS)
    } else {
        lesser(least(s.drop_last()), s.last())
    }
}

/// The greatest of some numbers; minus infinity where there are none.
pub open spec fn greatest(s: Seq<Num>) -> Num
    decreases s.len(),
{
    if s.len() == 0 {
        from_bits((INFINITY_BITS + SIGN_BIT) as u64)
    } else {
        larger(greatest(s.drop_last()), s.last())
    }
}

/// The sign of a number: one, minus one, or the number itself for the zeros.
pub open spec fn sign_of(n: Num) -> Num {
    if n.nan() {
        nan()
    } else if n.zero() {
        n
    } else if n.negative() {
        num_of(-1)
    } else {
        num_of(1)
    }
}

/// The part of a 32-bit integer that is left of any integer.
pub open spec fn signed32(n: int) -> int {
    let m = n % 0x1_0000_0000;
    if m >= 0x8000_0000 {
        m - 0x1_0000_0000
    } else {
        m
    }
}

/// The number of bits that an integer needs.
pub open spec fn bit_length(n: nat) -> nat
    decreases n,
{
    if n == 0 {
        0
    } else {
        1 + bit_length(n / 2)
    }
}

/// The integer that a number stands for, within 32 bits.
pub open spec fn int32_in(n: Num) -> int {
    match offset_of(n) {
        Offset::Forward(k) => signed32(k as int),
        Offset::Backward(k) => signed32(-k),
        _ => 0,
    }
}

/// The next state of the random sequence.
pub open spec fn scrambled(s: u64) -> u64 {
    let a = s ^ (s << 13u64);
    let b = a ^ (a >> 7u64);
    b ^ (b << 17u64)
}

/// The arguments as numbers, from the `i`-th on.
pub open spec fn all_numbers(h: Host, pos: nat, args: Seq<Val>, i: int, out: Seq<Num>) -> Run<Seq<Num>>
    decreases args.len() - i,
{
    if !(0 <= i < args.len()) {
        done(out, pos)
    } else {
        let n = ask_number(h, pos, Op::ToNumber, seq![args[i]]);
        match n.out {
            Err(e) => halted(e, n.pos),
            Ok(x) => all_numbers(h, n.pos, args, i + 1, out.push(x)),
        }
    }
}

/// The length of a vector, from its `i`-th number on.
pub open spec fn hypot_from(h: Host, pos: nat, s: Seq<Num>, i: int, acc: Num) -> Run<Num>
    decreases s.len() - i,
{
    if !(0 <= i < s.len()) {
        done(acc, pos)
    } else {
        let n = ask_number(h, pos, Op::Hypot, seq![Val::Num(acc), Val::Num(s[i])]);
        match n.out {
            Err(e) => halted(e, n.pos),
            Ok(x) => hypot_from(h, n.pos, s, i + 1, x),
        }
    }
}

/// The power, with the language's own rules for what is no number and for one to infinity.
pub open spec fn math_pow(h: Host, pos: nat, base: Num, exp: Num) -> Run<Num> {
    if exp.zero() {
        done(num_of(1), pos)
    } else if exp.nan() || base.nan() {
        done(nan(), pos)
    } else if (absolute(base).eq_number(num_of(1))) && !exp.finite() {
        done(nan(), pos)
    } else {
        ask_number(h, pos, Op::Power, seq![Val::Num(base), Val::Num(exp)])
    }
}

/// Rounding: halves go up, and what rounds to zero keeps its sign.
pub open spec fn rounded(h: Host, pos: nat, a: Num) -> Run<Num> {
    if !a.finite() || a.zero() {
        done(a, pos)
    } else if !greater(from_bits((HALF_BITS + SIGN_BIT) as u64), a) && greater(
        from_bits(HALF_BITS),
        a,
    ) {
        done(
            if a.negative() {
                from_bits(SIGN_BIT)
            } else {
                from_bits(0)
            },
            pos,
        )
    } else {
        ask_number(h, pos, Op::RoundHalfUp, seq![Val::Num(a)])
    }
}

/// An argument as an integer of 32 bits.
pub open spec fn int32_arg(h: Host, pos: nat, args: Seq<Val>, i: int) -> Run<int> {
    chain(
        ask_number(h, pos, Op::PlainInt32, seq![arg(args, i)]),
        |n: Num, p: nat| done(int32_in(n), p),
    )
}

/// The functions of one number, and those whose first argument is read first.
pub open spec fn unary(h: Host, pos: nat, op: MathOp, a: Num, args: Seq<Val>) -> Run<Num> {
    match op {
        MathOp::Abs => done(absolute(a), pos),
        MathOp::Sign => done(sign_of(a), pos),
        MathOp::Round => rounded(h, pos, a),
        MathOp::Real(f) => ask_number(h, pos, Op::Real(f), seq![Val::Num(a)]),
        MathOp::Random => ask_number(h, pos, Op::Random, Seq::empty()),
        MathOp::Clz32 => chain(
            int32_arg(h, pos, args, 0),
            |x: int, p: nat|
                done(num_of(32 - bit_length((x % 0x1_0000_0000) as nat)), p),
        ),
        MathOp::Imul => chain(
            int32_arg(h, pos, args, 0),
            |x: int, p: nat|
                chain(int32_arg(h, p, args, 1), |y: int, q: nat| done(num_of(signed32(x * y)), q)),
        ),
        _ => done(nan(), pos),
    }
}

/// The functions of any number of arguments.
pub open spec fn variadic(h: Host, pos: nat, op: MathOp, args: Seq<Val>) -> Run<Num> {
    chain(
        all_numbers(h, pos, args, 0, Seq::empty()),
        |ns: Seq<Num>, p: nat|
            match op {
                MathOp::MinOf => done(least(ns), p),
                MathOp::MaxOf => done(greatest(ns), p),
                _ => hypot_from(h, p, ns, 0, num_of(0)),
            },
    )
}

/// The functions of two arguments.
pub open spec fn binary(h: Host, pos: nat, op: MathOp, a: Num, args: Seq<Val>) -> Run<Num> {
    chain(
        number_arg(h, pos, args, 1),
        |b: Num, p: nat|
            if op == MathOp::Pow {
                math_pow(h, p, a, b)
            } else {
                ask_number(h, p, Op::Atan2, seq![Val::Num(a), Val::Num(b)])
            },
    )
}

/// A function of `Math`.
pub open spec fn math_op_run(h: Host, pos: nat, op: MathOp, args: Seq<Val>) -> Run<Val> {
    chain(
        if op == MathOp::MinOf || op == MathOp::MaxOf || op == MathOp::Hypot {
            variadic(h, pos, op, args)
        } else {
            chain(
                number_arg(h, pos, args, 0),
                |a: Num, p: nat|
                    if op == MathOp::Pow || op == MathOp::Atan2 {
                        binary(h, p, op, a, args)
                    } else {
                        unary(h, p, op, a, args)
                    },
            )
        },
        |n: Num, p: nat| done(Val::Num(n), p),
    )
}

pub open spec fn nums_run(r: Result<Vec<Num>, Stop>, it: Interp) -> Run<Seq<Num>> {
    match r {
        Ok(o) => done(o@, it.pos as nat),
        Err(e) => halted(e@, it.pos as nat),
    }
}

pub open spec fn int_run(r: Result<i64, Stop>, it: Interp) -> Run<int> {
    match r {
        Ok(o) => done(o as int, it.pos as nat),
        Err(e) => halted(e@, it.pos as nat),
    }
}

fn no_number() -> (r: Num)
    ensures
        r == nan(),
{
    Num { bits: NAN_BITS }
}

pub fn abs(n: Num) -> (r: Num)
    ensures
        r == absolute(n),
{
    if n.is_negative() {
        Num { bits: n.bits - SIGN_BIT }
    } else {
        n
    }
}

pub fn least_of(s: &Vec<Num>) -> (r: Num)
    ensures
        r == least(s@),
{
    let mut acc: Num = Num { bits: INFINITY_BITS };
    let mut i: usize = 0;
    assert(s@.take(0) =~= Seq::<Num>::empty());
    while i < s.len()
        invariant
            i <= s@.len(),
            acc == least(s@.take(i as int)),
        decreases s@.len() - i,
    {
        assert(s@.take(i + 1).drop_last() =~= s@.take(i as int));
        assert(s@.take(i + 1).last() == s@[i as int]);
        let x: Num = s[i];
        if acc.is_nan() || x.is_nan() {
            acc = no_number();
        } else if is_greater(acc, x) {
            acc = x;
        }
        i = i + 1;
    }
    assert(s@.take(i as int) =~= s@);
    acc
}

pub fn greatest_of(s: &Vec<Num>) -> (r: Num)
    ensures
        r == greatest(s@),
{
    let mut acc: Num = Num { bits: INFINITY_BITS + SIGN_BIT };
    let mut i: usize = 0;
    assert(s@.take(0) =~= Seq::<Num>::empty());
    while i < s.len()
        invariant
            i <= s@.len(),
            acc == greatest(s@.take(i as int)),
        decreases s@.len() - i,
    {
        assert(s@.take(i + 1).drop_last() =~= s@.take(i as int));
        assert(s@.take(i + 1).last() == s@[i as int]);
        let x: Num = s[i];
        if acc.is_nan() || x.is_nan() {
            acc = no_number();
        } else if is_greater(x, acc) {
            acc = x;
        }
        i = i + 1;
    }
    assert(s@.take(i as int) =~= s@);
    acc
}

pub fn sign(n: Num) -> (r: Num)
    ensures
        r == sign_of(n),
{
    if n.is_nan() {
        no_number()
    } else if n.is_zero() {
        n
    } else if n.is_negative() {
        Num::from_i64(-1)
    } else {
        Num::from_u64(1)
    }
}

/// The product of two 32-bit integers, within 32 bits.
pub fn imul(x: i64, y: i64) -> (r: i64)
    requires
        -0x8000_0000 <= x < 0x8000_0000,
        -0x8000_0000 <= y < 0x8000_0000,
    ensures
        r == signed32(x * y),
        -0x8000_0000 <= r < 0x8000_0000,
{
    let a: u64 = if x < 0 {
        (x + 0x1_0000_0000) as u64
    } else {
        x as u64
    };
    let b: u64 = if y < 0 {
        (y + 0x1_0000_0000) as u64
    } else {
        y as u64
    };
    proof {
        assert(a as int == x as int % 0x1_0000_0000);
        assert(b as int == y as int % 0x1_0000_0000);
        assert(a * b <= 0xffff_ffff * 0xffff_ffff) by (nonlinear_arith)
            requires
                a <= 0xffff_ffff,
                b <= 0xffff_ffff,
        ;
        lemma_mul_mod_noop(x as int, y as int, 0x1_0000_0000);
    }
    let m: u64 = (a * b) % 0x1_0000_0000;
    assert(m as int == (x * y) % 0x1_0000_0000);
    if m >= 0x8000_0000 {
        m as i64 - 0x1_0000_0000
    } else {
        m as i64
    }
}

/// How many of an integer's 32 bits are zeros in front.
pub fn leading_zeros(n: u32) -> (r: u64)
    ensures
        r == 32 - bit_length(n as nat),
        r <= 32,
{
    let mut left: u32 = n;
    let mut bits: u64 = 0;
    proof {
        vstd::arithmetic::power2::lemma2_to64();
        lemma_bit_length(n as nat, 32);
    }
    while left > 0
        invariant
            bits + bit_length(left as nat) == bit_length(n as nat),
            bit_length(n as nat) <= 32,
        decreases left,
    {
        assert(bit_length(left as nat) == 1 + bit_length((left / 2) as nat));
        left = left / 2;
        bits = bits + 1;
    }
    32 - bits
}

proof fn lemma_bit_length(n: nat, k: nat)
    requires
        n < vstd::arithmetic::power2::pow2(k),
    ensures
        bit_length(n) <= k,
    decreases k,
{
    if n > 0 {
        if k == 0 {
            vstd::arithmetic::power2::lemma2_to64();
        } else {
            vstd::arithmetic::power2::lemma_pow2_unfold(k);
            lemma_bit_length(n / 2, (k - 1) as nat);
        }
    }
}

fn to_int32(n: Num) -> (r: i64)
    ensures
        r == int32_in(n),
        -0x8000_0000 <= r < 0x8000_0000,
{
    match to_offset(n) {
        Offset::Forward(k) => {
            let m: u64 = k % 0x1_0000_0000;
            if m >= 0x8000_0000 {
                m as i64 - 0x1_0000_0000
            } else {
                m as i64
            }
        },
        Offset::Backward(k) => {
            let m: u64 = k % 0x1_0000_0000;
            proof {
                lemma_negated_mod(k as int);
            }
            let u: u64 = if m == 0 {
                0
            } else {
                0x1_0000_0000 - m
            };
            if u >= 0x8000_0000 {
                u as i64 - 0x1_0000_0000
            } else {
                u as i64
            }
        },
        _ => 0,
    }
}

proof fn lemma_negated_mod(k: int)
    requires
        k >= 0,
    ensures
        (-k) % 0x1_0000_0000 == if k % 0x1_0000_0000 == 0 {
            0
        } else {
            0x1_0000_0000 - k % 0x1_0000_0000
        },
{
    let m = 0x1_0000_0000int;
    lemma_fundamental_div_mod(k, m);
    let q = k / m;
    let r = k % m;
    if r == 0 {
        lemma_fundamental_div_mod_converse(-k, m, -q, 0);
    } else {
        assert(-k == m * (-q - 1) + (m - r)) by (nonlinear_arith)
            requires
                k == m * q + r,
        ;
        lemma_fundamental_div_mod_converse(-k, m, -q - 1, m - r);
    }
}

/// A sequence of random numbers.
pub struct RandomSequence {
    pub state: u64,
}

impl RandomSequence {
    /// The next number: so many parts of two to the power of 53.
    pub fn next(&mut self) -> (r: u64)
        ensures
            final(self).state == scrambled(old(self).state),
            r == final(self).state >> 11u64,
            r < 0x20_0000_0000_0000,
    {
        let s: u64 = self.state;
        let a: u64 = s ^ (s << 13u64);
        let b: u64 = a ^ (a >> 7u64);
        let c: u64 = b ^ (b << 17u64);
        self.state = c;
        assert(c >> 11u64 < 0x20_0000_0000_0000) by (bit_vector);
        c >> 11u64
    }
}

/// The random sequence never gets stuck at zero, where it would stay.
pub proof fn law_random_never_zero(s: u64)
    requires
        s != 0,
    ensures
        scrambled(s) != 0,
{
    assert(s != 0 ==> s ^ (s << 13u64) != 0) by (bit_vector);
    let a = s ^ (s << 13u64);
    assert(a != 0 ==> a ^ (a >> 7u64) != 0) by (bit_vector);
    let b = a ^ (a >> 7u64);
    assert(b != 0 ==> b ^ (b << 17u64) != 0) by (bit_vector);
}

/// The least of some numbers is one of them or infinity, and none of them is below it.
pub proof fn law_least(s: Seq<Num>, i: int)
    requires
        forall|j: int| 0 <= j < s.len() ==> !(#[trigger] s[j]).nan(),
        0 <= i < s.len(),
    ensures
        !greater(least(s), s[i]),
        !least(s).nan(),
        s.contains(least(s)) || least(s) == from_bits(INFINITY_BITS),
    decreases s.len(),
{
    lemma_infinity();
    let init = s.drop_last();
    assert forall|j: int| 0 <= j < init.len() implies !(#[trigger] init[j]).nan() by {
        assert(!s[j].nan());
    }
    assert(!s[s.len() - 1].nan());
    if init.len() > 0 {
        law_least(
            init,
            if i < init.len() {
                i
            } else {
                0
            },
        );
        if init.contains(least(init)) {
            let k = choose|k: int| 0 <= k < init.len() && init[k] == least(init);
            assert(s[k] == least(init));
        }
        if i < init.len() {
            assert(init[i] == s[i]);
        }
    } else {
        assert(least(init) == from_bits(INFINITY_BITS));
    }
    assert(s.last() == s[s.len() - 1]);
}

proof fn lemma_infinity()
    ensures
        !from_bits(INFINITY_BITS).nan(),
{
    assert(0x7ff0_0000_0000_0000u64 % 0x10_0000_0000_0000 == 0);
}

impl Interp {
    #[verifier::loop_isolation(false)]
    fn all_numbers(&mut self, args: &Vec<Value>) -> (r: Result<Vec<Num>, Stop>)
        requires
            old(self).wf(),
        ensures
            final(self).follows(*old(self)),
            nums_run(r, *final(self)) == all_numbers(
                old(self).host(),
                old(self).pos as nat,
                views(args@),
                0,
                Seq::empty(),
            ),
    {
        let ghost all = views(args@);
        let ghost goal = all_numbers(self.host(), self.pos as nat, all, 0, Seq::empty());
        let mut out: Vec<Num> = Vec::new();
        assert(out@ =~= Seq::<Num>::empty());
        let mut i: usize = 0;
        while i < args.len()
            invariant
                i <= args@.len(),
                self.follows(*old(self)),
                goal == all_numbers(self.host(), self.pos as nat, all, i as int, out@),
            decreases args@.len() - i,
        {
            assert(all[i as int] == args@[i as int]@);
            let x: Num = self.ask_number(Op::ToNumber, list1(args[i].clone()))?;
            out.push(x);
            i = i + 1;
        }
        Ok(out)
    }

    #[verifier::loop_isolation(false)]
    fn hypot_from(&mut self, s: &Vec<Num>) -> (r: Result<Num, Stop>)
        requires
            old(self).wf(),
        ensures
            final(self).follows(*old(self)),
            run_plain(r, *final(self)) == hypot_from(
                old(self).host(),
                old(self).pos as nat,
                s@,
                0,
                num_of(0),
            ),
    {
        let mut acc: Num = Num::from_u64(0);
        let ghost goal = hypot_from(self.host(), self.pos as nat, s@, 0, acc);
        let mut i: usize = 0;
        while i < s.len()
            invariant
                i <= s@.len(),
                self.follows(*old(self)),
                goal == hypot_from(self.host(), self.pos as nat, s@, i as int, acc),
            decreases s@.len() - i,
        {
            acc = self.ask_number(Op::Hypot, list2(Value::Num(acc), Value::Num(s[i])))?;
            i = i + 1;
        }
        Ok(acc)
    }

    /// The power.
    pub fn math_pow(&mut self, base: Num, exp: Num) -> (r: Result<Num, Stop>)
        requires
            old(self).wf(),
        ensures
            final(self).follows(*old(self)),
            run_plain(r, *final(self)) == math_pow(
                old(self).host(),
                old(self).pos as nat,
                base,
                exp,
            ),
    {
        if exp.is_zero() {
            return Ok(Num::from_u64(1));
        }
        if exp.is_nan() || base.is_nan() {
            return Ok(no_number());
        }
        if abs(base).equals(Num::from_u64(1)) && !exp.is_finite() {
            return Ok(no_number());
        }
        self.ask_number(Op::Power, list2(Value::Num(base), Value::Num(exp)))
    }

    fn rounded(&mut self, a: Num) -> (r: Result<Num, Stop>)
        requires
            old(self).wf(),
        ensures
            final(self).follows(*old(self)),
            run_plain(r, *final(self)) == rounded(
                old(self).host(),
                old(self).pos as nat,
                a,
            ),
    {
        if !a.is_finite() || a.is_zero() {
            return Ok(a);
        }
        let half: Num = Num { bits: HALF_BITS };
        let minus_half: Num = Num { bits: HALF_BITS + SIGN_BIT };
        if !is_greater(minus_half, a) && is_greater(half, a) {
            if a.is_negative() {
                return Ok(Num { bits: SIGN_BIT });
            }
            return Ok(Num { bits: 0 });
        }
        self.ask_number(Op::RoundHalfUp, list1(Value::Num(a)))
    }

    fn int32_arg(&mut self, args: &Vec<Value>, i: usize) -> (r: Result<i64, Stop>)
        requires
            old(self).wf(),
        ensures
            final(self).follows(*old(self)),
            int_run(r, *final(self)) == int32_arg(
                old(self).host(),
                old(self).pos as nat,
                views(args@),
                i as int,
            ),
            r matches Ok(n) ==> -0x8000_0000 <= n < 0x8000_0000,
    {
        let n: Num = self.ask_number(Op::PlainInt32, list1(arg_at(args, i)))?;
        Ok(to_int32(n))
    }

    fn unary(&mut self, op: MathOp, a: Num, args: &Vec<Value>) -> (r: Result<Num, Stop>)
        requires
            old(self).wf(),
        ensures
            final(self).follows(*old(self)),
            run_plain(r, *final(self)) == unary(
                old(self).host(),
                old(self).pos as nat,
                op,
                a,
                views(args@),
            ),
    {
        match op {
            MathOp::Abs => Ok(abs(a)),
            MathOp::Sign => Ok(sign(a)),
            MathOp::Round => self.rounded(a),
            MathOp::Real(f) => self.ask_number(Op::Real(f), list1(Value::Num(a))),
            MathOp::Random => self.ask_number(Op::Random, empty_list()),
            MathOp::Clz32 => {
                let x: i64 = self.int32_arg(args, 0)?;
                let u: u32 = if x < 0 {
                    (x + 0x1_0000_0000) as u32
                } else {
                    x as u32
                };
                assert(u as int == x as int % 0x1_0000_0000);
                Ok(Num::from_u64(leading_zeros(u)))
            },
            MathOp::Imul => {
                let x: i64 = self.int32_arg(args, 0)?;
                let y: i64 = self.int32_arg(args, 1)?;
                Ok(Num::from_i64(imul(x, y)))
            },
            _ => Ok(no_number()),
        }
    }

    fn variadic(&mut self, op: MathOp, args: &Vec<Value>) -> (r: Result<Num, Stop>)
        requires
            old(self).wf(),
        ensures
            final(self).follows(*old(self)),
            run_plain(r, *final(self)) == variadic(
                old(self).host(),
                old(self).pos as nat,
                op,
                views(args@),
            ),
    {
        let ns: Vec<Num> = self.all_numbers(args)?;
        match op {
            MathOp::MinOf => Ok(least_of(&ns)),
            MathOp::MaxOf => Ok(greatest_of(&ns)),
            _ => self.hypot_from(&ns),
        }
    }

    fn binary(&mut self, op: MathOp, a: Num, args: &Vec<Value>) -> (r: Result<Num, Stop>)
        requires
            old(self).wf(),
        ensures
            final(self).follows(*old(self)),
            run_plain(r, *final(self)) == binary(
                old(self).host(),
                old(self).pos as nat,
                op,
                a,
                views(args@),
            ),
    {
        let b: Num = self.math_arg(args, 1)?;
        if op == MathOp::Pow {
            self.math_pow(a, b)
        } else {
            self.ask_number(Op::Atan2, list2(Value::Num(a), Value::Num(b)))
        }
    }

    /// A function of `Math`.
    pub fn math_op(&mut self, op: MathOp, args: &Vec<Value>) -> (r: Result<Value, Stop>)
        requires
            old(self).wf(),
        ensures
            final(self).follows(*old(self)),
            run_value(r, *final(self)) == math_op_run(
                old(self).host(),
                old(self).pos as nat,
                op,
                views(args@),
            ),
    {
        let n: Num = if op == MathOp::MinOf || op == MathOp::MaxOf || op == MathOp::Hypot {
            self.variadic(op, args)?
        } else {
            let a: Num = self.math_arg(args, 0)?;
            if op == MathOp::Pow || op == MathOp::Atan2 {
                self.binary(op, a, args)?
            } else {
                self.unary(op, a, args)?
            }
        };
        Ok(Value::Num(n))
    }
}

} // verus!
