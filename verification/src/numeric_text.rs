//! Numbers in texts: `parseInt`, `parseFloat`, and the checks of `Number`.
use crate::host::{
    ask_number, ask_text, chain, done, list1, list2, run_value, Host, Interp, NAN_BITS, Op, Run,
    Stop,
};
use crate::number::{num_of, MAX_SAFE, Num, SIGN_BIT};
use crate::text::{
    all_digits, chars_of, decimal, digits_value, is_digit, is_unicode_space, lemma_decimal_value,
    string_of, string_of_range, unicode_space,
};
use crate::value::{arg, arg_at, views, Val, Value};
use vstd::prelude::*;

verus! {

/// The number of space characters that `s` begins with.
pub open spec fn leading_space(s: Seq<char>) -> nat
    decreases s.len(),
{
    if s.len() > 0 && unicode_space(s[0]) {
        leading_space(s.skip(1)) + 1
    } else {
        0
    }
}

/// The text without the space at its start.
pub open spec fn trimmed_start(s: Seq<char>) -> Seq<char> {
    s.skip(leading_space(s) as int)
}

proof fn lemma_leading_space(s: Seq<char>, n: nat)
    requires
        n <= s.len(),
        forall|j: int| 0 <= j < n ==> unicode_space(#[trigger] s[j]),
        n < s.len() ==> !unicode_space(s[n as int]),
    ensures
        leading_space(s) == n,
    decreases s.len(),
{
    if n > 0 {
        assert(unicode_space(s[0]));
        assert forall|j: int| 0 <= j < n - 1 implies unicode_space(#[trigger] s.skip(1)[j]) by {
            assert(unicode_space(s[j + 1]));
        }
        lemma_leading_space(s.skip(1), (n - 1) as nat);
    }
}

fn skip_space(s: &Vec<char>) -> (r: usize)
    ensures
        r == leading_space(s@),
        r <= s@.len(),
{
    let mut n: usize = 0;
    while n < s.len() && is_unicode_space(s[n])
        invariant
            n <= s@.len(),
            forall|j: int| 0 <= j < n ==> unicode_space(#[trigger] s@[j]),
        decreases s@.len() - n,
    {
        n = n + 1;
    }
    proof {
        lemma_leading_space(s@, n as nat);
    }
    n
}

/// The end of the run of decimal digits from `i` on.
pub open spec fn digits_end(s: Seq<char>, i: nat) -> nat
    decreases s.len() - i,
{
    if i < s.len() && is_digit(s[i as int]) {
        digits_end(s, i + 1)
    } else {
        i
    }
}

pub open spec fn char_at(s: Seq<char>, i: nat, c: char) -> bool {
    i < s.len() && s[i as int] == c
}

/// The end of the exponent at `i`; `i` itself where none stands there.
pub open spec fn exponent_end(s: Seq<char>, i: nat) -> nat {
    if char_at(s, i, 'e') || char_at(s, i, 'E') {
        let j = if char_at(s, i + 1, '+') || char_at(s, i + 1, '-') {
            i + 2
        } else {
            i + 1
        };
        if digits_end(s, j) > j {
            digits_end(s, j)
        } else {
            i
        }
    } else {
        i
    }
}

/// Where the digits begin, after a sign.
pub open spec fn sign_end(s: Seq<char>) -> nat {
    if char_at(s, 0, '-') || char_at(s, 0, '+') {
        1
    } else {
        0
    }
}

pub open spec fn begins_with(s: Seq<char>, from: nat, what: Seq<char>) -> bool {
    from + what.len() <= s.len() && s.subrange(from as int, (from + what.len()) as int) == what
}

/// The longest start of a text that is a decimal literal.
#[verifier::ext_equal]
pub enum LiteralV {
    /// There is none.
    Missing,
    Infinite { negative: bool },
    /// The literal without its sign, in the form that has a digit before a point and one after it.
    Decimal { negative: bool, text: Seq<char> },
}

/// The longest start of a text that is a decimal literal.
#[derive(Debug)]
pub enum Literal {
    Missing,
    Infinite { negative: bool },
    Decimal { negative: bool, text: String },
}

impl View for Literal {
    type V = LiteralV;

    open spec fn view(&self) -> LiteralV {
        match *self {
            Literal::Missing => LiteralV::Missing,
            Literal::Infinite { negative } => LiteralV::Infinite { negative },
            Literal::Decimal { negative, text } => LiteralV::Decimal { negative, text: text@ },
        }
    }
}

/// The digits before the point, a point only where digits follow it, and the exponent.
pub open spec fn decimal_literal(s: Seq<char>) -> LiteralV {
    let negative = char_at(s, 0, '-');
    let start = sign_end(s);
    if begins_with(s, start, "Infinity"@) {
        LiteralV::Infinite { negative }
    } else {
        let whole = digits_end(s, start);
        let point = char_at(s, whole, '.');
        let fraction = if point {
            digits_end(s, whole + 1)
        } else {
            whole
        };
        let decimals = if point {
            fraction - (whole + 1)
        } else {
            0
        };
        if whole == start && decimals == 0 {
            LiteralV::Missing
        } else {
            let end = exponent_end(s, fraction);
            let before = if whole == start {
                seq!['0']
            } else {
                s.subrange(start as int, whole as int)
            };
            let middle = if decimals > 0 {
                s.subrange(whole as int, fraction as int)
            } else {
                Seq::empty()
            };
            LiteralV::Decimal {
                negative,
                text: before + middle + s.subrange(fraction as int, end as int),
            }
        }
    }
}

fn scan_digits(s: &Vec<char>, from: usize) -> (r: usize)
    requires
        from <= s@.len(),
    ensures
        r == digits_end(s@, from as nat),
        from <= r <= s@.len(),
{
    let mut i: usize = from;
    while i < s.len() && '0' <= s[i] && s[i] <= '9'
        invariant
            from <= i <= s@.len(),
            digits_end(s@, from as nat) == digits_end(s@, i as nat),
        decreases s@.len() - i,
    {
        i = i + 1;
    }
    i
}

fn has_at(s: &Vec<char>, i: usize, c: char) -> (r: bool)
    ensures
        r == char_at(s@, i as nat, c),
{
    i < s.len() && s[i] == c
}

fn scan_exponent(s: &Vec<char>, i: usize) -> (r: usize)
    requires
        i <= s@.len(),
    ensures
        r == exponent_end(s@, i as nat),
        i <= r <= s@.len(),
{
    let n: usize = s.len();
    if has_at(s, i, 'e') || has_at(s, i, 'E') {
        let j: usize = if i + 1 < n && (s[i + 1] == '+' || s[i + 1] == '-') {
            i + 2
        } else {
            i + 1
        };
        let end: usize = scan_digits(s, j);
        if end > j {
            return end;
        }
    }
    i
}

fn starts_with_infinity(s: &Vec<char>, from: usize) -> (r: bool)
    requires
        from <= s@.len(),
    ensures
        r == begins_with(s@, from as nat, "Infinity"@),
{
    let what: Vec<char> = chars_of("Infinity");
    let n: usize = s.len();
    if what.len() > n - from {
        return false;
    }
    let mut i: usize = 0;
    while i < what.len()
        invariant
            i <= what@.len(),
            what@ == "Infinity"@,
            n == s@.len(),
            from + what@.len() <= n,
            forall|j: int| 0 <= j < i ==> s@[from + j] == #[trigger] what@[j],
        decreases what@.len() - i,
    {
        if s[from + i] != what[i] {
            assert(s@.subrange(from as int, (from + what@.len()) as int)[i as int] != what@[i as int]);
            return false;
        }
        i = i + 1;
    }
    assert(s@.subrange(from as int, (from + what@.len()) as int) =~= what@);
    true
}

/// Finds the longest start of a text that is a decimal literal.
pub fn parse_float_prefix(t: &str) -> (r: Literal)
    ensures
        r@ == decimal_literal(t@),
{
    let s: Vec<char> = chars_of(t);
    let negative: bool = has_at(&s, 0, '-');
    let start: usize = if negative || has_at(&s, 0, '+') {
        1
    } else {
        0
    };
    if starts_with_infinity(&s, start) {
        return Literal::Infinite { negative };
    }
    let whole: usize = scan_digits(&s, start);
    let point: bool = has_at(&s, whole, '.');
    let len: usize = s.len();
    let fraction: usize = if point {
        assert(whole < len);
        scan_digits(&s, whole + 1)
    } else {
        whole
    };
    let some: bool = point && fraction > whole + 1;
    if whole == start && !some {
        return Literal::Missing;
    }
    let end: usize = scan_exponent(&s, fraction);
    let mut out: Vec<char> = Vec::new();
    let mut i: usize = start;
    if whole == start {
        out.push('0');
    }
    let ghost before = if whole == start {
        seq!['0']
    } else {
        s@.subrange(start as int, whole as int)
    };
    let ghost lead = out@;
    while i < whole
        invariant
            start <= i <= whole <= s@.len(),
            out@ == lead + s@.subrange(start as int, i as int),
        decreases whole - i,
    {
        out.push(s[i]);
        i = i + 1;
        assert(out@ =~= lead + s@.subrange(start as int, i as int));
    }
    assert(out@ =~= before);
    let ghost middle = if some {
        s@.subrange(whole as int, fraction as int)
    } else {
        Seq::empty()
    };
    if some {
        let mut i: usize = whole;
        while i < fraction
            invariant
                whole <= i <= fraction <= s@.len(),
                out@ == before + s@.subrange(whole as int, i as int),
            decreases fraction - i,
        {
            out.push(s[i]);
            i = i + 1;
            assert(out@ =~= before + s@.subrange(whole as int, i as int));
        }
    }
    assert(out@ =~= before + middle);
    let mut i: usize = fraction;
    while i < end
        invariant
            fraction <= i <= end <= s@.len(),
            out@ == before + middle + s@.subrange(fraction as int, i as int),
        decreases end - i,
    {
        out.push(s[i]);
        i = i + 1;
        assert(out@ =~= before + middle + s@.subrange(fraction as int, i as int));
    }
    assert(out@ =~= before + middle + s@.subrange(fraction as int, end as int));
    Literal::Decimal { negative, text: string_of(&out) }
}

/// The number with the other sign.
pub open spec fn negated(n: Num) -> Num {
    if n.negative() {
        Num { bits: (n.bits - SIGN_BIT) as u64 }
    } else {
        Num { bits: (n.bits + SIGN_BIT) as u64 }
    }
}

pub fn negate(n: Num) -> (r: Num)
    ensures
        r == negated(n),
{
    if n.is_negative() {
        Num { bits: n.bits - SIGN_BIT }
    } else {
        Num { bits: n.bits + SIGN_BIT }
    }
}

/// The bits of positive infinity.
pub const INFINITY_BITS: u64 = 0x7ff0_0000_0000_0000;

pub open spec fn infinity(negative: bool) -> Num {
    if negative {
        negated(Num { bits: INFINITY_BITS })
    } else {
        Num { bits: INFINITY_BITS }
    }
}

pub open spec fn nan_val() -> Val {
    Val::Num(Num { bits: NAN_BITS })
}

/// `parseFloat`.
pub open spec fn parse_float_run(h: Host, pos: nat, args: Seq<Val>) -> Run<Val> {
    chain(
        ask_text(h, pos, Op::ToText, seq![arg(args, 0)]),
        |s: Seq<char>, p: nat|
            match decimal_literal(trimmed_start(s)) {
                LiteralV::Missing => done(nan_val(), p),
                LiteralV::Infinite { negative } => done(Val::Num(infinity(negative)), p),
                LiteralV::Decimal { negative, text } => chain(
                    ask_number(h, p, Op::DecimalNumber, seq![Val::Str(text)]),
                    |n: Num, q: nat|
                        done(
                            Val::Num(
                                if negative {
                                    negated(n)
                                } else {
                                    n
                                },
                            ),
                            q,
                        ),
                ),
            },
    )
}

/// The value of a digit in a base.
pub open spec fn digit_in(c: char, radix: nat) -> Option<nat> {
    let v = if is_digit(c) {
        (c as u32 - 48) as nat
    } else if 'a' <= c <= 'z' {
        (c as u32 - 87) as nat
    } else if 'A' <= c <= 'Z' {
        (c as u32 - 55) as nat
    } else {
        99
    };
    if v < radix {
        Some(v)
    } else {
        None
    }
}

fn digit_value_in(c: char, radix: u32) -> (r: Option<u32>)
    requires
        2 <= radix <= 36,
    ensures
        match r {
            Some(d) => digit_in(c, radix as nat) == Some(d as nat) && d < radix,
            None => digit_in(c, radix as nat) is None,
        },
{
    let v: u32 = if '0' <= c && c <= '9' {
        c as u32 - 48
    } else if 'a' <= c && c <= 'z' {
        c as u32 - 87
    } else if 'A' <= c && c <= 'Z' {
        c as u32 - 55
    } else {
        99
    };
    if v < radix {
        Some(v)
    } else {
        None
    }
}

/// The end of the run of digits of a base from `i` on.
pub open spec fn radix_end(s: Seq<char>, i: nat, radix: nat) -> nat
    decreases s.len() - i,
{
    if i < s.len() && digit_in(s[i as int], radix) is Some {
        radix_end(s, i + 1, radix)
    } else {
        i
    }
}

/// What digits of a base come to.
pub open spec fn radix_value(s: Seq<char>, radix: nat) -> nat
    decreases s.len(),
{
    if s.len() == 0 {
        0
    } else {
        radix_value(s.drop_last(), radix) * radix + match digit_in(s.last(), radix) {
            Some(d) => d,
            None => 0,
        }
    }
}

/// The integer that a number truncates to; zero where it is not finite.
pub open spec fn int_part(n: Num) -> int {
    if n.finite() {
        n.truncated()
    } else {
        0
    }
}

/// The longest start of a text that is an integer of a base: its sign, its base and its digits.
#[verifier::ext_equal]
pub struct IntegerV {
    pub negative: bool,
    pub radix: nat,
    pub digits: Seq<char>,
}

/// The longest start of a text that is an integer of a base. A base of zero is found from the
/// text; none for a base that there is not.
pub open spec fn integer_prefix(t: Seq<char>, radix: int) -> Option<IntegerV> {
    let negative = char_at(t, 0, '-');
    let start = sign_end(t);
    let hex = (radix == 16 || radix == 0) && char_at(t, start, '0') && (char_at(t, start + 1, 'x')
        || char_at(t, start + 1, 'X'));
    let base = if hex {
        16
    } else if radix == 0 {
        10
    } else {
        radix
    };
    let from = if hex {
        start + 2
    } else {
        start
    };
    if !(2 <= base <= 36) {
        None
    } else {
        let end = radix_end(t, from, base as nat);
        Some(
            IntegerV {
                negative,
                radix: base as nat,
                digits: t.subrange(from as int, end as int),
            },
        )
    }
}

/// The longest start of a text that is an integer of a base.
#[derive(Debug)]
pub struct IntegerPrefix {
    pub negative: bool,
    pub radix: u32,
    pub digits: String,
}

impl View for IntegerPrefix {
    type V = IntegerV;

    open spec fn view(&self) -> IntegerV {
        IntegerV { negative: self.negative, radix: self.radix as nat, digits: self.digits@ }
    }
}

/// Finds the longest start of a text that is an integer of a base.
pub fn scan_integer(t: &str, radix: i64) -> (r: Option<IntegerPrefix>)
    ensures
        match r {
            Some(i) => integer_prefix(t@, radix as int) == Some(i@) && 2 <= i.radix <= 36,
            None => integer_prefix(t@, radix as int) is None,
        },
{
    let s: Vec<char> = chars_of(t);
    let n: usize = s.len();
    let negative: bool = has_at(&s, 0, '-');
    let start: usize = if negative || has_at(&s, 0, '+') {
        1
    } else {
        0
    };
    let hex: bool = (radix == 16 || radix == 0) && has_at(&s, start, '0') && (has_at(
        &s,
        start + 1,
        'x',
    ) || has_at(&s, start + 1, 'X'));
    let base: i64 = if hex {
        16
    } else if radix == 0 {
        10
    } else {
        radix
    };
    let from: usize = if hex {
        start + 2
    } else {
        start
    };
    if base < 2 || base > 36 {
        return None;
    }
    let base: u32 = base as u32;
    let mut i: usize = from;
    while i < n && digit_value_in(s[i], base).is_some()
        invariant
            2 <= base <= 36,
            n == s@.len(),
            from <= i <= n,
            radix_end(s@, from as nat, base as nat) == radix_end(s@, i as nat, base as nat),
        decreases n - i,
    {
        i = i + 1;
    }
    Some(IntegerPrefix { negative, radix: base, digits: string_of_range(&s, from, i) })
}

/// What digits come to; `None` where that is more than a double holds exactly.
fn small_value(digits: &str, radix: u32) -> (r: Option<u64>)
    requires
        2 <= radix <= 36,
    ensures
        match r {
            Some(v) => v == radix_value(digits@, radix as nat) && v <= MAX_SAFE,
            None => radix_value(digits@, radix as nat) > MAX_SAFE,
        },
{
    let s: Vec<char> = chars_of(digits);
    let mut v: u64 = 0;
    let mut i: usize = 0;
    assert(s@.take(0) =~= Seq::<char>::empty());
    while i < s.len()
        invariant
            2 <= radix <= 36,
            i <= s@.len(),
            s@ == digits@,
            v <= MAX_SAFE,
            v == radix_value(s@.take(i as int), radix as nat),
        decreases s@.len() - i,
    {
        let d: u32 = match digit_value_in(s[i], radix) {
            Some(d) => d,
            None => 0,
        };
        assert(s@.take(i + 1).drop_last() =~= s@.take(i as int));
        assert(v * radix <= MAX_SAFE * 36) by (nonlinear_arith)
            requires
                v <= MAX_SAFE,
                radix <= 36,
        ;
        v = v * (radix as u64) + d as u64;
        i = i + 1;
        assert(v == radix_value(s@.take(i as int), radix as nat));
        if v > MAX_SAFE {
            proof {
                lemma_radix_value_grows(s@, radix as nat, i as nat);
            }
            return None;
        }
    }
    assert(s@.take(i as int) =~= s@);
    Some(v)
}

proof fn lemma_radix_value_grows(s: Seq<char>, radix: nat, i: nat)
    requires
        i <= s.len(),
        radix >= 1,
    ensures
        radix_value(s.take(i as int), radix) <= radix_value(s, radix),
    decreases s.len() - i,
{
    if i < s.len() {
        assert(s.take((i + 1) as int).drop_last() =~= s.take(i as int));
        let a = radix_value(s.take(i as int), radix);
        assert(a <= a * radix) by (nonlinear_arith)
            requires
                radix >= 1,
        ;
        lemma_radix_value_grows(s, radix, i + 1);
    } else {
        assert(s.take(i as int) =~= s);
    }
}

/// The number that an integer's digits come to. What a double does not hold exactly is left to
/// the engine.
pub open spec fn integer_number(h: Host, pos: nat, i: IntegerV) -> Run<Num> {
    let v = radix_value(i.digits, i.radix);
    let n = if v <= MAX_SAFE {
        done(num_of(v as int), pos)
    } else {
        ask_number(
            h,
            pos,
            Op::DigitsNumber,
            seq![Val::Num(num_of(i.radix as int)), Val::Str(i.digits)],
        )
    };
    chain(
        n,
        |x: Num, p: nat|
            done(
                if i.negative {
                    negated(x)
                } else {
                    x
                },
                p,
            ),
    )
}

/// `parseInt`.
pub open spec fn parse_int_run(h: Host, pos: nat, args: Seq<Val>) -> Run<Val> {
    chain(
        ask_text(h, pos, Op::ToText, seq![arg(args, 0)]),
        |s: Seq<char>, p: nat|
            chain(
                ask_number(h, p, Op::ToInt32, seq![arg(args, 1)]),
                |radix: Num, q: nat|
                    match integer_prefix(trimmed_start(s), int_part(radix)) {
                        None => done(nan_val(), q),
                        Some(i) => if i.digits.len() == 0 {
                            done(nan_val(), q)
                        } else {
                            chain(
                                integer_number(h, q, i),
                                |n: Num, r: nat| done(Val::Num(n), r),
                            )
                        },
                    },
            ),
    )
}

/// A text without the space at its start.
pub fn trim_start(s: &str) -> (r: String)
    ensures
        r@ == trimmed_start(s@),
{
    let cs: Vec<char> = chars_of(s);
    let n: usize = skip_space(&cs);
    let r: String = string_of_range(&cs, n, cs.len());
    assert(r@ =~= trimmed_start(s@));
    r
}

/// A base as a small integer; one that is out of range stays out of range.
fn radix_of(n: Num) -> (r: i64)
    ensures
        integer_bases_alike(int_part(n), r as int),
{
    if !n.is_finite() {
        return 0;
    }
    let w: u64 = n.whole();
    if n.is_negative() {
        if w == 0 {
            0
        } else {
            -1
        }
    } else if w > 36 {
        37
    } else {
        w as i64
    }
}

pub open spec fn integer_bases_alike(a: int, b: int) -> bool {
    a == b || (!(0 <= a <= 36) && !(0 <= b <= 36))
}

impl Interp {
    /// `parseFloat`.
    pub fn parse_float(&mut self, args: &Vec<Value>) -> (r: Result<Value, Stop>)
        requires
            old(self).wf(),
        ensures
            final(self).follows(*old(self)),
            run_value(r, *final(self)) == parse_float_run(
                old(self).host(),
                old(self).pos as nat,
                views(args@),
            ),
    {
        let s: String = self.ask_text(Op::ToText, list1(arg_at(args, 0)))?;
        let t: String = trim_start(s.as_str());
        match parse_float_prefix(t.as_str()) {
            Literal::Missing => Ok(Value::Num(Num { bits: NAN_BITS })),
            Literal::Infinite { negative } => {
                let n: Num = Num { bits: INFINITY_BITS };
                Ok(
                    Value::Num(
                        if negative {
                            negate(n)
                        } else {
                            n
                        },
                    ),
                )
            },
            Literal::Decimal { negative, text } => {
                let n: Num = self.ask_number(Op::DecimalNumber, list1(Value::Str(text)))?;
                Ok(
                    Value::Num(
                        if negative {
                            negate(n)
                        } else {
                            n
                        },
                    ),
                )
            },
        }
    }

    /// `parseInt`.
    pub fn parse_int(&mut self, args: &Vec<Value>) -> (r: Result<Value, Stop>)
        requires
            old(self).wf(),
        ensures
            final(self).follows(*old(self)),
            run_value(r, *final(self)) == parse_int_run(
                old(self).host(),
                old(self).pos as nat,
                views(args@),
            ),
    {
        let s: String = self.ask_text(Op::ToText, list1(arg_at(args, 0)))?;
        let radix: Num = self.ask_number(Op::ToInt32, list1(arg_at(args, 1)))?;
        let t: String = trim_start(s.as_str());
        match scan_integer(t.as_str(), radix_of(radix)) {
            None => Ok(Value::Num(Num { bits: NAN_BITS })),
            Some(i) => {
                if chars_of(i.digits.as_str()).len() == 0 {
                    return Ok(Value::Num(Num { bits: NAN_BITS }));
                }
                let n: Num = match small_value(i.digits.as_str(), i.radix) {
                    Some(v) => Num::from_u64(v),
                    None => self.ask_number(
                        Op::DigitsNumber,
                        list2(
                            Value::Num(Num::from_u64(i.radix as u64)),
                            Value::Str(i.digits.clone()),
                        ),
                    )?,
                };
                Ok(
                    Value::Num(
                        if i.negative {
                            negate(n)
                        } else {
                            n
                        },
                    ),
                )
            },
        }
    }
}

proof fn lemma_digits_end_all(s: Seq<char>, i: nat)
    requires
        i <= s.len(),
        all_digits(s),
    ensures
        digits_end(s, i) == s.len(),
        radix_end(s, i, 10) == s.len(),
    decreases s.len() - i,
{
    if i < s.len() {
        assert(is_digit(s[i as int]));
        lemma_digits_end_all(s, i + 1);
    }
}

proof fn lemma_radix_ten(s: Seq<char>)
    requires
        forall|i: int| 0 <= i < s.len() ==> is_digit(#[trigger] s[i]),
    ensures
        radix_value(s, 10) == digits_value(s),
    decreases s.len(),
{
    if s.len() > 0 {
        assert(is_digit(s.last()));
        lemma_radix_ten(s.drop_last());
    }
}

/// What a safe integer is written as, `parseInt` and `parseFloat` read back: the first gives the
/// integer itself, the second finds the whole text.
pub proof fn law_integers_read_back(n: nat)
    requires
        n <= MAX_SAFE,
    ensures
        trimmed_start(decimal(n)) == decimal(n),
        integer_prefix(decimal(n), 0) == Some(
            IntegerV { negative: false, radix: 10, digits: decimal(n) },
        ),
        radix_value(decimal(n), 10) == n,
        decimal_literal(decimal(n)) == (LiteralV::Decimal { negative: false, text: decimal(n) }),
{
    let s = decimal(n);
    lemma_decimal_value(n);
    assert(is_digit(s[0]));
    assert(!unicode_space(s[0]));
    assert(s.skip(0) =~= s);
    lemma_digits_end_all(s, 0);
    assert forall|i: int| 0 <= i < s.len() implies is_digit(#[trigger] s[i]) by {}
    lemma_radix_ten(s);
    assert(s.subrange(0, s.len() as int) =~= s);
    if s.len() > 1 {
        assert(is_digit(s[1]));
    }
    reveal_strlit("Infinity");
    assert(!begins_with(s, 0, "Infinity"@)) by {
        if begins_with(s, 0, "Infinity"@) {
            assert(s.subrange(0, 8)[0] == 'I');
        }
    }
    assert(s.subrange(0, s.len() as int) + Seq::<char>::empty() + s.subrange(
        s.len() as int,
        s.len() as int,
    ) =~= s);
}

} // verus!
