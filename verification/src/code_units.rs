//! Strings from code units and code points.
use crate::host::{
    ask_number, done, fail, halted, list1, raised, run_value, Host, Interp, Op, Run, Stop,
};
use crate::number::{above, below, has_fraction, is_above, is_below, is_fractional, to_uint16, Num};
use crate::text::lemma_code_point;
use crate::value::{views, ErrorKind, Val, Value};
use vstd::prelude::*;

verus! {

pub open spec fn high_surrogate(u: u16) -> bool {
    0xd800 <= u < 0xdc00
}

pub open spec fn low_surrogate(u: u16) -> bool {
    0xdc00 <= u < 0xe000
}

/// The replacement character.
pub const REPLACEMENT: char = '\u{FFFD}';

/// The character at the start of some code units, and how many units it takes. A surrogate without
/// its partner is the replacement character.
pub open spec fn unit_char(u: Seq<u16>) -> (char, nat) {
    if high_surrogate(u[0]) && u.len() > 1 && low_surrogate(u[1]) {
        ((0x10000 + (u[0] - 0xd800) * 0x400 + (u[1] - 0xdc00)) as char, 2)
    } else if high_surrogate(u[0]) || low_surrogate(u[0]) {
        (REPLACEMENT, 1)
    } else {
        (u[0] as char, 1)
    }
}

/// The text of some code units.
pub open spec fn utf16_text(u: Seq<u16>) -> Seq<char>
    decreases u.len(),
{
    if u.len() == 0 {
        Seq::empty()
    } else {
        let (c, n) = unit_char(u);
        seq![c] + utf16_text(u.skip(n as int))
    }
}

/// The code units of a character.
pub open spec fn char_utf16(c: char) -> Seq<u16> {
    let p = c as u32;
    if p < 0x10000 {
        seq![p as u16]
    } else {
        seq![(0xd800 + (p - 0x10000) / 0x400) as u16, (0xdc00 + (p - 0x10000) % 0x400) as u16]
    }
}

/// The code units of a text.
pub open spec fn utf16(s: Seq<char>) -> Seq<u16>
    decreases s.len(),
{
    if s.len() == 0 {
        Seq::empty()
    } else {
        char_utf16(s[0]) + utf16(s.skip(1))
    }
}

/// The code units of a text make that text again.
pub proof fn law_code_units(s: Seq<char>)
    ensures
        utf16_text(utf16(s)) == s,
    decreases s.len(),
{
    if s.len() > 0 {
        let c = s[0];
        let u = utf16(s);
        let n = char_utf16(c).len();
        lemma_code_point(c);
        law_code_units(s.skip(1));
        assert(u.skip(n as int) =~= utf16(s.skip(1)));
        assert(unit_char(u) == (c, n));
        assert(seq![c] + s.skip(1) =~= s);
    }
}

fn code_char(p: u32) -> (r: char)
    ensures
        r == if p < 0xd800 || 0xe000 <= p <= 0x10ffff {
            p as char
        } else {
            REPLACEMENT
        },
{
    match char::from_u32(p) {
        Some(c) => c,
        None => REPLACEMENT,
    }
}

/// The text of some code units.
pub fn text_of_units(u: &Vec<u16>) -> (r: String)
    ensures
        r@ == utf16_text(u@),
{
    let mut out: String = String::new();
    let mut i: usize = 0;
    assert(u@.skip(0) =~= u@);
    assert(out@ + utf16_text(u@.skip(0)) =~= utf16_text(u@));
    while i < u.len()
        invariant
            i <= u@.len(),
            out@ + utf16_text(u@.skip(i as int)) == utf16_text(u@),
        decreases u@.len() - i,
    {
        let a: u16 = u[i];
        let ghost rest = u@.skip(i as int);
        assert(rest[0] == a);
        let ghost before = out@;
        let high: bool = 0xd800 <= a && a < 0xdc00;
        let low: bool = 0xdc00 <= a && a < 0xe000;
        let n: usize = u.len();
        if high && i + 1 < n && 0xdc00 <= u[i + 1] && u[i + 1] < 0xe000 {
            let b: u16 = u[i + 1];
            assert(rest[1] == b);
            let p: u32 = 0x10000 + (a as u32 - 0xd800) * 0x400 + (b as u32 - 0xdc00);
            out.push(code_char(p));
            assert(rest.skip(2) =~= u@.skip(i + 2));
            i = i + 2;
        } else {
            if high || low {
                out.push(REPLACEMENT);
            } else {
                out.push(code_char(a as u32));
            }
            assert(rest.skip(1) =~= u@.skip(i + 1));
            i = i + 1;
        }
        assert(out@ + utf16_text(u@.skip(i as int)) =~= before + utf16_text(rest));
    }
    assert(out@ + utf16_text(u@.skip(i as int)) =~= out@);
    out
}

/// `String.fromCharCode` from the `i`-th argument on.
pub open spec fn from_char_codes(h: Host, pos: nat, args: Seq<Val>, i: int, units: Seq<u16>) -> Run<
    Val,
>
    decreases args.len() - i,
{
    if !(0 <= i < args.len()) {
        done(Val::Str(utf16_text(units)), pos)
    } else {
        let n = ask_number(h, pos, Op::ToNumber, seq![args[i]]);
        match n.out {
            Err(e) => halted(e, n.pos),
            Ok(x) => from_char_codes(
                h,
                n.pos,
                args,
                i + 1,
                units.push(
                    if x.finite() {
                        (x.truncated() % 65536) as u16
                    } else {
                        0
                    },
                ),
            ),
        }
    }
}

/// A number that is no code point.
pub open spec fn no_code_point(n: Num) -> bool {
    !n.finite() || has_fraction(n) || below(n, 0) || above(n, 0x10ffff)
}

/// The character of a code point; a surrogate is the replacement character.
pub open spec fn point_char(p: nat) -> char {
    if p < 0xd800 || 0xe000 <= p <= 0x10ffff {
        p as char
    } else {
        REPLACEMENT
    }
}

/// `String.fromCodePoint` from the `i`-th argument on.
pub open spec fn from_code_points(h: Host, pos: nat, args: Seq<Val>, i: int, out: Seq<char>) -> Run<
    Val,
>
    decreases args.len() - i,
{
    if !(0 <= i < args.len()) {
        done(Val::Str(out), pos)
    } else {
        let n = ask_number(h, pos, Op::ToNumber, seq![args[i]]);
        match n.out {
            Err(e) => halted(e, n.pos),
            Ok(x) => if no_code_point(x) {
                raised(ErrorKind::RangeError, "Invalid code point"@, n.pos)
            } else {
                from_code_points(h, n.pos, args, i + 1, out.push(point_char(x.magnitude())))
            },
        }
    }
}

impl Interp {
    /// `String.fromCharCode`.
    #[verifier::loop_isolation(false)]
    pub fn str_from_char_code(&mut self, args: &Vec<Value>) -> (r: Result<Value, Stop>)
        requires
            old(self).wf(),
        ensures
            final(self).follows(*old(self)),
            run_value(r, *final(self)) == from_char_codes(
                old(self).host(),
                old(self).pos as nat,
                views(args@),
                0,
                Seq::empty(),
            ),
    {
        let ghost goal = from_char_codes(
            self.host(),
            self.pos as nat,
            views(args@),
            0,
            Seq::empty(),
        );
        let mut units: Vec<u16> = Vec::new();
        let mut i: usize = 0;
        assert(units@ =~= Seq::<u16>::empty());
        while i < args.len()
            invariant
                i <= args@.len(),
                self.follows(*old(self)),
                goal == from_char_codes(
                    self.host(),
                    self.pos as nat,
                    views(args@),
                    i as int,
                    units@,
                ),
            decreases args@.len() - i,
        {
            let n: Num = self.ask_number(Op::ToNumber, list1(args[i].clone()))?;
            units.push(to_uint16(n));
            i = i + 1;
        }
        Ok(Value::Str(text_of_units(&units)))
    }

    /// `String.fromCodePoint`.
    #[verifier::loop_isolation(false)]
    pub fn str_from_code_point(&mut self, args: &Vec<Value>) -> (r: Result<Value, Stop>)
        requires
            old(self).wf(),
        ensures
            final(self).follows(*old(self)),
            run_value(r, *final(self)) == from_code_points(
                old(self).host(),
                old(self).pos as nat,
                views(args@),
                0,
                Seq::empty(),
            ),
    {
        let ghost goal = from_code_points(
            self.host(),
            self.pos as nat,
            views(args@),
            0,
            Seq::empty(),
        );
        let mut out: String = String::new();
        let mut i: usize = 0;
        assert(out@ =~= Seq::<char>::empty());
        while i < args.len()
            invariant
                i <= args@.len(),
                self.follows(*old(self)),
                goal == from_code_points(
                    self.host(),
                    self.pos as nat,
                    views(args@),
                    i as int,
                    out@,
                ),
            decreases args@.len() - i,
        {
            let n: Num = self.ask_number(Op::ToNumber, list1(args[i].clone()))?;
            if !n.is_finite() || is_fractional(n) || is_below(n, 0) || is_above(n, 0x10ffff) {
                return Err(fail(ErrorKind::RangeError, "Invalid code point"));
            }
            let p: u64 = n.whole();
            out.push(code_char(p as u32));
            i = i + 1;
        }
        Ok(Value::Str(out))
    }
}

} // verus!
