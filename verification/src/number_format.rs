//! The checks and conversions of `Number`: which inputs are refused, and what is left to the
//! engine's arithmetic.
use crate::host::{
    ask_number, ask_slot, ask_value, chain, done, fail, list1, list2, number_in, raised, run_value,
    text_value, Host, Interp, NAN_BITS, Op, PrimBrand, Run, Stop,
};
use crate::number::{
    above, below, has_fraction, huge, is_above, is_below, is_fractional, is_huge, num_of, MAX_SAFE,
    Num,
};
use crate::value::{arg, arg_at, views, ErrorKind, Val, Value};
use vstd::prelude::*;

verus! {

/// True of a number without a fraction.
pub open spec fn integral(v: Val) -> bool {
    v matches Val::Num(n) && n.finite() && !has_fraction(n)
}

/// True of an integer that every smaller one can be told from.
pub open spec fn safe_integer(v: Val) -> bool {
    v matches Val::Num(n) && n.finite() && !has_fraction(n) && n.magnitude() <= MAX_SAFE
}

/// `Number.isInteger`.
pub fn num_is_integer(args: &Vec<Value>) -> (r: bool)
    ensures
        r == integral(arg(views(args@), 0)),
{
    match arg_at(args, 0) {
        Value::Num(n) => n.is_finite() && !is_fractional(n),
        _ => false,
    }
}

/// `Number.isSafeInteger`.
pub fn num_is_safe_integer(args: &Vec<Value>) -> (r: bool)
    ensures
        r == safe_integer(arg(views(args@), 0)),
{
    match arg_at(args, 0) {
        Value::Num(n) => n.is_finite() && !is_fractional(n) && n.whole() <= MAX_SAFE,
        _ => false,
    }
}

/// `Number.isFinite`.
pub fn num_is_finite(args: &Vec<Value>) -> (r: bool)
    ensures
        r == (arg(views(args@), 0) matches Val::Num(n) && n.finite()),
{
    match arg_at(args, 0) {
        Value::Num(n) => n.is_finite(),
        _ => false,
    }
}

/// `Number.isNaN`.
pub fn num_is_nan(args: &Vec<Value>) -> (r: bool)
    ensures
        r == (arg(views(args@), 0) matches Val::Num(n) && n.nan()),
{
    match arg_at(args, 0) {
        Value::Num(n) => n.is_nan(),
        _ => false,
    }
}

/// The global `isNaN` and `isFinite`: what the argument as a number is.
pub open spec fn global_check_run(h: Host, pos: nat, args: Seq<Val>, finite: bool) -> Run<Val> {
    chain(
        ask_number(h, pos, Op::ToNumber, seq![arg(args, 0)]),
        |n: Num, p: nat|
            done(
                Val::Bool(
                    if finite {
                        n.finite()
                    } else {
                        n.nan()
                    },
                ),
                p,
            ),
    )
}

/// The base that a number stands for: 10 for NaN, one out of range where it is out of range.
pub open spec fn base_of(n: Num) -> int {
    if n.nan() {
        10
    } else if !n.finite() {
        0
    } else {
        n.truncated()
    }
}

/// A number as text, in the base that the first argument names.
pub open spec fn radix_text_run(h: Host, pos: nat, n: Num, args: Seq<Val>) -> Run<Val> {
    if arg(args, 0) is Undefined {
        ask_value(h, pos, Op::Display, seq![Val::Num(n)])
    } else {
        chain(
            ask_number(h, pos, Op::PlainNumber, seq![arg(args, 0)]),
            |radix: Num, p: nat|
                {
                    let base = base_of(radix);
                    if !(2 <= base <= 36) {
                        raised(
                            ErrorKind::RangeError,
                            "toString() radix must be between 2 and 36"@,
                            p,
                        )
                    } else if base == 10 {
                        ask_value(h, p, Op::Display, seq![Val::Num(n)])
                    } else {
                        ask_value(
                            h,
                            p,
                            Op::RadixText,
                            seq![Val::Num(n), Val::Num(num_of(base))],
                        )
                    }
                },
        )
    }
}

/// The value, or undefined.
pub open spec fn this_of(recv: Option<Val>) -> Val {
    match recv {
        Some(v) => v,
        None => Val::Undefined,
    }
}

pub fn this_or_undefined(recv: &Option<Value>) -> (r: Value)
    ensures
        r@ == this_of(crate::host::opt_view(*recv)),
{
    match recv {
        Some(v) => v.clone(),
        None => Value::Undefined,
    }
}

/// The primitive that a wrapper object wraps; anything else as it is.
pub open spec fn unwrapped_run(h: Host, pos: nat, v: Val) -> Run<Val> {
    chain(
        ask_slot(h, pos, Op::Wrapped, seq![v]),
        |w: Option<Val>, p: nat|
            done(
                match w {
                    Some(x) => x,
                    None => v,
                },
                p,
            ),
    )
}

/// `toString` of any value.
pub open spec fn value_to_str_run(h: Host, pos: nat, recv: Option<Val>, args: Seq<Val>) -> Run<
    Val,
> {
    chain(
        unwrapped_run(h, pos, this_of(recv)),
        |v: Val, p: nat|
            match v {
                Val::Num(n) => radix_text_run(h, p, n, args),
                _ => ask_value(h, p, Op::Display, seq![v]),
            },
    )
}

/// `toString` of a wrapper's prototype, for one kind of primitive.
pub open spec fn prim_to_string_run(
    h: Host,
    pos: nat,
    brand: PrimBrand,
    recv: Option<Val>,
    args: Seq<Val>,
) -> Run<Val> {
    chain(
        ask_value(h, pos, Op::ThisPrimitive(brand), seq![this_of(recv)]),
        |prim: Val, p: nat|
            match brand {
                PrimBrand::Boolean => done(
                    Val::Str(
                        if prim == Val::Bool(true) {
                            "true"@
                        } else {
                            "false"@
                        },
                    ),
                    p,
                ),
                PrimBrand::Str => done(
                    match prim {
                        Val::Str(s) => Val::Str(s),
                        _ => Val::Str(Seq::empty()),
                    },
                    p,
                ),
                PrimBrand::Number => radix_text_run(h, p, number_in(prim), args),
                PrimBrand::Symbol => ask_value(h, p, Op::Display, seq![prim]),
            },
    )
}

/// NaN and the infinities by name.
pub open spec fn named_number(n: Num) -> Option<Seq<char>> {
    if n.nan() {
        Some("NaN"@)
    } else if !n.finite() {
        Some(
            if n.negative() {
                "-Infinity"@
            } else {
                "Infinity"@
            },
        )
    } else {
        None
    }
}

fn name_of_number(n: Num) -> (r: Option<String>)
    ensures
        crate::value::opt_text(r) == named_number(n),
{
    if n.is_nan() {
        Some("NaN".to_owned())
    } else if !n.is_finite() {
        Some(
            if n.is_negative() {
                "-Infinity".to_owned()
            } else {
                "Infinity".to_owned()
            },
        )
    } else {
        None
    }
}

/// `toFixed`.
pub open spec fn to_fixed_run(h: Host, pos: nat, recv: Option<Val>, args: Seq<Val>) -> Run<Val> {
    chain(
        ask_value(h, pos, Op::ThisPrimitive(PrimBrand::Number), seq![this_of(recv)]),
        |prim: Val, p: nat|
            chain(
                ask_number(h, p, Op::ToInteger, seq![arg(args, 0)]),
                |f: Num, q: nat|
                    {
                        let n = number_in(prim);
                        if below(f, 0) || above(f, 100) {
                            raised(
                                ErrorKind::RangeError,
                                "toFixed() digits argument must be between 0 and 100"@,
                                q,
                            )
                        } else {
                            match named_number(n) {
                                Some(s) => done(Val::Str(s), q),
                                None => if huge(n) {
                                    ask_value(h, q, Op::NumberText, seq![Val::Num(n)])
                                } else {
                                    let x = if n.zero() {
                                        Num { bits: 0 }
                                    } else {
                                        n
                                    };
                                    ask_value(h, q, Op::FixedText, seq![Val::Num(x), Val::Num(f)])
                                },
                            }
                        }
                    },
            ),
    )
}

/// `toExponential`.
pub open spec fn to_exponential_run(h: Host, pos: nat, recv: Option<Val>, args: Seq<Val>) -> Run<
    Val,
> {
    chain(
        ask_value(h, pos, Op::ThisPrimitive(PrimBrand::Number), seq![this_of(recv)]),
        |prim: Val, p: nat|
            chain(
                ask_number(h, p, Op::ToInteger, seq![arg(args, 0)]),
                |f: Num, q: nat|
                    {
                        let n = number_in(prim);
                        match named_number(n) {
                            Some(s) => done(Val::Str(s), q),
                            None => if below(f, 0) || above(f, 100) {
                                raised(
                                    ErrorKind::RangeError,
                                    "toExponential() argument must be between 0 and 100"@,
                                    q,
                                )
                            } else {
                                let digits = if arg(args, 0) is Undefined {
                                    Val::Undefined
                                } else {
                                    Val::Num(f)
                                };
                                ask_value(h, q, Op::ExponentialText, seq![Val::Num(n), digits])
                            },
                        }
                    },
            ),
    )
}

/// `toPrecision`.
pub open spec fn to_precision_run(h: Host, pos: nat, recv: Option<Val>, args: Seq<Val>) -> Run<Val> {
    chain(
        ask_value(h, pos, Op::ThisPrimitive(PrimBrand::Number), seq![this_of(recv)]),
        |prim: Val, p: nat|
            {
                let n = number_in(prim);
                if arg(args, 0) is Undefined {
                    ask_value(h, p, Op::NumberText, seq![Val::Num(n)])
                } else {
                    chain(
                        ask_number(h, p, Op::ToInteger, seq![arg(args, 0)]),
                        |f: Num, q: nat|
                            match named_number(n) {
                                Some(s) => done(Val::Str(s), q),
                                None => if below(f, 1) || above(f, 100) {
                                    raised(
                                        ErrorKind::RangeError,
                                        "toPrecision() argument must be between 1 and 100"@,
                                        q,
                                    )
                                } else {
                                    ask_value(
                                        h,
                                        q,
                                        Op::PrecisionText,
                                        seq![Val::Num(n), Val::Num(f)],
                                    )
                                },
                            },
                    )
                }
            },
    )
}

impl Interp {
    /// The global `isNaN`, or `isFinite` where `finite` is set.
    pub fn global_check(&mut self, args: &Vec<Value>, finite: bool) -> (r: Result<Value, Stop>)
        requires
            old(self).wf(),
        ensures
            final(self).follows(*old(self)),
            run_value(r, *final(self)) == global_check_run(
                old(self).host(),
                old(self).pos as nat,
                views(args@),
                finite,
            ),
    {
        let n: Num = self.ask_number(Op::ToNumber, list1(arg_at(args, 0)))?;
        Ok(
            Value::Bool(
                if finite {
                    n.is_finite()
                } else {
                    n.is_nan()
                },
            ),
        )
    }

    fn radix_text(&mut self, n: Num, args: &Vec<Value>) -> (r: Result<Value, Stop>)
        requires
            old(self).wf(),
        ensures
            final(self).follows(*old(self)),
            run_value(r, *final(self)) == radix_text_run(
                old(self).host(),
                old(self).pos as nat,
                n,
                views(args@),
            ),
    {
        let a: Value = arg_at(args, 0);
        if matches!(a, Value::Undefined) {
            return self.ask_value(Op::Display, list1(Value::Num(n)));
        }
        let radix: Num = self.ask_number(Op::PlainNumber, list1(a))?;
        let base: u64 = if radix.is_nan() {
            10
        } else if !radix.is_finite() || radix.is_negative() {
            0
        } else {
            radix.whole()
        };
        if base < 2 || base > 36 {
            return Err(fail(ErrorKind::RangeError, "toString() radix must be between 2 and 36"));
        }
        if base == 10 {
            return self.ask_value(Op::Display, list1(Value::Num(n)));
        }
        self.ask_value(Op::RadixText, list2(Value::Num(n), Value::Num(Num::from_u64(base))))
    }

    /// The primitive that a wrapper object wraps; anything else as it is.
    pub fn wrapper_primitive(&mut self, v: Value) -> (r: Result<Value, Stop>)
        requires
            old(self).wf(),
        ensures
            final(self).follows(*old(self)),
            run_value(r, *final(self)) == unwrapped_run(old(self).host(), old(self).pos as nat, v@),
    {
        match self.ask_slot(Op::Wrapped, list1(v.clone()))? {
            Some(x) => Ok(x),
            None => Ok(v),
        }
    }

    /// `toString` of any value.
    pub fn value_to_str(&mut self, recv: &Option<Value>, args: &Vec<Value>) -> (r: Result<
        Value,
        Stop,
    >)
        requires
            old(self).wf(),
        ensures
            final(self).follows(*old(self)),
            run_value(r, *final(self)) == value_to_str_run(
                old(self).host(),
                old(self).pos as nat,
                crate::host::opt_view(*recv),
                views(args@),
            ),
    {
        let v: Value = self.wrapper_primitive(this_or_undefined(recv))?;
        match v {
            Value::Num(n) => self.radix_text(n, args),
            v => self.ask_value(Op::Display, list1(v)),
        }
    }

    /// `toString` of a wrapper's prototype.
    pub fn prim_to_string(
        &mut self,
        brand: PrimBrand,
        recv: &Option<Value>,
        args: &Vec<Value>,
    ) -> (r: Result<Value, Stop>)
        requires
            old(self).wf(),
        ensures
            final(self).follows(*old(self)),
            run_value(r, *final(self)) == prim_to_string_run(
                old(self).host(),
                old(self).pos as nat,
                brand,
                crate::host::opt_view(*recv),
                views(args@),
            ),
    {
        let prim: Value = self.ask_value(
            Op::ThisPrimitive(brand),
            list1(this_or_undefined(recv)),
        )?;
        match brand {
            PrimBrand::Boolean => Ok(
                text_value(
                    if matches!(prim, Value::Bool(true)) {
                        "true"
                    } else {
                        "false"
                    },
                ),
            ),
            PrimBrand::Str => match prim {
                Value::Str(s) => Ok(Value::Str(s)),
                _ => {
                    let e: String = String::new();
                    assert(e@ =~= Seq::<char>::empty());
                    Ok(Value::Str(e))
                },
            },
            PrimBrand::Number => {
                let n: Num = match prim {
                    Value::Num(n) => n,
                    _ => Num { bits: NAN_BITS },
                };
                self.radix_text(n, args)
            },
            PrimBrand::Symbol => self.ask_value(Op::Display, list1(prim)),
        }
    }

    fn this_number(&mut self, recv: &Option<Value>) -> (r: Result<Num, Stop>)
        requires
            old(self).wf(),
        ensures
            final(self).follows(*old(self)),
            crate::host::run_plain(r, *final(self)) == chain(
                ask_value(
                    old(self).host(),
                    old(self).pos as nat,
                    Op::ThisPrimitive(PrimBrand::Number),
                    seq![this_of(crate::host::opt_view(*recv))],
                ),
                |v: Val, p: nat| done(number_in(v), p),
            ),
    {
        match self.ask_value(
            Op::ThisPrimitive(PrimBrand::Number),
            list1(this_or_undefined(recv)),
        )? {
            Value::Num(n) => Ok(n),
            _ => Ok(Num { bits: NAN_BITS }),
        }
    }

    /// `toFixed`.
    pub fn num_to_fixed(&mut self, recv: &Option<Value>, args: &Vec<Value>) -> (r: Result<
        Value,
        Stop,
    >)
        requires
            old(self).wf(),
        ensures
            final(self).follows(*old(self)),
            run_value(r, *final(self)) == to_fixed_run(
                old(self).host(),
                old(self).pos as nat,
                crate::host::opt_view(*recv),
                views(args@),
            ),
    {
        let n: Num = self.this_number(recv)?;
        let f: Num = self.ask_number(Op::ToInteger, list1(arg_at(args, 0)))?;
        if is_below(f, 0) || is_above(f, 100) {
            return Err(
                fail(
                    ErrorKind::RangeError,
                    "toFixed() digits argument must be between 0 and 100",
                ),
            );
        }
        match name_of_number(n) {
            Some(s) => Ok(Value::Str(s)),
            None => {
                if is_huge(n) {
                    return self.ask_value(Op::NumberText, list1(Value::Num(n)));
                }
                let x: Num = if n.is_zero() {
                    Num { bits: 0 }
                } else {
                    n
                };
                self.ask_value(Op::FixedText, list2(Value::Num(x), Value::Num(f)))
            },
        }
    }

    /// `toExponential`.
    pub fn num_to_exponential(&mut self, recv: &Option<Value>, args: &Vec<Value>) -> (r: Result<
        Value,
        Stop,
    >)
        requires
            old(self).wf(),
        ensures
            final(self).follows(*old(self)),
            run_value(r, *final(self)) == to_exponential_run(
                old(self).host(),
                old(self).pos as nat,
                crate::host::opt_view(*recv),
                views(args@),
            ),
    {
        let n: Num = self.this_number(recv)?;
        let a: Value = arg_at(args, 0);
        let f: Num = self.ask_number(Op::ToInteger, list1(a.clone()))?;
        match name_of_number(n) {
            Some(s) => Ok(Value::Str(s)),
            None => {
                if is_below(f, 0) || is_above(f, 100) {
                    return Err(
                        fail(
                            ErrorKind::RangeError,
                            "toExponential() argument must be between 0 and 100",
                        ),
                    );
                }
                let digits: Value = if matches!(a, Value::Undefined) {
                    Value::Undefined
                } else {
                    Value::Num(f)
                };
                self.ask_value(Op::ExponentialText, list2(Value::Num(n), digits))
            },
        }
    }

    /// `toPrecision`.
    pub fn num_to_precision(&mut self, recv: &Option<Value>, args: &Vec<Value>) -> (r: Result<
        Value,
        Stop,
    >)
        requires
            old(self).wf(),
        ensures
            final(self).follows(*old(self)),
            run_value(r, *final(self)) == to_precision_run(
                old(self).host(),
                old(self).pos as nat,
                crate::host::opt_view(*recv),
                views(args@),
            ),
    {
        let n: Num = self.this_number(recv)?;
        let a: Value = arg_at(args, 0);
        if matches!(a, Value::Undefined) {
            return self.ask_value(Op::NumberText, list1(Value::Num(n)));
        }
        let f: Num = self.ask_number(Op::ToInteger, list1(a))?;
        match name_of_number(n) {
            Some(s) => Ok(Value::Str(s)),
            None => {
                if is_below(f, 1) || is_above(f, 100) {
                    return Err(
                        fail(
                            ErrorKind::RangeError,
                            "toPrecision() argument must be between 1 and 100",
                        ),
                    );
                }
                self.ask_value(Op::PrecisionText, list2(Value::Num(n), Value::Num(f)))
            },
        }
    }
}

} // verus!
