//! Values of the language and the relations between them.
//!
//! A primitive is held as plain data. Everything that lives in the engine's heap is held as a
//! handle: its kind and an identity.
use crate::canvas::CanvasMethod;
use crate::number::Num;
use crate::text::same_text;
use vstd::prelude::*;

verus! {

/// The constructors of the error classes.
#[derive(Clone, Copy, Debug, PartialEq, Eq, Structural)]
pub enum ErrorKind {
    Error,
    TypeError,
    RangeError,
    SyntaxError,
    ReferenceError,
    URIError,
    EvalError,
    AggregateError,
}

/// A built-in function.
#[derive(Clone, Copy, Debug, PartialEq, Eq, Structural)]
pub enum Native {
    ArrayCtor,
    ErrorCtor(ErrorKind),
    /// The function that revokes a proxy.
    ProxyRevoke,
    RegExpCtor,
    PromiseCtor,
    /// The function that resolves a promise.
    PromiseSettleResolve,
    /// The function that rejects a promise.
    PromiseSettleReject,
    ResponseText,
    ResponseJson,
    ResponseArrayBuffer,
    HeadersGet,
    HeadersHas,
    /// A function that does nothing.
    Noop,
    EventPreventDefault,
    EventStopProp,
    CreateElement,
    CreateTextNode,
    CreateDocumentFragment,
    DomParserParse,
    ListItem,
    Canvas(CanvasMethod),
    Other(u64),
}

/// What a handle refers to.
#[derive(Clone, Copy, Debug, PartialEq, Eq, Structural)]
pub enum Kind {
    Obj,
    Arr,
    Instance,
    Fn,
    Class,
    Bound,
    MapVal,
    SetVal,
    Gen,
    Accessor,
    Dom,
    Attr,
    Sheet,
    CssRule,
    RuleStyle,
    Style,
    Dataset,
    ClassList,
    ComputedStyle,
}

/// A symbol: the key under which properties are stored, and its description.
#[derive(Debug)]
pub struct SymbolData {
    pub key: String,
    pub desc: Option<String>,
}

/// A value of the language.
#[derive(Debug)]
pub enum Value {
    Undefined,
    Null,
    Bool(bool),
    Num(Num),
    Str(String),
    /// A big integer, by its canonical decimal text.
    BigInt(String),
    Symbol(SymbolData),
    Native(Native),
    /// A proxy: its identity, and whether its target can be called.
    Proxy(u64, bool),
    /// Anything else in the heap.
    Ref(Kind, u64),
}

/// The mathematical counterpart of `Value`.
#[verifier::ext_equal]
pub enum Val {
    Undefined,
    Null,
    Bool(bool),
    Num(Num),
    Str(Seq<char>),
    BigInt(Seq<char>),
    Symbol(Seq<char>, Option<Seq<char>>),
    Native(Native),
    Proxy(u64, bool),
    Ref(Kind, u64),
}

/// The characters of an optional string.
pub open spec fn opt_text(s: Option<String>) -> Option<Seq<char>> {
    match s {
        Some(t) => Some(t@),
        None => None,
    }
}

impl View for Value {
    type V = Val;

    open spec fn view(&self) -> Val {
        match *self {
            Value::Undefined => Val::Undefined,
            Value::Null => Val::Null,
            Value::Bool(b) => Val::Bool(b),
            Value::Num(n) => Val::Num(n),
            Value::Str(s) => Val::Str(s@),
            Value::BigInt(s) => Val::BigInt(s@),
            Value::Symbol(d) => Val::Symbol(d.key@, opt_text(d.desc)),
            Value::Native(n) => Val::Native(n),
            Value::Proxy(p, c) => Val::Proxy(p, c),
            Value::Ref(k, i) => Val::Ref(k, i),
        }
    }
}

impl DeepView for Value {
    type V = Val;

    open spec fn deep_view(&self) -> Val {
        self@
    }
}

impl Clone for Value {
    fn clone(&self) -> (r: Self)
        ensures
            r@ == self@,
    {
        match self {
            Value::Undefined => Value::Undefined,
            Value::Null => Value::Null,
            Value::Bool(b) => Value::Bool(*b),
            Value::Num(n) => Value::Num(*n),
            Value::Str(s) => Value::Str(s.clone()),
            Value::BigInt(s) => Value::BigInt(s.clone()),
            Value::Symbol(d) => {
                let desc: Option<String> = match &d.desc {
                    Some(t) => Some(t.clone()),
                    None => None,
                };
                Value::Symbol(SymbolData { key: d.key.clone(), desc })
            },
            Value::Native(n) => Value::Native(*n),
            Value::Proxy(p, c) => Value::Proxy(*p, *c),
            Value::Ref(k, i) => Value::Ref(*k, *i),
        }
    }
}

/// The views of a sequence of values.
pub open spec fn views(s: Seq<Value>) -> Seq<Val> {
    Seq::new(s.len(), |i: int| s[i]@)
}

/// Copies a list of values.
pub fn clone_values(v: &Vec<Value>) -> (r: Vec<Value>)
    ensures
        views(r@) == views(v@),
{
    let mut out: Vec<Value> = Vec::new();
    let mut i: usize = 0;
    while i < v.len()
        invariant
            i <= v.len(),
            out@.len() == i,
            forall|j: int| 0 <= j < i ==> (#[trigger] out@[j])@ == v@[j]@,
        decreases v.len() - i,
    {
        out.push(v[i].clone());
        i = i + 1;
    }
    assert(views(out@) =~= views(v@));
    out
}

pub open spec fn object(v: Val) -> bool {
    match v {
        Val::Native(_) => true,
        Val::Proxy(_, _) => true,
        Val::Ref(k, _) => k != Kind::Accessor,
        _ => false,
    }
}

pub open spec fn callable(v: Val) -> bool {
    match v {
        Val::Native(_) => true,
        Val::Proxy(_, c) => c,
        Val::Ref(k, _) => k == Kind::Fn || k == Kind::Class || k == Kind::Bound,
        _ => false,
    }
}

/// ToBoolean.
pub open spec fn truthy(v: Val) -> bool {
    match v {
        Val::Undefined => false,
        Val::Null => false,
        Val::Bool(b) => b,
        Val::Num(n) => !n.nan() && !n.zero(),
        Val::Str(s) => s.len() > 0,
        Val::BigInt(s) => s != seq!['0'],
        _ => true,
    }
}

/// The `===` relation.
pub open spec fn strictly_equal(a: Val, b: Val) -> bool {
    match (a, b) {
        (Val::Num(x), Val::Num(y)) => x.eq_number(y),
        (Val::Symbol(x, _), Val::Symbol(y, _)) => x == y,
        _ => a == b,
    }
}

/// The SameValue relation: `===` but for NaN, which equals itself, and the zeros, which differ.
pub open spec fn same(a: Val, b: Val) -> bool {
    match (a, b) {
        (Val::Num(x), Val::Num(y)) => x.same_number(y),
        _ => strictly_equal(a, b),
    }
}

/// The SameValueZero relation: SameValue with the zeros equal.
pub open spec fn same_zero(a: Val, b: Val) -> bool {
    match (a, b) {
        (Val::Num(x), Val::Num(y)) => x.same_number(y) || (x.zero() && y.zero()),
        _ => strictly_equal(a, b),
    }
}

pub fn is_object(v: &Value) -> (r: bool)
    ensures
        r == object(v@),
{
    match v {
        Value::Native(_) => true,
        Value::Proxy(_, _) => true,
        Value::Ref(k, _) => *k != Kind::Accessor,
        _ => false,
    }
}

pub fn is_callable(v: &Value) -> (r: bool)
    ensures
        r == callable(v@),
{
    match v {
        Value::Native(_) => true,
        Value::Proxy(_, c) => *c,
        Value::Ref(k, _) => *k == Kind::Fn || *k == Kind::Class || *k == Kind::Bound,
        _ => false,
    }
}

pub fn to_bool(v: &Value) -> (r: bool)
    ensures
        r == truthy(v@),
{
    match v {
        Value::Undefined => false,
        Value::Null => false,
        Value::Bool(b) => *b,
        Value::Num(n) => !n.is_nan() && !n.is_zero(),
        Value::Str(s) => !s.as_str().is_empty(),
        Value::BigInt(s) => {
            proof {
                reveal_strlit("0");
                assert("0"@ == seq!['0']);
            }
            !same_text(s.as_str(), "0")
        },
        _ => true,
    }
}

pub fn strict_eq(a: &Value, b: &Value) -> (r: bool)
    ensures
        r == strictly_equal(a@, b@),
{
    match (a, b) {
        (Value::Undefined, Value::Undefined) => true,
        (Value::Null, Value::Null) => true,
        (Value::Bool(x), Value::Bool(y)) => *x == *y,
        (Value::Num(x), Value::Num(y)) => x.equals(*y),
        (Value::Str(x), Value::Str(y)) => *x == *y,
        (Value::BigInt(x), Value::BigInt(y)) => *x == *y,
        (Value::Symbol(x), Value::Symbol(y)) => x.key == y.key,
        (Value::Native(x), Value::Native(y)) => *x == *y,
        (Value::Proxy(x, c), Value::Proxy(y, d)) => *x == *y && *c == *d,
        (Value::Ref(k, x), Value::Ref(l, y)) => *k == *l && *x == *y,
        _ => false,
    }
}

pub fn same_value(a: &Value, b: &Value) -> (r: bool)
    ensures
        r == same(a@, b@),
{
    match (a, b) {
        (Value::Num(x), Value::Num(y)) => x.same_value(*y),
        _ => strict_eq(a, b),
    }
}

pub fn same_value_zero(a: &Value, b: &Value) -> (r: bool)
    ensures
        r == same_zero(a@, b@),
{
    match (a, b) {
        (Value::Num(x), Value::Num(y)) => x.same_value(*y) || (x.is_zero() && y.is_zero()),
        _ => strict_eq(a, b),
    }
}

/// SameValue is an equivalence on values.
pub proof fn law_same_is_equivalence(a: Val, b: Val, c: Val)
    ensures
        same(a, a),
        same(a, b) ==> same(b, a),
        same(a, b) && same(b, c) ==> same(a, c),
{
}

pub open spec fn nan_value(v: Val) -> bool {
    v matches Val::Num(n) && n.nan()
}

/// `===` is symmetric, holds of a value and itself exactly where the value is not NaN, and differs
/// from SameValueZero on NaN alone.
pub proof fn law_strict_equality(a: Val, b: Val)
    ensures
        strictly_equal(a, b) <==> strictly_equal(b, a),
        strictly_equal(a, a) <==> !nan_value(a),
        same_zero(a, b) <==> strictly_equal(a, b) || (nan_value(a) && nan_value(b)),
{
    if let (Val::Num(x), Val::Num(y)) = (a, b) {
        assert(x.zero() ==> !x.nan());
        assert(y.zero() ==> !y.nan());
        if x.bits == y.bits {
            assert(x == y);
        }
    }
}

/// The `i`-th argument, or undefined where there is none.
pub open spec fn arg(args: Seq<Val>, i: int) -> Val {
    if 0 <= i < args.len() {
        args[i]
    } else {
        Val::Undefined
    }
}

/// The argument at `i`, or undefined where there is none.
pub fn arg_at(args: &Vec<Value>, i: usize) -> (r: Value)
    ensures
        r@ == arg(views(args@), i as int),
{
    if i < args.len() {
        args[i].clone()
    } else {
        Value::Undefined
    }
}

} // verus!
