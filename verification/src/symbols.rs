//! Symbols and the keys under which objects store their properties.
//!
//! A symbol's key is `\0@@sym:<number>:<description>`; one of the registry has the key
//! `\0@@for:<name>`, and a well-known one `\0@@<name>`.
use crate::host::{
    ask_number, ask_text, chain, done, fail, list1, raised, run_value, Host, Interp, Op, Run, Stop,
};
use crate::number::Num;
use crate::text::{
    append_text, char_index, chars_of, concat_text, decimal, decimal_text, find_char, has_prefix,
    is_digit, law_index_keys, lemma_decimal_value, starts_with_text, string_of_range,
    strip_text_prefix,
};
use crate::value::{arg, arg_at, opt_text, views, ErrorKind, SymbolData, Val, Value};
use vstd::prelude::*;

verus! {

/// What every symbol's key begins with.
pub open spec fn symbol_mark() -> Seq<char> {
    "\0@@"@
}

/// A key that a symbol stands under.
pub open spec fn symbol_key(key: Seq<char>) -> bool {
    has_prefix(key, symbol_mark())
}

pub fn is_symbol_key(key: &str) -> (r: bool)
    ensures
        r == symbol_key(key@),
{
    starts_with_text(key, "\0@@")
}

/// What follows the mark; the whole key where it has none.
pub open spec fn symbol_body(key: Seq<char>) -> Seq<char> {
    if symbol_key(key) {
        key.skip(3)
    } else {
        key
    }
}

/// The description that a number and a colon stand before; none where it is empty.
pub open spec fn after_colon(s: Seq<char>) -> Option<Seq<char>> {
    match char_index(s, ':', 0) {
        Some(i) => if i + 1 < s.len() {
            Some(s.skip((i + 1) as int))
        } else {
            None
        },
        None => None,
    }
}

/// The description of the symbol with a key.
pub open spec fn description(key: Seq<char>) -> Option<Seq<char>> {
    let body = symbol_body(key);
    if has_prefix(body, "sym:"@) {
        after_colon(body.skip(4))
    } else if has_prefix(body, "for:"@) {
        Some(body.skip(4))
    } else {
        Some("Symbol."@ + body)
    }
}

/// The symbol with a key.
pub fn symbol_from_key(key: &str) -> (r: Value)
    ensures
        r@ == Val::Symbol(key@, description(key@)),
{
    proof {
        reveal_strlit("\0@@");
        reveal_strlit("sym:");
        reveal_strlit("for:");
    }
    let body: String = match strip_text_prefix(key, "\0@@") {
        Some(b) => b,
        None => key.to_owned(),
    };
    let desc: Option<String> = match strip_text_prefix(body.as_str(), "sym:") {
        Some(rest) => {
            let cs: Vec<char> = chars_of(rest.as_str());
            let n: usize = cs.len();
            match find_char(&cs, ':', 0) {
                Some(i) => if i + 1 < n {
                    let d: String = string_of_range(&cs, i + 1, n);
                    assert(d@ =~= rest@.skip(i + 1));
                    Some(d)
                } else {
                    None
                },
                None => None,
            }
        },
        None => match strip_text_prefix(body.as_str(), "for:") {
            Some(name) => Some(name),
            None => Some(concat_text("Symbol.", body.as_str())),
        },
    };
    Value::Symbol(SymbolData { key: key.to_owned(), desc })
}

/// The key of a new symbol.
pub open spec fn fresh_key(number: nat, desc: Option<Seq<char>>) -> Seq<char> {
    "\0@@sym:"@ + decimal(number) + ":"@ + match desc {
        Some(d) => d,
        None => Seq::empty(),
    }
}

/// The key of a symbol of the registry.
pub open spec fn registry_key(name: Seq<char>) -> Seq<char> {
    "\0@@for:"@ + name
}

/// The number in a reply that counts.
pub open spec fn count_of(n: Num) -> u64 {
    if n.finite() && n.magnitude() <= u64::MAX {
        n.magnitude() as u64
    } else {
        u64::MAX
    }
}

pub fn count_number(n: Num) -> (r: u64)
    ensures
        r == count_of(n),
{
    if n.is_finite() {
        n.whole()
    } else {
        u64::MAX
    }
}

/// `Symbol(description)`.
pub open spec fn symbol_run(h: Host, pos: nat, args: Seq<Val>) -> Run<Val> {
    let d = if arg(args, 0) is Undefined {
        done(None, pos)
    } else {
        chain(
            ask_text(h, pos, Op::ToText, seq![arg(args, 0)]),
            |s: Seq<char>, p: nat| done(Some(s), p),
        )
    };
    chain(
        d,
        |desc: Option<Seq<char>>, p: nat|
            chain(
                ask_number(h, p, Op::NextSymbol, Seq::empty()),
                |n: Num, q: nat| done(Val::Symbol(fresh_key(count_of(n) as nat, desc), desc), q),
            ),
    )
}

/// `Symbol.for(name)`.
pub open spec fn symbol_for_run(h: Host, pos: nat, args: Seq<Val>) -> Run<Val> {
    let name = if args.len() == 0 {
        done("undefined"@, pos)
    } else {
        ask_text(h, pos, Op::ToText, seq![args[0]])
    };
    chain(name, |k: Seq<char>, p: nat| done(Val::Symbol(registry_key(k), Some(k)), p))
}

/// `Symbol.keyFor(symbol)`.
pub open spec fn symbol_key_for_run(pos: nat, args: Seq<Val>) -> Run<Val> {
    match arg(args, 0) {
        Val::Symbol(key, _) => done(
            if has_prefix(key, "\0@@for:"@) {
                Val::Str(key.skip("\0@@for:"@.len() as int))
            } else {
                Val::Undefined
            },
            pos,
        ),
        _ => raised(ErrorKind::TypeError, "Symbol.keyFor requires a symbol argument"@, pos),
    }
}

impl Interp {
    /// `Symbol(description)`: a symbol that is unlike any other.
    pub fn symbol_ctor(&mut self, args: &Vec<Value>) -> (r: Result<Value, Stop>)
        requires
            old(self).wf(),
        ensures
            final(self).follows(*old(self)),
            run_value(r, *final(self)) == symbol_run(
                old(self).host(),
                old(self).pos as nat,
                views(args@),
            ),
    {
        let a: Value = arg_at(args, 0);
        let desc: Option<String> = if matches!(a, Value::Undefined) {
            None
        } else {
            Some(self.ask_text(Op::ToText, list1(a))?)
        };
        let none: Vec<Value> = Vec::new();
        assert(views(none@) =~= Seq::<Val>::empty());
        let n: Num = self.ask_number(Op::NextSymbol, none)?;
        let mut key: String = concat_text("\0@@sym:", decimal_text(count_number(n)).as_str());
        append_text(&mut key, ":");
        match &desc {
            Some(d) => {
                append_text(&mut key, d.as_str());
            },
            None => {},
        }
        assert(key@ =~= fresh_key(count_of(n) as nat, opt_text(desc)));
        Ok(Value::Symbol(SymbolData { key, desc }))
    }

    /// `Symbol.for(name)`: the one symbol of that name in the registry.
    pub fn symbol_for(&mut self, args: &Vec<Value>) -> (r: Result<Value, Stop>)
        requires
            old(self).wf(),
        ensures
            final(self).follows(*old(self)),
            run_value(r, *final(self)) == symbol_for_run(
                old(self).host(),
                old(self).pos as nat,
                views(args@),
            ),
    {
        let k: String = if args.len() == 0 {
            "undefined".to_owned()
        } else {
            self.ask_text(Op::ToText, list1(args[0].clone()))?
        };
        Ok(
            Value::Symbol(
                SymbolData { key: concat_text("\0@@for:", k.as_str()), desc: Some(k) },
            ),
        )
    }

    /// `Symbol.keyFor(symbol)`: the name of a symbol of the registry.
    pub fn symbol_key_for(&mut self, args: &Vec<Value>) -> (r: Result<Value, Stop>)
        requires
            old(self).wf(),
        ensures
            final(self).follows(*old(self)),
            run_value(r, *final(self)) == symbol_key_for_run(old(self).pos as nat, views(args@)),
    {
        match arg_at(args, 0) {
            Value::Symbol(d) => match strip_text_prefix(d.key.as_str(), "\0@@for:") {
                Some(k) => Ok(Value::Str(k)),
                None => Ok(Value::Undefined),
            },
            _ => Err(fail(ErrorKind::TypeError, "Symbol.keyFor requires a symbol argument")),
        }
    }
}

proof fn lemma_no_colon(n: nat, rest: Seq<char>)
    ensures
        char_index(decimal(n) + ":"@ + rest, ':', 0) == Some(decimal(n).len()),
{
    let s = decimal(n) + ":"@ + rest;
    reveal_strlit(":");
    lemma_decimal_value(n);
    assert forall|i: int| 0 <= i < decimal(n).len() implies #[trigger] s[i] != ':' by {
        assert(is_digit(decimal(n)[i]));
        assert(s[i] == decimal(n)[i]);
    }
    assert(s[decimal(n).len() as int] == ':');
    lemma_char_index(s, ':', 0, decimal(n).len());
}

proof fn lemma_char_index(s: Seq<char>, c: char, from: nat, at: nat)
    requires
        from <= at < s.len(),
        s[at as int] == c,
        forall|i: int| from <= i < at ==> #[trigger] s[i] != c,
    ensures
        char_index(s, c, from) == Some(at),
    decreases at - from,
{
    if from < at {
        assert(s[from as int] != c);
        lemma_char_index(s, c, from + 1, at);
    }
}

/// A new symbol's key gives its description back, and keys of different numbers are different.
pub proof fn law_fresh_symbols(a: nat, b: nat, d: Option<Seq<char>>, e: Option<Seq<char>>)
    ensures
        d != Some(Seq::<char>::empty()) ==> description(fresh_key(a, d)) == d,
        fresh_key(a, d) == fresh_key(b, e) ==> a == b,
        symbol_key(fresh_key(a, d)),
{
    lemma_fresh_key(a, d);
    lemma_fresh_key(b, e);
    if fresh_key(a, d) == fresh_key(b, e) {
        let x = fresh_key(a, d).skip(7);
        assert(decimal(a).len() == decimal(b).len());
        assert(x.take(decimal(a).len() as int) =~= decimal(a));
        assert(x.take(decimal(b).len() as int) =~= decimal(b));
        law_index_keys(a, b);
    }
}

proof fn lemma_fresh_key(a: nat, d: Option<Seq<char>>)
    ensures
        symbol_key(fresh_key(a, d)),
        d != Some(Seq::<char>::empty()) ==> description(fresh_key(a, d)) == d,
        ({
            let x = fresh_key(a, d).skip(7);
            &&& x == decimal(a) + ":"@ + match d {
                Some(t) => t,
                None => Seq::empty(),
            }
            &&& char_index(x, ':', 0) == Some(decimal(a).len())
        }),
{
    reveal_strlit("\0@@");
    reveal_strlit("\0@@sym:");
    reveal_strlit("sym:");
    reveal_strlit(":");
    let tail = match d {
        Some(t) => t,
        None => Seq::empty(),
    };
    let key = fresh_key(a, d);
    let x = decimal(a) + ":"@ + tail;
    assert(key.take(3) =~= "\0@@"@);
    assert(key.skip(3).take(4) =~= "sym:"@);
    assert(key.skip(3).skip(4) =~= x);
    assert(key.skip(7) =~= x);
    lemma_no_colon(a, tail);
    let at = decimal(a).len();
    assert(x.skip((at + 1) as int) =~= tail);
    if tail.len() == 0 {
        assert(tail =~= Seq::<char>::empty());
    }
}

/// The registry gives back under which name a symbol stands, and one name has one symbol. A new
/// symbol is not in the registry.
pub proof fn law_symbol_registry(k: Seq<char>, l: Seq<char>, n: nat, d: Option<Seq<char>>, pos: nat)
    ensures
        symbol_key_for_run(pos, seq![Val::Symbol(registry_key(k), Some(k))]) == done(
            Val::Str(k),
            pos,
        ),
        registry_key(k) == registry_key(l) ==> k == l,
        symbol_key_for_run(pos, seq![Val::Symbol(fresh_key(n, d), d)]) == done(Val::Undefined, pos),
        description(registry_key(k)) == Some(k),
{
    reveal_strlit("\0@@for:");
    reveal_strlit("\0@@sym:");
    reveal_strlit("\0@@");
    reveal_strlit("for:");
    reveal_strlit("sym:");
    let rk = registry_key(k);
    assert(rk.take(7) =~= "\0@@for:"@);
    assert(rk.skip(7) =~= k);
    assert(registry_key(l).skip(7) =~= l);
    assert(rk.take(3) =~= "\0@@"@);
    assert(rk.skip(3).take(4) =~= "for:"@);
    assert(rk.skip(3).skip(4) =~= k);
    let f = fresh_key(n, d);
    assert(f[3] == 's');
    assert("\0@@for:"@[3] == 'f');
    assert(f.take(7)[3] == 's');
    assert(rk.skip(3).take(4)[0] == 'f');
}

} // verus!
