//! The list of an element's classes: an ordered set of tokens.
use crate::canvas::{cat, display_arg};
use crate::globals::displays;
use crate::host::{
    ask_list, ask_number, ask_text, ask_value, chain, done, fail, list1, opt_view, raised,
    run_plain, run_value, Host, Interp, Op, Run, Stop,
};
use crate::json::{contains_text, text_views, texts_in, texts_of};
use crate::number::{count_of_num, num_of, num_to_count, Num};
use crate::number_format::{this_of, this_or_undefined};
use crate::reflect::{text_vals, values_of_texts};
use crate::text::same_text;
use crate::value::{arg_at, to_bool, truthy, views, ErrorKind, Kind, Val, Value};
use vstd::prelude::*;

verus! {

/// The tokens with one more; a token that is there stays where it is.
pub open spec fn token_added(tokens: Seq<Seq<char>>, name: Seq<char>) -> Seq<Seq<char>> {
    if tokens.contains(name) {
        tokens
    } else {
        tokens.push(name)
    }
}

/// The tokens without one, in order.
pub open spec fn token_removed(tokens: Seq<Seq<char>>, name: Seq<char>) -> Seq<Seq<char>>
    decreases tokens.len(),
{
    if tokens.len() == 0 {
        Seq::empty()
    } else if tokens.last() == name {
        token_removed(tokens.drop_last(), name)
    } else {
        token_removed(tokens.drop_last(), name).push(tokens.last())
    }
}

/// The tokens after the first `n` names were added or removed.
pub open spec fn tokens_edited(tokens: Seq<Seq<char>>, names: Seq<Seq<char>>, n: int, adds: bool) -> Seq<
    Seq<char>,
>
    decreases n,
{
    if n <= 0 {
        tokens
    } else {
        let before = tokens_edited(tokens, names, n - 1, adds);
        if adds {
            token_added(before, names[n - 1])
        } else {
            token_removed(before, names[n - 1])
        }
    }
}

/// The place of the first token from the `i`-th on that is one of two; the number of tokens where
/// there is none.
pub open spec fn place_of_either(tokens: Seq<Seq<char>>, i: int, a: Seq<char>, b: Seq<char>) -> int
    decreases tokens.len() - i,
{
    if !(0 <= i < tokens.len()) {
        tokens.len() as int
    } else if tokens[i] == a || tokens[i] == b {
        i
    } else {
        place_of_either(tokens, i + 1, a, b)
    }
}

/// The first `n` tokens with both of two gone and the second put at a place.
pub open spec fn tokens_replaced(
    tokens: Seq<Seq<char>>,
    n: int,
    place: int,
    was: Seq<char>,
    new: Seq<char>,
) -> Seq<Seq<char>>
    decreases n,
{
    if n <= 0 {
        Seq::empty()
    } else {
        let before = tokens_replaced(tokens, n - 1, place, was, new);
        if n - 1 == place {
            before.push(new)
        } else if tokens[n - 1] != was && tokens[n - 1] != new {
            before.push(tokens[n - 1])
        } else {
            before
        }
    }
}

/// The tokens with one put in another's place: where the first of the two stood.
pub open spec fn token_replaced(tokens: Seq<Seq<char>>, was: Seq<char>, new: Seq<char>) -> Seq<Seq<char>> {
    tokens_replaced(tokens, tokens.len() as int, place_of_either(tokens, 0, was, new), was, new)
}

pub open spec fn class_list(v: Val) -> bool {
    v matches Val::Ref(Kind::ClassList, _)
}

/// Throws where a name is no token.
pub open spec fn checked(h: Host, pos: nat, names: Seq<Seq<char>>) -> Run<()> {
    chain(
        ask_value(h, pos, Op::CheckTokens, text_vals(names)),
        |u: Val, p: nat| done((), p),
    )
}

/// The tokens of a class list.
pub open spec fn tokens_now(h: Host, pos: nat, v: Val) -> Run<Seq<Seq<char>>> {
    chain(
        ask_list(h, pos, Op::ClassTokens, seq![v]),
        |l: Seq<Val>, p: nat| done(texts_in(l), p),
    )
}

pub open spec fn store_tokens(h: Host, pos: nat, v: Val, tokens: Seq<Seq<char>>, r: Val) -> Run<Val> {
    chain(
        ask_value(h, pos, Op::SetClassTokens, seq![v] + text_vals(tokens)),
        |u: Val, p: nat| done(r, p),
    )
}

/// `add` and `remove` of a class list.
pub open spec fn class_edit_run(
    h: Host,
    pos: nat,
    adds: bool,
    recv: Option<Val>,
    args: Seq<Val>,
) -> Run<Val> {
    let v = this_of(recv);
    if !class_list(v) {
        done(Val::Undefined, pos)
    } else {
        chain(
            displays(h, pos, args, 0, Seq::empty()),
            |names: Seq<Seq<char>>, p0: nat|
                chain(
                    checked(h, p0, names),
                    |u: (), p1: nat|
                        chain(
                            tokens_now(h, p1, v),
                            |tokens: Seq<Seq<char>>, p2: nat|
                                store_tokens(
                                    h,
                                    p2,
                                    v,
                                    tokens_edited(tokens, names, names.len() as int, adds),
                                    Val::Undefined,
                                ),
                        ),
                ),
        )
    }
}

/// What the second argument of `toggle` decides; one that is undefined is not the same as none.
pub open spec fn forced(args: Seq<Val>) -> Option<bool> {
    if args.len() > 1 {
        Some(truthy(args[1]))
    } else {
        None
    }
}

/// `toggle` on these tokens: what it returns, and the tokens after it where they change.
pub open spec fn toggled_tokens(tokens: Seq<Seq<char>>, name: Seq<char>, force: Option<bool>) -> (
    bool,
    Option<Seq<Seq<char>>>,
) {
    if tokens.contains(name) {
        if force == Some(true) {
            (true, None)
        } else {
            (false, Some(token_removed(tokens, name)))
        }
    } else {
        if force == Some(false) {
            (false, None)
        } else {
            (true, Some(tokens.push(name)))
        }
    }
}

/// `toggle` of a class list.
pub open spec fn class_toggle_run(h: Host, pos: nat, recv: Option<Val>, args: Seq<Val>) -> Run<Val> {
    let v = this_of(recv);
    if !class_list(v) {
        done(Val::Bool(false), pos)
    } else {
        chain(
            display_arg(h, pos, args, 0),
            |name: Seq<char>, p0: nat|
                chain(
                    checked(h, p0, seq![name]),
                    |u: (), p1: nat|
                        chain(
                            tokens_now(h, p1, v),
                            |tokens: Seq<Seq<char>>, p2: nat|
                                {
                                    let t = toggled_tokens(tokens, name, forced(args));
                                    match t.1 {
                                        None => done(Val::Bool(t.0), p2),
                                        Some(after) => store_tokens(
                                            h,
                                            p2,
                                            v,
                                            after,
                                            Val::Bool(t.0),
                                        ),
                                    }
                                },
                        ),
                ),
        )
    }
}

/// `replace` of a class list: whether the old token was there.
pub open spec fn class_replace_run(h: Host, pos: nat, recv: Option<Val>, args: Seq<Val>) -> Run<Val> {
    let v = this_of(recv);
    if !class_list(v) {
        done(Val::Bool(false), pos)
    } else {
        chain(
            display_arg(h, pos, args, 0),
            |was: Seq<char>, p0: nat|
                chain(
                    display_arg(h, p0, args, 1),
                    |new: Seq<char>, p1: nat|
                        chain(
                            checked(h, p1, seq![was, new]),
                            |u: (), p2: nat| replace_checked(h, p2, v, was, new),
                        ),
                ),
        )
    }
}

pub open spec fn replace_checked(h: Host, pos: nat, v: Val, was: Seq<char>, new: Seq<char>) -> Run<Val> {
    chain(
        tokens_now(h, pos, v),
        |tokens: Seq<Seq<char>>, p: nat|
            if !tokens.contains(was) {
                done(Val::Bool(false), p)
            } else {
                store_tokens(h, p, v, token_replaced(tokens, was, new), Val::Bool(true))
            },
    )
}

/// `supports` of a class list: there is nothing that a class could support.
pub open spec fn class_supports_run(h: Host, pos: nat, recv: Option<Val>, args: Seq<Val>) -> Run<Val> {
    raised(ErrorKind::TypeError, "class 속성은 지원 토큰 목록이 없다"@, pos)
}

/// A place in a list that a number names.
pub open spec fn place_named(n: Num, len: nat) -> Option<int> {
    if crate::number::greater(num_of(0), n) || count_of_num(n) >= len {
        None
    } else {
        Some(count_of_num(n) as int)
    }
}

pub open spec fn number_or_zero(h: Host, pos: nat, args: Seq<Val>, i: int) -> Run<Num> {
    if 0 <= i < args.len() {
        ask_number(h, pos, Op::PlainNumber, seq![args[i]])
    } else {
        done(num_of(0), pos)
    }
}

/// `item` of a class list.
pub open spec fn class_item_run(h: Host, pos: nat, recv: Option<Val>, args: Seq<Val>) -> Run<Val> {
    let v = this_of(recv);
    if !class_list(v) {
        done(Val::Null, pos)
    } else {
        chain(
            number_or_zero(h, pos, args, 0),
            |n: Num, p: nat|
                if crate::number::greater(num_of(0), n) {
                    done(Val::Null, p)
                } else {
                    chain(
                        tokens_now(h, p, v),
                        |tokens: Seq<Seq<char>>, q: nat|
                            done(
                                match place_named(n, tokens.len()) {
                                    Some(i) => Val::Str(tokens[i]),
                                    None => Val::Null,
                                },
                                q,
                            ),
                    )
                },
        )
    }
}

/// `value` of a class list.
pub open spec fn class_value_run(h: Host, pos: nat, recv: Option<Val>, args: Seq<Val>) -> Run<Val> {
    if !class_list(this_of(recv)) {
        done(Val::Str(Seq::empty()), pos)
    } else {
        chain(
            ask_text(h, pos, Op::ClassText, seq![this_of(recv)]),
            |s: Seq<char>, p: nat| done(Val::Str(s), p),
        )
    }
}

/// `contains` of a class list.
pub open spec fn class_contains_run(h: Host, pos: nat, recv: Option<Val>, args: Seq<Val>) -> Run<Val> {
    if !class_list(this_of(recv)) {
        done(Val::Bool(false), pos)
    } else {
        chain(
            display_arg(h, pos, args, 0),
            |name: Seq<char>, p: nat|
                chain(
                    tokens_now(h, p, this_of(recv)),
                    |tokens: Seq<Seq<char>>, q: nat| done(Val::Bool(tokens.contains(name)), q),
                ),
        )
    }
}

impl Interp {
    fn checked(&mut self, names: &Vec<String>) -> (r: Result<(), Stop>)
        requires
            old(self).wf(),
        ensures
            final(self).follows(*old(self)),
            run_plain(r, *final(self)) == checked(
                old(self).host(),
                old(self).pos as nat,
                text_views(names@),
            ),
    {
        let u: Value = self.ask_value(Op::CheckTokens, values_of_texts(names))?;
        Ok(())
    }

    fn tokens_now(&mut self, v: &Value) -> (r: Result<Vec<String>, Stop>)
        requires
            old(self).wf(),
        ensures
            final(self).follows(*old(self)),
            crate::json::texts_run(r, *final(self)) == tokens_now(
                old(self).host(),
                old(self).pos as nat,
                v@,
            ),
    {
        let l: Vec<Value> = self.ask_list(Op::ClassTokens, list1(v.clone()))?;
        Ok(texts_of(&l))
    }

    fn store_tokens(&mut self, v: &Value, tokens: &Vec<String>, result: Value) -> (r: Result<Value, Stop>)
        requires
            old(self).wf(),
        ensures
            final(self).follows(*old(self)),
            run_value(r, *final(self)) == store_tokens(
                old(self).host(),
                old(self).pos as nat,
                v@,
                text_views(tokens@),
                result@,
            ),
    {
        let u: Value = self.ask_value(
            Op::SetClassTokens,
            cat(list1(v.clone()), &values_of_texts(tokens)),
        )?;
        Ok(result)
    }

    /// `add` and `remove` of a class list.
    pub fn class_edit(&mut self, adds: bool, recv: &Option<Value>, args: &Vec<Value>) -> (r: Result<Value, Stop>)
        requires
            old(self).wf(),
        ensures
            final(self).follows(*old(self)),
            run_value(r, *final(self)) == class_edit_run(
                old(self).host(),
                old(self).pos as nat,
                adds,
                opt_view(*recv),
                views(args@),
            ),
    {
        let v: Value = this_or_undefined(recv);
        if !is_class_list(&v) {
            return Ok(Value::Undefined);
        }
        let names: Vec<String> = self.displays(args)?;
        self.checked(&names)?;
        let tokens: Vec<String> = self.tokens_now(&v)?;
        let edited: Vec<String> = edit_tokens(tokens, &names, adds);
        self.store_tokens(&v, &edited, Value::Undefined)
    }

    /// `toggle` of a class list.
    pub fn class_toggle(&mut self, recv: &Option<Value>, args: &Vec<Value>) -> (r: Result<Value, Stop>)
        requires
            old(self).wf(),
        ensures
            final(self).follows(*old(self)),
            run_value(r, *final(self)) == class_toggle_run(
                old(self).host(),
                old(self).pos as nat,
                opt_view(*recv),
                views(args@),
            ),
    {
        let v: Value = this_or_undefined(recv);
        if !is_class_list(&v) {
            return Ok(Value::Bool(false));
        }
        let name: String = self.display_arg(args, 0)?;
        self.checked(&one_text(name.as_str()))?;
        let mut tokens: Vec<String> = self.tokens_now(&v)?;
        let decided: bool = args.len() > 1;
        let force: bool = to_bool(&arg_at(args, 1));
        if contains_text(&tokens, name.as_str()) {
            if decided && force {
                return Ok(Value::Bool(true));
            }
            let left: Vec<String> = remove_token(&tokens, name.as_str());
            self.store_tokens(&v, &left, Value::Bool(false))
        } else {
            if decided && !force {
                return Ok(Value::Bool(false));
            }
            let ghost before = text_views(tokens@);
            tokens.push(name);
            assert(text_views(tokens@) =~= before.push(name@));
            self.store_tokens(&v, &tokens, Value::Bool(true))
        }
    }

    /// `replace` of a class list.
    pub fn class_replace(&mut self, recv: &Option<Value>, args: &Vec<Value>) -> (r: Result<Value, Stop>)
        requires
            old(self).wf(),
        ensures
            final(self).follows(*old(self)),
            run_value(r, *final(self)) == class_replace_run(
                old(self).host(),
                old(self).pos as nat,
                opt_view(*recv),
                views(args@),
            ),
    {
        let v: Value = this_or_undefined(recv);
        if !is_class_list(&v) {
            return Ok(Value::Bool(false));
        }
        let old_name: String = self.display_arg(args, 0)?;
        let new_name: String = self.display_arg(args, 1)?;
        let mut both: Vec<String> = one_text(old_name.as_str());
        let ghost first = text_views(both@);
        both.push(new_name.clone());
        assert(text_views(both@) =~= first.push(new_name@));
        assert(text_views(both@) =~= seq![old_name@, new_name@]);
        self.checked(&both)?;
        self.replace_checked(&v, old_name.as_str(), new_name.as_str())
    }

    fn replace_checked(&mut self, v: &Value, was: &str, new: &str) -> (r: Result<Value, Stop>)
        requires
            old(self).wf(),
        ensures
            final(self).follows(*old(self)),
            run_value(r, *final(self)) == replace_checked(
                old(self).host(),
                old(self).pos as nat,
                v@,
                was@,
                new@,
            ),
    {
        let tokens: Vec<String> = self.tokens_now(v)?;
        if !contains_text(&tokens, was) {
            return Ok(Value::Bool(false));
        }
        let after: Vec<String> = replace_token(&tokens, was, new);
        self.store_tokens(v, &after, Value::Bool(true))
    }

    /// `supports` of a class list.
    pub fn class_supports(&mut self, recv: &Option<Value>, args: &Vec<Value>) -> (r: Result<Value, Stop>)
        requires
            old(self).wf(),
        ensures
            final(self).follows(*old(self)),
            run_value(r, *final(self)) == class_supports_run(
                old(self).host(),
                old(self).pos as nat,
                opt_view(*recv),
                views(args@),
            ),
    {
        Err(fail(ErrorKind::TypeError, "class 속성은 지원 토큰 목록이 없다"))
    }

    pub fn number_or_zero(&mut self, args: &Vec<Value>, i: usize) -> (r: Result<Num, Stop>)
        requires
            old(self).wf(),
        ensures
            final(self).follows(*old(self)),
            run_plain(r, *final(self)) == number_or_zero(
                old(self).host(),
                old(self).pos as nat,
                views(args@),
                i as int,
            ),
    {
        if i < args.len() {
            self.ask_number(Op::PlainNumber, list1(args[i].clone()))
        } else {
            Ok(Num::from_u64(0))
        }
    }

    /// `item` of a class list.
    pub fn class_item(&mut self, recv: &Option<Value>, args: &Vec<Value>) -> (r: Result<Value, Stop>)
        requires
            old(self).wf(),
        ensures
            final(self).follows(*old(self)),
            run_value(r, *final(self)) == class_item_run(
                old(self).host(),
                old(self).pos as nat,
                opt_view(*recv),
                views(args@),
            ),
    {
        let v: Value = this_or_undefined(recv);
        if !is_class_list(&v) {
            return Ok(Value::Null);
        }
        let n: Num = self.number_or_zero(args, 0)?;
        if crate::number::is_greater(Num::from_u64(0), n) {
            return Ok(Value::Null);
        }
        let tokens: Vec<String> = self.tokens_now(&v)?;
        let i: u64 = num_to_count(n);
        if i < tokens.len() as u64 {
            Ok(Value::Str(tokens[i as usize].clone()))
        } else {
            Ok(Value::Null)
        }
    }

    /// `value` of a class list.
    pub fn class_value(&mut self, recv: &Option<Value>, args: &Vec<Value>) -> (r: Result<Value, Stop>)
        requires
            old(self).wf(),
        ensures
            final(self).follows(*old(self)),
            run_value(r, *final(self)) == class_value_run(
                old(self).host(),
                old(self).pos as nat,
                opt_view(*recv),
                views(args@),
            ),
    {
        let v: Value = this_or_undefined(recv);
        if !is_class_list(&v) {
            let s: String = String::new();
            assert(s@ =~= Seq::<char>::empty());
            return Ok(Value::Str(s));
        }
        let s: String = self.ask_text(Op::ClassText, list1(v))?;
        Ok(Value::Str(s))
    }

    /// `contains` of a class list.
    pub fn class_contains(&mut self, recv: &Option<Value>, args: &Vec<Value>) -> (r: Result<Value, Stop>)
        requires
            old(self).wf(),
        ensures
            final(self).follows(*old(self)),
            run_value(r, *final(self)) == class_contains_run(
                old(self).host(),
                old(self).pos as nat,
                opt_view(*recv),
                views(args@),
            ),
    {
        let v: Value = this_or_undefined(recv);
        if !is_class_list(&v) {
            return Ok(Value::Bool(false));
        }
        let name: String = self.display_arg(args, 0)?;
        let tokens: Vec<String> = self.tokens_now(&v)?;
        Ok(Value::Bool(contains_text(&tokens, name.as_str())))
    }
}

fn is_class_list(v: &Value) -> (r: bool)
    ensures
        r == class_list(v@),
{
    matches!(v, Value::Ref(Kind::ClassList, _))
}

fn one_text(s: &str) -> (r: Vec<String>)
    ensures
        text_views(r@) == seq![s@],
{
    let mut v: Vec<String> = Vec::new();
    v.push(s.to_owned());
    assert(text_views(v@) =~= seq![s@]);
    v
}

fn remove_token(tokens: &Vec<String>, name: &str) -> (r: Vec<String>)
    ensures
        text_views(r@) == token_removed(text_views(tokens@), name@),
{
    let ghost all = text_views(tokens@);
    let mut out: Vec<String> = Vec::new();
    let mut i: usize = 0;
    assert(all.take(0) =~= Seq::empty());
    assert(text_views(out@) =~= Seq::empty());
    while i < tokens.len()
        invariant
            i <= tokens@.len(),
            all == text_views(tokens@),
            text_views(out@) == token_removed(all.take(i as int), name@),
        decreases tokens@.len() - i,
    {
        assert(all.take(i + 1).drop_last() =~= all.take(i as int));
        assert(all.take(i + 1).last() == tokens@[i as int]@);
        if !same_text(tokens[i].as_str(), name) {
            let ghost before = text_views(out@);
            let t: String = tokens[i].clone();
            out.push(t);
            assert(text_views(out@) =~= before.push(t@));
        }
        i = i + 1;
    }
    assert(all.take(i as int) =~= all);
    out
}

fn edit_tokens(tokens: Vec<String>, names: &Vec<String>, adds: bool) -> (r: Vec<String>)
    ensures
        text_views(r@) == tokens_edited(
            text_views(tokens@),
            text_views(names@),
            names@.len() as int,
            adds,
        ),
{
    let ghost start = text_views(tokens@);
    let mut out: Vec<String> = tokens;
    let mut i: usize = 0;
    while i < names.len()
        invariant
            i <= names@.len(),
            text_views(out@) == tokens_edited(start, text_views(names@), i as int, adds),
        decreases names@.len() - i,
    {
        let ghost before = text_views(out@);
        assert(text_views(names@)[i as int] == names@[i as int]@);
        if adds {
            if !contains_text(&out, names[i].as_str()) {
                let t: String = names[i].clone();
                out.push(t);
                assert(text_views(out@) =~= before.push(t@));
            }
        } else {
            out = remove_token(&out, names[i].as_str());
        }
        i = i + 1;
    }
    out
}

fn find_either(tokens: &Vec<String>, a: &str, b: &str) -> (r: usize)
    ensures
        r == place_of_either(text_views(tokens@), 0, a@, b@),
{
    let ghost all = text_views(tokens@);
    let mut i: usize = 0;
    while i < tokens.len()
        invariant
            i <= tokens@.len(),
            all == text_views(tokens@),
            place_of_either(all, 0, a@, b@) == place_of_either(all, i as int, a@, b@),
        decreases tokens@.len() - i,
    {
        assert(all[i as int] == tokens@[i as int]@);
        if same_text(tokens[i].as_str(), a) || same_text(tokens[i].as_str(), b) {
            return i;
        }
        i = i + 1;
    }
    i
}

fn replace_token(tokens: &Vec<String>, was: &str, new: &str) -> (r: Vec<String>)
    ensures
        text_views(r@) == token_replaced(text_views(tokens@), was@, new@),
{
    let ghost all = text_views(tokens@);
    let place: usize = find_either(tokens, was, new);
    let mut out: Vec<String> = Vec::new();
    let mut i: usize = 0;
    assert(text_views(out@) =~= Seq::empty());
    while i < tokens.len()
        invariant
            i <= tokens@.len(),
            all == text_views(tokens@),
            text_views(out@) == tokens_replaced(all, i as int, place as int, was@, new@),
        decreases tokens@.len() - i,
    {
        let ghost before = text_views(out@);
        assert(all[i as int] == tokens@[i as int]@);
        if i == place {
            let t: String = new.to_owned();
            out.push(t);
            assert(text_views(out@) =~= before.push(t@));
        } else if !same_text(tokens[i].as_str(), was) && !same_text(tokens[i].as_str(), new) {
            let t: String = tokens[i].clone();
            out.push(t);
            assert(text_views(out@) =~= before.push(t@));
        }
        i = i + 1;
    }
    out
}

/// Adding a token keeps the order of those that are there: they come first, and the token stands
/// once.
pub proof fn law_added_token(tokens: Seq<Seq<char>>, name: Seq<char>)
    ensures
        token_added(tokens, name).contains(name),
        token_added(tokens, name).take(tokens.len() as int) == tokens,
        token_added(token_added(tokens, name), name) == token_added(tokens, name),
        tokens.no_duplicates() ==> token_added(tokens, name).no_duplicates(),
{
    let t = token_added(tokens, name);
    if !tokens.contains(name) {
        assert(t[tokens.len() as int] == name);
    }
    assert(t.take(tokens.len() as int) =~= tokens);
}

/// A removed token is gone, and the others are as they were.
pub proof fn law_removed_token(tokens: Seq<Seq<char>>, name: Seq<char>, other: Seq<char>)
    ensures
        !token_removed(tokens, name).contains(name),
        other != name ==> (token_removed(tokens, name).contains(other) == tokens.contains(other)),
        tokens.no_duplicates() ==> token_removed(tokens, name).no_duplicates(),
        !tokens.contains(name) ==> token_removed(tokens, name) == tokens,
    decreases tokens.len(),
{
    if tokens.len() > 0 {
        let rest = tokens.drop_last();
        law_removed_token(rest, name, other);
        law_removed_token(rest, name, tokens.last());
        let r = token_removed(rest, name);
        let whole = token_removed(tokens, name);
        assert forall|t: Seq<char>| tokens.contains(t) == (rest.contains(t) || t == tokens.last()) by {
            if tokens.contains(t) {
                let i = choose|i: int| 0 <= i < tokens.len() && tokens[i] == t;
                if i < rest.len() {
                    assert(rest[i] == t);
                }
            }
            if rest.contains(t) {
                let i = choose|i: int| 0 <= i < rest.len() && rest[i] == t;
                assert(tokens[i] == t);
            }
            assert(tokens[tokens.len() - 1] == tokens.last());
        }
        if tokens.last() != name {
            assert forall|t: Seq<char>| whole.contains(t) == (r.contains(t) || t == tokens.last()) by {
                if whole.contains(t) {
                    let i = choose|i: int| 0 <= i < whole.len() && whole[i] == t;
                    if i < r.len() {
                        assert(r[i] == t);
                    }
                }
                if r.contains(t) {
                    let i = choose|i: int| 0 <= i < r.len() && r[i] == t;
                    assert(whole[i] == t);
                }
                assert(whole[r.len() as int] == tokens.last());
            }
            if tokens.no_duplicates() {
                assert(rest.no_duplicates());
                assert(!rest.contains(tokens.last()));
                assert(!r.contains(tokens.last()));
            }
        } else if tokens.no_duplicates() {
            assert(rest.no_duplicates());
        }
        if !tokens.contains(name) {
            assert(rest.push(tokens.last()) =~= tokens);
        }
    }
}

/// Toggling a token that was not there, and toggling it again, leaves the tokens as they were; and
/// the answer says each time whether the token is there afterwards.
pub proof fn law_toggle_twice(tokens: Seq<Seq<char>>, name: Seq<char>)
    requires
        !tokens.contains(name),
    ensures
        toggled_tokens(tokens, name, None) == (true, Some(tokens.push(name))),
        toggled_tokens(tokens.push(name), name, None) == (false, Some(tokens)),
{
    let t = tokens.push(name);
    assert(t[tokens.len() as int] == name);
    assert(t.drop_last() =~= tokens);
    law_removed_token(tokens, name, name);
}

/// A forced toggle leaves the token there or gone, as it was asked for.
pub proof fn law_forced_toggle(tokens: Seq<Seq<char>>, name: Seq<char>, force: bool)
    ensures
        ({
            let t = toggled_tokens(tokens, name, Some(force));
            let after = match t.1 {
                Some(x) => x,
                None => tokens,
            };
            t.0 == force && after.contains(name) == force
        }),
{
    law_removed_token(tokens, name, name);
    assert(tokens.push(name)[tokens.len() as int] == name);
}

/// After a replacement the new token is there, the old one is not, and no other comes or goes.
pub proof fn law_replaced_token(
    tokens: Seq<Seq<char>>,
    was: Seq<char>,
    new: Seq<char>,
    other: Seq<char>,
)
    requires
        tokens.contains(was),
    ensures
        token_replaced(tokens, was, new).contains(new),
        was != new ==> !token_replaced(tokens, was, new).contains(was),
        other != was && other != new ==> token_replaced(tokens, was, new).contains(other)
            == tokens.contains(other),
{
    let place = place_of_either(tokens, 0, was, new);
    let at = choose|i: int| 0 <= i < tokens.len() && tokens[i] == was;
    lemma_place(tokens, 0, was, new, at);
    lemma_replaced_part(tokens, tokens.len() as int, place, was, new, other);
    lemma_replaced_part(tokens, tokens.len() as int, place, was, new, was);
    assert(tokens.take(tokens.len() as int) =~= tokens);
}

proof fn lemma_place(tokens: Seq<Seq<char>>, i: int, a: Seq<char>, b: Seq<char>, at: int)
    requires
        0 <= i <= at < tokens.len(),
        tokens[at] == a,
    ensures
        i <= place_of_either(tokens, i, a, b) <= at,
        ({
            let p = place_of_either(tokens, i, a, b);
            tokens[p] == a || tokens[p] == b
        }),
    decreases tokens.len() - i,
{
    if tokens[i] != a && tokens[i] != b {
        lemma_place(tokens, i + 1, a, b, at);
    }
}

proof fn lemma_replaced_part(
    tokens: Seq<Seq<char>>,
    n: int,
    place: int,
    was: Seq<char>,
    new: Seq<char>,
    other: Seq<char>,
)
    requires
        0 <= n <= tokens.len(),
        0 <= place < tokens.len(),
        tokens[place] == was || tokens[place] == new,
    ensures
        place < n ==> tokens_replaced(tokens, n, place, was, new).contains(new),
        was != new ==> !tokens_replaced(tokens, n, place, was, new).contains(was),
        other != was && other != new ==> tokens_replaced(tokens, n, place, was, new).contains(other)
            == tokens.take(n).contains(other),
    decreases n,
{
    if n > 0 {
        lemma_replaced_part(tokens, n - 1, place, was, new, other);
        let before = tokens_replaced(tokens, n - 1, place, was, new);
        let now = tokens_replaced(tokens, n, place, was, new);
        let t = tokens[n - 1];
        let part = tokens.take(n - 1);
        assert(tokens.take(n) =~= part.push(t));
        assert forall|x: Seq<char>| tokens.take(n).contains(x) == (part.contains(x) || x == t) by {
            lemma_pushed(part, t, x);
        }
        if n - 1 == place {
            lemma_pushed(before, new, other);
            lemma_pushed(before, new, new);
            lemma_pushed(before, new, was);
        } else if t != was && t != new {
            lemma_pushed(before, t, other);
            lemma_pushed(before, t, new);
            lemma_pushed(before, t, was);
        }
    }
}

proof fn lemma_pushed(s: Seq<Seq<char>>, t: Seq<char>, x: Seq<char>)
    ensures
        s.push(t).contains(x) == (s.contains(x) || x == t),
{
    let p = s.push(t);
    if p.contains(x) {
        let i = choose|i: int| 0 <= i < p.len() && p[i] == x;
        if i < s.len() {
            assert(s[i] == x);
        }
    }
    if s.contains(x) {
        let i = choose|i: int| 0 <= i < s.len() && s[i] == x;
        assert(p[i] == x);
    }
    assert(p[s.len() as int] == t);
}

} // verus!
