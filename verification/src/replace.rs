//! `replace` and `replaceAll`, and the templates of their replacements.
use crate::array_live::count_num;
use crate::host::{
    ask_flag, ask_text, call, done, fail, get, halted, list1, list2, list3, raised, run_text,
    text_value, Halt, Host, Interp, Op, Run, Stop,
};
use crate::number::{MAX_SAFE, Num};
use crate::regexp::regex_replace_run;
use crate::text::{
    char_index, chars_of, extend_chars, find_char, find_text, is_digit, law_text_index, string_of,
    string_of_range, text_index, units, units_before,
};
use crate::value::{callable, is_callable, to_bool, truthy, ErrorKind, Val, Value};
use vstd::prelude::*;

verus! {

/// What a template can refer to: the match, the text around it, the captures, and whether there
/// are named groups.
pub struct Match {
    pub matched: Seq<char>,
    pub text: Seq<char>,
    pub position: nat,
    pub captures: Seq<Option<Seq<char>>>,
    pub named: bool,
}

/// A piece of a replacement.
#[verifier::ext_equal]
pub enum Piece {
    Text(Seq<char>),
    /// The named group with this name.
    Group(Seq<char>),
}

/// Where the text after the match begins.
pub open spec fn tail_start(m: Match) -> nat {
    if m.position + m.matched.len() <= m.text.len() {
        m.position + m.matched.len()
    } else {
        m.text.len()
    }
}

pub open spec fn digit_value(c: char) -> nat {
    (c as nat - 48) as nat
}

/// The capture that the digits after a dollar sign refer to, and how many digits: two where that
/// is a capture, else one where that is.
pub open spec fn capture_ref(t: Seq<char>, count: nat) -> Option<(nat, nat)> {
    let one = digit_value(t[1]);
    let two = if t.len() > 2 && is_digit(t[2]) {
        one * 10 + digit_value(t[2])
    } else {
        0
    };
    if 1 <= two <= count {
        Some((two, 3))
    } else if 1 <= one <= count {
        Some((one, 2))
    } else {
        None
    }
}

/// The first piece of a template, and how many characters it takes.
pub open spec fn piece_at(t: Seq<char>, m: Match) -> (Piece, nat) {
    if t[0] == '$' && t.len() > 1 {
        if t[1] == '$' {
            (Piece::Text(seq!['$']), 2)
        } else if t[1] == '&' {
            (Piece::Text(m.matched), 2)
        } else if t[1] == '`' {
            (Piece::Text(m.text.take(m.position as int)), 2)
        } else if t[1] == '\'' {
            (Piece::Text(m.text.skip(tail_start(m) as int)), 2)
        } else if t[1] == '<' && m.named {
            match char_index(t, '>', 2) {
                Some(close) => (Piece::Group(t.subrange(2, close as int)), close + 1),
                None => (Piece::Text(seq!['$']), 1),
            }
        } else if is_digit(t[1]) {
            match capture_ref(t, m.captures.len()) {
                Some((n, used)) => (
                    Piece::Text(
                        match m.captures[n - 1] {
                            Some(c) => c,
                            None => Seq::empty(),
                        },
                    ),
                    used,
                ),
                None => (Piece::Text(seq!['$']), 1),
            }
        } else {
            (Piece::Text(seq!['$']), 1)
        }
    } else {
        (Piece::Text(seq![t[0]]), 1)
    }
}

proof fn lemma_char_index_bound(s: Seq<char>, c: char, from: nat)
    ensures
        char_index(s, c, from) matches Some(i) ==> from <= i < s.len(),
    decreases s.len() - from,
{
    if from < s.len() && s[from as int] != c {
        lemma_char_index_bound(s, c, from + 1);
    }
}

proof fn lemma_piece_len(t: Seq<char>, m: Match)
    requires
        t.len() > 0,
    ensures
        1 <= piece_at(t, m).1 <= t.len(),
{
    lemma_char_index_bound(t, '>', 2);
}

/// The text of a piece. A named group is read from the groups object; an undefined one is empty.
pub open spec fn piece_text(h: Host, pos: nat, p: Piece, groups: Val) -> Run<Seq<char>> {
    match p {
        Piece::Text(s) => done(s, pos),
        Piece::Group(name) => {
            let g = get(h, pos, groups, name);
            match g.out {
                Err(e) => halted(e, g.pos),
                Ok(v) => {
                    if v == Val::Undefined {
                        done(Seq::empty(), g.pos)
                    } else {
                        ask_text(h, g.pos, Op::ToText, seq![v])
                    }
                },
            }
        },
    }
}

/// GetSubstitution: the template `t` with its references replaced, after `out`.
pub open spec fn substitution(
    h: Host,
    pos: nat,
    t: Seq<char>,
    m: Match,
    groups: Val,
    out: Seq<char>,
) -> Run<Seq<char>>
    decreases t.len(),
{
    if t.len() == 0 {
        done(out, pos)
    } else {
        let (piece, used) = piece_at(t, m);
        let p = piece_text(h, pos, piece, groups);
        match p.out {
            Err(e) => halted(e, p.pos),
            Ok(s) => {
                if 1 <= used <= t.len() {
                    substitution(h, p.pos, t.skip(used as int), m, groups, out + s)
                } else {
                    done(out, pos)
                }
            },
        }
    }
}

/// The template `t` with its references replaced, where there are no named groups.
pub open spec fn expanded(t: Seq<char>, m: Match) -> Seq<char>
    decreases t.len(),
{
    if t.len() == 0 {
        Seq::empty()
    } else {
        let (piece, used) = piece_at(t, m);
        let s = match piece {
            Piece::Text(s) => s,
            Piece::Group(_) => Seq::empty(),
        };
        if 1 <= used <= t.len() {
            s + expanded(t.skip(used as int), m)
        } else {
            Seq::empty()
        }
    }
}

/// A capture as the template sees it.
pub open spec fn capture_views(c: Seq<Option<String>>) -> Seq<Option<Seq<char>>> {
    Seq::new(c.len(), |i: int| crate::value::opt_text(c[i]))
}

/// The exec counterpart of `Piece`.
enum PieceText {
    Text(Vec<char>),
    Group(String),
}

impl PieceText {
    spec fn piece(self) -> Piece {
        match self {
            PieceText::Text(v) => Piece::Text(v@),
            PieceText::Group(s) => Piece::Group(s@),
        }
    }
}

fn one_char(c: char) -> (r: Vec<char>)
    ensures
        r@ == seq![c],
{
    let mut v: Vec<char> = Vec::new();
    v.push(c);
    assert(v@ =~= seq![c]);
    v
}

fn slice_chars(v: &Vec<char>, from: usize, to: usize) -> (r: Vec<char>)
    requires
        from <= to <= v@.len(),
    ensures
        r@ == v@.subrange(from as int, to as int),
{
    let mut out: Vec<char> = Vec::new();
    let mut i: usize = from;
    assert(out@ =~= v@.subrange(from as int, from as int));
    while i < to
        invariant
            from <= i <= to <= v@.len(),
            out@ == v@.subrange(from as int, i as int),
        decreases to - i,
    {
        out.push(v[i]);
        assert(v@.subrange(from as int, i + 1) =~= v@.subrange(from as int, i as int).push(
            v@[i as int],
        ));
        i = i + 1;
    }
    out
}

fn is_ascii_digit(c: char) -> (r: bool)
    ensures
        r == is_digit(c),
{
    '0' <= c && c <= '9'
}

/// The first piece of the template from `i` on.
fn piece_at_exec(
    t: &Vec<char>,
    i: usize,
    matched: &Vec<char>,
    text: &Vec<char>,
    position: usize,
    captures: &Vec<Option<String>>,
    named: bool,
) -> (r: (PieceText, usize))
    requires
        i < t@.len(),
        position <= text@.len(),
    ensures
        ({
            let m = Match {
                matched: matched@,
                text: text@,
                position: position as nat,
                captures: capture_views(captures@),
                named,
            };
            let p = piece_at(t@.skip(i as int), m);
            p.0 == r.0.piece() && p.1 == r.1
        }),
        1 <= r.1,
        i + r.1 <= t@.len(),
{
    let ghost rest = t@.skip(i as int);
    let ghost m = Match {
        matched: matched@,
        text: text@,
        position: position as nat,
        captures: capture_views(captures@),
        named,
    };
    proof {
        lemma_piece_len(rest, m);
    }
    assert(rest[0] == t@[i as int]);
    let n: usize = t.len();
    if t[i] != '$' || n - i < 2 {
        return (PieceText::Text(one_char(t[i])), 1);
    }
    let c: char = t[i + 1];
    assert(rest[1] == c);
    if c == '$' {
        return (PieceText::Text(one_char('$')), 2);
    }
    if c == '&' {
        let v: Vec<char> = slice_chars(matched, 0, matched.len());
        assert(matched@.subrange(0, matched@.len() as int) =~= matched@);
        return (PieceText::Text(v), 2);
    }
    if c == '`' {
        let v: Vec<char> = slice_chars(text, 0, position);
        assert(text@.subrange(0, position as int) =~= text@.take(position as int));
        return (PieceText::Text(v), 2);
    }
    if c == '\'' {
        let from: usize = if matched.len() <= text.len() - position {
            position + matched.len()
        } else {
            text.len()
        };
        let v: Vec<char> = slice_chars(text, from, text.len());
        assert(text@.subrange(from as int, text@.len() as int) =~= text@.skip(from as int));
        return (PieceText::Text(v), 2);
    }
    if c == '<' && named {
        proof {
            lemma_char_index_shift(t@, '>', i as nat, 2);
        }
        return match find_char(t, '>', i + 2) {
            Some(close) => {
                let name: String = string_of_range(t, i + 2, close);
                assert(t@.subrange(i + 2, close as int) =~= rest.subrange(2, close - i));
                (PieceText::Group(name), close - i + 1)
            },
            None => (PieceText::Text(one_char('$')), 1),
        };
    }
    if is_ascii_digit(c) {
        let d: usize = (c as u32 - 48) as usize;
        let mut group: usize = 0;
        let mut used: usize = 1;
        if n - i > 2 && is_ascii_digit(t[i + 2]) {
            assert(rest[2] == t@[i + 2]);
            let two: usize = d * 10 + (t[i + 2] as u32 - 48) as usize;
            if 1 <= two && two <= captures.len() {
                group = two;
                used = 3;
            }
        }
        if group == 0 && 1 <= d && d <= captures.len() {
            group = d;
            used = 2;
        }
        if group == 0 {
            return (PieceText::Text(one_char('$')), 1);
        }
        assert(m.captures[group - 1] == crate::value::opt_text(captures@[group - 1]));
        let v: Vec<char> = match &captures[group - 1] {
            Some(s) => chars_of(s.as_str()),
            None => {
                let e: Vec<char> = Vec::new();
                assert(e@ =~= Seq::<char>::empty());
                e
            },
        };
        return (PieceText::Text(v), used);
    }
    (PieceText::Text(one_char('$')), 1)
}

proof fn lemma_char_index_shift(s: Seq<char>, c: char, by: nat, from: nat)
    requires
        by <= s.len(),
    ensures
        match char_index(s, c, by + from) {
            Some(i) => char_index(s.skip(by as int), c, from) == Some((i - by) as nat) && i >= by
                + from,
            None => char_index(s.skip(by as int), c, from) is None,
        },
    decreases s.len() - from,
{
    if by + from < s.len() {
        assert(s.skip(by as int)[from as int] == s[(by + from) as int]);
        if s[(by + from) as int] != c {
            lemma_char_index_shift(s, c, by, from + 1);
        }
    }
}

impl Interp {
    /// GetSubstitution.
    #[verifier::loop_isolation(false)]
    pub fn get_substitution(
        &mut self,
        matched: &str,
        str_chars: &Vec<char>,
        position: usize,
        captures: &Vec<Option<String>>,
        named: &Value,
        template: &str,
    ) -> (r: Result<String, Stop>)
        requires
            old(self).wf(),
            position <= str_chars@.len(),
        ensures
            final(self).follows(*old(self)),
            run_text(r, *final(self)) == substitution(
                old(self).host(),
                old(self).pos as nat,
                template@,
                Match {
                    matched: matched@,
                    text: str_chars@,
                    position: position as nat,
                    captures: capture_views(captures@),
                    named: named@ != Val::Undefined,
                },
                named@,
                Seq::empty(),
            ),
    {
        let t: Vec<char> = chars_of(template);
        let m: Vec<char> = chars_of(matched);
        let has_named: bool = match named {
            Value::Undefined => false,
            _ => true,
        };
        let ghost mt = Match {
            matched: matched@,
            text: str_chars@,
            position: position as nat,
            captures: capture_views(captures@),
            named: has_named,
        };
        let ghost goal = substitution(
            self.host(),
            self.pos as nat,
            template@,
            mt,
            named@,
            Seq::empty(),
        );
        let mut out: Vec<char> = Vec::new();
        let mut i: usize = 0;
        assert(t@.skip(0) =~= t@);
        assert(out@ =~= Seq::<char>::empty());
        while i < t.len()
            invariant
                i <= t@.len(),
                self.follows(*old(self)),
                goal == substitution(
                    self.host(),
                    self.pos as nat,
                    t@.skip(i as int),
                    mt,
                    named@,
                    out@,
                ),
            decreases t@.len() - i,
        {
            let (piece, used): (PieceText, usize) = piece_at_exec(
                &t,
                i,
                &m,
                str_chars,
                position,
                captures,
                has_named,
            );
            match piece {
                PieceText::Text(v) => {
                    let mut v: Vec<char> = v;
                    out.append(&mut v);
                },
                PieceText::Group(name) => {
                    let v: Value = self.member_get(named, name.as_str())?;
                    let undefined: bool = match &v {
                        Value::Undefined => true,
                        _ => false,
                    };
                    if !undefined {
                        let s: String = self.ask_text(Op::ToText, list1(v))?;
                        extend_chars(&mut out, s.as_str());
                    } else {
                        assert(out@ + Seq::<char>::empty() =~= out@);
                    }
                },
            }
            assert(t@.skip(i as int).skip(used as int) =~= t@.skip(i + used));
            i = i + used;
        }
        Ok(string_of(&out))
    }
}

/// The template with its references replaced, where there are no captures and no named groups.
pub fn expand_replacement(template: &str, text: &Vec<char>, start: usize, end: usize) -> (r: Vec<char>)
    requires
        start <= end <= text@.len(),
    ensures
        r@ == expanded(template@, plain_match(text@, start as nat, end as nat)),
{
    let t: Vec<char> = chars_of(template);
    let matched: Vec<char> = slice_chars(text, start, end);
    let captures: Vec<Option<String>> = Vec::new();
    let ghost m = plain_match(text@, start as nat, end as nat);
    assert(capture_views(captures@) =~= Seq::<Option<Seq<char>>>::empty());
    let mut out: Vec<char> = Vec::new();
    let mut i: usize = 0;
    assert(t@.skip(0) =~= t@);
    assert(out@ + expanded(t@, m) =~= expanded(t@, m));
    while i < t.len()
        invariant
            i <= t@.len(),
            t@ == template@,
            start <= end <= text@.len(),
            matched@ == text@.subrange(start as int, end as int),
            captures@.len() == 0,
            capture_views(captures@) == Seq::<Option<Seq<char>>>::empty(),
            m == plain_match(text@, start as nat, end as nat),
            expanded(t@, m) == out@ + expanded(t@.skip(i as int), m),
        decreases t@.len() - i,
    {
        let ghost rest = t@.skip(i as int);
        let ghost prior = out@;
        let (piece, used): (PieceText, usize) = piece_at_exec(
            &t,
            i,
            &matched,
            text,
            start,
            &captures,
            false,
        );
        let ghost s = match piece.piece() {
            Piece::Text(s) => s,
            Piece::Group(_) => Seq::empty(),
        };
        match piece {
            PieceText::Text(v) => {
                let mut v: Vec<char> = v;
                out.append(&mut v);
            },
            PieceText::Group(_) => {},
        }
        assert(out@ =~= prior + s);
        assert(rest.skip(used as int) =~= t@.skip(i + used));
        assert(prior + (s + expanded(rest.skip(used as int), m)) =~= out@ + expanded(
            rest.skip(used as int),
            m,
        ));
        i = i + used;
    }
    assert(out@ + expanded(t@.skip(i as int), m) =~= out@);
    out
}

/// A match without captures.
pub open spec fn plain_match(text: Seq<char>, start: nat, end: nat) -> Match {
    Match {
        matched: text.subrange(start as int, end as int),
        text,
        position: start,
        captures: Seq::empty(),
        named: false,
    }
}

/// What is put in place of the match at `at`: what the function returns, or the template with its
/// references replaced. The function gets the match, its place in code units, and the text.
pub open spec fn replacement(
    h: Host,
    pos: nat,
    text: Seq<char>,
    needle: Seq<char>,
    repl: Val,
    template: Seq<char>,
    at: nat,
) -> Run<Seq<char>> {
    if callable(repl) {
        let c = call(
            h,
            pos,
            repl,
            None,
            seq![
                Val::Str(needle),
                Val::Num(count_num(units(text.take(at as int)))),
                Val::Str(text),
            ],
        );
        match c.out {
            Err(e) => halted(e, c.pos),
            Ok(r) => ask_text(h, c.pos, Op::ToText, seq![r]),
        }
    } else {
        done(expanded(template, plain_match(text, at, at + needle.len())), pos)
    }
}

/// The text from `i` on with the first match replaced, or all of them, after `out`. An empty
/// pattern matches before every character and at the end.
pub open spec fn replaced_from(
    h: Host,
    pos: nat,
    text: Seq<char>,
    needle: Seq<char>,
    repl: Val,
    template: Seq<char>,
    all: bool,
    i: nat,
    out: Seq<char>,
) -> Run<Seq<char>>
    decreases text.len() + 1 - i,
{
    if i > text.len() {
        done(out, pos)
    } else {
        match text_index(text, needle, i) {
            None => done(out + text.skip(i as int), pos),
            Some(at) => {
                let r = replacement(h, pos, text, needle, repl, template, at);
                match r.out {
                    Err(e) => halted(e, r.pos),
                    Ok(s) => {
                        let shown = out + text.subrange(i as int, at as int) + s;
                        let (next, more) = if needle.len() == 0 {
                            (
                                at + 1,
                                if at < text.len() {
                                    shown.push(text[at as int])
                                } else {
                                    shown
                                },
                            )
                        } else {
                            (at + needle.len(), shown)
                        };
                        if !all {
                            done(
                                if next <= text.len() {
                                    more + text.skip(next as int)
                                } else {
                                    more
                                },
                                r.pos,
                            )
                        } else if !(i < next <= text.len() + 1) {
                            done(more, r.pos)
                        } else {
                            replaced_from(h, r.pos, text, needle, repl, template, all, next, more)
                        }
                    },
                }
            },
        }
    }
}

/// `replace`, or `replaceAll` where `all` is set, with a pattern that is no regular expression.
pub open spec fn replaced_text(h: Host, pos: nat, text: Seq<char>, pat: Val, repl: Val, all: bool) -> Run<
    Seq<char>,
> {
    let n = ask_text(h, pos, Op::ToText, seq![pat]);
    match n.out {
        Err(e) => halted(e, n.pos),
        Ok(needle) => {
            let t = if callable(repl) {
                done(Seq::empty(), n.pos)
            } else {
                ask_text(h, n.pos, Op::ToText, seq![repl])
            };
            match t.out {
                Err(e) => halted(e, t.pos),
                Ok(template) => replaced_from(
                    h,
                    t.pos,
                    text,
                    needle,
                    repl,
                    template,
                    all,
                    0,
                    Seq::empty(),
                ),
            }
        },
    }
}

/// A regular expression replaces its matches by its own method.
#[verifier::opaque]
pub open spec fn replaced_by_regex(h: Host, pos: nat, text: Seq<char>, pat: Val, repl: Val) -> Run<
    Seq<char>,
> {
    let r = regex_replace_run(h, pos, Some(pat), seq![Val::Str(text), repl]);
    match r.out {
        Err(e) => halted(e, r.pos),
        Ok(v) => ask_text(h, r.pos, Op::Display, seq![v]),
    }
}

/// `replace`, or `replaceAll` where `all` is set. A regular expression replaces by itself; for
/// `replaceAll` it has to be global.
pub open spec fn replaced(h: Host, pos: nat, text: Seq<char>, pat: Val, repl: Val, all: bool) -> Run<
    Seq<char>,
> {
    let x = ask_flag(h, pos, Op::IsRegex, seq![pat]);
    match x.out {
        Err(e) => halted(e, x.pos),
        Ok(false) => replaced_text(h, x.pos, text, pat, repl, all),
        Ok(true) => {
            let g = if all {
                get(h, x.pos, pat, "global"@)
            } else {
                done(Val::Bool(true), x.pos)
            };
            match g.out {
                Err(e) => halted(e, g.pos),
                Ok(global) => {
                    if !truthy(global) {
                        raised(
                            ErrorKind::TypeError,
                            "replaceAll must be called with a global RegExp"@,
                            g.pos,
                        )
                    } else {
                        replaced_by_regex(h, g.pos, text, pat, repl)
                    }
                },
            }
        },
    }
}

/// A number of code units, as a number.
pub fn units_as_num(n: u128) -> (r: Num)
    ensures
        r == count_num(n as nat),
{
    if n <= MAX_SAFE as u128 {
        Num::from_u64(n as u64)
    } else {
        Num::from_u64(MAX_SAFE)
    }
}

impl Interp {
    fn replacement(
        &mut self,
        text: &Vec<char>,
        needle: &Vec<char>,
        repl: &Value,
        template: &str,
        at: usize,
    ) -> (r: Result<Vec<char>, Stop>)
        requires
            old(self).wf(),
            at + needle@.len() <= text@.len(),
        ensures
            final(self).follows(*old(self)),
            ({
                let s = replacement(
                    old(self).host(),
                    old(self).pos as nat,
                    text@,
                    needle@,
                    repl@,
                    template@,
                    at as nat,
                );
                &&& s.pos == final(self).pos
                &&& match r {
                    Ok(v) => s.out == Ok::<Seq<char>, Halt>(v@),
                    Err(e) => s.out == Err::<Seq<char>, Halt>(e@),
                }
            }),
    {
        if is_callable(repl) {
            let place: Num = units_as_num(units_before(text, at));
            let r: Value = self.call_value(
                repl.clone(),
                None,
                list3(
                    Value::Str(string_of(needle)),
                    Value::Num(place),
                    Value::Str(string_of(text)),
                ),
            )?;
            let s: String = self.ask_text(Op::ToText, list1(r))?;
            Ok(chars_of(s.as_str()))
        } else {
            assert(at + needle.len() <= text.len());
            Ok(expand_replacement(template, text, at, at + needle.len()))
        }
    }

    #[verifier::loop_isolation(false)]
    fn replaced_text(&mut self, s: &str, pat: &Value, repl: &Value, all: bool) -> (r: Result<
        String,
        Stop,
    >)
        requires
            old(self).wf(),
        ensures
            final(self).follows(*old(self)),
            run_text(r, *final(self)) == replaced_text(
                old(self).host(),
                old(self).pos as nat,
                s@,
                pat@,
                repl@,
                all,
            ),
    {
        let needle: String = self.ask_text(Op::ToText, list1(pat.clone()))?;
        let template: String = if is_callable(repl) {
            String::new()
        } else {
            self.ask_text(Op::ToText, list1(repl.clone()))?
        };
        let hay: Vec<char> = chars_of(s);
        let nchars: Vec<char> = chars_of(needle.as_str());
        let ghost goal = replaced_from(
            self.host(),
            self.pos as nat,
            s@,
            needle@,
            repl@,
            template@,
            all,
            0,
            Seq::empty(),
        );
        let mut out: Vec<char> = Vec::new();
        assert(out@ =~= Seq::<char>::empty());
        let mut i: usize = 0;
        while i <= hay.len()
            invariant
                hay@ == s@,
                nchars@ == needle@,
                self.follows(*old(self)),
                goal == replaced_from(
                    self.host(),
                    self.pos as nat,
                    s@,
                    needle@,
                    repl@,
                    template@,
                    all,
                    i as nat,
                    out@,
                ),
            decreases hay@.len() + 1 - i,
        {
            match find_text(&hay, &nchars, i) {
                None => {
                    let mut rest: Vec<char> = slice_chars(&hay, i, hay.len());
                    assert(hay@.subrange(i as int, hay@.len() as int) =~= hay@.skip(i as int));
                    out.append(&mut rest);
                    return Ok(string_of(&out));
                },
                Some(at) => {
                    let mut put: Vec<char> = self.replacement(
                        &hay,
                        &nchars,
                        repl,
                        template.as_str(),
                        at,
                    )?;
                    let mut gap: Vec<char> = slice_chars(&hay, i, at);
                    out.append(&mut gap);
                    out.append(&mut put);
                    proof {
                        law_text_index(s@, needle@, i as nat);
                    }
                    let next: usize = if nchars.len() == 0 {
                        if at >= hay.len() {
                            assert(replaced_from(
                                self.host(),
                                self.pos as nat,
                                s@,
                                needle@,
                                repl@,
                                template@,
                                all,
                                (at + 1) as nat,
                                out@,
                            ) == done(out@, self.pos as nat));
                            return Ok(string_of(&out));
                        }
                        out.push(hay[at]);
                        at + 1
                    } else {
                        at + nchars.len()
                    };
                    if !all {
                        if next <= hay.len() {
                            let mut rest: Vec<char> = slice_chars(&hay, next, hay.len());
                            assert(hay@.subrange(next as int, hay@.len() as int) =~= hay@.skip(
                                next as int,
                            ));
                            out.append(&mut rest);
                        }
                        return Ok(string_of(&out));
                    }
                    i = next;
                },
            }
        }
        Ok(string_of(&out))
    }

    fn replaced_by_regex(&mut self, s: &str, pat: &Value, repl: &Value) -> (r: Result<String, Stop>)
        requires
            old(self).wf(),
        ensures
            final(self).follows(*old(self)),
            run_text(r, *final(self)) == replaced_by_regex(
                old(self).host(),
                old(self).pos as nat,
                s@,
                pat@,
                repl@,
            ),
    {
        proof {
            reveal(replaced_by_regex);
        }
        let v: Value = self.regex_replace(
            &Some(pat.clone()),
            &list2(text_value(s), repl.clone()),
        )?;
        self.ask_text(Op::Display, list1(v))
    }

    /// `replace`, or `replaceAll` where `all` is set.
    pub fn str_replace(&mut self, s: &str, pat: &Value, repl: &Value, all: bool) -> (r: Result<
        String,
        Stop,
    >)
        requires
            old(self).wf(),
        ensures
            final(self).follows(*old(self)),
            run_text(r, *final(self)) == replaced(
                old(self).host(),
                old(self).pos as nat,
                s@,
                pat@,
                repl@,
                all,
            ),
    {
        if !self.ask_flag(Op::IsRegex, list1(pat.clone()))? {
            return self.replaced_text(s, pat, repl, all);
        }
        if all {
            let g: Value = self.member_get(pat, "global")?;
            if !to_bool(&g) {
                return Err(
                    fail(ErrorKind::TypeError, "replaceAll must be called with a global RegExp"),
                );
            }
        }
        self.replaced_by_regex(s, pat, repl)
    }
}

/// A pattern that does not occur changes nothing, and asks nothing.
pub proof fn law_replace_absent(
    h: Host,
    pos: nat,
    text: Seq<char>,
    needle: Seq<char>,
    repl: Val,
    template: Seq<char>,
    all: bool,
)
    requires
        forall|j: nat| !#[trigger] crate::text::stands_at(text, needle, j),
    ensures
        replaced_from(h, pos, text, needle, repl, template, all, 0, Seq::empty()) == done(text, pos),
{
    law_text_index(text, needle, 0);
    assert(Seq::<char>::empty() + text.skip(0) =~= text);
}

proof fn lemma_expands_to_match(m: Match)
    ensures
        expanded(seq!['$', '&'], m) == m.matched,
{
    let t = seq!['$', '&'];
    let (piece, used) = piece_at(t, m);
    assert(used == 2);
    assert(t.skip(2) =~= Seq::<char>::empty());
    assert(expanded(t.skip(2), m) =~= Seq::<char>::empty());
    assert(expanded(t, m) =~= m.matched);
}

/// A template that names only the match puts every match back: the text comes out as it was.
#[verifier::spinoff_prover]
#[verifier::rlimit(60)]
pub proof fn law_replace_by_match(
    h: Host,
    pos: nat,
    text: Seq<char>,
    needle: Seq<char>,
    repl: Val,
    all: bool,
    i: nat,
)
    requires
        !callable(repl),
        i <= text.len(),
    ensures
        replaced_from(
            h,
            pos,
            text,
            needle,
            repl,
            seq!['$', '&'],
            all,
            i,
            text.take(i as int),
        ) == done(text, pos),
    decreases text.len() - i,
{
    let t = seq!['$', '&'];
    let out = text.take(i as int);
    law_text_index(text, needle, i);
    match text_index(text, needle, i) {
        None => {
            assert(out + text.skip(i as int) =~= text);
        },
        Some(at) => {
            let m = plain_match(text, at, at + needle.len());
            lemma_expands_to_match(m);
            let shown = out + text.subrange(i as int, at as int) + m.matched;
            assert(shown =~= text.take((at + needle.len()) as int));
            if needle.len() == 0 {
                if at < text.len() {
                    assert(shown.push(text[at as int]) =~= text.take((at + 1) as int));
                    if all {
                        law_replace_by_match(h, pos, text, needle, repl, all, at + 1);
                    } else {
                        assert(text.take((at + 1) as int) + text.skip((at + 1) as int) =~= text);
                    }
                } else {
                    assert(shown =~= text);
                    assert(replaced_from(h, pos, text, needle, repl, t, all, at + 1, text) == done(
                        text,
                        pos,
                    ));
                }
            } else {
                let next = at + needle.len();
                if all {
                    law_replace_by_match(h, pos, text, needle, repl, all, next);
                } else {
                    assert(text.take(next as int) + text.skip(next as int) =~= text);
                }
            }
        },
    }
}

/// A template without a dollar sign stands for itself.
pub proof fn law_plain_template(t: Seq<char>, m: Match)
    requires
        !t.contains('$'),
    ensures
        expanded(t, m) == t,
    decreases t.len(),
{
    if t.len() > 0 {
        assert(t[0] != '$') by {
            if t[0] == '$' {
                assert(t.contains('$'));
            }
        }
        let rest = t.skip(1);
        assert(!rest.contains('$')) by {
            if rest.contains('$') {
                let k = choose|k: int| 0 <= k < rest.len() && rest[k] == '$';
                assert(t[k + 1] == '$');
                assert(t.contains('$'));
            }
        }
        law_plain_template(rest, m);
        assert(seq![t[0]] + rest =~= t);
    }
}

/// Without named groups a substitution asks nothing and is the expanded template.
pub proof fn law_substitution_expands(
    h: Host,
    pos: nat,
    t: Seq<char>,
    m: Match,
    groups: Val,
    out: Seq<char>,
)
    requires
        !m.named,
    ensures
        substitution(h, pos, t, m, groups, out) == done(out + expanded(t, m), pos),
    decreases t.len(),
{
    if t.len() == 0 {
        assert(out + expanded(t, m) =~= out);
    } else {
        lemma_piece_len(t, m);
        let (piece, used) = piece_at(t, m);
        assert(piece is Text);
        let s = piece->Text_0;
        law_substitution_expands(h, pos, t.skip(used as int), m, groups, out + s);
        assert((out + s) + expanded(t.skip(used as int), m) =~= out + expanded(t, m));
    }
}

} // verus!
