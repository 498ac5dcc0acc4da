//! The text of JSON: quoting, indentation, and the layout of arrays and objects.
use crate::text::{chars_of, extend_chars, hex_lower, hex_lower_char, hex_value};
use vstd::prelude::*;

verus! {

/// A character inside a JSON string.
pub open spec fn quoted_char(c: char) -> Seq<char> {
    if c == '"' {
        seq!['\\', '"']
    } else if c == '\\' {
        seq!['\\', '\\']
    } else if c as u32 == 8 {
        seq!['\\', 'b']
    } else if c == '\t' {
        seq!['\\', 't']
    } else if c == '\n' {
        seq!['\\', 'n']
    } else if c as u32 == 12 {
        seq!['\\', 'f']
    } else if c == '\r' {
        seq!['\\', 'r']
    } else if (c as u32) < 0x20 {
        seq!['\\', 'u', '0', '0', hex_lower((c as u32 / 16) as nat), hex_lower((c as u32 % 16) as nat)]
    } else {
        seq![c]
    }
}

pub open spec fn quoted_chars(s: Seq<char>) -> Seq<char>
    decreases s.len(),
{
    if s.len() == 0 {
        Seq::empty()
    } else {
        quoted_chars(s.drop_last()) + quoted_char(s.last())
    }
}

/// A text as a JSON string.
pub open spec fn quoted(s: Seq<char>) -> Seq<char> {
    seq!['"'] + quoted_chars(s) + seq!['"']
}

fn push_quoted(out: &mut Vec<char>, c: char)
    ensures
        final(out)@ == old(out)@ + quoted_char(c),
{
    let ghost before = out@;
    let n: u32 = c as u32;
    if c == '"' {
        out.push('\\');
        out.push('"');
    } else if c == '\\' {
        out.push('\\');
        out.push('\\');
    } else if n == 8 {
        out.push('\\');
        out.push('b');
    } else if c == '\t' {
        out.push('\\');
        out.push('t');
    } else if c == '\n' {
        out.push('\\');
        out.push('n');
    } else if n == 12 {
        out.push('\\');
        out.push('f');
    } else if c == '\r' {
        out.push('\\');
        out.push('r');
    } else if n < 0x20 {
        out.push('\\');
        out.push('u');
        out.push('0');
        out.push('0');
        out.push(hex_lower_char((n / 16) as u8));
        out.push(hex_lower_char((n % 16) as u8));
    } else {
        out.push(c);
    }
    assert(out@ =~= before + quoted_char(c));
}

/// A text as a JSON string.
pub fn json_quote(s: &str) -> (r: Vec<char>)
    ensures
        r@ == quoted(s@),
{
    let cs: Vec<char> = chars_of(s);
    let mut out: Vec<char> = Vec::new();
    out.push('"');
    let mut i: usize = 0;
    assert(cs@.take(0) =~= Seq::<char>::empty());
    assert(out@ =~= seq!['"'] + quoted_chars(cs@.take(0)));
    while i < cs.len()
        invariant
            i <= cs@.len(),
            out@ == seq!['"'] + quoted_chars(cs@.take(i as int)),
        decreases cs@.len() - i,
    {
        push_quoted(&mut out, cs[i]);
        assert(cs@.take(i + 1).drop_last() =~= cs@.take(i as int));
        i = i + 1;
        assert(out@ =~= seq!['"'] + quoted_chars(cs@.take(i as int)));
    }
    assert(cs@.take(i as int) =~= cs@);
    out.push('"');
    assert(out@ =~= quoted(s@));
    out
}

/// A text `n` times.
pub open spec fn repeated(s: Seq<char>, n: nat) -> Seq<char>
    decreases n,
{
    if n == 0 {
        Seq::empty()
    } else {
        repeated(s, (n - 1) as nat) + s
    }
}

fn push_repeated(out: &mut Vec<char>, s: &str, n: u128)
    ensures
        final(out)@ == old(out)@ + repeated(s@, n as nat),
{
    let ghost before = out@;
    let mut i: u128 = 0;
    assert(out@ =~= before + repeated(s@, 0));
    while i < n
        invariant
            i <= n,
            out@ == before + repeated(s@, i as nat),
        decreases n - i,
    {
        extend_chars(out, s);
        i = i + 1;
        assert(out@ =~= before + repeated(s@, i as nat));
    }
}

/// The break before an element: a new line and the indentation, or nothing without indentation.
pub open spec fn break_at(indent: Seq<char>, depth: nat) -> Seq<char> {
    if indent.len() == 0 {
        Seq::empty()
    } else {
        seq!['\n'] + repeated(indent, depth)
    }
}

/// Appends the break at `depth`, or one deeper where `inside` is set.
fn push_break(out: &mut Vec<char>, indent: &str, depth: u128, inside: bool)
    ensures
        final(out)@ == old(out)@ + break_at(
            indent@,
            if inside {
                depth as nat + 1
            } else {
                depth as nat
            },
        ),
{
    let ghost before = out@;
    if !indent.is_empty() {
        out.push('\n');
        push_repeated(out, indent, depth);
        if inside {
            extend_chars(out, indent);
        }
    }
    assert(out@ =~= before + break_at(
        indent@,
        if inside {
            depth as nat + 1
        } else {
            depth as nat
        },
    ));
}

/// The parts with a separator between them.
pub open spec fn joined(parts: Seq<Seq<char>>, sep: Seq<char>) -> Seq<char>
    decreases parts.len(),
{
    if parts.len() == 0 {
        Seq::empty()
    } else if parts.len() == 1 {
        parts[0]
    } else {
        joined(parts.drop_last(), sep) + sep + parts.last()
    }
}

/// An array or an object around its parts, at `depth`.
pub open spec fn wrapped(
    parts: Seq<Seq<char>>,
    open: char,
    close: char,
    indent: Seq<char>,
    depth: nat,
) -> Seq<char> {
    if parts.len() == 0 {
        seq![open, close]
    } else {
        seq![open] + break_at(indent, depth + 1) + joined(
            parts,
            seq![','] + break_at(indent, depth + 1),
        ) + break_at(indent, depth) + seq![close]
    }
}

pub open spec fn part_views(parts: Seq<Vec<char>>) -> Seq<Seq<char>> {
    Seq::new(parts.len(), |i: int| parts[i]@)
}

/// Lays out an array or an object around its parts.
pub fn wrap(parts: &Vec<Vec<char>>, open: char, close: char, indent: &str, depth: u128) -> (r: Vec<char>)
    ensures
        r@ == wrapped(part_views(parts@), open, close, indent@, depth as nat),
{
    let ghost views = part_views(parts@);
    let mut out: Vec<char> = Vec::new();
    out.push(open);
    if parts.len() == 0 {
        out.push(close);
        assert(out@ =~= seq![open, close]);
        return out;
    }
    push_break(&mut out, indent, depth, true);
    let ghost head = out@;
    let ghost sep = seq![','] + break_at(indent@, (depth + 1) as nat);
    assert(head =~= seq![open] + break_at(indent@, (depth + 1) as nat));
    let mut i: usize = 0;
    while i < parts.len()
        invariant
            i <= parts@.len(),
            views == part_views(parts@),
            sep == seq![','] + break_at(indent@, (depth + 1) as nat),
            out@ == head + joined(views.take(i as int), sep),
        decreases parts@.len() - i,
    {
        let ghost prior = out@;
        if i > 0 {
            out.push(',');
            push_break(&mut out, indent, depth, true);
            assert(out@ =~= prior + sep);
        }
        let mut part: Vec<char> = parts[i].clone();
        assert(part@ =~= parts@[i as int]@);
        out.append(&mut part);
        assert(views.take(i + 1).drop_last() =~= views.take(i as int));
        assert(views.take(i + 1).last() == parts@[i as int]@);
        assert(out@ =~= head + joined(views.take(i + 1), sep)) by {
            if i == 0 {
                assert(views.take(0) =~= Seq::<Seq<char>>::empty());
                assert(views.take(1)[0] == parts@[0]@);
            }
        }
        i = i + 1;
    }
    assert(views.take(i as int) =~= views);
    push_break(&mut out, indent, depth, false);
    out.push(close);
    assert(out@ =~= wrapped(views, open, close, indent@, depth as nat));
    out
}

/// The character that stands at the start of the inside of a JSON string, and how many characters
/// it is written with.
pub open spec fn first_meant(t: Seq<char>) -> (char, nat) {
    if t[0] != '\\' {
        (t[0], 1)
    } else if t[1] == 'u' {
        (
            (hex_value(t[2])->0 * 4096 + hex_value(t[3])->0 * 256 + hex_value(t[4])->0 * 16
                + hex_value(t[5])->0) as char,
            6,
        )
    } else if t[1] == 'b' {
        (8 as char, 2)
    } else if t[1] == 't' {
        ('\t', 2)
    } else if t[1] == 'n' {
        ('\n', 2)
    } else if t[1] == 'f' {
        (12 as char, 2)
    } else if t[1] == 'r' {
        ('\r', 2)
    } else {
        (t[1], 2)
    }
}

/// The text that the inside of a JSON string stands for.
pub open spec fn meant(t: Seq<char>) -> Seq<char>
    decreases t.len(),
{
    if t.len() == 0 {
        Seq::empty()
    } else {
        let (c, n) = first_meant(t);
        if n < t.len() {
            seq![c] + meant(t.skip(n as int))
        } else {
            seq![c]
        }
    }
}

proof fn lemma_first_meant(c: char, rest: Seq<char>)
    ensures
        first_meant(quoted_char(c) + rest) == (c, quoted_char(c).len()),
        (quoted_char(c) + rest).skip(quoted_char(c).len() as int) == rest,
        quoted_char(c).len() > 0,
{
    let q = quoted_char(c);
    let t = q + rest;
    assert(t.skip(q.len() as int) =~= rest);
    assert(forall|i: int| 0 <= i < q.len() ==> t[i] == q[i]);
    let n = c as u32;
    if n < 0x20 && n != 8 && n != 12 && c != '\t' && c != '\n' && c != '\r' {
        assert(hex_value('0') == Some(0nat));
        assert(hex_value(hex_lower((n / 16) as nat)) == Some((n / 16) as nat));
        assert(hex_value(hex_lower((n % 16) as nat)) == Some((n % 16) as nat));
        assert((n / 16) * 16 + n % 16 == n);
    }
}

proof fn lemma_quoted_first(s: Seq<char>)
    requires
        s.len() > 0,
    ensures
        quoted_chars(s) == quoted_char(s[0]) + quoted_chars(s.skip(1)),
    decreases s.len(),
{
    let rest = s.drop_last();
    if s.len() == 1 {
        assert(rest =~= Seq::empty());
        assert(s.skip(1) =~= Seq::empty());
        assert(quoted_chars(s) =~= quoted_char(s[0]) + quoted_chars(s.skip(1)));
    } else {
        lemma_quoted_first(rest);
        assert(rest.skip(1) =~= s.skip(1).drop_last());
        assert(quoted_chars(s) =~= quoted_char(s[0]) + quoted_chars(s.skip(1)));
    }
}

/// What a text is quoted as stands for that text again.
pub proof fn law_quoted_reads_back(s: Seq<char>)
    ensures
        meant(quoted_chars(s)) == s,
    decreases s.len(),
{
    if s.len() > 0 {
        lemma_quoted_first(s);
        lemma_first_meant(s[0], quoted_chars(s.skip(1)));
        law_quoted_reads_back(s.skip(1));
        assert(seq![s[0]] + s.skip(1) =~= s);
        assert(quoted_chars(s).len() == quoted_char(s[0]).len() + quoted_chars(s.skip(1)).len());
        if s.len() == 1 {
            assert(s.skip(1) =~= Seq::empty());
            assert(seq![s[0]] =~= s);
        } else {
            lemma_quoted_first(s.skip(1));
            lemma_first_meant(s[1], quoted_chars(s.skip(1).skip(1)));
        }
    }
}

} // verus!
