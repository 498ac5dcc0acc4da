//! What the methods of regular expressions make of the matches that were found.
use crate::array_live::count_num;
use crate::host::{done, settles, text_in, Answer, Halt, Host, Op, Question};
use crate::number::{num_of, Num};
use crate::objects::set_or_throw;
use crate::regexp::{
    all_hits, collect_flags, exec_end, find_run, flag_names, has_char, match_array_run, next_hit,
    regex_test_run, swap_all, swap_of, swapped_in, FoundV, HitV, SwapV,
};
use crate::str_ops::{add_groups, regex_pieces};
use crate::value::Val;
use vstd::prelude::*;

verus! {

/// The matches from the `i`-th on give these places, texts and replacements.
pub open spec fn swaps_are(
    h: Host,
    pos: nat,
    hits: Seq<HitV>,
    i: int,
    s: Seq<char>,
    repl: Val,
    template: Seq<char>,
    ws: Seq<SwapV>,
) -> bool
    decreases hits.len() - i,
{
    !(0 <= i < hits.len()) || {
        let w = swap_of(h, pos, hits[i].result, s, repl, template);
        settles(w, ws[i]) && (w.out is Ok ==> swaps_are(
            h,
            w.pos,
            hits,
            i + 1,
            s,
            repl,
            template,
            ws,
        ))
    }
}

/// The matches lie in a text one behind the other.
pub open spec fn in_turn(s: Seq<char>, ws: Seq<SwapV>, from: nat) -> bool
    decreases ws.len(),
{
    if ws.len() == 0 {
        from <= s.len()
    } else {
        let w = ws[0];
        &&& from <= w.position
        &&& w.position + w.matched.len() <= s.len()
        &&& w.matched == s.subrange(w.position as int, (w.position + w.matched.len()) as int)
        &&& in_turn(s, ws.skip(1), w.position + w.matched.len())
    }
}

/// A text from a place on, with other texts in place of the matches: what lies before the first
/// match, what takes its place, and so on with what follows it.
pub open spec fn put_together(s: Seq<char>, ws: Seq<SwapV>, from: nat) -> Seq<char>
    decreases ws.len(),
{
    if ws.len() == 0 {
        s.skip(from as int)
    } else {
        let w = ws[0];
        s.subrange(from as int, w.position as int) + w.replacement + put_together(
            s,
            ws.skip(1),
            w.position + w.matched.len(),
        )
    }
}

/// Replacing keeps what was not matched.
pub proof fn law_replaced_text(
    h: Host,
    pos: nat,
    hits: Seq<HitV>,
    i: int,
    s: Seq<char>,
    repl: Val,
    template: Seq<char>,
    ws: Seq<SwapV>,
    out: Seq<char>,
    next: nat,
)
    requires
        0 <= i <= hits.len(),
        ws.len() == hits.len(),
        swaps_are(h, pos, hits, i, s, repl, template, ws),
        in_turn(s, ws.skip(i), next),
    ensures
        settles(
            swap_all(h, pos, hits, i, s, repl, template, out, next),
            Val::Str(out + put_together(s, ws.skip(i), next)),
        ),
    decreases hits.len() - i,
{
    if i < hits.len() {
        let w = swap_of(h, pos, hits[i].result, s, repl, template);
        if w.out is Ok {
            let x = ws[i];
            let rest = ws.skip(i);
            assert(rest[0] == x);
            assert(rest.skip(1) =~= ws.skip(i + 1));
            let n = x.position + x.matched.len();
            let o = out + s.subrange(next as int, x.position as int) + x.replacement;
            assert(swapped_in(s, out, next, x) == (o, n));
            law_replaced_text(h, w.pos, hits, i + 1, s, repl, template, ws, o, n);
            assert(o + put_together(s, ws.skip(i + 1), n) =~= out + put_together(s, rest, next));
        }
    } else {
        assert(ws.skip(i) =~= Seq::empty());
        if next < s.len() {
            assert(out + s.skip(next as int) =~= out + put_together(s, ws.skip(i), next));
        } else {
            assert(out =~= out + put_together(s, ws.skip(i), next));
        }
    }
}

/// Where every replacement is what was matched, the text stays as it is.
pub proof fn law_replaced_by_itself(s: Seq<char>, ws: Seq<SwapV>, from: nat)
    requires
        in_turn(s, ws, from),
        forall|i: int| 0 <= i < ws.len() ==> (#[trigger] ws[i]).replacement == ws[i].matched,
    ensures
        put_together(s, ws, from) == s.skip(from as int),
    decreases ws.len(),
{
    if ws.len() > 0 {
        let w = ws[0];
        let n = w.position + w.matched.len();
        let rest = ws.skip(1);
        assert forall|i: int| 0 <= i < rest.len() implies (#[trigger] rest[i]).replacement
            == rest[i].matched by {
            assert(rest[i] == ws[i + 1]);
        }
        law_replaced_by_itself(s, rest, n);
        assert(put_together(s, ws, from) =~= s.skip(from as int));
    }
}

/// A text without a match stays as it is.
pub proof fn law_nothing_replaced(h: Host, pos: nat, s: Seq<char>, repl: Val, template: Seq<char>)
    ensures
        swap_all(h, pos, Seq::empty(), 0, s, repl, template, Seq::empty(), 0) == done(
            Val::Str(s),
            pos,
        ),
{
    assert(s.skip(0) =~= s);
    assert(Seq::<char>::empty() + s =~= s);
    if s.len() == 0 {
        assert(s =~= Seq::empty());
    }
}

/// The engine says that a value is a regular expression, which text is searched, and that the
/// expression is in order.
pub open spec fn regex_told(
    h: Host,
    r: Val,
    src: Seq<char>,
    flags: Seq<char>,
    v: Val,
    text: Seq<char>,
) -> bool {
    &&& h.len >= 3
    &&& (h.reply)(0, Question { op: Op::RegexParts, args: seq![r] }) == Answer::List(
        seq![Val::Str(src), Val::Str(flags)],
    )
    &&& (h.reply)(1, Question { op: Op::ToText, args: seq![v] }) == Answer::Value(Val::Str(text))
    &&& (h.reply)(2, Question { op: Op::RegexFault, args: seq![Val::Str(src), Val::Str(flags)] })
        == Answer::Absent
}

/// The question for the first match from a place on.
pub open spec fn find_asked(src: Seq<char>, flags: Seq<char>, text: Seq<char>, from: nat) -> Question {
    Question {
        op: Op::RegexFind,
        args: seq![Val::Str(src), Val::Str(flags), Val::Str(text), Val::Num(count_num(from))],
    }
}

/// `test` says whether there is a match from the start on.
pub proof fn law_test(
    h: Host,
    r: Val,
    src: Seq<char>,
    flags: Seq<char>,
    v: Val,
    text: Seq<char>,
)
    requires
        regex_told(h, r, src, flags, v, text),
        h.len == 4,
        !((h.reply)(3, find_asked(src, flags, text, 0)) is Throw),
    ensures
        regex_test_run(h, 0, Some(r), seq![v]) == done(
            Val::Bool((h.reply)(3, find_asked(src, flags, text, 0)) is List),
            4,
        ),
{
    assert(seq![v][0] == v);
    assert(seq![Val::Str(src), Val::Str(flags)][0] == Val::Str(src));
    assert(seq![Val::Str(src), Val::Str(flags)][1] == Val::Str(flags));
}

/// The array of a match holds the text of the match and of its groups, undefined for a group that
/// took no part.
pub proof fn law_match_groups(h: Host, pos: nat, text: Seq<char>, f: FoundV, names: Seq<Val>, i: int)
    requires
        h.len == pos,
        0 <= i < f.groups.len(),
    ensures
        match_array_run(h, pos, text, f, names).out matches Err(Halt::Ask(q)) && q.op
            == Op::NewArray && q.args.len() == f.groups.len() && q.args[i] == match f.groups[i] {
            Some(p) => Val::Str(text.subrange(p.0 as int, p.1 as int)),
            None => Val::Undefined,
        },
{
}

/// After a match an expression that goes on moves behind it, and otherwise back to the start.
pub proof fn law_exec_moves(
    h: Host,
    pos: nat,
    r: Val,
    src: Seq<char>,
    flags: Seq<char>,
    text: Seq<char>,
    from: nat,
    m: Option<FoundV>,
    at: Num,
)
    requires
        at == match m {
            Some(f) => count_num(f.end),
            None => num_of(0),
        },
        find_run(h, pos, src, flags, text, from) == done(m, pos + 1),
        h.len == pos + 1,
        !flags.contains('y'),
    ensures
        exec_end(h, pos, r, src, flags, text, from, true).out == Err::<Val, _>(
            Halt::Ask(
                Question {
                    op: Op::Assign,
                    args: seq![r, Val::Str("lastIndex"@), Val::Num(at), r],
                },
            ),
        ),
        m is None ==> exec_end(h, pos, r, src, flags, text, from, false) == done(
            Val::Null,
            pos + 1,
        ),
{
    lemma_char_absent(flags, 'y', 0);
    assert(!has_char(flags, 'y'));
    let q = Question { op: Op::Assign, args: seq![r, Val::Str("lastIndex"@), Val::Num(at), r] };
    let set = set_or_throw(h, pos + 1, r, "lastIndex"@, Val::Num(at));
    assert(set.out == Err::<(), _>(Halt::Ask(q)));
    if m is Some {
        assert(exec_end(h, pos, r, src, flags, text, from, true).out == Err::<Val, _>(
            Halt::Ask(q),
        ));
    } else {
        assert(exec_end(h, pos, r, src, flags, text, from, true).out == Err::<Val, _>(
            Halt::Ask(q),
        ));
    }
}

proof fn lemma_char_absent(s: Seq<char>, c: char, from: nat)
    requires
        !s.contains(c),
    ensures
        crate::text::char_index(s, c, from) is None,
    decreases s.len() - from,
{
    if from < s.len() {
        assert(s[from as int] != c);
        lemma_char_absent(s, c, from + 1);
    }
}

/// The properties that tell of the flags, in the order of their letters.
pub open spec fn flag_properties() -> Seq<Seq<char>> {
    seq![
        "hasIndices"@,
        "global"@,
        "ignoreCase"@,
        "multiline"@,
        "dotAll"@,
        "unicode"@,
        "unicodeSets"@,
        "sticky"@,
    ]
}

pub open spec fn flag_letters() -> Seq<char> {
    seq!['d', 'g', 'i', 'm', 's', 'u', 'v', 'y']
}

/// The letters of the first `n` flags that are set.
pub open spec fn letters_set(set: Seq<bool>, n: nat) -> Seq<char>
    decreases n,
{
    if n == 0 {
        Seq::empty()
    } else if set[n - 1] {
        letters_set(set, (n - 1) as nat).push(flag_letters()[n - 1])
    } else {
        letters_set(set, (n - 1) as nat)
    }
}

/// `flags` lists the letters of the flags that are set, in the order of the alphabet.
pub proof fn law_flags(h: Host, pos: nat, this: Val, set: Seq<bool>, i: int)
    requires
        0 <= i <= 8,
        set.len() == 8,
        h.len >= pos + 8 - i,
        forall|k: int|
            i <= k < 8 ==> (h.reply)(
                (pos + k - i) as nat,
                Question {
                    op: Op::Get,
                    args: seq![this, Val::Str(#[trigger] flag_properties()[k])],
                },
            ) == Answer::Value(Val::Bool(set[k])),
    ensures
        collect_flags(h, pos, this, i, letters_set(set, i as nat)) == done(
            Val::Str(letters_set(set, 8)),
            (pos + 8 - i) as nat,
        ),
    decreases 8 - i,
{
    assert(flag_names().len() == 8);
    if i < 8 {
        assert(flag_names()[i].0 == flag_properties()[i]);
        assert(flag_names()[i].1 == flag_letters()[i]);
        assert forall|k: int| i + 1 <= k < 8 implies (h.reply)(
            (pos + 1 + k - (i + 1)) as nat,
            Question { op: Op::Get, args: seq![this, Val::Str(#[trigger] flag_properties()[k])] },
        ) == Answer::Value(Val::Bool(set[k])) by {
            assert(pos + 1 + k - (i + 1) == pos + k - i);
        }
        assert((pos + i - i) as nat == pos);
        law_flags(h, pos + 1, this, set, i + 1);
    }
}

/// The pieces of a text from a place on, between matches that start and end at these places.
pub open spec fn pieces(s: Seq<char>, p: nat, cuts: Seq<(nat, nat)>) -> Seq<Val>
    decreases cuts.len(),
{
    if cuts.len() == 0 {
        seq![Val::Str(s.skip(p as int))]
    } else {
        seq![Val::Str(s.subrange(p as int, cuts[0].0 as int))] + pieces(
            s,
            cuts[0].1,
            cuts.skip(1),
        )
    }
}

/// A text put together again from its pieces, with the matches between them.
pub open spec fn woven(s: Seq<char>, l: Seq<Val>, cuts: Seq<(nat, nat)>) -> Seq<char>
    decreases cuts.len(),
{
    if cuts.len() == 0 {
        text_in(l[0])
    } else {
        text_in(l[0]) + s.subrange(cuts[0].0 as int, cuts[0].1 as int) + woven(
            s,
            l.skip(1),
            cuts.skip(1),
        )
    }
}

pub open spec fn cuts_in(s: Seq<char>, p: nat, cuts: Seq<(nat, nat)>) -> bool
    decreases cuts.len(),
{
    if cuts.len() == 0 {
        p <= s.len()
    } else {
        p <= cuts[0].0 && cuts[0].0 <= cuts[0].1 && cuts[0].1 <= s.len() && cuts_in(
            s,
            cuts[0].1,
            cuts.skip(1),
        )
    }
}

/// The pieces and the matches between them are the whole text.
pub proof fn law_pieces_whole(s: Seq<char>, p: nat, cuts: Seq<(nat, nat)>)
    requires
        cuts_in(s, p, cuts),
    ensures
        pieces(s, p, cuts).len() == cuts.len() + 1,
        woven(s, pieces(s, p, cuts), cuts) == s.skip(p as int),
    decreases cuts.len(),
{
    let l = pieces(s, p, cuts);
    if cuts.len() > 0 {
        law_pieces_whole(s, cuts[0].1, cuts.skip(1));
        assert(l.skip(1) =~= pieces(s, cuts[0].1, cuts.skip(1)));
        assert(l[0] == Val::Str(s.subrange(p as int, cuts[0].0 as int)));
        assert(woven(s, l, cuts) =~= s.skip(p as int));
    }
}

/// The matches that the engine finds from `q` on, none of them empty and none with groups.
pub open spec fn cuts_found(
    h: Host,
    pos: nat,
    src: Seq<char>,
    flags: Seq<char>,
    s: Seq<char>,
    q: nat,
    cuts: Seq<(nat, nat)>,
) -> bool
    decreases cuts.len(),
{
    if q >= s.len() {
        cuts.len() == 0
    } else {
        let f = find_run(h, pos, src, flags, s, q);
        match f.out {
            Err(e) => e is Ask,
            Ok(None) => cuts.len() == 0,
            Ok(Some(m)) => cuts.len() > 0 && cuts[0] == (m.start, m.end) && q <= m.start < m.end
                <= s.len() && m.groups.len() <= 1 && cuts_found(
                h,
                f.pos,
                src,
                flags,
                s,
                m.end,
                cuts.skip(1),
            ),
        }
    }
}

/// `split` by a regular expression gives the pieces of the text between the matches.
pub proof fn law_split_by_regex(
    h: Host,
    pos: nat,
    src: Seq<char>,
    flags: Seq<char>,
    s: Seq<char>,
    limit: nat,
    p: nat,
    out: Seq<Val>,
    cuts: Seq<(nat, nat)>,
)
    requires
        p <= s.len(),
        cuts_found(h, pos, src, flags, s, p, cuts),
        out.len() + cuts.len() < limit,
    ensures
        settles(
            regex_pieces(h, pos, src, flags, s, limit, p, p, out),
            out + pieces(s, p, cuts),
        ),
    decreases cuts.len(),
{
    if p < s.len() {
        let f = find_run(h, pos, src, flags, s, p);
        if let Ok(Some(m)) = f.out {
            let piece = Val::Str(s.subrange(p as int, m.start as int));
            let more = out.push(piece);
            assert(add_groups(s, m, 1, limit, more) == more);
            law_split_by_regex(h, f.pos, src, flags, s, limit, m.end, more, cuts.skip(1));
            assert(more + pieces(s, m.end, cuts.skip(1)) =~= out + pieces(s, p, cuts));
        } else if f.out is Ok {
            assert(out.push(Val::Str(s.skip(p as int))) =~= out + pieces(s, p, cuts));
        }
    } else {
        assert(out.push(Val::Str(s.skip(p as int))) =~= out + pieces(s, p, cuts));
    }
}

/// A match that is looked for only once is the only one; all matches are collected in order until
/// there is none.
pub proof fn law_hits(
    h: Host,
    pos: nat,
    re: Val,
    s: Seq<char>,
    fuel: nat,
    out: Seq<HitV>,
    hit: HitV,
)
    requires
        fuel > 0,
        next_hit(h, pos, re, s).out == Ok::<Option<HitV>, Halt>(Some(hit)),
    ensures
        all_hits(h, pos, re, s, false, fuel, out).out == Ok::<Seq<HitV>, Halt>(out.push(hit)),
        hit.text.len() > 0 ==> all_hits(h, pos, re, s, true, fuel, out) == all_hits(
            h,
            next_hit(h, pos, re, s).pos,
            re,
            s,
            true,
            (fuel - 1) as nat,
            out.push(hit),
        ),
{
}

/// Where there is no match, the matches that were found are all.
pub proof fn law_no_more_hits(h: Host, pos: nat, re: Val, s: Seq<char>, global: bool, fuel: nat, out: Seq<HitV>)
    requires
        fuel > 0,
        next_hit(h, pos, re, s).out == Ok::<Option<HitV>, Halt>(None),
    ensures
        all_hits(h, pos, re, s, global, fuel, out).out == Ok::<Seq<HitV>, Halt>(out),
{
}

} // verus!
