//! What a JSON text says of the value that it was made from.
use crate::host::{done, get, settles, Answer, Halt, Host, Op, Question};
use crate::json::{
    json_body, json_items, json_members, json_prepared, json_value, later, member_text, Identity,
    JsonCtx,
};
use crate::json_text::{
    law_quoted_reads_back, meant, quoted, quoted_char, quoted_chars, repeated, wrapped,
};
use crate::text::decimal;
use crate::value::{object, Kind, Val};
use vstd::prelude::*;

verus! {

/// The scalar that a JSON text stands for; none for a text that is no literal and no string.
pub open spec fn scalar_meant(t: Seq<char>) -> Option<Val> {
    if t == seq!['n', 'u', 'l', 'l'] {
        Some(Val::Null)
    } else if t == seq!['t', 'r', 'u', 'e'] {
        Some(Val::Bool(true))
    } else if t == seq!['f', 'a', 'l', 's', 'e'] {
        Some(Val::Bool(false))
    } else if t.len() >= 2 && t[0] == '"' && t.last() == '"' {
        Some(Val::Str(meant(t.subrange(1, t.len() - 1))))
    } else {
        None
    }
}

/// Null, a boolean or a text.
pub open spec fn scalar(v: Val) -> bool {
    v is Null || v is Bool || v is Str
}

/// Reading what a scalar is serialised as gives the scalar back.
pub proof fn law_scalar_reads_back(
    h: Host,
    pos: nat,
    v: Val,
    ctx: JsonCtx,
    depth: nat,
    path: Seq<Identity>,
)
    requires
        scalar(v),
    ensures
        ({
            let r = json_body(h, pos, v, ctx, depth, path);
            &&& r.pos == pos
            &&& r.out matches Ok(Some(t)) && scalar_meant(t) == Some(v)
        }),
{
    reveal_strlit("null");
    reveal_strlit("true");
    reveal_strlit("false");
    assert("null"@ =~= seq!['n', 'u', 'l', 'l']);
    assert("true"@ =~= seq!['t', 'r', 'u', 'e']);
    assert("false"@ =~= seq!['f', 'a', 'l', 's', 'e']);
    assert("true"@[0] == 't' && "false"@[0] == 'f' && "null"@[0] == 'n');
    if let Val::Str(s) = v {
        let t = quoted(s);
        assert(t[0] == '"' && t.last() == '"');
        assert(t.subrange(1, t.len() - 1) =~= quoted_chars(s));
        law_quoted_reads_back(s);
    }
}

/// Different scalars have different JSON texts.
pub proof fn law_scalars_told_apart(
    h: Host,
    pos: nat,
    v: Val,
    w: Val,
    ctx: JsonCtx,
    depth: nat,
    path: Seq<Identity>,
)
    requires
        scalar(v),
        scalar(w),
        v != w,
    ensures
        json_body(h, pos, v, ctx, depth, path).out != json_body(h, pos, w, ctx, depth, path).out,
{
    law_scalar_reads_back(h, pos, v, ctx, depth, path);
    law_scalar_reads_back(h, pos, w, ctx, depth, path);
}

/// Inside a JSON string a quotation mark only stands behind a backslash and no control character
/// stands at all; every other character but the backslash stands for itself.
pub proof fn law_quoted_char(c: char, i: int)
    requires
        0 <= i < quoted_char(c).len(),
    ensures
        quoted_char(c)[0] != '"',
        i > 0 ==> quoted_char(c)[0] == '\\',
        quoted_char(c)[i] as u32 >= 0x20,
        c as u32 >= 0x20 && c != '"' && c != '\\' ==> quoted_char(c) == seq![c],
        quoted(seq![c]) == seq!['"'] + quoted_char(c) + seq!['"'],
{
    reveal_with_fuel(quoted_chars, 2);
    assert(seq![c].drop_last() =~= Seq::<char>::empty());
    assert(seq![c].last() == c);
    assert(quoted_chars(seq![c]) =~= quoted_char(c));
}

/// What is serialised in place of an object: `toJSON` is asked first, and the replacer is given
/// what that gave, under the key and on the holder.
pub proof fn law_prepared(
    h: Host,
    pos: nat,
    v: Val,
    key: Seq<char>,
    holder: Val,
    ctx: JsonCtx,
    f: Val,
    w: Val,
    u: Val,
)
    requires
        v is Ref,
        object(v),
        f is Native,
        h.len >= pos + 3,
        (h.reply)(pos, Question { op: Op::Get, args: seq![v, Val::Str("toJSON"@)] })
            == Answer::Value(f),
        (h.reply)(pos + 1, Question { op: Op::Call, args: seq![f, v] + seq![Val::Str(key)] })
            == Answer::Value(w),
        ctx.replacer matches Some(g) && (h.reply)(
            pos + 2,
            Question { op: Op::Call, args: seq![g, holder] + seq![Val::Str(key), w] },
        ) == Answer::Value(u),
    ensures
        json_prepared(h, pos, v, key, holder, ctx) == done(u, pos + 3),
        json_prepared(h, pos, v, key, holder, (JsonCtx { replacer: None, ..ctx })) == done(
            w,
            pos + 2,
        ),
{
}

/// A scalar without a replacer is serialised as it is.
pub proof fn law_prepared_scalar(h: Host, pos: nat, v: Val, key: Seq<char>, holder: Val, ctx: JsonCtx)
    requires
        scalar(v) || v is Num || v is Undefined,
        ctx.replacer is None,
    ensures
        json_prepared(h, pos, v, key, holder, ctx) == done(v, pos),
{
}

/// What has no JSON text: undefined, a symbol and a function.
pub proof fn law_without_json(h: Host, pos: nat, v: Val, ctx: JsonCtx, depth: nat, path: Seq<Identity>)
    requires
        v is Undefined || v is Symbol || v is Native || v matches Val::Ref(Kind::Fn, _),
    ensures
        json_body(h, pos, v, ctx, depth, path) == done(None::<Seq<char>>, pos),
{
}

/// The elements from `k` on are serialised as `texts` has it; none for what has no JSON text.
pub open spec fn elements_written(
    h: Host,
    pos: nat,
    o: Val,
    ctx: JsonCtx,
    depth: nat,
    path: Seq<Identity>,
    k: nat,
    n: nat,
    texts: spec_fn(nat) -> Option<Seq<char>>,
) -> bool
    decreases n - k,
{
    k >= n || {
        let g = get(h, pos, o, decimal(k));
        match g.out {
            Err(e) => e is Ask,
            Ok(x) => {
                let r = json_value(h, g.pos, x, decimal(k), o, ctx, depth + 1, path);
                settles(r, texts(k)) && (r.out is Ok ==> elements_written(
                    h,
                    later(g.pos, r.pos),
                    o,
                    ctx,
                    depth,
                    path,
                    k + 1,
                    n,
                    texts,
                ))
            },
        }
    }
}

/// The text of an element: null where it has none of its own.
pub open spec fn element_text(texts: spec_fn(nat) -> Option<Seq<char>>, i: int) -> Seq<char> {
    match texts(i as nat) {
        Some(t) => t,
        None => seq!['n', 'u', 'l', 'l'],
    }
}

/// An array is written with one text for each of its elements, in order; what has no JSON text is
/// null there.
pub proof fn law_array_written(
    h: Host,
    pos: nat,
    o: Val,
    ctx: JsonCtx,
    depth: nat,
    path: Seq<Identity>,
    k: nat,
    n: nat,
    texts: spec_fn(nat) -> Option<Seq<char>>,
)
    requires
        k <= n,
        elements_written(h, pos, o, ctx, depth, path, k, n, texts),
    ensures
        settles(
            json_items(
                h,
                pos,
                o,
                ctx,
                depth,
                path,
                k,
                n,
                Seq::new(k, |i: int| element_text(texts, i)),
            ),
            Some(
                wrapped(Seq::new(n, |i: int| element_text(texts, i)), '[', ']', ctx.indent, depth),
            ),
        ),
    decreases n - k,
{
    reveal_strlit("null");
    assert("null"@ =~= seq!['n', 'u', 'l', 'l']);
    if k < n {
        let g = get(h, pos, o, decimal(k));
        if let Ok(x) = g.out {
            let r = json_value(h, g.pos, x, decimal(k), o, ctx, depth + 1, path);
            if r.out is Ok {
                let parts = Seq::new(k, |i: int| element_text(texts, i));
                assert(Seq::new(k + 1, |i: int| element_text(texts, i)) =~= parts.push(
                    element_text(texts, k as int),
                ));
                law_array_written(
                    h,
                    later(g.pos, r.pos),
                    o,
                    ctx,
                    depth,
                    path,
                    k + 1,
                    n,
                    texts,
                );
            }
        }
    }
}

/// The values under the keys from `j` on are serialised as `texts` has it.
pub open spec fn values_written(
    h: Host,
    pos: nat,
    o: Val,
    ctx: JsonCtx,
    depth: nat,
    path: Seq<Identity>,
    keys: Seq<Seq<char>>,
    j: int,
    texts: spec_fn(nat) -> Option<Seq<char>>,
) -> bool
    decreases keys.len() - j,
{
    !(0 <= j < keys.len()) || {
        let g = get(h, pos, o, keys[j]);
        match g.out {
            Err(e) => e is Ask,
            Ok(x) => {
                let r = json_value(h, g.pos, x, keys[j], o, ctx, depth + 1, path);
                settles(r, texts(j as nat)) && (r.out is Ok ==> values_written(
                    h,
                    later(g.pos, r.pos),
                    o,
                    ctx,
                    depth,
                    path,
                    keys,
                    j + 1,
                    texts,
                ))
            },
        }
    }
}

/// The members for the first `n` keys: the quoted key, a colon and the text of the value, with a
/// blank between where the text is indented. What has no JSON text has no member.
pub open spec fn members_for(
    keys: Seq<Seq<char>>,
    texts: spec_fn(nat) -> Option<Seq<char>>,
    n: nat,
    indented: bool,
) -> Seq<Seq<char>>
    decreases n,
{
    if n == 0 {
        Seq::empty()
    } else {
        let rest = members_for(keys, texts, (n - 1) as nat, indented);
        match texts((n - 1) as nat) {
            None => rest,
            Some(t) => rest.push(
                if indented {
                    quoted(keys[n - 1]) + seq![':', ' '] + t
                } else {
                    quoted(keys[n - 1]) + seq![':'] + t
                },
            ),
        }
    }
}

proof fn lemma_member(
    keys: Seq<Seq<char>>,
    texts: spec_fn(nat) -> Option<Seq<char>>,
    n: nat,
    indent: Seq<char>,
)
    ensures
        members_for(keys, texts, n + 1, indent.len() > 0) == match texts(n) {
            Some(t) => members_for(keys, texts, n, indent.len() > 0).push(
                member_text(keys[n as int], t, indent),
            ),
            None => members_for(keys, texts, n, indent.len() > 0),
        },
{
}

proof fn lemma_members_step(
    h: Host,
    pos: nat,
    o: Val,
    ctx: JsonCtx,
    depth: nat,
    path: Seq<Identity>,
    keys: Seq<Seq<char>>,
    j: int,
    parts: Seq<Seq<char>>,
    x: Val,
    t: Option<Seq<char>>,
)
    requires
        0 <= j < keys.len(),
        get(h, pos, o, keys[j]).out == Ok::<Val, Halt>(x),
        json_value(h, get(h, pos, o, keys[j]).pos, x, keys[j], o, ctx, depth + 1, path).out == Ok::<
            Option<Seq<char>>,
            Halt,
        >(t),
    ensures
        json_members(h, pos, o, ctx, depth, path, keys, j, parts) == json_members(
            h,
            later(
                get(h, pos, o, keys[j]).pos,
                json_value(
                    h,
                    get(h, pos, o, keys[j]).pos,
                    x,
                    keys[j],
                    o,
                    ctx,
                    depth + 1,
                    path,
                ).pos,
            ),
            o,
            ctx,
            depth,
            path,
            keys,
            j + 1,
            match t {
                Some(s) => parts.push(member_text(keys[j], s, ctx.indent)),
                None => parts,
            },
        ),
{
}

/// An object is written with one member for each of its keys whose value has a JSON text, in order.
pub proof fn law_object_written(
    h: Host,
    pos: nat,
    o: Val,
    ctx: JsonCtx,
    depth: nat,
    path: Seq<Identity>,
    keys: Seq<Seq<char>>,
    j: int,
    texts: spec_fn(nat) -> Option<Seq<char>>,
)
    requires
        0 <= j <= keys.len(),
        values_written(h, pos, o, ctx, depth, path, keys, j, texts),
    ensures
        settles(
            json_members(
                h,
                pos,
                o,
                ctx,
                depth,
                path,
                keys,
                j,
                members_for(keys, texts, j as nat, ctx.indent.len() > 0),
            ),
            Some(
                wrapped(
                    members_for(keys, texts, keys.len(), ctx.indent.len() > 0),
                    '{',
                    '}',
                    ctx.indent,
                    depth,
                ),
            ),
        ),
    decreases keys.len() - j,
{
    let ms = members_for(keys, texts, j as nat, ctx.indent.len() > 0);
    if j < keys.len() {
        let g = get(h, pos, o, keys[j]);
        if let Ok(x) = g.out {
            let r = json_value(h, g.pos, x, keys[j], o, ctx, depth + 1, path);
            if r.out is Ok {
                let next = members_for(keys, texts, (j + 1) as nat, ctx.indent.len() > 0);
                lemma_member(keys, texts, j as nat, ctx.indent);
                lemma_members_step(h, pos, o, ctx, depth, path, keys, j, ms, x, texts(j as nat));
                law_object_written(
                    h,
                    later(g.pos, r.pos),
                    o,
                    ctx,
                    depth,
                    path,
                    keys,
                    j + 1,
                    texts,
                );
            }
        }
    }
}

/// A text that is repeated has all its characters, over and over.
pub proof fn law_repeated(s: Seq<char>, n: nat, i: nat, j: int)
    requires
        i < n,
        0 <= j < s.len(),
    ensures
        repeated(s, n).len() == n * s.len(),
        repeated(s, n)[(i * s.len() + j) as int] == s[j],
    decreases n,
{
    lemma_repeated_len(s, n);
    lemma_repeated_len(s, (n - 1) as nat);
    let front = repeated(s, (n - 1) as nat);
    assert(n * s.len() == (n - 1) * s.len() + s.len()) by (nonlinear_arith)
        requires
            n > 0,
    ;
    if i < n - 1 {
        law_repeated(s, (n - 1) as nat, i, j);
        assert((i + 1) * s.len() <= (n - 1) * s.len()) by (nonlinear_arith)
            requires
                i + 1 <= n - 1,
        ;
        assert((i + 1) * s.len() == i * s.len() + s.len()) by (nonlinear_arith);
        assert(0 <= i * s.len()) by (nonlinear_arith);
    }
}

proof fn lemma_repeated_len(s: Seq<char>, n: nat)
    ensures
        repeated(s, n).len() == n * s.len(),
    decreases n,
{
    if n > 0 {
        lemma_repeated_len(s, (n - 1) as nat);
        assert(n * s.len() == (n - 1) * s.len() + s.len()) by (nonlinear_arith)
            requires
                n > 0,
        ;
    } else {
        assert(0 * s.len() == 0) by (nonlinear_arith);
    }
}

/// How the parts of an array or an object stand between its brackets: apart by commas, and with an
/// indentation each on a line of its own, indented once more than the closing bracket.
pub proof fn law_layout(
    parts: Seq<Seq<char>>,
    last: Seq<char>,
    open: char,
    close: char,
    indent: Seq<char>,
    depth: nat,
)
    ensures
        wrapped(Seq::empty(), open, close, indent, depth) == seq![open, close],
        indent.len() == 0 ==> {
            &&& wrapped(seq![last], open, close, indent, depth) == seq![open] + last + seq![close]
            &&& parts.len() > 0 ==> wrapped(parts.push(last), open, close, indent, depth)
                == wrapped(parts, open, close, indent, depth).drop_last() + seq![','] + last
                + seq![close]
        },
        indent.len() > 0 ==> {
            let line = seq!['\n'] + repeated(indent, depth + 1);
            let end = seq!['\n'] + repeated(indent, depth) + seq![close];
            let so_far = wrapped(parts, open, close, indent, depth);
            &&& wrapped(seq![last], open, close, indent, depth) == seq![open] + line + last + end
            &&& parts.len() > 0 ==> wrapped(parts.push(last), open, close, indent, depth)
                == so_far.take(so_far.len() - end.len()) + seq![','] + line + last + end
        },
{
    let one = seq![last];
    assert(one[0] == last);
    let all = parts.push(last);
    assert(all.drop_last() =~= parts);
    if indent.len() == 0 {
        assert(wrapped(one, open, close, indent, depth) =~= seq![open] + last + seq![close]);
        if parts.len() > 0 {
            assert(wrapped(all, open, close, indent, depth) =~= wrapped(
                parts,
                open,
                close,
                indent,
                depth,
            ).drop_last() + seq![','] + last + seq![close]);
        }
    } else {
        let line = seq!['\n'] + repeated(indent, depth + 1);
        let end = seq!['\n'] + repeated(indent, depth) + seq![close];
        assert(wrapped(one, open, close, indent, depth) =~= seq![open] + line + last + end);
        if parts.len() > 0 {
            let so_far = wrapped(parts, open, close, indent, depth);
            assert(wrapped(all, open, close, indent, depth) =~= so_far.take(
                so_far.len() - end.len(),
            ) + seq![','] + line + last + end);
        }
    }
}

} // verus!
