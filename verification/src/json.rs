//! `JSON.stringify`.
use crate::array_live::generic_length;
use crate::array_sort::{is_text_less, text_less};
use crate::entries::{hidden_marker, is_listed_key, listed_key, private_name};
use crate::host::{
    ask_flag, ask_list, ask_number, ask_slot, ask_text, call, done, fail, get, get_quietly, halted,
    list1, list2, opt_view, raised, run_value, text_in, text_value, Host, Interp, Op, Run, Stop,
};
use crate::json_text::{json_quote, part_views, quoted, wrap, wrapped};
use crate::number::{length_of, to_length, Num};
use crate::objects::enumerable_own;
use crate::property::internal_key;
use crate::text::{chars_of, decimal, decimal_text, same_text};
use crate::value::{is_object, object, views, ErrorKind, Kind, Val, Value};
use vstd::prelude::*;

verus! {

/// What stays the same through one serialisation: the replacer function, the property list, and
/// the indentation.
#[verifier::ext_equal]
pub struct JsonCtx {
    pub replacer: Option<Val>,
    pub keys: Option<Seq<Seq<char>>>,
    pub indent: Seq<char>,
}

/// What tells one object from another.
#[derive(Clone, Copy, Debug, PartialEq, Eq, Structural)]
pub enum Identity {
    Object(Kind, u64),
    Proxy(u64),
}

/// The identity of what can contain itself.
pub open spec fn identity(v: Val) -> Option<Identity> {
    match v {
        Val::Ref(k, i) => if k == Kind::Obj || k == Kind::Arr || k == Kind::Instance {
            Some(Identity::Object(k, i))
        } else {
            None
        },
        Val::Proxy(i, _) => Some(Identity::Proxy(i)),
        _ => None,
    }
}

/// The functions that `toJSON` and a replacer can be.
pub open spec fn plain_function(v: Val) -> bool {
    match v {
        Val::Native(_) => true,
        Val::Ref(k, _) => k == Kind::Fn || k == Kind::Bound,
        _ => false,
    }
}

/// What is serialised in place of a value: what its `toJSON` returns, and what the replacer makes
/// of that.
pub open spec fn json_prepared(h: Host, pos: nat, v: Val, key: Seq<char>, holder: Val, ctx: JsonCtx) -> Run<
    Val,
> {
    let t = if object(v) || v is BigInt {
        let g = get_quietly(h, pos, v, "toJSON"@);
        match g.out {
            Err(e) => halted(e, g.pos),
            Ok(f) => {
                if plain_function(f) {
                    call(h, g.pos, f, Some(v), seq![Val::Str(key)])
                } else {
                    done(v, g.pos)
                }
            },
        }
    } else {
        done(v, pos)
    };
    match t.out {
        Err(e) => halted(e, t.pos),
        Ok(w) => match ctx.replacer {
            Some(f) => call(h, t.pos, f, Some(holder), seq![Val::Str(key), w]),
            None => done(w, t.pos),
        },
    }
}

/// A value after its wrapper is taken off, or raw text.
#[verifier::ext_equal]
pub enum Bare {
    Raw(Seq<char>),
    Value(Val),
}

/// The raw text of a raw JSON object.
pub open spec fn raw_text(h: Host, pos: nat, v: Val) -> Run<Option<Seq<char>>> {
    let m = ask_slot(h, pos, Op::OwnSlot, seq![v, Val::Str("\0isRawJSON"@)]);
    match m.out {
        Err(e) => halted(e, m.pos),
        Ok(None) => done(None, m.pos),
        Ok(Some(_)) => {
            let s = ask_slot(h, m.pos, Op::OwnSlot, seq![v, Val::Str("rawJSON"@)]);
            match s.out {
                Err(e) => halted(e, s.pos),
                Ok(Some(Val::Str(t))) => done(Some(t), s.pos),
                Ok(_) => done(None, s.pos),
            }
        },
    }
}

/// The value that a wrapper object stands for: a number or a string converted anew, a boolean as
/// it is wrapped; a big integer is a type error.
pub open spec fn unwrapped(h: Host, pos: nat, v: Val) -> Run<Val> {
    let w = ask_slot(h, pos, Op::Wrapped, seq![v]);
    match w.out {
        Err(e) => halted(e, w.pos),
        Ok(None) => done(v, w.pos),
        Ok(Some(Val::Num(_))) => {
            let n = ask_number(h, w.pos, Op::ToNumber, seq![v]);
            match n.out {
                Err(e) => halted(e, n.pos),
                Ok(x) => done(Val::Num(x), n.pos),
            }
        },
        Ok(Some(Val::Str(_))) => {
            let s = ask_text(h, w.pos, Op::ToText, seq![v]);
            match s.out {
                Err(e) => halted(e, s.pos),
                Ok(x) => done(Val::Str(x), s.pos),
            }
        },
        Ok(Some(Val::BigInt(_))) => raised(
            ErrorKind::TypeError,
            "Do not know how to serialize a BigInt"@,
            w.pos,
        ),
        Ok(Some(p)) => done(p, w.pos),
    }
}

pub open spec fn json_bare(h: Host, pos: nat, v: Val) -> Run<Bare> {
    match v {
        Val::BigInt(_) => raised(ErrorKind::TypeError, "Do not know how to serialize a BigInt"@, pos),
        Val::Ref(Kind::Obj, _) => {
            let r = raw_text(h, pos, v);
            match r.out {
                Err(e) => halted(e, r.pos),
                Ok(Some(t)) => done(Bare::Raw(t), r.pos),
                Ok(None) => {
                    let u = unwrapped(h, r.pos, v);
                    match u.out {
                        Err(e) => halted(e, u.pos),
                        Ok(w) => done(Bare::Value(w), u.pos),
                    }
                },
            }
        },
        _ => done(Bare::Value(v), pos),
    }
}

/// The keys among a list of values: its strings.
pub open spec fn texts_in(l: Seq<Val>) -> Seq<Seq<char>>
    decreases l.len(),
{
    if l.len() == 0 {
        Seq::empty()
    } else {
        match l.last() {
            Val::Str(s) => texts_in(l.drop_last()).push(s),
            _ => texts_in(l.drop_last()),
        }
    }
}

/// The keys of a plain object or a proxy: the property list, else its own enumerable keys.
pub open spec fn json_keys(h: Host, pos: nat, v: Val, ctx: JsonCtx) -> Run<Seq<Seq<char>>> {
    match ctx.keys {
        Some(ks) => done(ks, pos),
        None => {
            let l = if v is Proxy {
                enumerable_own(h, pos, v, true, false)
            } else {
                ask_list(h, pos, Op::Keys, seq![v])
            };
            match l.out {
                Err(e) => halted(e, l.pos),
                Ok(ks) => done(texts_in(ks), l.pos),
            }
        },
    }
}

/// The later of two places in a run; a run never goes back.
pub open spec fn later(a: nat, b: nat) -> nat {
    if a < b {
        b
    } else {
        a
    }
}

/// The number of replies that are left.
pub open spec fn room(h: Host, pos: nat) -> nat {
    if pos < h.len {
        (h.len - pos) as nat
    } else {
        0
    }
}

pub open spec fn colon(indent: Seq<char>) -> Seq<char> {
    if indent.len() == 0 {
        seq![':']
    } else {
        seq![':', ' ']
    }
}

/// A member of an object.
pub open spec fn member_text(key: Seq<char>, value: Seq<char>, indent: Seq<char>) -> Seq<char> {
    quoted(key) + colon(indent) + value
}

/// A field of an instance.
#[verifier::ext_equal]
pub struct Field {
    pub key: Seq<char>,
    pub value: Val,
}

/// The fields in a reply of keys and values in turn.
pub open spec fn fields_in(l: Seq<Val>) -> Seq<Field>
    decreases l.len(),
{
    if l.len() < 2 {
        Seq::empty()
    } else {
        seq![Field { key: text_in(l[0]), value: l[1] }] + fields_in(l.skip(2))
    }
}

/// The keys of some fields.
pub open spec fn keys_of_fields(s: Seq<Field>) -> Seq<Seq<char>> {
    Seq::new(s.len(), |i: int| s[i].key)
}

/// Those of the first `n` fields of an instance that are serialised, in order.
pub open spec fn listed_fields(s: Seq<Field>, n: nat) -> Seq<Field>
    decreases n,
{
    if n == 0 || n > s.len() {
        Seq::empty()
    } else if listed_key(keys_of_fields(s), s[n - 1].key, false) {
        listed_fields(s, (n - 1) as nat).push(s[n - 1])
    } else {
        listed_fields(s, (n - 1) as nat)
    }
}

/// The fields of an instance that are serialised, in the order of their keys.
pub open spec fn serial_fields(l: Seq<Val>) -> Seq<Field> {
    let all = fields_in(l);
    sorted_fields(listed_fields(all, all.len()))
}

/// Puts a field behind the last one whose key does not come after its own.
pub open spec fn insert_field(s: Seq<Field>, f: Field) -> Seq<Field>
    decreases s.len(),
{
    if s.len() == 0 {
        seq![f]
    } else if text_less(f.key, s.last().key) {
        insert_field(s.drop_last(), f).push(s.last())
    } else {
        s.push(f)
    }
}

/// The fields in the order of their keys.
pub open spec fn sorted_fields(s: Seq<Field>) -> Seq<Field>
    decreases s.len(),
{
    if s.len() == 0 {
        Seq::empty()
    } else {
        insert_field(sorted_fields(s.drop_last()), s.last())
    }
}

/// The serialisation of a value under its key: nothing where it has no JSON text.
pub open spec fn json_value(
    h: Host,
    pos: nat,
    v: Val,
    key: Seq<char>,
    holder: Val,
    ctx: JsonCtx,
    depth: nat,
    path: Seq<Identity>,
) -> Run<Option<Seq<char>>>
    decreases room(h, pos), 2nat, 0nat,
{
    let p = json_prepared(h, pos, v, key, holder, ctx);
    match p.out {
        Err(e) => halted(e, p.pos),
        Ok(w) => match identity(w) {
            None => json_body(h, p.pos, w, ctx, depth, path),
            Some(id) => {
                if path.contains(id) {
                    raised(ErrorKind::TypeError, "Converting circular structure to JSON"@, p.pos)
                } else {
                    json_body(h, p.pos, w, ctx, depth, path.push(id))
                }
            },
        },
    }
}

/// The serialisation of a value as it is.
pub open spec fn json_body(
    h: Host,
    pos: nat,
    v: Val,
    ctx: JsonCtx,
    depth: nat,
    path: Seq<Identity>,
) -> Run<Option<Seq<char>>>
    decreases room(h, pos), 1nat, 0nat,
{
    let b = json_bare(h, pos, v);
    match b.out {
        Err(e) => halted(e, b.pos),
        Ok(Bare::Raw(t)) => done(Some(t), b.pos),
        Ok(Bare::Value(w)) => match w {
            Val::Null => done(Some("null"@), b.pos),
            Val::Bool(x) => done(
                Some(
                    if x {
                        "true"@
                    } else {
                        "false"@
                    },
                ),
                b.pos,
            ),
            Val::Num(_) => {
                let n = ask_text(h, b.pos, Op::JsonNumber, seq![w]);
                match n.out {
                    Err(e) => halted(e, n.pos),
                    Ok(t) => done(Some(t), n.pos),
                }
            },
            Val::Str(s) => done(Some(quoted(s)), b.pos),
            Val::Ref(Kind::Arr, _) => {
                let l = ask_number(h, b.pos, Op::ArrayLen, seq![w]);
                match l.out {
                    Err(e) => halted(e, l.pos),
                    Ok(n) => json_items(
                        h,
                        l.pos,
                        w,
                        ctx,
                        depth,
                        path,
                        0,
                        length_of(n),
                        Seq::empty(),
                    ),
                }
            },
            Val::Proxy(_, _) => {
                let a = ask_flag(h, b.pos, Op::IsArray, seq![w]);
                match a.out {
                    Err(e) => halted(e, a.pos),
                    Ok(true) => {
                        let l = generic_length(h, a.pos, w);
                        match l.out {
                            Err(e) => halted(e, l.pos),
                            Ok(n) => json_items(h, l.pos, w, ctx, depth, path, 0, n, Seq::empty()),
                        }
                    },
                    Ok(false) => {
                        let k = json_keys(h, a.pos, w, ctx);
                        match k.out {
                            Err(e) => halted(e, k.pos),
                            Ok(ks) => json_members(
                                h,
                                later(a.pos, k.pos),
                                w,
                                ctx,
                                depth,
                                path,
                                ks,
                                0,
                                Seq::empty(),
                            ),
                        }
                    },
                }
            },
            Val::Ref(Kind::Obj, _) => {
                let d = ask_flag(h, b.pos, Op::IsDate, seq![w]);
                match d.out {
                    Err(e) => halted(e, d.pos),
                    Ok(true) => {
                        let t = ask_slot(h, d.pos, Op::DateIso, seq![w]);
                        match t.out {
                            Err(e) => halted(e, t.pos),
                            Ok(Some(Val::Str(s))) => done(Some(quoted(s)), t.pos),
                            Ok(_) => done(Some("null"@), t.pos),
                        }
                    },
                    Ok(false) => {
                        let k = json_keys(h, d.pos, w, ctx);
                        match k.out {
                            Err(e) => halted(e, k.pos),
                            Ok(ks) => json_members(
                                h,
                                later(d.pos, k.pos),
                                w,
                                ctx,
                                depth,
                                path,
                                ks,
                                0,
                                Seq::empty(),
                            ),
                        }
                    },
                }
            },
            Val::Ref(Kind::Instance, _) => {
                let l = ask_list(h, b.pos, Op::StoredFields, seq![w]);
                match l.out {
                    Err(e) => halted(e, l.pos),
                    Ok(fs) => json_fields(
                        h,
                        l.pos,
                        w,
                        ctx,
                        depth,
                        path,
                        serial_fields(fs),
                        0,
                        Seq::empty(),
                    ),
                }
            },
            _ => done(None, b.pos),
        },
    }
}

/// The elements from `k` on. What has no JSON text is null in an array.
pub open spec fn json_items(
    h: Host,
    pos: nat,
    o: Val,
    ctx: JsonCtx,
    depth: nat,
    path: Seq<Identity>,
    k: nat,
    n: nat,
    parts: Seq<Seq<char>>,
) -> Run<Option<Seq<char>>>
    decreases room(h, pos), 0nat, 0nat,
{
    if k >= n {
        done(Some(wrapped(parts, '[', ']', ctx.indent, depth)), pos)
    } else {
        let g = get(h, pos, o, decimal(k));
        match g.out {
            Err(e) => halted(e, g.pos),
            Ok(item) => {
                let r = json_value(h, g.pos, item, decimal(k), o, ctx, depth + 1, path);
                match r.out {
                    Err(e) => halted(e, r.pos),
                    Ok(t) => json_items(
                        h,
                        later(g.pos, r.pos),
                        o,
                        ctx,
                        depth,
                        path,
                        k + 1,
                        n,
                        parts.push(
                            match t {
                                Some(s) => s,
                                None => "null"@,
                            },
                        ),
                    ),
                }
            },
        }
    }
}

/// The members under the keys from `j` on. What has no JSON text is left out of an object.
pub open spec fn json_members(
    h: Host,
    pos: nat,
    o: Val,
    ctx: JsonCtx,
    depth: nat,
    path: Seq<Identity>,
    keys: Seq<Seq<char>>,
    j: int,
    parts: Seq<Seq<char>>,
) -> Run<Option<Seq<char>>>
    decreases room(h, pos), 0nat, 0nat,
{
    if !(0 <= j < keys.len()) {
        done(Some(wrapped(parts, '{', '}', ctx.indent, depth)), pos)
    } else {
        let g = get(h, pos, o, keys[j]);
        match g.out {
            Err(e) => halted(e, g.pos),
            Ok(item) => {
                let r = json_value(h, g.pos, item, keys[j], o, ctx, depth + 1, path);
                match r.out {
                    Err(e) => halted(e, r.pos),
                    Ok(t) => json_members(
                        h,
                        later(g.pos, r.pos),
                        o,
                        ctx,
                        depth,
                        path,
                        keys,
                        j + 1,
                        match t {
                            Some(s) => parts.push(member_text(keys[j], s, ctx.indent)),
                            None => parts,
                        },
                    ),
                }
            },
        }
    }
}

/// The fields of an instance from `j` on, without those that a property list does not name.
pub open spec fn json_fields(
    h: Host,
    pos: nat,
    o: Val,
    ctx: JsonCtx,
    depth: nat,
    path: Seq<Identity>,
    fields: Seq<Field>,
    j: int,
    parts: Seq<Seq<char>>,
) -> Run<Option<Seq<char>>>
    decreases room(h, pos), 3nat, fields.len() - j,
{
    if !(0 <= j < fields.len()) {
        done(Some(wrapped(parts, '{', '}', ctx.indent, depth)), pos)
    } else {
        let f = fields[j];
        if ctx.keys is Some && !ctx.keys->0.contains(f.key) {
            json_fields(h, pos, o, ctx, depth, path, fields, j + 1, parts)
        } else {
            let r = json_value(h, pos, f.value, f.key, o, ctx, depth + 1, path);
            match r.out {
                Err(e) => halted(e, r.pos),
                Ok(t) => json_fields(
                    h,
                    later(pos, r.pos),
                    o,
                    ctx,
                    depth,
                    path,
                    fields,
                    j + 1,
                    match t {
                        Some(s) => parts.push(member_text(f.key, s, ctx.indent)),
                        None => parts,
                    },
                ),
            }
        }
    }
}

/// What stays the same through one serialisation.
pub struct JsonOptions {
    pub replacer: Option<Value>,
    pub keys: Option<Vec<String>>,
    pub indent: String,
}

pub open spec fn text_views(s: Seq<String>) -> Seq<Seq<char>> {
    Seq::new(s.len(), |i: int| s[i]@)
}

pub open spec fn opt_keys(k: Option<Vec<String>>) -> Option<Seq<Seq<char>>> {
    match k {
        Some(v) => Some(text_views(v@)),
        None => None,
    }
}

impl View for JsonOptions {
    type V = JsonCtx;

    open spec fn view(&self) -> JsonCtx {
        JsonCtx {
            replacer: opt_view(self.replacer),
            keys: opt_keys(self.keys),
            indent: self.indent@,
        }
    }
}

pub open spec fn json_run(r: Result<Option<Vec<char>>, Stop>, it: Interp) -> Run<Option<Seq<char>>> {
    match r {
        Ok(Some(v)) => done(Some(v@), it.pos as nat),
        Ok(None) => done(None, it.pos as nat),
        Err(e) => halted(e@, it.pos as nat),
    }
}

pub open spec fn texts_run(r: Result<Vec<String>, Stop>, it: Interp) -> Run<Seq<Seq<char>>> {
    match r {
        Ok(v) => done(text_views(v@), it.pos as nat),
        Err(e) => halted(e@, it.pos as nat),
    }
}

pub fn identity_of(v: &Value) -> (r: Option<Identity>)
    ensures
        r == identity(v@),
{
    match v {
        Value::Ref(k, i) => if *k == Kind::Obj || *k == Kind::Arr || *k == Kind::Instance {
            Some(Identity::Object(*k, *i))
        } else {
            None
        },
        Value::Proxy(i, _) => Some(Identity::Proxy(*i)),
        _ => None,
    }
}

pub fn is_plain_function(v: &Value) -> (r: bool)
    ensures
        r == plain_function(v@),
{
    match v {
        Value::Native(_) => true,
        Value::Ref(k, _) => *k == Kind::Fn || *k == Kind::Bound,
        _ => false,
    }
}

fn on_path(path: &Vec<Identity>, id: Identity) -> (r: bool)
    ensures
        r == path@.contains(id),
{
    let mut i: usize = 0;
    while i < path.len()
        invariant
            i <= path@.len(),
            forall|j: int| 0 <= j < i ==> path@[j] != id,
        decreases path@.len() - i,
    {
        if path[i] == id {
            assert(path@[i as int] == id);
            return true;
        }
        i = i + 1;
    }
    false
}

pub fn contains_text(list: &Vec<String>, s: &str) -> (r: bool)
    ensures
        r == text_views(list@).contains(s@),
{
    let mut i: usize = 0;
    while i < list.len()
        invariant
            i <= list@.len(),
            forall|j: int| 0 <= j < i ==> (#[trigger] text_views(list@)[j]) != s@,
        decreases list@.len() - i,
    {
        assert(text_views(list@)[i as int] == list@[i as int]@);
        if same_text(list[i].as_str(), s) {
            return true;
        }
        i = i + 1;
    }
    assert(!text_views(list@).contains(s@));
    false
}

pub fn clone_texts(list: &Vec<String>) -> (r: Vec<String>)
    ensures
        text_views(r@) == text_views(list@),
{
    let mut out: Vec<String> = Vec::new();
    let mut i: usize = 0;
    while i < list.len()
        invariant
            i <= list@.len(),
            out@.len() == i,
            forall|j: int| 0 <= j < i ==> (#[trigger] out@[j])@ == list@[j]@,
        decreases list@.len() - i,
    {
        out.push(list[i].clone());
        i = i + 1;
    }
    assert(text_views(out@) =~= text_views(list@));
    out
}

/// The strings among a list of values.
pub fn texts_of(l: &Vec<Value>) -> (r: Vec<String>)
    ensures
        text_views(r@) == texts_in(views(l@)),
{
    let mut out: Vec<String> = Vec::new();
    let ghost all = views(l@);
    let mut i: usize = 0;
    assert(all.take(0) =~= Seq::<Val>::empty());
    assert(text_views(out@) =~= Seq::<Seq<char>>::empty());
    while i < l.len()
        invariant
            i <= l@.len(),
            all == views(l@),
            text_views(out@) == texts_in(all.take(i as int)),
        decreases l@.len() - i,
    {
        assert(all.take(i + 1).drop_last() =~= all.take(i as int));
        assert(all.take(i + 1).last() == l@[i as int]@);
        match &l[i] {
            Value::Str(s) => {
                let ghost before = text_views(out@);
                out.push(s.clone());
                assert(text_views(out@) =~= before.push(s@));
            },
            _ => {},
        }
        i = i + 1;
    }
    assert(all.take(i as int) =~= all);
    out
}

pub open spec fn field_views(s: Seq<(String, Value)>) -> Seq<Field> {
    Seq::new(s.len(), |i: int| Field { key: s[i].0@, value: s[i].1@ })
}

fn field_key(v: &Value) -> (r: String)
    ensures
        r@ == text_in(v@),
{
    match v {
        Value::Str(s) => s.clone(),
        _ => String::new(),
    }
}

fn fields_of(l: &Vec<Value>) -> (r: Vec<(String, Value)>)
    ensures
        field_views(r@) == fields_in(views(l@)),
{
    let ghost all = views(l@);
    let mut out: Vec<(String, Value)> = Vec::new();
    let mut i: usize = 0;
    assert(all.skip(0) =~= all);
    assert(field_views(out@) + fields_in(all.skip(0)) =~= fields_in(all));
    while l.len() - i >= 2
        invariant
            i <= l@.len(),
            all == views(l@),
            fields_in(all) == field_views(out@) + fields_in(all.skip(i as int)),
        decreases l@.len() - i,
    {
        let ghost before = field_views(out@);
        let ghost rest = all.skip(i as int);
        assert(rest[0] == l@[i as int]@ && rest[1] == l@[i + 1]@);
        out.push((field_key(&l[i]), l[i + 1].clone()));
        assert(field_views(out@) =~= before.push(Field { key: text_in(rest[0]), value: rest[1] }));
        assert(rest.skip(2) =~= all.skip(i + 2));
        assert(before + fields_in(rest) =~= field_views(out@) + fields_in(rest.skip(2)));
        i = i + 2;
    }
    assert(field_views(out@) + fields_in(all.skip(i as int)) =~= field_views(out@));
    out
}

/// The keys of some fields.
fn field_keys(fields: &Vec<(String, Value)>) -> (r: Vec<String>)
    ensures
        text_views(r@) == keys_of_fields(field_views(fields@)),
{
    let ghost all = keys_of_fields(field_views(fields@));
    let mut keys: Vec<String> = Vec::new();
    let mut i: usize = 0;
    assert(text_views(keys@) =~= all.take(0));
    while i < fields.len()
        invariant
            i <= fields@.len(),
            all == keys_of_fields(field_views(fields@)),
            text_views(keys@) == all.take(i as int),
        decreases fields@.len() - i,
    {
        let ghost before = text_views(keys@);
        keys.push(fields[i].0.clone());
        assert(text_views(keys@) =~= before.push(all[i as int]));
        i = i + 1;
        assert(text_views(keys@) =~= all.take(i as int));
    }
    assert(text_views(keys@) =~= all);
    keys
}

/// The keys in a reply of keys and values in turn.
pub fn keys_in_reply(l: &Vec<Value>) -> (r: Vec<String>)
    ensures
        text_views(r@) == keys_of_fields(fields_in(views(l@))),
{
    field_keys(&fields_of(l))
}

fn keep_listed_fields(fields: &Vec<(String, Value)>) -> (r: Vec<(String, Value)>)
    ensures
        field_views(r@) == listed_fields(field_views(fields@), fields@.len()),
{
    let ghost all = field_views(fields@);
    let keys: Vec<String> = field_keys(fields);
    let mut out: Vec<(String, Value)> = Vec::new();
    let mut j: usize = 0;
    assert(field_views(out@) =~= Seq::<Field>::empty());
    while j < fields.len()
        invariant
            j <= fields@.len(),
            all == field_views(fields@),
            text_views(keys@) == keys_of_fields(all),
            field_views(out@) == listed_fields(all, j as nat),
        decreases fields@.len() - j,
    {
        let ghost before = field_views(out@);
        if is_listed_key(&keys, fields[j].0.as_str(), false) {
            out.push((fields[j].0.clone(), fields[j].1.clone()));
            assert(field_views(out@) =~= before.push(all[j as int]));
        }
        j = j + 1;
    }
    out
}

fn insert_field_exec(v: &mut Vec<(String, Value)>, f: (String, Value))
    ensures
        field_views(final(v)@) == insert_field(
            field_views(old(v)@),
            Field { key: f.0@, value: f.1@ },
        ),
{
    let ghost all = field_views(v@);
    let ghost g = Field { key: f.0@, value: f.1@ };
    let mut p: usize = v.len();
    assert(all =~= all.take(p as int));
    assert(insert_field(all, g) =~= insert_field(all.take(p as int), g) + all.skip(p as int));
    while p > 0 && is_text_less(f.0.as_str(), v[p - 1].0.as_str())
        invariant
            p <= v@.len(),
            v@ == old(v)@,
            all == field_views(v@),
            g == (Field { key: f.0@, value: f.1@ }),
            insert_field(all, g) == insert_field(all.take(p as int), g) + all.skip(p as int),
        decreases p,
    {
        assert(all.take(p as int).last() == all[p - 1]);
        assert(all.take(p as int).drop_last() =~= all.take(p - 1));
        assert(insert_field(all.take(p as int), g) + all.skip(p as int) =~= insert_field(
            all.take(p - 1),
            g,
        ) + all.skip(p - 1));
        p = p - 1;
    }
    proof {
        if p > 0 {
            assert(all.take(p as int).last() == all[p - 1]);
        }
        assert(insert_field(all.take(p as int), g) =~= all.take(p as int).push(g));
    }
    v.insert(p, f);
    assert(field_views(v@) =~= all.take(p as int).push(g) + all.skip(p as int));
}

fn sort_fields(l: Vec<(String, Value)>) -> (r: Vec<(String, Value)>)
    ensures
        field_views(r@) == sorted_fields(field_views(l@)),
{
    let ghost all = field_views(l@);
    let mut out: Vec<(String, Value)> = Vec::new();
    let mut i: usize = 0;
    assert(all.take(0) =~= Seq::<Field>::empty());
    assert(field_views(out@) =~= Seq::<Field>::empty());
    while i < l.len()
        invariant
            i <= l@.len(),
            all == field_views(l@),
            field_views(out@) == sorted_fields(all.take(i as int)),
        decreases l@.len() - i,
    {
        assert(all.take(i + 1).drop_last() =~= all.take(i as int));
        assert(all.take(i + 1).last() == all[i as int]);
        insert_field_exec(&mut out, (l[i].0.clone(), l[i].1.clone()));
        i = i + 1;
    }
    assert(all.take(i as int) =~= all);
    out
}

fn null_text() -> (r: Vec<char>)
    ensures
        r@ == "null"@,
{
    chars_of("null")
}

fn push_member(parts: &mut Vec<Vec<char>>, key: &str, value: Vec<char>, indent: &str)
    ensures
        part_views(final(parts)@) == part_views(old(parts)@).push(
            member_text(key@, value@, indent@),
        ),
{
    let ghost before = part_views(parts@);
    let mut t: Vec<char> = json_quote(key);
    let ghost q = t@;
    t.push(':');
    if !indent.is_empty() {
        t.push(' ');
    }
    let ghost v = value@;
    let mut value: Vec<char> = value;
    t.append(&mut value);
    assert(t@ =~= member_text(key@, v, indent@));
    parts.push(t);
    assert(part_views(parts@) =~= before.push(member_text(key@, v, indent@)));
}

/// The bare value, or raw text.
enum BareValue {
    Raw(String),
    Value(Value),
}

impl BareValue {
    spec fn bare(self) -> Bare {
        match self {
            BareValue::Raw(s) => Bare::Raw(s@),
            BareValue::Value(v) => Bare::Value(v@),
        }
    }
}

spec fn bare_run(r: Result<BareValue, Stop>, it: Interp) -> Run<Bare> {
    match r {
        Ok(b) => done(b.bare(), it.pos as nat),
        Err(e) => halted(e@, it.pos as nat),
    }
}

pub open spec fn opt_text_run(r: Result<Option<String>, Stop>, it: Interp) -> Run<Option<Seq<char>>> {
    match r {
        Ok(Some(s)) => done(Some(s@), it.pos as nat),
        Ok(None) => done(None, it.pos as nat),
        Err(e) => halted(e@, it.pos as nat),
    }
}

impl Interp {
    fn json_prepared(&mut self, v: &Value, key: &str, holder: &Value, options: &JsonOptions) -> (r:
        Result<Value, Stop>)
        requires
            old(self).wf(),
        ensures
            final(self).follows(*old(self)),
            run_value(r, *final(self)) == json_prepared(
                old(self).host(),
                old(self).pos as nat,
                v@,
                key@,
                holder@,
                options@,
            ),
    {
        let mut w: Value = v.clone();
        let big: bool = match v {
            Value::BigInt(_) => true,
            _ => false,
        };
        if is_object(v) || big {
            let f: Value = self.member_get_quietly(v, "toJSON")?;
            if is_plain_function(&f) {
                w = self.call_value(f, Some(v.clone()), list1(text_value(key)))?;
            }
        }
        match &options.replacer {
            Some(f) => self.call_value(f.clone(), Some(holder.clone()), list2(text_value(key), w)),
            None => Ok(w),
        }
    }

    fn raw_text(&mut self, v: &Value) -> (r: Result<Option<String>, Stop>)
        requires
            old(self).wf(),
        ensures
            final(self).follows(*old(self)),
            opt_text_run(r, *final(self)) == raw_text(old(self).host(), old(self).pos as nat, v@),
    {
        match self.ask_slot(Op::OwnSlot, list2(v.clone(), text_value("\0isRawJSON")))? {
            None => Ok(None),
            Some(_) => match self.ask_slot(Op::OwnSlot, list2(v.clone(), text_value("rawJSON")))? {
                Some(Value::Str(t)) => Ok(Some(t)),
                _ => Ok(None),
            },
        }
    }

    fn unwrapped(&mut self, v: &Value) -> (r: Result<Value, Stop>)
        requires
            old(self).wf(),
        ensures
            final(self).follows(*old(self)),
            run_value(r, *final(self)) == unwrapped(old(self).host(), old(self).pos as nat, v@),
    {
        match self.ask_slot(Op::Wrapped, list1(v.clone()))? {
            None => Ok(v.clone()),
            Some(Value::Num(_)) => {
                let n: Num = self.ask_number(Op::ToNumber, list1(v.clone()))?;
                Ok(Value::Num(n))
            },
            Some(Value::Str(_)) => {
                let s: String = self.ask_text(Op::ToText, list1(v.clone()))?;
                Ok(Value::Str(s))
            },
            Some(Value::BigInt(_)) => Err(
                fail(ErrorKind::TypeError, "Do not know how to serialize a BigInt"),
            ),
            Some(p) => Ok(p),
        }
    }

    fn json_bare(&mut self, v: &Value) -> (r: Result<BareValue, Stop>)
        requires
            old(self).wf(),
        ensures
            final(self).follows(*old(self)),
            bare_run(r, *final(self)) == json_bare(old(self).host(), old(self).pos as nat, v@),
    {
        match v {
            Value::BigInt(_) => Err(
                fail(ErrorKind::TypeError, "Do not know how to serialize a BigInt"),
            ),
            Value::Ref(Kind::Obj, _) => {
                match self.raw_text(v)? {
                    Some(t) => Ok(BareValue::Raw(t)),
                    None => {
                        let w: Value = self.unwrapped(v)?;
                        Ok(BareValue::Value(w))
                    },
                }
            },
            _ => Ok(BareValue::Value(v.clone())),
        }
    }

    fn json_keys(&mut self, v: &Value, options: &JsonOptions) -> (r: Result<Vec<String>, Stop>)
        requires
            old(self).wf(),
        ensures
            final(self).follows(*old(self)),
            texts_run(r, *final(self)) == json_keys(
                old(self).host(),
                old(self).pos as nat,
                v@,
                options@,
            ),
    {
        match &options.keys {
            Some(ks) => Ok(clone_texts(ks)),
            None => {
                let proxy: bool = match v {
                    Value::Proxy(_, _) => true,
                    _ => false,
                };
                let l: Vec<Value> = if proxy {
                    self.enumerable_own_live(v, true, false)?
                } else {
                    self.ask_list(Op::Keys, list1(v.clone()))?
                };
                Ok(texts_of(&l))
            },
        }
    }

    /// The serialisation of a value under its key. The path of the objects that it stands in is
    /// after the call what it was before, whether there is a text or an exception.
    pub fn json_ser(
        &mut self,
        v: &Value,
        key: &str,
        holder: &Value,
        options: &JsonOptions,
        depth: usize,
        path: &mut Vec<Identity>,
    ) -> (r: Result<Option<Vec<char>>, Stop>)
        requires
            old(self).wf(),
        ensures
            final(self).follows(*old(self)),
            final(path)@ == old(path)@,
            json_run(r, *final(self)) == json_value(
                old(self).host(),
                old(self).pos as nat,
                v@,
                key@,
                holder@,
                options@,
                depth as nat,
                old(path)@,
            ),
    {
        let given: usize = self.replies.len();
        assert(room(self.host(), self.pos as nat) <= given);
        self.ser_at(v, key, holder, options, depth as u128, path)
    }

    /// The serialisation of a value as it is.
    pub fn json_ser_body(
        &mut self,
        v: &Value,
        options: &JsonOptions,
        depth: usize,
        path: &mut Vec<Identity>,
    ) -> (r: Result<Option<Vec<char>>, Stop>)
        requires
            old(self).wf(),
        ensures
            final(self).follows(*old(self)),
            final(path)@ == old(path)@,
            json_run(r, *final(self)) == json_body(
                old(self).host(),
                old(self).pos as nat,
                v@,
                options@,
                depth as nat,
                old(path)@,
            ),
    {
        let given: usize = self.replies.len();
        assert(room(self.host(), self.pos as nat) <= given);
        self.body_at(v, options, depth as u128, path)
    }

    fn ser_at(
        &mut self,
        v: &Value,
        key: &str,
        holder: &Value,
        options: &JsonOptions,
        depth: u128,
        path: &mut Vec<Identity>,
    ) -> (r: Result<Option<Vec<char>>, Stop>)
        requires
            old(self).wf(),
            depth + room(old(self).host(), old(self).pos as nat) <= u128::MAX,
        ensures
            final(self).follows(*old(self)),
            final(path)@ == old(path)@,
            json_run(r, *final(self)) == json_value(
                old(self).host(),
                old(self).pos as nat,
                v@,
                key@,
                holder@,
                options@,
                depth as nat,
                old(path)@,
            ),
        decreases room(old(self).host(), old(self).pos as nat), 2nat, 0nat,
    {
        let ghost p0 = path@;
        let w: Value = self.json_prepared(v, key, holder, options)?;
        match identity_of(&w) {
            None => self.body_at(&w, options, depth, path),
            Some(id) => {
                if on_path(path, id) {
                    return Err(
                        fail(ErrorKind::TypeError, "Converting circular structure to JSON"),
                    );
                }
                path.push(id);
                let r: Result<Option<Vec<char>>, Stop> = self.body_at(&w, options, depth, path);
                path.pop();
                assert(path@ =~= p0);
                r
            },
        }
    }

    fn body_at(
        &mut self,
        v: &Value,
        options: &JsonOptions,
        depth: u128,
        path: &mut Vec<Identity>,
    ) -> (r: Result<Option<Vec<char>>, Stop>)
        requires
            old(self).wf(),
            depth + room(old(self).host(), old(self).pos as nat) <= u128::MAX,
        ensures
            final(self).follows(*old(self)),
            final(path)@ == old(path)@,
            json_run(r, *final(self)) == json_body(
                old(self).host(),
                old(self).pos as nat,
                v@,
                options@,
                depth as nat,
                old(path)@,
            ),
        decreases room(old(self).host(), old(self).pos as nat), 1nat, 0nat,
    {
        let w: Value = match self.json_bare(v)? {
            BareValue::Raw(t) => {
                return Ok(Some(chars_of(t.as_str())));
            },
            BareValue::Value(w) => w,
        };
        match &w {
            Value::Null => Ok(Some(null_text())),
            Value::Bool(b) => Ok(
                Some(
                    chars_of(
                        if *b {
                            "true"
                        } else {
                            "false"
                        },
                    ),
                ),
            ),
            Value::Num(_) => {
                let t: String = self.ask_text(Op::JsonNumber, list1(w.clone()))?;
                Ok(Some(chars_of(t.as_str())))
            },
            Value::Str(s) => Ok(Some(json_quote(s.as_str()))),
            Value::Ref(Kind::Arr, _) => {
                let n: Num = self.ask_number(Op::ArrayLen, list1(w.clone()))?;
                self.json_items(&w, options, depth, path, to_length(n))
            },
            Value::Proxy(_, _) => {
                if self.ask_flag(Op::IsArray, list1(w.clone()))? {
                    let n: u64 = self.generic_length(&w)?;
                    self.json_items(&w, options, depth, path, n)
                } else {
                    let keys: Vec<String> = self.json_keys(&w, options)?;
                    self.json_members(&w, options, depth, path, &keys)
                }
            },
            Value::Ref(Kind::Obj, _) => {
                if self.ask_flag(Op::IsDate, list1(w.clone()))? {
                    match self.ask_slot(Op::DateIso, list1(w.clone()))? {
                        Some(Value::Str(s)) => Ok(Some(json_quote(s.as_str()))),
                        _ => Ok(Some(null_text())),
                    }
                } else {
                    let keys: Vec<String> = self.json_keys(&w, options)?;
                    self.json_members(&w, options, depth, path, &keys)
                }
            },
            Value::Ref(Kind::Instance, _) => {
                let l: Vec<Value> = self.ask_list(Op::StoredFields, list1(w.clone()))?;
                let fields: Vec<(String, Value)> = sort_fields(keep_listed_fields(&fields_of(&l)));
                self.json_fields(&w, options, depth, path, &fields)
            },
            _ => Ok(None),
        }
    }

    #[verifier::loop_isolation(false)]
    fn json_items(
        &mut self,
        o: &Value,
        options: &JsonOptions,
        depth: u128,
        path: &mut Vec<Identity>,
        n: u64,
    ) -> (r: Result<Option<Vec<char>>, Stop>)
        requires
            old(self).wf(),
            depth + room(old(self).host(), old(self).pos as nat) <= u128::MAX,
        ensures
            final(self).follows(*old(self)),
            final(path)@ == old(path)@,
            json_run(r, *final(self)) == json_items(
                old(self).host(),
                old(self).pos as nat,
                o@,
                options@,
                depth as nat,
                old(path)@,
                0,
                n as nat,
                Seq::empty(),
            ),
        decreases room(old(self).host(), old(self).pos as nat), 0nat, 0nat,
    {
        let ghost goal = json_items(
            self.host(),
            self.pos as nat,
            o@,
            options@,
            depth as nat,
            path@,
            0,
            n as nat,
            Seq::empty(),
        );
        let mut parts: Vec<Vec<char>> = Vec::new();
        assert(part_views(parts@) =~= Seq::<Seq<char>>::empty());
        let mut k: u64 = 0;
        while k < n
            invariant
                k <= n,
                self.follows(*old(self)),
                path@ == old(path)@,
                goal == json_items(
                    self.host(),
                    self.pos as nat,
                    o@,
                    options@,
                    depth as nat,
                    path@,
                    k as nat,
                    n as nat,
                    part_views(parts@),
                ),
            decreases n - k,
        {
            let key: String = decimal_text(k);
            let item: Value = self.member_get(o, key.as_str())?;
            let t: Option<Vec<char>> = self.ser_at(
                &item,
                key.as_str(),
                o,
                options,
                depth + 1,
                path,
            )?;
            let ghost before = part_views(parts@);
            let part: Vec<char> = match t {
                Some(s) => s,
                None => null_text(),
            };
            parts.push(part);
            assert(part_views(parts@) =~= before.push(part@));
            k = k + 1;
        }
        Ok(Some(wrap(&parts, '[', ']', options.indent.as_str(), depth)))
    }

    #[verifier::loop_isolation(false)]
    fn json_members(
        &mut self,
        o: &Value,
        options: &JsonOptions,
        depth: u128,
        path: &mut Vec<Identity>,
        keys: &Vec<String>,
    ) -> (r: Result<Option<Vec<char>>, Stop>)
        requires
            old(self).wf(),
            depth + room(old(self).host(), old(self).pos as nat) <= u128::MAX,
        ensures
            final(self).follows(*old(self)),
            final(path)@ == old(path)@,
            json_run(r, *final(self)) == json_members(
                old(self).host(),
                old(self).pos as nat,
                o@,
                options@,
                depth as nat,
                old(path)@,
                text_views(keys@),
                0,
                Seq::empty(),
            ),
        decreases room(old(self).host(), old(self).pos as nat), 0nat, 0nat,
    {
        let ghost goal = json_members(
            self.host(),
            self.pos as nat,
            o@,
            options@,
            depth as nat,
            path@,
            text_views(keys@),
            0,
            Seq::empty(),
        );
        let mut parts: Vec<Vec<char>> = Vec::new();
        assert(part_views(parts@) =~= Seq::<Seq<char>>::empty());
        let mut j: usize = 0;
        while j < keys.len()
            invariant
                j <= keys@.len(),
                self.follows(*old(self)),
                path@ == old(path)@,
                goal == json_members(
                    self.host(),
                    self.pos as nat,
                    o@,
                    options@,
                    depth as nat,
                    path@,
                    text_views(keys@),
                    j as int,
                    part_views(parts@),
                ),
            decreases keys@.len() - j,
        {
            assert(text_views(keys@)[j as int] == keys@[j as int]@);
            let item: Value = self.member_get(o, keys[j].as_str())?;
            let t: Option<Vec<char>> = self.ser_at(
                &item,
                keys[j].as_str(),
                o,
                options,
                depth + 1,
                path,
            )?;
            match t {
                Some(s) => {
                    push_member(&mut parts, keys[j].as_str(), s, options.indent.as_str());
                },
                None => {},
            }
            j = j + 1;
        }
        Ok(Some(wrap(&parts, '{', '}', options.indent.as_str(), depth)))
    }

    #[verifier::loop_isolation(false)]
    fn json_fields(
        &mut self,
        o: &Value,
        options: &JsonOptions,
        depth: u128,
        path: &mut Vec<Identity>,
        fields: &Vec<(String, Value)>,
    ) -> (r: Result<Option<Vec<char>>, Stop>)
        requires
            old(self).wf(),
            depth + room(old(self).host(), old(self).pos as nat) < u128::MAX,
        ensures
            final(self).follows(*old(self)),
            final(path)@ == old(path)@,
            json_run(r, *final(self)) == json_fields(
                old(self).host(),
                old(self).pos as nat,
                o@,
                options@,
                depth as nat,
                old(path)@,
                field_views(fields@),
                0,
                Seq::empty(),
            ),
        decreases room(old(self).host(), old(self).pos as nat), 3nat, fields@.len(),
    {
        let ghost goal = json_fields(
            self.host(),
            self.pos as nat,
            o@,
            options@,
            depth as nat,
            path@,
            field_views(fields@),
            0,
            Seq::empty(),
        );
        let mut parts: Vec<Vec<char>> = Vec::new();
        assert(part_views(parts@) =~= Seq::<Seq<char>>::empty());
        let mut j: usize = 0;
        while j < fields.len()
            invariant
                j <= fields@.len(),
                self.follows(*old(self)),
                path@ == old(path)@,
                goal == json_fields(
                    self.host(),
                    self.pos as nat,
                    o@,
                    options@,
                    depth as nat,
                    path@,
                    field_views(fields@),
                    j as int,
                    part_views(parts@),
                ),
            decreases fields@.len() - j,
        {
            assert(field_views(fields@)[j as int] == (Field {
                key: fields@[j as int].0@,
                value: fields@[j as int].1@,
            }));
            let named: bool = match &options.keys {
                Some(ks) => contains_text(ks, fields[j].0.as_str()),
                None => true,
            };
            if named {
                let t: Option<Vec<char>> = self.ser_at(
                    &fields[j].1,
                    fields[j].0.as_str(),
                    o,
                    options,
                    depth + 1,
                    path,
                )?;
                match t {
                    Some(s) => {
                        push_member(
                            &mut parts,
                            fields[j].0.as_str(),
                            s,
                            options.indent.as_str(),
                        );
                    },
                    None => {},
                }
            }
            j = j + 1;
        }
        Ok(Some(wrap(&parts, '{', '}', options.indent.as_str(), depth)))
    }
}

/// A value that stands inside itself has no JSON text: a type error says so, after `toJSON` and the
/// replacer had their say.
pub proof fn law_circular(
    h: Host,
    pos: nat,
    v: Val,
    key: Seq<char>,
    holder: Val,
    ctx: JsonCtx,
    depth: nat,
    path: Seq<Identity>,
)
    requires
        ({
            let p = json_prepared(h, pos, v, key, holder, ctx);
            p.out matches Ok(w) && identity(w) matches Some(id) && path.contains(id)
        }),
    ensures
        json_value(h, pos, v, key, holder, ctx, depth, path) == raised::<Option<Seq<char>>>(
            ErrorKind::TypeError,
            "Converting circular structure to JSON"@,
            json_prepared(h, pos, v, key, holder, ctx).pos,
        ),
{
}

proof fn lemma_listed_fields(s: Seq<Field>, n: nat, f: Field)
    requires
        n <= s.len(),
    ensures
        listed_fields(s, n).contains(f) <==> s.take(n as int).contains(f) && listed_key(
            keys_of_fields(s),
            f.key,
            false,
        ),
    decreases n,
{
    if n > 0 {
        lemma_listed_fields(s, (n - 1) as nat, f);
        let before = listed_fields(s, (n - 1) as nat);
        let r = listed_fields(s, n);
        assert(s.take(n as int).drop_last() =~= s.take(n - 1));
        lemma_push_holds(s.take(n - 1), s[n - 1], f);
        assert(s.take(n as int) =~= s.take(n - 1).push(s[n - 1]));
        lemma_push_holds(before, s[n - 1], f);
    }
}

proof fn lemma_push_holds(s: Seq<Field>, x: Field, f: Field)
    ensures
        s.push(x).contains(f) <==> s.contains(f) || f == x,
{
    let r = s.push(x);
    if r.contains(f) {
        let i = r.index_of(f);
        assert(r[i] == f);
        if i < s.len() {
            assert(s[i] == f);
        }
    }
    if s.contains(f) {
        let i = s.index_of(f);
        assert(r[i] == f);
    }
    assert(r[s.len() as int] == x);
}

proof fn lemma_insert_holds(s: Seq<Field>, x: Field, f: Field)
    ensures
        insert_field(s, x).contains(f) <==> s.contains(f) || f == x,
    decreases s.len(),
{
    if s.len() == 0 {
        assert(insert_field(s, x) =~= s.push(x));
        lemma_push_holds(s, x, f);
    } else {
        assert(s =~= s.drop_last().push(s.last()));
        lemma_push_holds(s.drop_last(), s.last(), f);
        if text_less(x.key, s.last().key) {
            lemma_insert_holds(s.drop_last(), x, f);
            lemma_push_holds(insert_field(s.drop_last(), x), s.last(), f);
        } else {
            lemma_push_holds(s, x, f);
        }
    }
}

proof fn lemma_sorted_holds(s: Seq<Field>, f: Field)
    ensures
        sorted_fields(s).contains(f) <==> s.contains(f),
    decreases s.len(),
{
    if s.len() > 0 {
        lemma_sorted_holds(s.drop_last(), f);
        lemma_insert_holds(sorted_fields(s.drop_last()), s.last(), f);
        assert(s =~= s.drop_last().push(s.last()));
        lemma_push_holds(s.drop_last(), s.last(), f);
    }
}

/// Of an instance just those fields are serialised that are neither the engine's own nor private
/// nor marked as not enumerable.
pub proof fn law_serialised_fields(l: Seq<Val>, f: Field)
    ensures
        serial_fields(l).contains(f) <==> fields_in(l).contains(f) && !internal_key(f.key)
            && !private_name(f.key) && !keys_of_fields(fields_in(l)).contains(
            hidden_marker(f.key),
        ),
{
    let all = fields_in(l);
    lemma_listed_fields(all, all.len(), f);
    lemma_sorted_holds(listed_fields(all, all.len()), f);
    assert(all.take(all.len() as int) =~= all);
}

/// The fields of an instance are written in the order of their keys, and each is written.
pub proof fn law_fields_in_order(s: Seq<Field>, i: int, j: int)
    requires
        0 <= i < j < s.len(),
    ensures
        sorted_fields(s).len() == s.len(),
        !text_less(sorted_fields(s)[j].key, sorted_fields(s)[i].key),
        sorted_fields(s).to_multiset() == s.to_multiset(),
{
    lemma_sorted(s);
}

pub open spec fn in_order(s: Seq<Field>) -> bool {
    forall|i: int, j: int|
        0 <= i < j < s.len() ==> !text_less(#[trigger] s[j].key, #[trigger] s[i].key)
}

proof fn lemma_sorted(s: Seq<Field>)
    ensures
        sorted_fields(s).len() == s.len(),
        in_order(sorted_fields(s)),
        sorted_fields(s).to_multiset() == s.to_multiset(),
    decreases s.len(),
{
    if s.len() > 0 {
        lemma_sorted(s.drop_last());
        lemma_inserted(sorted_fields(s.drop_last()), s.last());
        assert(s.drop_last().push(s.last()) =~= s);
        vstd::seq_lib::lemma_multiset_commutative(s.drop_last(), seq![s.last()]);
        assert(s.drop_last().push(s.last()).to_multiset() =~= s.drop_last().to_multiset().insert(
            s.last(),
        )) by {
            s.drop_last().to_multiset_ensures();
        }
    } else {
        assert(sorted_fields(s) =~= s);
    }
}

proof fn lemma_inserted(s: Seq<Field>, f: Field)
    requires
        in_order(s),
    ensures
        insert_field(s, f).len() == s.len() + 1,
        in_order(insert_field(s, f)),
        insert_field(s, f).to_multiset() == s.to_multiset().insert(f),
        forall|x: Seq<char>|
            !text_less(x, f.key) && (forall|i: int| 0 <= i < s.len() ==> !text_less(x, s[i].key))
                ==> forall|i: int|
                0 <= i < insert_field(s, f).len() ==> !text_less(x, #[trigger] insert_field(
                    s,
                    f,
                )[i].key),
    decreases s.len(),
{
    s.to_multiset_ensures();
    if s.len() == 0 {
        assert(s.push(f) =~= seq![f]);
    } else if text_less(f.key, s.last().key) {
        let rest = s.drop_last();
        lemma_inserted(rest, f);
        let t = insert_field(rest, f);
        t.to_multiset_ensures();
        rest.to_multiset_ensures();
        assert(rest.push(s.last()) =~= s);
        crate::array_sort::lemma_text_order(f.key, s.last().key);
        assert(forall|i: int| 0 <= i < rest.len() ==> !text_less(s.last().key, #[trigger] rest[i].key));
        assert(t.push(s.last()).to_multiset() =~= s.to_multiset().insert(f));
    } else {
        assert(forall|i: int| 0 <= i < s.len() ==> !text_less(f.key, #[trigger] s[i].key)) by {
            assert forall|i: int| 0 <= i < s.len() implies !text_less(f.key, #[trigger] s[i].key) by {
                if i < s.len() - 1 {
                    assert(!text_less(s[s.len() - 1].key, s[i].key));
                    crate::array_sort::lemma_text_chain(f.key, s.last().key, s[i].key);
                }
            }
        }
    }
}

} // verus!
