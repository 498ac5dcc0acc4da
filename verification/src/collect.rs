//! Building objects and arrays out of lists: `groupBy`, `fromEntries`, `assign`, `Array.of` and
//! `Array.from`.
use crate::array_iter::define_items;
use crate::array_live::{count_as_num, count_num};
use crate::canvas::cat;
use crate::descriptors::object_get_own_property_descriptor_run;
use crate::functions::says_enumerable;
use crate::heap::{put, ItemV, ObjMap};
use crate::host::{
    ask_flag, ask_list, ask_slot, ask_text, ask_value, call, chain, construct, done, fail, get,
    halted, list1, list2, list4, opt_view, raised, run_list, run_plain, run_value, text_value, Halt,
    Host, Interp, Op, Run, Stop,
};
use crate::json::room;
use crate::number_format::{this_of, this_or_undefined};
use crate::objects::{array_read, is_nullish, to_object};
use crate::reflect::own_keys;
use crate::text::{append_text, concat_text};
use crate::value::{
    arg, arg_at, callable, is_callable, is_object, object, same_value_zero, same_zero, views,
    ErrorKind, Kind, Native, Val, Value,
};
use vstd::prelude::*;

verus! {

/// A key and the items that belong to it.
pub struct Group {
    pub key: Value,
    pub items: Vec<Value>,
}

/// The mathematical counterpart of `Group`.
#[verifier::ext_equal]
pub struct GroupV {
    pub key: Val,
    pub items: Seq<Val>,
}

impl View for Group {
    type V = GroupV;

    open spec fn view(&self) -> GroupV {
        GroupV { key: self.key@, items: views(self.items@) }
    }
}

pub open spec fn group_views(s: Seq<Group>) -> Seq<GroupV> {
    Seq::new(s.len(), |i: int| s[i]@)
}

/// The place of a key among some groups.
pub open spec fn group_index(s: Seq<GroupV>, key: Val) -> Option<nat>
    decreases s.len(),
{
    if s.len() == 0 {
        None
    } else if same_zero(s[0].key, key) {
        Some(0)
    } else {
        match group_index(s.skip(1), key) {
            Some(i) => Some(i + 1),
            None => None,
        }
    }
}

/// The groups with one more item: at the end of its group, or in a group of its own.
pub open spec fn grouped(s: Seq<GroupV>, key: Val, item: Val) -> Seq<GroupV> {
    match group_index(s, key) {
        Some(i) => s.update(
            i as int,
            GroupV { key: s[i as int].key, items: s[i as int].items.push(item) },
        ),
        None => s.push(GroupV { key, items: seq![item] }),
    }
}

pub proof fn lemma_group_index(s: Seq<GroupV>, key: Val, i: nat)
    requires
        i <= s.len(),
        i < s.len() ==> same_zero(s[i as int].key, key),
        forall|j: int| 0 <= j < i ==> !same_zero((#[trigger] s[j]).key, key),
    ensures
        group_index(s, key) == if i < s.len() {
            Some(i)
        } else {
            None::<nat>
        },
    decreases s.len(),
{
    if s.len() > 0 && i > 0 {
        assert(!same_zero(s[0].key, key));
        assert forall|j: int| 0 <= j < i - 1 implies !same_zero((#[trigger] s.skip(1)[j]).key, key) by {
            assert(!same_zero(s[j + 1].key, key));
        }
        lemma_group_index(s.skip(1), key, (i - 1) as nat);
    }
}

pub proof fn lemma_group_found(s: Seq<GroupV>, key: Val)
    ensures
        group_index(s, key) matches Some(i) ==> i < s.len() && same_zero(s[i as int].key, key),
    decreases s.len(),
{
    if s.len() > 0 && !same_zero(s[0].key, key) {
        lemma_group_found(s.skip(1), key);
    }
}

/// Puts an item into the group of its key.
fn put_in_group(groups: &mut Vec<Group>, key: Value, item: Value)
    ensures
        group_views(final(groups)@) == grouped(group_views(old(groups)@), key@, item@),
{
    let ghost before = group_views(groups@);
    let mut i: usize = 0;
    while i < groups.len()
        invariant
            i <= groups@.len(),
            before == group_views(groups@),
            before == group_views(old(groups)@),
            forall|j: int| 0 <= j < i ==> !same_zero((#[trigger] before[j]).key, key@),
        decreases groups@.len() - i,
    {
        assert(before[i as int] == groups@[i as int]@);
        if same_value_zero(&groups[i].key, &key) {
            proof {
                lemma_group_index(before, key@, i as nat);
            }
            let mut g: Group = Group { key: Value::Undefined, items: Vec::new() };
            std::mem::swap(&mut g, &mut groups[i]);
            let Group { key: k, mut items } = g;
            let ghost prior = views(items@);
            items.push(item);
            assert(views(items@) =~= prior.push(item@));
            groups.set(i, Group { key: k, items });
            assert(group_views(groups@) =~= grouped(before, key@, item@));
            return ;
        }
        i = i + 1;
    }
    proof {
        lemma_group_index(before, key@, i as nat);
    }
    let items: Vec<Value> = list1(item);
    groups.push(Group { key, items });
    assert(group_views(groups@) =~= grouped(before, key@, item@));
}

/// The groups of the items from the `i`-th on, each by what the callback says of it. With `named`
/// the callback's results are taken as property keys.
pub open spec fn group_items(
    h: Host,
    pos: nat,
    cb: Val,
    named: bool,
    items: Seq<Val>,
    i: int,
    out: Seq<GroupV>,
) -> Run<Seq<GroupV>>
    decreases items.len() - i,
{
    if !(0 <= i < items.len()) {
        done(out, pos)
    } else {
        let c = call(h, pos, cb, None, seq![items[i], Val::Num(count_num(i as nat))]);
        match c.out {
            Err(e) => halted(e, c.pos),
            Ok(k) => {
                let key = if named {
                    chain(
                        ask_text(h, c.pos, Op::ToKey, seq![k]),
                        |s: Seq<char>, p: nat| done(Val::Str(s), p),
                    )
                } else {
                    done(k, c.pos)
                };
                match key.out {
                    Err(e) => halted(e, key.pos),
                    Ok(x) => group_items(
                        h,
                        key.pos,
                        cb,
                        named,
                        items,
                        i + 1,
                        grouped(out, x, items[i]),
                    ),
                }
            },
        }
    }
}

/// Each group's key with an array of its items, from the `i`-th on.
pub open spec fn group_arrays(h: Host, pos: nat, groups: Seq<GroupV>, i: int, out: Seq<Val>) -> Run<
    Seq<Val>,
>
    decreases groups.len() - i,
{
    if !(0 <= i < groups.len()) {
        done(out, pos)
    } else {
        let a = ask_value(h, pos, Op::NewArray, groups[i].items);
        match a.out {
            Err(e) => halted(e, a.pos),
            Ok(v) => group_arrays(h, a.pos, groups, i + 1, out.push(groups[i].key).push(v)),
        }
    }
}

pub open spec fn group_by(h: Host, pos: nat, named: bool, args: Seq<Val>) -> Run<Val> {
    let cb = arg(args, 1);
    if !callable(cb) {
        raised(
            ErrorKind::TypeError,
            if named {
                "Object.groupBy callback is not callable"@
            } else {
                "Map.groupBy callback is not callable"@
            },
            pos,
        )
    } else {
        chain(
            ask_list(h, pos, Op::IterateAll, seq![arg(args, 0)]),
            |items: Seq<Val>, p: nat|
                chain(
                    group_items(h, p, cb, named, items, 0, Seq::empty()),
                    |groups: Seq<GroupV>, q: nat|
                        chain(
                            group_arrays(h, q, groups, 0, Seq::empty()),
                            |list: Seq<Val>, r: nat|
                                if named {
                                    ask_value(
                                        h,
                                        r,
                                        Op::NewObject,
                                        seq![Val::Str("__proto__"@), Val::Null] + list,
                                    )
                                } else {
                                    ask_value(h, r, Op::NewMap, list)
                                },
                        ),
                ),
        )
    }
}

/// `Object.groupBy`: an object without a prototype.
pub open spec fn object_group_by_run(h: Host, pos: nat, recv: Option<Val>, args: Seq<Val>) -> Run<
    Val,
> {
    group_by(h, pos, true, args)
}

/// `Map.groupBy`.
pub open spec fn map_group_by_run(h: Host, pos: nat, recv: Option<Val>, args: Seq<Val>) -> Run<Val> {
    group_by(h, pos, false, args)
}

pub open spec fn groups_run(r: Result<Vec<Group>, Stop>, it: Interp) -> Run<Seq<GroupV>> {
    match r {
        Ok(v) => done(group_views(v@), it.pos as nat),
        Err(e) => halted(e@, it.pos as nat),
    }
}

/// What a stored map is made of, as a list of keys and values.
pub open spec fn flattened(s: Seq<ItemV>, n: nat) -> Seq<Val>
    decreases n,
{
    if n == 0 || n > s.len() {
        Seq::empty()
    } else {
        flattened(s, (n - 1) as nat).push(Val::Str(s[n - 1].key)).push(s[n - 1].value)
    }
}

pub fn flatten(m: &ObjMap) -> (r: Vec<Value>)
    ensures
        views(r@) == flattened(m@, m@.len()),
{
    let mut out: Vec<Value> = Vec::new();
    let mut i: usize = 0;
    assert(views(out@) =~= flattened(m@, 0));
    while i < m.items.len()
        invariant
            i <= m.items@.len(),
            views(out@) == flattened(m@, i as nat),
        decreases m.items@.len() - i,
    {
        let ghost before = views(out@);
        assert(m@[i as int] == m.items@[i as int]@);
        out.push(Value::Str(m.items[i].key.clone()));
        assert(views(out@) =~= before.push(Val::Str(m@[i as int].key)));
        let ghost middle = views(out@);
        out.push(m.items[i].value.clone());
        assert(views(out@) =~= middle.push(m@[i as int].value));
        i = i + 1;
    }
    out
}

/// An exception while iterating: the iterator is closed, and the exception stands.
pub open spec fn close_with<T>(h: Host, pos: nat, it: Val, e: Halt) -> Run<T> {
    match e {
        Halt::Ask(_) => halted(e, pos),
        Halt::Throw(_) => {
            let c = ask_value(h, pos, Op::IterClose, seq![it]);
            match c.out {
                Err(Halt::Ask(q)) => halted(Halt::Ask(q), c.pos),
                _ => halted(e, c.pos),
            }
        },
    }
}

/// The key and the value that an entry stands for.
pub open spec fn entry_pair(h: Host, pos: nat, entry: Val) -> Run<(Seq<char>, Val)> {
    if !object(entry) {
        raised(ErrorKind::TypeError, "iterator entry is not an object"@, pos)
    } else {
        chain(
            get(h, pos, entry, "0"@),
            |k: Val, p: nat|
                chain(
                    get(h, p, entry, "1"@),
                    |v: Val, q: nat|
                        chain(
                            ask_text(h, q, Op::ToKey, seq![k]),
                            |key: Seq<char>, r: nat| done((key, v), r),
                        ),
                ),
        )
    }
}

/// The map of an iterator's entries.
pub open spec fn entries_from(h: Host, pos: nat, it: Val, out: Seq<ItemV>) -> Run<Seq<ItemV>>
    decreases room(h, pos),
{
    let s = ask_slot(h, pos, Op::IterStep, seq![it]);
    match s.out {
        Err(e) => halted(e, s.pos),
        Ok(None) => done(out, s.pos),
        Ok(Some(entry)) => {
            let p = entry_pair(h, s.pos, entry);
            match p.out {
                Err(e) => close_with(h, p.pos, it, e),
                Ok((key, v)) => if room(h, p.pos) < room(h, pos) {
                    entries_from(h, p.pos, it, put(out, key, v))
                } else {
                    done(out, p.pos)
                },
            }
        },
    }
}

/// `Object.fromEntries`.
pub open spec fn object_from_entries_run(
    h: Host,
    pos: nat,
    recv: Option<Val>,
    args: Seq<Val>,
) -> Run<Val> {
    chain(
        ask_slot(h, pos, Op::Iterator, seq![arg(args, 0)]),
        |it: Option<Val>, p: nat|
            match it {
                None => raised(ErrorKind::TypeError, "Object.fromEntries requires an iterable"@, p),
                Some(i) => chain(
                    entries_from(h, p, i, Seq::empty()),
                    |m: Seq<ItemV>, q: nat|
                        ask_value(h, q, Op::NewObject, flattened(m, m.len())),
                ),
            },
    )
}

pub open spec fn map_run(r: Result<ObjMap, Stop>, it: Interp) -> Run<Seq<ItemV>> {
    match r {
        Ok(v) => done(v@, it.pos as nat),
        Err(e) => halted(e@, it.pos as nat),
    }
}

pub open spec fn pair_run(r: Result<(String, Value), Stop>, it: Interp) -> Run<(Seq<char>, Val)> {
    match r {
        Ok(v) => done((v.0@, v.1@), it.pos as nat),
        Err(e) => halted(e@, it.pos as nat),
    }
}

/// Copies the enumerable properties under some keys, from the `i`-th on.
pub open spec fn assign_keys(h: Host, pos: nat, target: Val, from: Val, keys: Seq<Val>, i: int) -> Run<
    (),
>
    decreases keys.len() - i,
{
    if !(0 <= i < keys.len()) {
        done((), pos)
    } else {
        let one = assign_key(h, pos, target, from, keys[i]);
        match one.out {
            Err(e) => halted(e, one.pos),
            Ok(_) => assign_keys(h, one.pos, target, from, keys, i + 1),
        }
    }
}

/// Copies one property, where it is enumerable.
pub open spec fn assign_key(h: Host, pos: nat, target: Val, from: Val, key: Val) -> Run<()> {
    chain(
        object_get_own_property_descriptor_run(h, pos, None, seq![from, key]),
        |desc: Val, p: nat|
            chain(
                says_enumerable(h, p, desc),
                |yes: bool, q: nat|
                    if !yes {
                        done((), q)
                    } else {
                        chain(
                            ask_text(h, q, Op::ToKey, seq![key]),
                            |name: Seq<char>, r: nat|
                                chain(
                                    get(h, r, from, name),
                                    |v: Val, s: nat|
                                        chain(
                                            ask_flag(
                                                h,
                                                s,
                                                Op::Assign,
                                                seq![target, Val::Str(name), v, target],
                                            ),
                                            |set: bool, t: nat|
                                                if set {
                                                    done((), t)
                                                } else {
                                                    raised(
                                                        ErrorKind::TypeError,
                                                        "Cannot assign to read only property '"@
                                                            + name + "' of object"@,
                                                        t,
                                                    )
                                                },
                                        ),
                                ),
                        )
                    },
            ),
    )
}

/// An object, or the wrapper of a primitive.
pub open spec fn as_object(h: Host, pos: nat, v: Val) -> Run<Val> {
    if object(v) {
        done(v, pos)
    } else {
        to_object(h, pos, v)
    }
}

/// Copies the properties of the sources from the `i`-th argument on.
pub open spec fn assign_sources(h: Host, pos: nat, target: Val, args: Seq<Val>, i: int) -> Run<()>
    decreases args.len() - i,
{
    if !(0 <= i < args.len()) {
        done((), pos)
    } else if args[i] is Undefined || args[i] is Null {
        assign_sources(h, pos, target, args, i + 1)
    } else {
        let one = chain(
            as_object(h, pos, args[i]),
            |from: Val, p: nat|
                chain(
                    own_keys(h, p, from),
                    |keys: Seq<Val>, q: nat| assign_keys(h, q, target, from, keys, 0),
                ),
        );
        match one.out {
            Err(e) => halted(e, one.pos),
            Ok(_) => assign_sources(h, one.pos, target, args, i + 1),
        }
    }
}

/// `Object.assign`.
pub open spec fn object_assign_run(h: Host, pos: nat, recv: Option<Val>, args: Seq<Val>) -> Run<Val> {
    let t = arg(args, 0);
    if t is Undefined || t is Null {
        raised(ErrorKind::TypeError, "Cannot convert undefined or null to object"@, pos)
    } else {
        chain(
            as_object(h, pos, t),
            |target: Val, p: nat|
                chain(
                    assign_sources(h, p, target, args, 1),
                    |u: (), q: nat| done(target, q),
                ),
        )
    }
}

/// The array, or the object of the receiver's making, that holds some items.
pub open spec fn built(h: Host, pos: nat, this: Val, items: Seq<Val>, sized: bool) -> Run<Val> {
    chain(
        ask_flag(h, pos, Op::IsConstructor, seq![this]),
        |c: bool, p: nat|
            if c && this != Val::Native(Native::ArrayCtor) {
                chain(
                    construct(
                        h,
                        p,
                        this,
                        if sized {
                            seq![Val::Num(count_num(items.len()))]
                        } else {
                            Seq::empty()
                        },
                    ),
                    |a: Val, q: nat|
                        chain(
                            define_items(h, q, a, items, 0),
                            |u: (), r: nat|
                                chain(
                                    ask_flag(
                                        h,
                                        r,
                                        Op::Assign,
                                        seq![
                                            a,
                                            Val::Str("length"@),
                                            Val::Num(count_num(items.len())),
                                            a,
                                        ],
                                    ),
                                    |b: bool, s: nat| done(a, s),
                                ),
                        ),
                )
            } else {
                ask_value(h, p, Op::NewArray, items)
            },
    )
}

/// `Array.of`.
pub open spec fn array_of_run(h: Host, pos: nat, recv: Option<Val>, args: Seq<Val>) -> Run<Val> {
    built(h, pos, this_of(recv), args, true)
}

/// An item as `Array.from` stores it.
pub open spec fn mapped_item(h: Host, pos: nat, f: Option<Val>, this: Val, v: Val, k: nat) -> Run<Val> {
    match f {
        Some(g) => call(h, pos, g, Some(this), seq![v, Val::Num(count_num(k))]),
        None => done(v, pos),
    }
}

/// The items of an iterator, each mapped as it comes; an exception of the callback closes it.
pub open spec fn stepped(h: Host, pos: nat, it: Val, f: Option<Val>, this: Val, out: Seq<Val>) -> Run<
    Seq<Val>,
>
    decreases room(h, pos),
{
    let s = ask_slot(h, pos, Op::IterStep, seq![it]);
    match s.out {
        Err(e) => halted(e, s.pos),
        Ok(None) => done(out, s.pos),
        Ok(Some(v)) => {
            let m = mapped_item(h, s.pos, f, this, v, out.len());
            match m.out {
                Err(e) => close_with(h, m.pos, it, e),
                Ok(x) => if room(h, m.pos) < room(h, pos) {
                    stepped(h, m.pos, it, f, this, out.push(x))
                } else {
                    done(out, m.pos)
                },
            }
        },
    }
}

/// The items of a list, mapped from the `i`-th on.
pub open spec fn mapped_list(
    h: Host,
    pos: nat,
    f: Option<Val>,
    this: Val,
    items: Seq<Val>,
    i: int,
    out: Seq<Val>,
) -> Run<Seq<Val>>
    decreases items.len() - i,
{
    if !(0 <= i < items.len()) {
        done(out, pos)
    } else {
        let m = mapped_item(h, pos, f, this, items[i], i as nat);
        match m.out {
            Err(e) => halted(e, m.pos),
            Ok(x) => mapped_list(h, m.pos, f, this, items, i + 1, out.push(x)),
        }
    }
}

/// Where the items of `Array.from` come from.
#[verifier::ext_equal]
pub enum SourceV {
    /// An iterator that is stepped.
    Steps(Val),
    /// Everything that iterating gives at once.
    All,
    /// An array-like object.
    Indexed,
    /// Nothing.
    Nothing,
}

/// Whether a plain object is an iterator that the engine made.
pub open spec fn engine_iterator(h: Host, pos: nat, v: Val) -> Run<bool> {
    chain(
        ask_slot(h, pos, Op::OwnSlot, seq![v, Val::Str("\0items"@)]),
        |a: Option<Val>, p: nat|
            if a is Some {
                done(true, p)
            } else {
                chain(
                    ask_slot(h, p, Op::OwnSlot, seq![v, Val::Str("next"@)]),
                    |b: Option<Val>, q: nat| done(b is Some, q),
                )
            },
    )
}

/// Values that the engine iterates over at once.
pub open spec fn listed_at_once(v: Val) -> bool {
    v is Str || match v {
        Val::Ref(k, _) => k == Kind::Arr || k == Kind::SetVal || k == Kind::MapVal || k == Kind::Gen,
        _ => false,
    }
}

pub open spec fn source_of(h: Host, pos: nat, v: Val) -> Run<SourceV> {
    if listed_at_once(v) {
        done(SourceV::All, pos)
    } else if v matches Val::Ref(Kind::Obj, _) {
        chain(
            engine_iterator(h, pos, v),
            |own: bool, p: nat|
                if own {
                    done(SourceV::All, p)
                } else {
                    chain(
                        ask_slot(h, p, Op::Iterator, seq![v]),
                        |it: Option<Val>, q: nat|
                            done(
                                match it {
                                    Some(i) => SourceV::Steps(i),
                                    None => SourceV::Indexed,
                                },
                                q,
                            ),
                    )
                },
        )
    } else {
        chain(
            ask_slot(h, pos, Op::Iterator, seq![v]),
            |it: Option<Val>, q: nat|
                done(
                    match it {
                        Some(i) => SourceV::Steps(i),
                        None => SourceV::Nothing,
                    },
                    q,
                ),
        )
    }
}

/// The items of `Array.from`, mapped.
pub open spec fn gathered(h: Host, pos: nat, src: SourceV, v: Val, f: Option<Val>, this: Val) -> Run<
    Seq<Val>,
> {
    match src {
        SourceV::Steps(it) => stepped(h, pos, it, f, this, Seq::empty()),
        SourceV::All => chain(
            ask_list(h, pos, Op::IterateAll, seq![v]),
            |l: Seq<Val>, p: nat| mapped_list(h, p, f, this, l, 0, Seq::empty()),
        ),
        SourceV::Indexed => chain(
            array_read(h, pos, v),
            |l: Seq<Val>, p: nat| mapped_list(h, p, f, this, l, 0, Seq::empty()),
        ),
        SourceV::Nothing => done(Seq::empty(), pos),
    }
}

/// `Array.from`.
pub open spec fn array_from_run(h: Host, pos: nat, recv: Option<Val>, args: Seq<Val>) -> Run<Val> {
    let v = arg(args, 0);
    let f = arg(args, 1);
    if !(f is Undefined) && !callable(f) {
        raised(ErrorKind::TypeError, "Array.from: mapFn is not a function"@, pos)
    } else if v is Undefined || v is Null {
        raised(ErrorKind::TypeError, "Array.from: items is undefined or null"@, pos)
    } else {
        let mapper = if f is Undefined {
            None
        } else {
            Some(f)
        };
        chain(
            source_of(h, pos, v),
            |src: SourceV, p: nat|
                chain(
                    gathered(h, p, src, v, mapper, arg(args, 2)),
                    |items: Seq<Val>, q: nat|
                        built(
                            h,
                            q,
                            this_of(recv),
                            items,
                            src == SourceV::Indexed || src == SourceV::Nothing,
                        ),
                ),
        )
    }
}

/// Where the items of `Array.from` come from.
enum Source {
    Steps(Value),
    All,
    Indexed,
    Nothing,
}

impl View for Source {
    type V = SourceV;

    closed spec fn view(&self) -> SourceV {
        match *self {
            Source::Steps(v) => SourceV::Steps(v@),
            Source::All => SourceV::All,
            Source::Indexed => SourceV::Indexed,
            Source::Nothing => SourceV::Nothing,
        }
    }
}

spec fn source_run(r: Result<Source, Stop>, it: Interp) -> Run<SourceV> {
    match r {
        Ok(v) => done(v@, it.pos as nat),
        Err(e) => halted(e@, it.pos as nat),
    }
}

impl Interp {
    #[verifier::loop_isolation(false)]
    fn group_items(&mut self, cb: &Value, named: bool, items: &Vec<Value>) -> (r: Result<Vec<Group>, Stop>)
        requires
            old(self).wf(),
        ensures
            final(self).follows(*old(self)),
            groups_run(r, *final(self)) == group_items(
                old(self).host(),
                old(self).pos as nat,
                cb@,
                named,
                views(items@),
                0,
                Seq::empty(),
            ),
    {
        let ghost all = views(items@);
        let ghost goal = group_items(self.host(), self.pos as nat, cb@, named, all, 0, Seq::empty());
        let mut out: Vec<Group> = Vec::new();
        let mut i: usize = 0;
        assert(group_views(out@) =~= Seq::<GroupV>::empty());
        while i < items.len()
            invariant
                i <= items@.len(),
                self.follows(*old(self)),
                goal == group_items(
                    self.host(),
                    self.pos as nat,
                    cb@,
                    named,
                    all,
                    i as int,
                    group_views(out@),
                ),
            decreases items@.len() - i,
        {
            assert(all[i as int] == items@[i as int]@);
            let k: Value = self.call_value(
                cb.clone(),
                None,
                list2(items[i].clone(), Value::Num(count_as_num(i))),
            )?;
            let key: Value = if named {
                Value::Str(self.ask_text(Op::ToKey, list1(k))?)
            } else {
                k
            };
            put_in_group(&mut out, key, items[i].clone());
            i = i + 1;
        }
        Ok(out)
    }

    #[verifier::loop_isolation(false)]
    fn group_arrays(&mut self, groups: &Vec<Group>) -> (r: Result<Vec<Value>, Stop>)
        requires
            old(self).wf(),
        ensures
            final(self).follows(*old(self)),
            run_list(r, *final(self)) == group_arrays(
                old(self).host(),
                old(self).pos as nat,
                group_views(groups@),
                0,
                Seq::empty(),
            ),
    {
        let ghost all = group_views(groups@);
        let ghost goal = group_arrays(self.host(), self.pos as nat, all, 0, Seq::empty());
        let mut out: Vec<Value> = Vec::new();
        let mut i: usize = 0;
        assert(views(out@) =~= Seq::<Val>::empty());
        while i < groups.len()
            invariant
                i <= groups@.len(),
                self.follows(*old(self)),
                goal == group_arrays(self.host(), self.pos as nat, all, i as int, views(out@)),
            decreases groups@.len() - i,
        {
            assert(all[i as int] == groups@[i as int]@);
            let a: Value = self.ask_value(
                Op::NewArray,
                crate::value::clone_values(&groups[i].items),
            )?;
            let ghost before = views(out@);
            out.push(groups[i].key.clone());
            assert(views(out@) =~= before.push(all[i as int].key));
            let ghost middle = views(out@);
            out.push(a);
            assert(views(out@) =~= middle.push(a@));
            i = i + 1;
        }
        Ok(out)
    }

    fn group_by(&mut self, named: bool, args: &Vec<Value>) -> (r: Result<Value, Stop>)
        requires
            old(self).wf(),
        ensures
            final(self).follows(*old(self)),
            run_value(r, *final(self)) == group_by(
                old(self).host(),
                old(self).pos as nat,
                named,
                views(args@),
            ),
    {
        let cb: Value = arg_at(args, 1);
        if !is_callable(&cb) {
            let message: &str = if named {
                "Object.groupBy callback is not callable"
            } else {
                "Map.groupBy callback is not callable"
            };
            return Err(fail(ErrorKind::TypeError, message));
        }
        let items: Vec<Value> = self.ask_list(Op::IterateAll, list1(arg_at(args, 0)))?;
        let groups: Vec<Group> = self.group_items(&cb, named, &items)?;
        let list: Vec<Value> = self.group_arrays(&groups)?;
        if named {
            let bare: Vec<Value> = list2(text_value("__proto__"), Value::Null);
            self.ask_value(Op::NewObject, cat(bare, &list))
        } else {
            self.ask_value(Op::NewMap, list)
        }
    }

    /// `Object.groupBy`.
    pub fn object_group_by(&mut self, recv: &Option<Value>, args: &Vec<Value>) -> (r: Result<Value, Stop>)
        requires
            old(self).wf(),
        ensures
            final(self).follows(*old(self)),
            run_value(r, *final(self)) == object_group_by_run(
                old(self).host(),
                old(self).pos as nat,
                opt_view(*recv),
                views(args@),
            ),
    {
        self.group_by(true, args)
    }

    /// `Map.groupBy`.
    pub fn map_group_by(&mut self, recv: &Option<Value>, args: &Vec<Value>) -> (r: Result<Value, Stop>)
        requires
            old(self).wf(),
        ensures
            final(self).follows(*old(self)),
            run_value(r, *final(self)) == map_group_by_run(
                old(self).host(),
                old(self).pos as nat,
                opt_view(*recv),
                views(args@),
            ),
    {
        self.group_by(false, args)
    }

    fn close_with(&mut self, it: &Value, e: Stop) -> (r: Stop)
        requires
            old(self).wf(),
        ensures
            final(self).follows(*old(self)),
            halted::<()>(r@, final(self).pos as nat) == close_with::<()>(
                old(self).host(),
                old(self).pos as nat,
                it@,
                e@,
            ),
    {
        match e {
            Stop::Ask(q) => Stop::Ask(q),
            Stop::Throw(t) => match self.ask_value(Op::IterClose, list1(it.clone())) {
                Err(Stop::Ask(q)) => Stop::Ask(q),
                _ => Stop::Throw(t),
            },
        }
    }

    fn entry_pair(&mut self, entry: &Value) -> (r: Result<(String, Value), Stop>)
        requires
            old(self).wf(),
        ensures
            final(self).follows(*old(self)),
            pair_run(r, *final(self)) == entry_pair(
                old(self).host(),
                old(self).pos as nat,
                entry@,
            ),
    {
        if !is_object(entry) {
            return Err(fail(ErrorKind::TypeError, "iterator entry is not an object"));
        }
        let k: Value = self.member_get(entry, "0")?;
        let v: Value = self.member_get(entry, "1")?;
        let key: String = self.ask_text(Op::ToKey, list1(k))?;
        Ok((key, v))
    }

    #[verifier::loop_isolation(false)]
    fn entries_from(&mut self, it: &Value) -> (r: Result<ObjMap, Stop>)
        requires
            old(self).wf(),
        ensures
            final(self).follows(*old(self)),
            map_run(r, *final(self)) == entries_from(
                old(self).host(),
                old(self).pos as nat,
                it@,
                Seq::empty(),
            ),
    {
        let ghost goal = entries_from(self.host(), self.pos as nat, it@, Seq::empty());
        let mut out: ObjMap = ObjMap::new();
        loop
            invariant
                self.follows(*old(self)),
                goal == entries_from(self.host(), self.pos as nat, it@, out@),
            decreases self.replies@.len() - self.pos,
        {
            let ghost h = self.host();
            let ghost before = self.pos as nat;
            match self.ask_slot(Op::IterStep, list1(it.clone()))? {
                None => {
                    return Ok(out);
                },
                Some(entry) => match self.entry_pair(&entry) {
                    Err(e) => {
                        return Err(self.close_with(it, e));
                    },
                    Ok((key, v)) => {
                        assert(room(h, self.pos as nat) < room(h, before));
                        out.insert(key, v);
                    },
                },
            }
        }
    }

    /// `Object.fromEntries`.
    pub fn object_from_entries(&mut self, recv: &Option<Value>, args: &Vec<Value>) -> (r: Result<Value, Stop>)
        requires
            old(self).wf(),
        ensures
            final(self).follows(*old(self)),
            run_value(r, *final(self)) == object_from_entries_run(
                old(self).host(),
                old(self).pos as nat,
                opt_view(*recv),
                views(args@),
            ),
    {
        match self.ask_slot(Op::Iterator, list1(arg_at(args, 0)))? {
            None => Err(fail(ErrorKind::TypeError, "Object.fromEntries requires an iterable")),
            Some(it) => {
                let m: ObjMap = self.entries_from(&it)?;
                self.ask_value(Op::NewObject, flatten(&m))
            },
        }
    }

    fn assign_key(&mut self, target: &Value, from: &Value, key: &Value) -> (r: Result<(), Stop>)
        requires
            old(self).wf(),
        ensures
            final(self).follows(*old(self)),
            run_plain(r, *final(self)) == assign_key(
                old(self).host(),
                old(self).pos as nat,
                target@,
                from@,
                key@,
            ),
    {
        let desc: Value = self.object_get_own_property_descriptor(
            &None,
            &list2(from.clone(), key.clone()),
        )?;
        if !self.says_enumerable(&desc)? {
            return Ok(());
        }
        let name: String = self.ask_text(Op::ToKey, list1(key.clone()))?;
        let v: Value = self.member_get(from, name.as_str())?;
        let set: bool = self.ask_flag(
            Op::Assign,
            list4(target.clone(), text_value(name.as_str()), v, target.clone()),
        )?;
        if set {
            return Ok(());
        }
        let mut message: String = concat_text("Cannot assign to read only property '", name.as_str());
        append_text(&mut message, "' of object");
        Err(fail(ErrorKind::TypeError, message.as_str()))
    }

    #[verifier::loop_isolation(false)]
    fn assign_keys(&mut self, target: &Value, from: &Value, keys: &Vec<Value>) -> (r: Result<(), Stop>)
        requires
            old(self).wf(),
        ensures
            final(self).follows(*old(self)),
            run_plain(r, *final(self)) == assign_keys(
                old(self).host(),
                old(self).pos as nat,
                target@,
                from@,
                views(keys@),
                0,
            ),
    {
        let ghost all = views(keys@);
        let ghost goal = assign_keys(self.host(), self.pos as nat, target@, from@, all, 0);
        let mut i: usize = 0;
        while i < keys.len()
            invariant
                i <= keys@.len(),
                self.follows(*old(self)),
                goal == assign_keys(self.host(), self.pos as nat, target@, from@, all, i as int),
            decreases keys@.len() - i,
        {
            assert(all[i as int] == keys@[i as int]@);
            self.assign_key(target, from, &keys[i])?;
            i = i + 1;
        }
        Ok(())
    }

    /// An object, or the wrapper of a primitive.
    pub fn as_object(&mut self, v: Value) -> (r: Result<Value, Stop>)
        requires
            old(self).wf(),
        ensures
            final(self).follows(*old(self)),
            run_value(r, *final(self)) == as_object(
                old(self).host(),
                old(self).pos as nat,
                v@,
            ),
    {
        if is_object(&v) {
            Ok(v)
        } else {
            self.to_object_value(v)
        }
    }

    #[verifier::loop_isolation(false)]
    fn assign_sources(&mut self, target: &Value, args: &Vec<Value>) -> (r: Result<(), Stop>)
        requires
            old(self).wf(),
        ensures
            final(self).follows(*old(self)),
            run_plain(r, *final(self)) == assign_sources(
                old(self).host(),
                old(self).pos as nat,
                target@,
                views(args@),
                1,
            ),
    {
        let ghost all = views(args@);
        let ghost goal = assign_sources(self.host(), self.pos as nat, target@, all, 1);
        let mut i: usize = 1;
        while i < args.len()
            invariant
                1 <= i,
                self.follows(*old(self)),
                goal == assign_sources(self.host(), self.pos as nat, target@, all, i as int),
            decreases args@.len() - i,
        {
            assert(all[i as int] == args@[i as int]@);
            if !is_nullish(&args[i]) {
                let from: Value = self.as_object(args[i].clone())?;
                let keys: Vec<Value> = self.own_keys(&from)?;
                self.assign_keys(target, &from, &keys)?;
            }
            i = i + 1;
        }
        Ok(())
    }

    /// `Object.assign`.
    pub fn object_assign(&mut self, recv: &Option<Value>, args: &Vec<Value>) -> (r: Result<Value, Stop>)
        requires
            old(self).wf(),
        ensures
            final(self).follows(*old(self)),
            run_value(r, *final(self)) == object_assign_run(
                old(self).host(),
                old(self).pos as nat,
                opt_view(*recv),
                views(args@),
            ),
    {
        let t: Value = arg_at(args, 0);
        if is_nullish(&t) {
            return Err(fail(ErrorKind::TypeError, "Cannot convert undefined or null to object"));
        }
        let target: Value = self.as_object(t)?;
        self.assign_sources(&target, args)?;
        Ok(target)
    }

    fn built(&mut self, this: Value, items: &Vec<Value>, sized: bool) -> (r: Result<Value, Stop>)
        requires
            old(self).wf(),
        ensures
            final(self).follows(*old(self)),
            run_value(r, *final(self)) == built(
                old(self).host(),
                old(self).pos as nat,
                this@,
                views(items@),
                sized,
            ),
    {
        let c: bool = self.ask_flag(Op::IsConstructor, list1(this.clone()))?;
        if !c || matches!(this, Value::Native(Native::ArrayCtor)) {
            return self.ask_value(Op::NewArray, crate::value::clone_values(items));
        }
        let n: usize = items.len();
        let given: Vec<Value> = if sized {
            list1(Value::Num(count_as_num(n)))
        } else {
            Vec::new()
        };
        assert(!sized ==> views(given@) =~= Seq::<Val>::empty());
        let a: Value = self.construct(this, given)?;
        self.define_items(&a, items)?;
        let b: bool = self.ask_flag(
            Op::Assign,
            list4(a.clone(), text_value("length"), Value::Num(count_as_num(n)), a.clone()),
        )?;
        Ok(a)
    }

    /// `Array.of`.
    pub fn array_of(&mut self, recv: &Option<Value>, args: &Vec<Value>) -> (r: Result<Value, Stop>)
        requires
            old(self).wf(),
        ensures
            final(self).follows(*old(self)),
            run_value(r, *final(self)) == array_of_run(
                old(self).host(),
                old(self).pos as nat,
                opt_view(*recv),
                views(args@),
            ),
    {
        self.built(this_or_undefined(recv), args, true)
    }

    fn mapped_item(&mut self, f: &Option<Value>, this: &Value, v: Value, k: usize) -> (r: Result<Value, Stop>)
        requires
            old(self).wf(),
        ensures
            final(self).follows(*old(self)),
            run_value(r, *final(self)) == mapped_item(
                old(self).host(),
                old(self).pos as nat,
                opt_view(*f),
                this@,
                v@,
                k as nat,
            ),
    {
        match f {
            Some(g) => self.call_value(
                g.clone(),
                Some(this.clone()),
                list2(v, Value::Num(count_as_num(k))),
            ),
            None => Ok(v),
        }
    }

    #[verifier::loop_isolation(false)]
    fn stepped(&mut self, it: &Value, f: &Option<Value>, this: &Value) -> (r: Result<Vec<Value>, Stop>)
        requires
            old(self).wf(),
        ensures
            final(self).follows(*old(self)),
            run_list(r, *final(self)) == stepped(
                old(self).host(),
                old(self).pos as nat,
                it@,
                opt_view(*f),
                this@,
                Seq::empty(),
            ),
    {
        let ghost goal = stepped(
            self.host(),
            self.pos as nat,
            it@,
            opt_view(*f),
            this@,
            Seq::empty(),
        );
        let mut out: Vec<Value> = Vec::new();
        assert(views(out@) =~= Seq::<Val>::empty());
        loop
            invariant
                self.follows(*old(self)),
                goal == stepped(
                    self.host(),
                    self.pos as nat,
                    it@,
                    opt_view(*f),
                    this@,
                    views(out@),
                ),
            decreases self.replies@.len() - self.pos,
        {
            let ghost h = self.host();
            let ghost before = self.pos as nat;
            match self.ask_slot(Op::IterStep, list1(it.clone()))? {
                None => {
                    return Ok(out);
                },
                Some(v) => {
                    let k: usize = out.len();
                    match self.mapped_item(f, this, v, k) {
                        Err(e) => {
                            return Err(self.close_with(it, e));
                        },
                        Ok(x) => {
                            assert(room(h, self.pos as nat) < room(h, before));
                            let ghost prior = views(out@);
                            out.push(x);
                            assert(views(out@) =~= prior.push(x@));
                        },
                    }
                },
            }
        }
    }

    #[verifier::loop_isolation(false)]
    fn mapped_list(&mut self, f: &Option<Value>, this: &Value, items: &Vec<Value>) -> (r: Result<Vec<Value>, Stop>)
        requires
            old(self).wf(),
        ensures
            final(self).follows(*old(self)),
            run_list(r, *final(self)) == mapped_list(
                old(self).host(),
                old(self).pos as nat,
                opt_view(*f),
                this@,
                views(items@),
                0,
                Seq::empty(),
            ),
    {
        let ghost all = views(items@);
        let ghost goal = mapped_list(
            self.host(),
            self.pos as nat,
            opt_view(*f),
            this@,
            all,
            0,
            Seq::empty(),
        );
        let mut out: Vec<Value> = Vec::new();
        let mut i: usize = 0;
        assert(views(out@) =~= Seq::<Val>::empty());
        while i < items.len()
            invariant
                i <= items@.len(),
                self.follows(*old(self)),
                goal == mapped_list(
                    self.host(),
                    self.pos as nat,
                    opt_view(*f),
                    this@,
                    all,
                    i as int,
                    views(out@),
                ),
            decreases items@.len() - i,
        {
            assert(all[i as int] == items@[i as int]@);
            let x: Value = self.mapped_item(f, this, items[i].clone(), i)?;
            let ghost before = views(out@);
            out.push(x);
            assert(views(out@) =~= before.push(x@));
            i = i + 1;
        }
        Ok(out)
    }

    fn engine_iterator(&mut self, v: &Value) -> (r: Result<bool, Stop>)
        requires
            old(self).wf(),
        ensures
            final(self).follows(*old(self)),
            run_plain(r, *final(self)) == engine_iterator(
                old(self).host(),
                old(self).pos as nat,
                v@,
            ),
    {
        if self.ask_slot(Op::OwnSlot, list2(v.clone(), text_value("\0items")))?.is_some() {
            return Ok(true);
        }
        let next: Option<Value> = self.ask_slot(Op::OwnSlot, list2(v.clone(), text_value("next")))?;
        Ok(next.is_some())
    }

    fn source_of(&mut self, v: &Value) -> (r: Result<Source, Stop>)
        requires
            old(self).wf(),
        ensures
            final(self).follows(*old(self)),
            source_run(r, *final(self)) == source_of(
                old(self).host(),
                old(self).pos as nat,
                v@,
            ),
    {
        let at_once: bool = match v {
            Value::Str(_) => true,
            Value::Ref(k, _) => match k {
                Kind::Arr | Kind::SetVal | Kind::MapVal | Kind::Gen => true,
                _ => false,
            },
            _ => false,
        };
        if at_once {
            return Ok(Source::All);
        }
        let plain: bool = matches!(v, Value::Ref(Kind::Obj, _));
        if plain {
            if self.engine_iterator(v)? {
                return Ok(Source::All);
            }
        }
        match self.ask_slot(Op::Iterator, list1(v.clone()))? {
            Some(it) => Ok(Source::Steps(it)),
            None => if plain {
                Ok(Source::Indexed)
            } else {
                Ok(Source::Nothing)
            },
        }
    }

    fn gathered(&mut self, src: &Source, v: &Value, f: &Option<Value>, this: &Value) -> (r: Result<Vec<Value>, Stop>)
        requires
            old(self).wf(),
        ensures
            final(self).follows(*old(self)),
            run_list(r, *final(self)) == gathered(
                old(self).host(),
                old(self).pos as nat,
                src@,
                v@,
                opt_view(*f),
                this@,
            ),
    {
        match src {
            Source::Steps(it) => self.stepped(it, f, this),
            Source::All => {
                let l: Vec<Value> = self.ask_list(Op::IterateAll, list1(v.clone()))?;
                self.mapped_list(f, this, &l)
            },
            Source::Indexed => {
                let l: Vec<Value> = self.generic_array_read(v)?;
                self.mapped_list(f, this, &l)
            },
            Source::Nothing => {
                let none: Vec<Value> = Vec::new();
                assert(views(none@) =~= Seq::<Val>::empty());
                Ok(none)
            },
        }
    }

    /// `Array.from`.
    pub fn array_from(&mut self, recv: &Option<Value>, args: &Vec<Value>) -> (r: Result<Value, Stop>)
        requires
            old(self).wf(),
        ensures
            final(self).follows(*old(self)),
            run_value(r, *final(self)) == array_from_run(
                old(self).host(),
                old(self).pos as nat,
                opt_view(*recv),
                views(args@),
            ),
    {
        let v: Value = arg_at(args, 0);
        let f: Value = arg_at(args, 1);
        let mapped: bool = !matches!(f, Value::Undefined);
        if mapped && !is_callable(&f) {
            return Err(fail(ErrorKind::TypeError, "Array.from: mapFn is not a function"));
        }
        if is_nullish(&v) {
            return Err(fail(ErrorKind::TypeError, "Array.from: items is undefined or null"));
        }
        let mapper: Option<Value> = if mapped {
            Some(f)
        } else {
            None
        };
        let src: Source = self.source_of(&v)?;
        let items: Vec<Value> = self.gathered(&src, &v, &mapper, &arg_at(args, 2))?;
        let sized: bool = match &src {
            Source::Indexed | Source::Nothing => true,
            _ => false,
        };
        self.built(this_or_undefined(recv), &items, sized)
    }
}

/// The number of items in all groups.
pub open spec fn group_total(s: Seq<GroupV>) -> nat
    decreases s.len(),
{
    if s.len() == 0 {
        0
    } else {
        group_total(s.drop_last()) + s.last().items.len()
    }
}

proof fn lemma_total_update(s: Seq<GroupV>, i: int, g: GroupV)
    requires
        0 <= i < s.len(),
        g.items.len() == s[i].items.len() + 1,
    ensures
        group_total(s.update(i, g)) == group_total(s) + 1,
    decreases s.len(),
{
    let t = s.update(i, g);
    if i == s.len() - 1 {
        assert(t.drop_last() =~= s.drop_last());
    } else {
        lemma_total_update(s.drop_last(), i, g);
        assert(t.drop_last() =~= s.drop_last().update(i, g));
    }
}

/// Grouping loses no item and invents none: after `groupBy` the groups hold as many items as the
/// list has.
pub proof fn law_group_by_keeps_all(
    h: Host,
    pos: nat,
    cb: Val,
    named: bool,
    items: Seq<Val>,
    i: int,
    out: Seq<GroupV>,
)
    requires
        0 <= i <= items.len(),
    ensures
        group_items(h, pos, cb, named, items, i, out).out matches Ok(g) ==> group_total(g)
            == group_total(out) + items.len() - i,
    decreases items.len() - i,
{
    if i < items.len() {
        let c = call(h, pos, cb, None, seq![items[i], Val::Num(count_num(i as nat))]);
        if c.out is Ok {
            let k = c.out->Ok_0;
            let key = if named {
                chain(
                    ask_text(h, c.pos, Op::ToKey, seq![k]),
                    |s: Seq<char>, p: nat| done(Val::Str(s), p),
                )
            } else {
                done(k, c.pos)
            };
            if key.out is Ok {
                let x = key.out->Ok_0;
                lemma_grouped_total(out, x, items[i]);
                law_group_by_keeps_all(
                    h,
                    key.pos,
                    cb,
                    named,
                    items,
                    i + 1,
                    grouped(out, x, items[i]),
                );
            }
        }
    }
}

proof fn lemma_grouped_total(out: Seq<GroupV>, key: Val, item: Val)
    ensures
        group_total(grouped(out, key, item)) == group_total(out) + 1,
{
    lemma_group_found(out, key);
    match group_index(out, key) {
        Some(j) => {
            lemma_total_update(
                out,
                j as int,
                GroupV { key: out[j as int].key, items: out[j as int].items.push(item) },
            );
        },
        None => {
            assert(grouped(out, key, item).drop_last() =~= out);
        },
    }
}

} // verus!
