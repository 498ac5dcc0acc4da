//! The own properties of a value as copying and listing them sees it, and what methods read out of
//! their receiver.
use crate::heap::{item, item_views, Item, ItemV, ObjMap};
use crate::host::{done, Answer, Host, Op, Question};
use crate::json::{contains_text, fields_in, keys_of_fields, text_views, texts_in};
use crate::number::{byte_of, to_byte};
use crate::property::{internal_key, is_internal_key};
use crate::reflect::{enumerable_names, text_vals};
use crate::text::{
    chars_of, concat_text, decimal, decimal_text, has_prefix, same_text, starts_with_text,
};
use crate::value::{Kind, Val, Value};
use vstd::prelude::*;

verus! {

/// An element of an array: none where the index is a hole.
pub struct Cell {
    pub value: Option<Value>,
    /// Was defined as not enumerable.
    pub hidden: bool,
}

/// A property of an array that is no element.
pub struct ArrayProp {
    pub item: Item,
    /// Was defined as not enumerable.
    pub hidden: bool,
}

/// What a value stores.
pub enum Stored {
    /// A plain object: everything that it stores, and what is enumerable of that.
    Object(ObjMap, Vec<Item>),
    Array(Vec<Cell>, Vec<ArrayProp>),
    Instance(ObjMap),
    Function(ObjMap),
    Class(ObjMap),
    Text(String),
    Other,
}

#[verifier::ext_equal]
pub struct CellV {
    pub value: Option<Val>,
    pub hidden: bool,
}

#[verifier::ext_equal]
pub struct ArrayPropV {
    pub item: ItemV,
    pub hidden: bool,
}

pub open spec fn cell_views(s: Seq<Cell>) -> Seq<CellV> {
    Seq::new(
        s.len(),
        |i: int| CellV { value: crate::host::opt_view(s[i].value), hidden: s[i].hidden },
    )
}

pub open spec fn prop_views(s: Seq<ArrayProp>) -> Seq<ArrayPropV> {
    Seq::new(s.len(), |i: int| ArrayPropV { item: s[i].item@, hidden: s[i].hidden })
}

/// The marker under which an object notes that a property is not enumerable.
pub open spec fn hidden_marker(key: Seq<char>) -> Seq<char> {
    "\0ne:"@ + key
}

/// A private member of a class.
pub open spec fn private_name(key: Seq<char>) -> bool {
    has_prefix(key, "#"@)
}

pub fn is_private_name(key: &str) -> (r: bool)
    ensures
        r == private_name(key@),
{
    starts_with_text(key, "#")
}

/// The key under which the engine notes that a property is not enumerable.
pub fn marker_of(key: &str) -> (r: String)
    ensures
        r@ == hidden_marker(key@),
{
    concat_text("\0ne:", key)
}

/// Whether the field under one of some keys is listed: the engine's own keys and what is marked as
/// not enumerable are not, and private names just where `private` is set.
pub open spec fn listed_key(keys: Seq<Seq<char>>, key: Seq<char>, private: bool) -> bool {
    !internal_key(key) && (private || !private_name(key)) && !keys.contains(hidden_marker(key))
}

pub fn is_listed_key(keys: &Vec<String>, key: &str, private: bool) -> (r: bool)
    ensures
        r == listed_key(text_views(keys@), key@, private),
{
    !is_internal_key(key) && (private || !is_private_name(key)) && !contains_text(
        keys,
        marker_of(key).as_str(),
    )
}

/// Those of the first `n` keys that are listed, in order.
pub open spec fn listed_keys(keys: Seq<Seq<char>>, n: nat, private: bool) -> Seq<Seq<char>>
    decreases n,
{
    if n == 0 || n > keys.len() {
        Seq::empty()
    } else if listed_key(keys, keys[n - 1], private) {
        listed_keys(keys, (n - 1) as nat, private).push(keys[n - 1])
    } else {
        listed_keys(keys, (n - 1) as nat, private)
    }
}

pub fn keep_listed_keys(keys: &Vec<String>, private: bool) -> (r: Vec<String>)
    ensures
        text_views(r@) == listed_keys(text_views(keys@), keys@.len(), private),
{
    let ghost all = text_views(keys@);
    let mut out: Vec<String> = Vec::new();
    let mut i: usize = 0;
    assert(text_views(out@) =~= Seq::<Seq<char>>::empty());
    while i < keys.len()
        invariant
            i <= keys@.len(),
            all == text_views(keys@),
            text_views(out@) == listed_keys(all, i as nat, private),
        decreases keys@.len() - i,
    {
        let ghost before = text_views(out@);
        assert(all[i as int] == keys@[i as int]@);
        if is_listed_key(keys, keys[i].as_str(), private) {
            out.push(keys[i].clone());
            assert(text_views(out@) =~= before.push(all[i as int]));
        }
        i = i + 1;
    }
    out
}

/// The items that a test keeps, in order.
pub open spec fn kept(s: Seq<ItemV>, keep: spec_fn(ItemV) -> bool) -> Seq<ItemV>
    decreases s.len(),
{
    if s.len() == 0 {
        Seq::empty()
    } else if keep(s.last()) {
        kept(s.drop_last(), keep).push(s.last())
    } else {
        kept(s.drop_last(), keep)
    }
}

/// The elements that are there and enumerable, under their indices.
pub open spec fn element_items(s: Seq<CellV>) -> Seq<ItemV>
    decreases s.len(),
{
    if s.len() == 0 {
        Seq::empty()
    } else {
        let front = element_items(s.drop_last());
        match s.last().value {
            Some(v) => if s.last().hidden {
                front
            } else {
                front.push(ItemV { key: decimal((s.len() - 1) as nat), value: v })
            },
            None => front,
        }
    }
}

/// The properties that are enumerable and not the engine's own.
pub open spec fn shown_props(s: Seq<ArrayPropV>) -> Seq<ItemV>
    decreases s.len(),
{
    if s.len() == 0 {
        Seq::empty()
    } else if s.last().hidden || internal_key(s.last().item.key) {
        shown_props(s.drop_last())
    } else {
        shown_props(s.drop_last()).push(s.last().item)
    }
}

/// The characters of a text under their indices.
pub open spec fn char_items(s: Seq<char>) -> Seq<ItemV> {
    Seq::new(
        s.len(),
        |i: int| ItemV { key: decimal(i as nat), value: Val::Str(seq![s[i]]) },
    )
}

/// A field that is neither the engine's nor marked as not enumerable.
pub open spec fn shown_field(all: Seq<ItemV>, x: ItemV) -> bool {
    !internal_key(x.key) && item(all, hidden_marker(x.key)) is None
}

/// The own enumerable properties.
pub open spec fn enumerable_entries(v: Stored) -> Seq<ItemV> {
    match v {
        Stored::Object(_, listed) => item_views(listed@),
        Stored::Array(cells, props) => element_items(cell_views(cells@)) + shown_props(
            prop_views(props@),
        ),
        Stored::Instance(m) => kept(m@, |x: ItemV| shown_field(m@, x)),
        Stored::Function(m) => kept(m@, |x: ItemV| shown_field(m@, x) && x.key != "prototype"@),
        Stored::Class(m) => kept(m@, |x: ItemV| shown_field(m@, x) && !private_name(x.key)),
        Stored::Text(s) => char_items(s@),
        Stored::Other => Seq::empty(),
    }
}

/// All own properties of an object but its prototype link, also those that are not enumerable.
pub open spec fn all_entries(v: Stored) -> Seq<ItemV> {
    match v {
        Stored::Object(m, _) => kept(m@, |x: ItemV| x.key != "__proto__"@),
        _ => enumerable_entries(v),
    }
}

fn clone_item(x: &Item) -> (r: Item)
    ensures
        r@ == x@,
{
    Item { key: x.key.clone(), value: x.value.clone() }
}

fn is_shown_field(m: &ObjMap, key: &str) -> (r: bool)
    ensures
        forall|x: ItemV| x.key == key@ ==> #[trigger] shown_field(m@, x) == r,
{
    !is_internal_key(key) && !m.contains_key(marker_of(key).as_str())
}

/// What a map of fields belongs to.
#[derive(Clone, Copy, PartialEq, Eq, Structural)]
enum Owner {
    Instance,
    Function,
    Class,
}

/// A field that its owner never lists.
spec fn unlisted(owner: Owner, key: Seq<char>) -> bool {
    match owner {
        Owner::Instance => false,
        Owner::Function => key == "prototype"@,
        Owner::Class => private_name(key),
    }
}

fn fields_of(m: &ObjMap, owner: Owner) -> (r: Vec<Item>)
    ensures
        item_views(r@) == match owner {
            Owner::Instance => kept(m@, |x: ItemV| shown_field(m@, x)),
            Owner::Function => kept(m@, |x: ItemV| shown_field(m@, x) && x.key != "prototype"@),
            Owner::Class => kept(m@, |x: ItemV| shown_field(m@, x) && !private_name(x.key)),
        },
{
    let ghost keep = match owner {
        Owner::Instance => |x: ItemV| shown_field(m@, x),
        Owner::Function => |x: ItemV| shown_field(m@, x) && x.key != "prototype"@,
        Owner::Class => |x: ItemV| shown_field(m@, x) && !private_name(x.key),
    };
    let mut out: Vec<Item> = Vec::new();
    let mut i: usize = 0;
    assert(m@.take(0) =~= Seq::<ItemV>::empty());
    assert(item_views(out@) =~= kept(m@.take(0), keep));
    while i < m.items.len()
        invariant
            i <= m.items@.len(),
            forall|x: ItemV|
                #[trigger] keep(x) == (shown_field(m@, x) && !unlisted(owner, x.key)),
            item_views(out@) == kept(m@.take(i as int), keep),
        decreases m.items@.len() - i,
    {
        let x: &Item = &m.items[i];
        assert(m@.take(i + 1).drop_last() =~= m@.take(i as int));
        assert(m@.take(i + 1).last() == x@);
        let ghost before = item_views(out@);
        let left_out: bool = match owner {
            Owner::Instance => false,
            Owner::Function => same_text(x.key.as_str(), "prototype"),
            Owner::Class => is_private_name(x.key.as_str()),
        };
        if is_shown_field(m, x.key.as_str()) && !left_out {
            assert(keep(x@));
            out.push(clone_item(x));
            assert(item_views(out@) =~= before.push(x@));
        } else {
            assert(!keep(x@));
        }
        i = i + 1;
    }
    assert(m@.take(i as int) =~= m@);
    out
}

fn items_but(m: &ObjMap, name: &str) -> (r: Vec<Item>)
    ensures
        item_views(r@) == kept(m@, |x: ItemV| x.key != name@),
{
    let ghost keep = |x: ItemV| x.key != name@;
    let mut out: Vec<Item> = Vec::new();
    let mut i: usize = 0;
    assert(m@.take(0) =~= Seq::<ItemV>::empty());
    assert(item_views(out@) =~= kept(m@.take(0), keep));
    while i < m.items.len()
        invariant
            i <= m.items@.len(),
            forall|x: ItemV| #[trigger] keep(x) == (x.key != name@),
            item_views(out@) == kept(m@.take(i as int), keep),
        decreases m.items@.len() - i,
    {
        let x: &Item = &m.items[i];
        assert(m@.take(i + 1).drop_last() =~= m@.take(i as int));
        assert(m@.take(i + 1).last() == x@);
        let ghost before = item_views(out@);
        if !same_text(x.key.as_str(), name) {
            assert(keep(x@));
            out.push(clone_item(x));
            assert(item_views(out@) =~= before.push(x@));
        } else {
            assert(!keep(x@));
        }
        i = i + 1;
    }
    assert(m@.take(i as int) =~= m@);
    out
}

fn array_items(cells: &Vec<Cell>, props: &Vec<ArrayProp>) -> (r: Vec<Item>)
    ensures
        item_views(r@) == element_items(cell_views(cells@)) + shown_props(prop_views(props@)),
{
    let mut out: Vec<Item> = Vec::new();
    let ghost cv = cell_views(cells@);
    let ghost pv = prop_views(props@);
    let mut i: usize = 0;
    assert(cv.take(0) =~= Seq::<CellV>::empty());
    assert(item_views(out@) =~= element_items(cv.take(0)));
    while i < cells.len()
        invariant
            i <= cells@.len(),
            cv == cell_views(cells@),
            item_views(out@) == element_items(cv.take(i as int)),
        decreases cells@.len() - i,
    {
        assert(cv.take(i + 1).drop_last() =~= cv.take(i as int));
        assert(cv.take(i + 1).last() == cv[i as int]);
        let ghost before = item_views(out@);
        match &cells[i].value {
            Some(v) => {
                if !cells[i].hidden {
                    let x: Item = Item { key: decimal_text(i as u64), value: v.clone() };
                    out.push(x);
                    assert(item_views(out@) =~= before.push(x@));
                }
            },
            None => {},
        }
        i = i + 1;
    }
    assert(cv.take(i as int) =~= cv);
    let ghost front = item_views(out@);
    let mut j: usize = 0;
    assert(pv.take(0) =~= Seq::<ArrayPropV>::empty());
    assert(item_views(out@) =~= front + shown_props(pv.take(0)));
    while j < props.len()
        invariant
            j <= props@.len(),
            pv == prop_views(props@),
            item_views(out@) == front + shown_props(pv.take(j as int)),
        decreases props@.len() - j,
    {
        assert(pv.take(j + 1).drop_last() =~= pv.take(j as int));
        assert(pv.take(j + 1).last() == pv[j as int]);
        let ghost before = item_views(out@);
        if !props[j].hidden && !is_internal_key(props[j].item.key.as_str()) {
            let x: Item = clone_item(&props[j].item);
            out.push(x);
            assert(item_views(out@) =~= before.push(x@));
        }
        j = j + 1;
        assert(item_views(out@) =~= front + shown_props(pv.take(j as int)));
    }
    assert(pv.take(j as int) =~= pv);
    out
}

fn text_items(s: &str) -> (r: Vec<Item>)
    ensures
        item_views(r@) == char_items(s@),
{
    let cs: Vec<char> = chars_of(s);
    let mut out: Vec<Item> = Vec::new();
    let mut i: usize = 0;
    while i < cs.len()
        invariant
            i <= cs@.len(),
            cs@ == s@,
            item_views(out@) == char_items(s@.take(i as int)),
        decreases cs@.len() - i,
    {
        let mut one: String = String::new();
        one.push(cs[i]);
        assert(one@ =~= seq![cs@[i as int]]);
        let ghost before = item_views(out@);
        let x: Item = Item { key: decimal_text(i as u64), value: Value::Str(one) };
        out.push(x);
        assert(item_views(out@) =~= before.push(x@));
        assert(char_items(s@.take(i + 1)) =~= char_items(s@.take(i as int)).push(x@));
        i = i + 1;
    }
    assert(s@.take(i as int) =~= s@);
    out
}

fn clone_items(s: &Vec<Item>) -> (r: Vec<Item>)
    ensures
        item_views(r@) == item_views(s@),
{
    let mut out: Vec<Item> = Vec::new();
    let mut i: usize = 0;
    while i < s.len()
        invariant
            i <= s@.len(),
            item_views(out@) == item_views(s@).take(i as int),
        decreases s@.len() - i,
    {
        let ghost before = item_views(out@);
        let x: Item = clone_item(&s[i]);
        out.push(x);
        assert(item_views(out@) =~= before.push(x@));
        i = i + 1;
        assert(item_views(out@) =~= item_views(s@).take(i as int));
    }
    assert(item_views(s@).take(i as int) =~= item_views(s@));
    out
}

/// The own enumerable properties of a value, in order.
pub fn own_enumerable_entries(v: &Stored) -> (r: Vec<Item>)
    ensures
        item_views(r@) == enumerable_entries(*v),
{
    match v {
        Stored::Object(_, listed) => clone_items(listed),
        Stored::Array(cells, props) => array_items(cells, props),
        Stored::Instance(m) => fields_of(m, Owner::Instance),
        Stored::Function(m) => fields_of(m, Owner::Function),
        Stored::Class(m) => fields_of(m, Owner::Class),
        Stored::Text(s) => text_items(s.as_str()),
        Stored::Other => {
            let out: Vec<Item> = Vec::new();
            assert(item_views(out@) =~= Seq::<ItemV>::empty());
            out
        },
    }
}

/// All own properties of an object, as they move to another one that takes its place.
pub fn own_entries_all(v: &Stored) -> (r: Vec<Item>)
    ensures
        item_views(r@) == all_entries(*v),
{
    match v {
        Stored::Object(m, _) => items_but(m, "__proto__"),
        other => own_enumerable_entries(other),
    }
}

proof fn lemma_kept(s: Seq<ItemV>, keep: spec_fn(ItemV) -> bool, x: ItemV)
    ensures
        kept(s, keep).contains(x) <==> s.contains(x) && keep(x),
    decreases s.len(),
{
    if s.len() > 0 {
        lemma_kept(s.drop_last(), keep, x);
        let front = kept(s.drop_last(), keep);
        let all = kept(s, keep);
        if s.contains(x) {
            let i = choose|i: int| 0 <= i < s.len() && s[i] == x;
            if i < s.len() - 1 {
                assert(s.drop_last()[i] == x);
                assert(s.drop_last().contains(x));
            }
        }
        if s.drop_last().contains(x) {
            let i = choose|i: int| 0 <= i < s.drop_last().len() && s.drop_last()[i] == x;
            assert(s[i] == x);
        }
        if keep(s.last()) {
            assert(all == front.push(s.last()));
            if front.contains(x) {
                let i = choose|i: int| 0 <= i < front.len() && front[i] == x;
                assert(all[i] == x);
            }
            if x == s.last() {
                assert(all[front.len() as int] == x);
            }
            if all.contains(x) {
                let i = choose|i: int| 0 <= i < all.len() && all[i] == x;
                if i < front.len() {
                    assert(front[i] == x);
                }
            }
        }
    }
}

/// Whatever is copied out of an instance, a function or a class was stored there, and is neither
/// one of the engine's own keys nor marked as not enumerable; nothing else is left out of an
/// instance, only `prototype` of a function, and only private names of a class.
pub proof fn law_shown_fields(m: ObjMap, x: ItemV)
    ensures
        enumerable_entries(Stored::Function(m)).contains(x) <==> m@.contains(x) && !internal_key(
            x.key,
        ) && item(m@, hidden_marker(x.key)) is None && x.key != "prototype"@,
        enumerable_entries(Stored::Instance(m)).contains(x) <==> m@.contains(x) && !internal_key(
            x.key,
        ) && item(m@, hidden_marker(x.key)) is None,
        enumerable_entries(Stored::Class(m)).contains(x) <==> m@.contains(x) && !internal_key(x.key)
            && item(m@, hidden_marker(x.key)) is None && !private_name(x.key),
{
    lemma_kept(m@, |y: ItemV| shown_field(m@, y), x);
    lemma_kept(m@, |y: ItemV| shown_field(m@, y) && y.key != "prototype"@, x);
    lemma_kept(m@, |y: ItemV| shown_field(m@, y) && !private_name(y.key), x);
}

/// The bytes that a stored array of numbers stands for; anything but a number is zero.
pub open spec fn bytes_in(items: Seq<Val>) -> Seq<u8> {
    Seq::new(
        items.len(),
        |i: int|
            match items[i] {
                Val::Num(n) => byte_of(n) as u8,
                _ => 0u8,
            },
    )
}

/// The bytes of a stored array; none where there is no array.
pub fn bytes_of(items: Option<&Vec<Value>>) -> (r: Vec<u8>)
    ensures
        r@ == match items {
            Some(s) => bytes_in(crate::value::views(s@)),
            None => Seq::empty(),
        },
{
    let mut out: Vec<u8> = Vec::new();
    match items {
        Some(s) => {
            let mut i: usize = 0;
            while i < s.len()
                invariant
                    i <= s@.len(),
                    out@.len() == i,
                    forall|j: int|
                        0 <= j < i ==> #[trigger] out@[j] == bytes_in(crate::value::views(s@))[j],
                decreases s@.len() - i,
            {
                let b: u8 = match &s[i] {
                    Value::Num(n) => to_byte(*n),
                    _ => 0,
                };
                out.push(b);
                i = i + 1;
            }
            assert(out@ =~= bytes_in(crate::value::views(s@)));
        },
        None => {
            assert(out@ =~= Seq::<u8>::empty());
        },
    }
    out
}

/// Which of the two keyed collections a method is of.
#[derive(Clone, Copy, Debug, PartialEq, Eq, Structural)]
pub enum Collection {
    MapLike,
    SetLike,
}

pub open spec fn is_collection(v: Val, c: Collection) -> bool {
    match (c, v) {
        (Collection::MapLike, Val::Ref(Kind::MapVal, _)) => true,
        (Collection::SetLike, Val::Ref(Kind::SetVal, _)) => true,
        _ => false,
    }
}

/// The collection that a receiver is, or that an object or an instance of a derived class holds in
/// its slot for it.
pub open spec fn collection_in(recv: Option<Val>, slot: Option<Val>, c: Collection) -> Option<Val> {
    match recv {
        Some(v) => if is_collection(v, c) {
            Some(v)
        } else {
            match (v, slot) {
                (Val::Ref(Kind::Instance, _), Some(x)) => if is_collection(x, c) {
                    Some(x)
                } else {
                    None
                },
                (Val::Ref(Kind::Obj, _), Some(x)) => if is_collection(x, c) {
                    Some(x)
                } else {
                    None
                },
                _ => None,
            }
        },
        None => None,
    }
}

fn collection_is(v: &Value, c: Collection) -> (r: bool)
    ensures
        r == is_collection(v@, c),
{
    match c {
        Collection::MapLike => matches!(v, Value::Ref(Kind::MapVal, _)),
        Collection::SetLike => matches!(v, Value::Ref(Kind::SetVal, _)),
    }
}

fn recv_collection(recv: &Option<Value>, slot: &Option<Value>, c: Collection) -> (r: Option<Value>)
    ensures
        crate::host::opt_view(r) == collection_in(
            crate::host::opt_view(*recv),
            crate::host::opt_view(*slot),
            c,
        ),
{
    match recv {
        None => None,
        Some(v) => {
            if collection_is(v, c) {
                return Some(v.clone());
            }
            match (v, slot) {
                (Value::Ref(Kind::Instance, _), Some(x)) => if collection_is(x, c) {
                    Some(x.clone())
                } else {
                    None
                },
                (Value::Ref(Kind::Obj, _), Some(x)) => if collection_is(x, c) {
                    Some(x.clone())
                } else {
                    None
                },
                _ => None,
            }
        },
    }
}

/// The set that a method of `Set` works on. `slot` is what the receiver holds in its slot for a
/// collection.
pub fn recv_set_data(recv: &Option<Value>, slot: &Option<Value>) -> (r: Option<Value>)
    ensures
        crate::host::opt_view(r) == collection_in(
            crate::host::opt_view(*recv),
            crate::host::opt_view(*slot),
            Collection::SetLike,
        ),
{
    recv_collection(recv, slot, Collection::SetLike)
}

/// The map that a method of `Map` works on. `slot` is what the receiver holds in its slot for a
/// collection.
pub fn recv_map_data(recv: &Option<Value>, slot: &Option<Value>) -> (r: Option<Value>)
    ensures
        crate::host::opt_view(r) == collection_in(
            crate::host::opt_view(*recv),
            crate::host::opt_view(*slot),
            Collection::MapLike,
        ),
{
    recv_collection(recv, slot, Collection::MapLike)
}

/// The keys of some entries, as values.
pub open spec fn key_vals(s: Seq<ItemV>) -> Seq<Val> {
    Seq::new(s.len(), |i: int| Val::Str(s[i].key))
}

/// The keys of some entries.
pub open spec fn item_keys(s: Seq<ItemV>) -> Seq<Seq<char>> {
    Seq::new(s.len(), |i: int| s[i].key)
}

proof fn lemma_item_there(s: Seq<ItemV>, key: Seq<char>)
    ensures
        item(s, key) is Some <==> item_keys(s).contains(key),
    decreases s.len(),
{
    if s.len() > 0 {
        let rest = s.skip(1);
        lemma_item_there(rest, key);
        let all = item_keys(s);
        assert(item_keys(rest) =~= all.skip(1));
        if all.contains(key) {
            let i = all.index_of(key);
            assert(all[i] == key);
            if i > 0 {
                assert(item_keys(rest)[i - 1] == key);
            }
        }
        if item_keys(rest).contains(key) {
            let i = item_keys(rest).index_of(key);
            assert(all[i + 1] == key);
        }
        assert(all[0] == s[0].key);
    }
}

proof fn lemma_kept_keys(all: Seq<ItemV>, n: nat, private: bool, keep: spec_fn(ItemV) -> bool)
    requires
        n <= all.len(),
        forall|x: ItemV|
            #[trigger] keep(x) == (shown_field(all, x) && (private || !private_name(x.key))),
    ensures
        listed_keys(item_keys(all), n, private) == item_keys(kept(all.take(n as int), keep)),
    decreases n,
{
    let keys = item_keys(all);
    if n == 0 {
        assert(all.take(0) =~= Seq::<ItemV>::empty());
        assert(item_keys(kept(all.take(0), keep)) =~= Seq::<Seq<char>>::empty());
    } else {
        lemma_kept_keys(all, (n - 1) as nat, private, keep);
        let x = all[n - 1];
        assert(all.take(n as int).drop_last() =~= all.take(n - 1));
        assert(all.take(n as int).last() == x);
        lemma_item_there(all, hidden_marker(x.key));
        assert(keep(x) == listed_key(keys, keys[n - 1], private));
        assert(listed_keys(keys, n, private) =~= item_keys(kept(all.take(n as int), keep)));
    }
}

/// The enumerable names of an instance or a class are the keys of the entries that
/// `own_enumerable_entries` gives for what it stores, in their order.
pub proof fn law_names_of_entries(h: Host, pos: nat, i: u64, m: ObjMap, fields: Seq<Val>)
    requires
        pos < h.len,
    ensures
        (h.reply)(
            pos,
            (Question { op: Op::StoredKeys, args: seq![Val::Ref(Kind::Instance, i)] }),
        ) == Answer::List(key_vals(m@)) ==> enumerable_names(h, pos, Val::Ref(Kind::Instance, i))
            == done(key_vals(enumerable_entries(Stored::Instance(m))), pos + 1),
        (h.reply)(
            pos,
            (Question { op: Op::StoredFields, args: seq![Val::Ref(Kind::Class, i)] }),
        ) == Answer::List(fields) && keys_of_fields(fields_in(fields)) == item_keys(m@)
            ==> enumerable_names(h, pos, Val::Ref(Kind::Class, i)) == done(
            key_vals(enumerable_entries(Stored::Class(m))),
            pos + 1,
        ),
{
    lemma_key_texts(m@);
    assert(m@.take(m@.len() as int) =~= m@);
    lemma_kept_keys(m@, m@.len(), true, |x: ItemV| shown_field(m@, x));
    lemma_kept_keys(m@, m@.len(), false, |x: ItemV| shown_field(m@, x) && !private_name(x.key));
    let a = enumerable_entries(Stored::Instance(m));
    let b = enumerable_entries(Stored::Class(m));
    assert(text_vals(item_keys(a)) =~= key_vals(a));
    assert(text_vals(item_keys(b)) =~= key_vals(b));
}

proof fn lemma_key_texts(s: Seq<ItemV>)
    ensures
        texts_in(key_vals(s)) == item_keys(s),
    decreases s.len(),
{
    if s.len() == 0 {
        assert(key_vals(s) =~= Seq::<Val>::empty());
        assert(item_keys(s) =~= Seq::<Seq<char>>::empty());
    } else {
        lemma_key_texts(s.drop_last());
        assert(key_vals(s).drop_last() =~= key_vals(s.drop_last()));
        assert(item_keys(s.drop_last()).push(s.last().key) =~= item_keys(s));
    }
}

} // verus!
