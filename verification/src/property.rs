//! Own properties: what is stored, what a descriptor asks for, and when the two go together.
use crate::host::{done, fail, get, halted, has, raised, Halt, Host, Interp, Run, Stop, Thrown};
use crate::symbols::{is_symbol_key, symbol_key};
use crate::text::{chars_of, same_text};
use crate::value::{
    callable, is_callable, is_object, object, same, same_value, to_bool, truthy, ErrorKind, Val,
    Value,
};
use vstd::prelude::*;

verus! {

/// What a property holds: a value, or a pair of functions.
#[derive(Debug)]
pub enum Slot {
    Data(Value),
    Accessor(Option<Value>, Option<Value>),
}

/// A stored property.
#[derive(Debug)]
pub struct Prop {
    pub slot: Slot,
    pub writable: bool,
    pub enumerable: bool,
    pub configurable: bool,
}

/// A property descriptor: the fields that it has.
#[derive(Debug)]
pub struct Desc {
    pub value: Option<Value>,
    pub get: Option<Value>,
    pub set: Option<Value>,
    pub writable: Option<bool>,
    pub enumerable: Option<bool>,
    pub configurable: Option<bool>,
}

/// The mathematical counterpart of `Slot`.
#[verifier::ext_equal]
pub enum SlotV {
    Data(Val),
    Accessor(Option<Val>, Option<Val>),
}

/// The mathematical counterpart of `Prop`.
#[verifier::ext_equal]
pub struct PropV {
    pub slot: SlotV,
    pub writable: bool,
    pub enumerable: bool,
    pub configurable: bool,
}

/// The mathematical counterpart of `Desc`.
#[verifier::ext_equal]
pub struct DescV {
    pub value: Option<Val>,
    pub get: Option<Val>,
    pub set: Option<Val>,
    pub writable: Option<bool>,
    pub enumerable: Option<bool>,
    pub configurable: Option<bool>,
}

pub open spec fn opt(v: Option<Value>) -> Option<Val> {
    match v {
        Some(x) => Some(x@),
        None => None,
    }
}

impl View for Slot {
    type V = SlotV;

    open spec fn view(&self) -> SlotV {
        match *self {
            Slot::Data(v) => SlotV::Data(v@),
            Slot::Accessor(g, s) => SlotV::Accessor(opt(g), opt(s)),
        }
    }
}

impl View for Prop {
    type V = PropV;

    open spec fn view(&self) -> PropV {
        PropV {
            slot: self.slot@,
            writable: self.writable,
            enumerable: self.enumerable,
            configurable: self.configurable,
        }
    }
}

impl View for Desc {
    type V = DescV;

    open spec fn view(&self) -> DescV {
        DescV {
            value: opt(self.value),
            get: opt(self.get),
            set: opt(self.set),
            writable: self.writable,
            enumerable: self.enumerable,
            configurable: self.configurable,
        }
    }
}

fn clone_opt_value(v: &Option<Value>) -> (r: Option<Value>)
    ensures
        opt(r) == opt(*v),
{
    match v {
        Some(x) => Some(x.clone()),
        None => None,
    }
}

impl Slot {
    pub fn copy(&self) -> (r: Slot)
        ensures
            r@ == self@,
    {
        match self {
            Slot::Data(v) => Slot::Data(v.clone()),
            Slot::Accessor(g, s) => Slot::Accessor(clone_opt_value(g), clone_opt_value(s)),
        }
    }
}

impl Prop {
    pub fn copy(&self) -> (r: Prop)
        ensures
            r@ == self@,
    {
        Prop {
            slot: self.slot.copy(),
            writable: self.writable,
            enumerable: self.enumerable,
            configurable: self.configurable,
        }
    }
}

/// One field of a descriptor object: there only where the object has the property.
pub open spec fn desc_field(h: Host, pos: nat, desc: Val, key: Seq<char>) -> Run<Option<Val>> {
    let p = has(h, pos, desc, key);
    match p.out {
        Err(e) => halted(e, p.pos),
        Ok(false) => done(None, p.pos),
        Ok(true) => {
            let g = get(h, p.pos, desc, key);
            match g.out {
                Err(e) => halted(e, g.pos),
                Ok(v) => done(Some(v), g.pos),
            }
        },
    }
}

pub open spec fn flag(v: Option<Val>) -> Option<bool> {
    match v {
        Some(x) => Some(truthy(x)),
        None => None,
    }
}

/// The fields of a descriptor object, read in the order `value`, `get`, `set`, `writable`,
/// `enumerable`, `configurable`.
pub open spec fn read_fields(h: Host, pos: nat, desc: Val) -> Run<DescV> {
    let v = desc_field(h, pos, desc, "value"@);
    match v.out {
        Err(e) => halted(e, v.pos),
        Ok(value) => {
            let g = desc_field(h, v.pos, desc, "get"@);
            match g.out {
                Err(e) => halted(e, g.pos),
                Ok(get) => {
                    let s = desc_field(h, g.pos, desc, "set"@);
                    match s.out {
                        Err(e) => halted(e, s.pos),
                        Ok(set) => {
                            let w = desc_field(h, s.pos, desc, "writable"@);
                            match w.out {
                                Err(e) => halted(e, w.pos),
                                Ok(writable) => {
                                    let n = desc_field(h, w.pos, desc, "enumerable"@);
                                    match n.out {
                                        Err(e) => halted(e, n.pos),
                                        Ok(enumerable) => {
                                            let c = desc_field(h, n.pos, desc, "configurable"@);
                                            match c.out {
                                                Err(e) => halted(e, c.pos),
                                                Ok(configurable) => done(
                                                    DescV {
                                                        value,
                                                        get,
                                                        set,
                                                        writable: flag(writable),
                                                        enumerable: flag(enumerable),
                                                        configurable: flag(configurable),
                                                    },
                                                    c.pos,
                                                ),
                                            }
                                        },
                                    }
                                },
                            }
                        },
                    }
                },
            }
        },
    }
}

pub open spec fn is_accessor_desc(d: DescV) -> bool {
    d.get is Some || d.set is Some
}

pub open spec fn is_data_desc(d: DescV) -> bool {
    d.value is Some || d.writable is Some
}

/// A getter or setter field is missing, undefined or callable.
pub open spec fn good_function(f: Option<Val>) -> bool {
    f matches Some(v) ==> v == Val::Undefined || callable(v)
}

/// ToPropertyDescriptor: the fields of a descriptor object, or a type error.
pub open spec fn to_descriptor(h: Host, pos: nat, desc: Val) -> Run<DescV> {
    if !object(desc) {
        raised(ErrorKind::TypeError, "Property description must be an object"@, pos)
    } else {
        let f = read_fields(h, pos, desc);
        match f.out {
            Err(e) => halted(e, f.pos),
            Ok(d) => {
                if is_accessor_desc(d) && is_data_desc(d) {
                    raised(
                        ErrorKind::TypeError,
                        "Invalid property descriptor. Cannot both specify accessors and a value or writable"@,
                        f.pos,
                    )
                } else if !good_function(d.get) {
                    raised(ErrorKind::TypeError, "Getter must be a function"@, f.pos)
                } else if !good_function(d.set) {
                    raised(ErrorKind::TypeError, "Setter must be a function"@, f.pos)
                } else {
                    done(d, f.pos)
                }
            },
        }
    }
}

pub open spec fn or_undefined(v: Option<Val>) -> Val {
    match v {
        Some(x) => x,
        None => Val::Undefined,
    }
}

/// A stored property can be redefined so. Anything goes while it is configurable. One that is not
/// stays not configurable and as enumerable as it is, and of its kind; an accessor keeps its
/// functions; a data property that is not writable keeps its value and stays not writable.
pub open spec fn redefinable(cur: PropV, d: DescV) -> bool {
    cur.configurable || {
        &&& d.configurable != Some(true)
        &&& (d.enumerable is Some ==> d.enumerable == Some(cur.enumerable))
        &&& match cur.slot {
            SlotV::Data(v) => {
                &&& !is_accessor_desc(d)
                &&& (!cur.writable ==> d.writable != Some(true))
                &&& (!cur.writable && d.value is Some ==> same(v, d.value->0))
            },
            SlotV::Accessor(g, s) => {
                &&& !is_data_desc(d)
                &&& (d.get is Some ==> same(d.get->0, or_undefined(g)))
                &&& (d.set is Some ==> same(d.set->0, or_undefined(s)))
            },
        }
    }
}

/// The function that a descriptor field stores: none for undefined.
pub open spec fn stored_function(f: Option<Val>, old: Option<Val>) -> Option<Val> {
    match f {
        Some(v) => if callable(v) {
            Some(v)
        } else {
            None
        },
        None => old,
    }
}

pub open spec fn or_flag(new: Option<bool>, old: bool) -> bool {
    match new {
        Some(b) => b,
        None => old,
    }
}

/// What a property holds after a definition: what the descriptor gives, else what it held. A
/// property that turns from an accessor into data without a value holds undefined.
pub open spec fn defined_slot(cur: Option<PropV>, d: DescV) -> SlotV {
    if is_accessor_desc(d) {
        let (g, s) = match cur {
            Some(p) => match p.slot {
                SlotV::Accessor(g, s) => (g, s),
                SlotV::Data(_) => (None, None),
            },
            None => (None, None),
        };
        SlotV::Accessor(stored_function(d.get, g), stored_function(d.set, s))
    } else if d.value is Some {
        SlotV::Data(d.value->0)
    } else if is_data_desc(d) {
        match cur {
            Some(p) => match p.slot {
                SlotV::Data(v) => SlotV::Data(v),
                SlotV::Accessor(_, _) => SlotV::Data(Val::Undefined),
            },
            None => SlotV::Data(Val::Undefined),
        }
    } else {
        match cur {
            Some(p) => p.slot,
            None => SlotV::Data(Val::Undefined),
        }
    }
}

/// The property after a definition; attributes that neither the descriptor nor the old property
/// gives are off.
pub open spec fn defined(cur: Option<PropV>, d: DescV) -> PropV {
    PropV {
        slot: defined_slot(cur, d),
        writable: or_flag(d.writable, cur is Some && cur->0.writable),
        enumerable: or_flag(d.enumerable, cur is Some && cur->0.enumerable),
        configurable: or_flag(d.configurable, cur is Some && cur->0.configurable),
    }
}

/// Why a definition is refused.
#[derive(Clone, Copy, Debug, PartialEq, Eq, Structural)]
pub enum Refusal {
    /// The object takes no new properties.
    NotExtensible,
    /// The stored property cannot be redefined so.
    NotRedefinable,
}

/// ValidateAndApplyPropertyDescriptor.
pub open spec fn applied(cur: Option<PropV>, d: DescV, extensible: bool) -> Result<PropV, Refusal> {
    match cur {
        None => if extensible {
            Ok(defined(cur, d))
        } else {
            Err(Refusal::NotExtensible)
        },
        Some(p) => if redefinable(p, d) {
            Ok(defined(cur, d))
        } else {
            Err(Refusal::NotRedefinable)
        },
    }
}

/// Whether a stored property can be redefined so.
pub fn is_redefinable(cur: &Prop, d: &Desc) -> (r: bool)
    ensures
        r == redefinable(cur@, d@),
{
    if cur.configurable {
        return true;
    }
    match d.configurable {
        Some(c) => {
            if c {
                return false;
            }
        },
        None => {},
    }
    match d.enumerable {
        Some(e) => {
            if e != cur.enumerable {
                return false;
            }
        },
        None => {},
    }
    match &cur.slot {
        Slot::Data(v) => {
            if d.get.is_some() || d.set.is_some() {
                return false;
            }
            if cur.writable {
                return true;
            }
            match d.writable {
                Some(w) => {
                    if w {
                        return false;
                    }
                },
                None => {},
            }
            match &d.value {
                Some(x) => same_value(v, x),
                None => true,
            }
        },
        Slot::Accessor(g, s) => {
            if d.value.is_some() || d.writable.is_some() {
                return false;
            }
            if !keeps_function(&d.get, g) {
                return false;
            }
            keeps_function(&d.set, s)
        },
    }
}

fn keeps_function(new: &Option<Value>, old: &Option<Value>) -> (r: bool)
    ensures
        r == (opt(*new) is Some ==> same(opt(*new)->0, or_undefined(opt(*old)))),
{
    match new {
        None => true,
        Some(n) => match old {
            Some(o) => same_value(n, o),
            None => same_value(n, &Value::Undefined),
        },
    }
}

fn stored_function_exec(f: &Option<Value>, old: Option<Value>) -> (r: Option<Value>)
    ensures
        opt(r) == stored_function(opt(*f), opt(old)),
{
    match f {
        Some(v) => if is_callable(v) {
            Some(v.clone())
        } else {
            None
        },
        None => old,
    }
}

fn or_flag_exec(new: Option<bool>, old: bool) -> (r: bool)
    ensures
        r == or_flag(new, old),
{
    match new {
        Some(b) => b,
        None => old,
    }
}

pub open spec fn opt_prop(p: Option<Prop>) -> Option<PropV> {
    match p {
        Some(x) => Some(x@),
        None => None,
    }
}

fn defined_slot_exec(cur: &Option<Prop>, d: &Desc) -> (r: Slot)
    ensures
        r@ == defined_slot(opt_prop(*cur), d@),
{
    if d.get.is_some() || d.set.is_some() {
        let (g, s): (Option<Value>, Option<Value>) = match cur {
            Some(p) => match &p.slot {
                Slot::Accessor(g, s) => (clone_opt_value(g), clone_opt_value(s)),
                Slot::Data(_) => (None, None),
            },
            None => (None, None),
        };
        return Slot::Accessor(stored_function_exec(&d.get, g), stored_function_exec(&d.set, s));
    }
    match &d.value {
        Some(v) => {
            return Slot::Data(v.clone());
        },
        None => {},
    }
    match cur {
        Some(p) => match &p.slot {
            Slot::Data(v) => Slot::Data(v.clone()),
            Slot::Accessor(_, _) => {
                if d.writable.is_some() {
                    Slot::Data(Value::Undefined)
                } else {
                    p.slot.copy()
                }
            },
        },
        None => Slot::Data(Value::Undefined),
    }
}

/// ValidateAndApplyPropertyDescriptor.
pub fn validate_and_apply(cur: &Option<Prop>, d: &Desc, extensible: bool) -> (r: Result<Prop, Refusal>)
    ensures
        match r {
            Ok(p) => applied(opt_prop(*cur), d@, extensible) == Ok::<PropV, Refusal>(p@),
            Err(e) => applied(opt_prop(*cur), d@, extensible) == Err::<PropV, Refusal>(e),
        },
{
    let (w, e, c): (bool, bool, bool) = match cur {
        None => {
            if !extensible {
                return Err(Refusal::NotExtensible);
            }
            (false, false, false)
        },
        Some(p) => {
            if !is_redefinable(p, d) {
                return Err(Refusal::NotRedefinable);
            }
            (p.writable, p.enumerable, p.configurable)
        },
    };
    Ok(
        Prop {
            slot: defined_slot_exec(cur, d),
            writable: or_flag_exec(d.writable, w),
            enumerable: or_flag_exec(d.enumerable, e),
            configurable: or_flag_exec(d.configurable, c),
        },
    )
}

/// A property under its key.
#[derive(Debug)]
pub struct Entry {
    pub key: String,
    pub prop: Prop,
}

/// The mathematical counterpart of `Entry`.
#[verifier::ext_equal]
pub struct EntryV {
    pub key: Seq<char>,
    pub prop: PropV,
}

/// The own properties of an object, in the order in which they were added.
#[derive(Debug)]
pub struct PropertyMap {
    pub entries: Vec<Entry>,
}

pub open spec fn entry_view(e: Entry) -> EntryV {
    EntryV { key: e.key@, prop: e.prop@ }
}

impl View for PropertyMap {
    type V = Seq<EntryV>;

    open spec fn view(&self) -> Seq<EntryV> {
        Seq::new(self.entries@.len(), |i: int| entry_view(self.entries@[i]))
    }
}

/// No key stands twice.
pub open spec fn distinct_keys(s: Seq<EntryV>) -> bool {
    forall|i: int, j: int| 0 <= i < j < s.len() ==> (#[trigger] s[i]).key != (#[trigger] s[j]).key
}

/// The first place of `key`, or the number of entries where it is missing.
pub open spec fn key_index(s: Seq<EntryV>, key: Seq<char>) -> int
    decreases s.len(),
{
    if s.len() == 0 {
        0
    } else if s[0].key == key {
        0
    } else {
        1 + key_index(s.skip(1), key)
    }
}

/// The property under `key`.
pub open spec fn lookup(s: Seq<EntryV>, key: Seq<char>) -> Option<PropV> {
    let i = key_index(s, key);
    if i < s.len() {
        Some(s[i].prop)
    } else {
        None
    }
}

/// The entries after `prop` is stored under `key`: in place where the key is there, else at the end.
pub open spec fn stored(s: Seq<EntryV>, key: Seq<char>, prop: PropV) -> Seq<EntryV> {
    let i = key_index(s, key);
    if i < s.len() {
        s.update(i, EntryV { key, prop })
    } else {
        s.push(EntryV { key, prop })
    }
}

/// The entries without the one under `key`.
pub open spec fn without(s: Seq<EntryV>, key: Seq<char>) -> Seq<EntryV> {
    let i = key_index(s, key);
    if i < s.len() {
        s.remove(i)
    } else {
        s
    }
}

pub proof fn lemma_key_index(s: Seq<EntryV>, key: Seq<char>)
    ensures
        0 <= key_index(s, key) <= s.len(),
        key_index(s, key) < s.len() ==> s[key_index(s, key)].key == key,
        forall|j: int| 0 <= j < key_index(s, key) ==> (#[trigger] s[j]).key != key,
    decreases s.len(),
{
    if s.len() > 0 && s[0].key != key {
        let t = s.skip(1);
        lemma_key_index(t, key);
        assert forall|j: int| 0 <= j < key_index(s, key) implies (#[trigger] s[j]).key != key by {
            if j > 0 {
                assert(t[j - 1] == s[j]);
            }
        }
        if key_index(t, key) < t.len() {
            assert(t[key_index(t, key)] == s[1 + key_index(t, key)]);
        }
    }
}

/// The first place of a key is the only `i` with that key and none before it.
proof fn lemma_key_index_is(s: Seq<EntryV>, key: Seq<char>, i: int)
    requires
        0 <= i <= s.len(),
        i < s.len() ==> s[i].key == key,
        forall|j: int| 0 <= j < i ==> (#[trigger] s[j]).key != key,
    ensures
        key_index(s, key) == i,
{
    lemma_key_index(s, key);
    let k = key_index(s, key);
    if k < i {
        assert(s[k].key != key);
    }
    if i < k {
        assert(s[i].key != key);
    }
}

/// A stored property reads back, every other key reads as before, and no key is doubled.
pub proof fn law_stored_reads_back(s: Seq<EntryV>, key: Seq<char>, prop: PropV, other: Seq<char>)
    ensures
        lookup(stored(s, key, prop), key) == Some(prop),
        other != key ==> lookup(stored(s, key, prop), other) == lookup(s, other),
        distinct_keys(s) ==> distinct_keys(stored(s, key, prop)),
{
    let i = key_index(s, key);
    let t = stored(s, key, prop);
    lemma_key_index(s, key);
    lemma_key_index(s, other);
    assert forall|j: int| 0 <= j < s.len() implies (#[trigger] t[j]).key == s[j].key by {}
    lemma_key_index_is(t, key, i);
    if other != key {
        let k = key_index(s, other);
        if k < s.len() {
            lemma_key_index_is(t, other, k);
            assert(k != i);
        } else {
            assert forall|j: int| 0 <= j < t.len() implies (#[trigger] t[j]).key != other by {
                if j < s.len() {
                    assert(s[j].key != other);
                }
            }
            lemma_key_index_is(t, other, t.len() as int);
        }
    }
    if distinct_keys(s) {
        assert forall|a: int, b: int| 0 <= a < b < t.len() implies (#[trigger] t[a]).key != (
        #[trigger] t[b]).key by {
            if b < s.len() {
                assert(s[a].key != s[b].key);
            } else {
                assert(s[a].key != key);
            }
        }
    }
}

impl PropertyMap {
    /// No key stands twice.
    pub open spec fn wf(self) -> bool {
        distinct_keys(self@)
    }

    pub fn new() -> (r: PropertyMap)
        ensures
            r.wf(),
            r@ == Seq::<EntryV>::empty(),
    {
        let r: PropertyMap = PropertyMap { entries: Vec::new() };
        assert(r@ =~= Seq::<EntryV>::empty());
        r
    }

    /// The place of `key`, or the number of entries.
    pub fn index_of(&self, key: &str) -> (r: usize)
        ensures
            r as int == key_index(self@, key@),
            r <= self.entries@.len(),
    {
        let mut i: usize = 0;
        while i < self.entries.len()
            invariant
                i <= self.entries@.len(),
                forall|j: int| 0 <= j < i ==> (#[trigger] self@[j]).key != key@,
            decreases self.entries@.len() - i,
        {
            assert(self@[i as int].key == self.entries@[i as int].key@);
            if same_text(self.entries[i].key.as_str(), key) {
                proof {
                    lemma_key_index_is(self@, key@, i as int);
                }
                return i;
            }
            i = i + 1;
        }
        proof {
            lemma_key_index_is(self@, key@, i as int);
        }
        i
    }

    pub fn get(&self, key: &str) -> (r: Option<Prop>)
        ensures
            opt_prop(r) == lookup(self@, key@),
    {
        let i: usize = self.index_of(key);
        if i < self.entries.len() {
            assert(self@[i as int] == entry_view(self.entries@[i as int]));
            Some(self.entries[i].prop.copy())
        } else {
            None
        }
    }

    /// Stores `prop` under `key`.
    pub fn store(&mut self, key: &str, prop: Prop)
        requires
            old(self).wf(),
        ensures
            final(self).wf(),
            final(self)@ == stored(old(self)@, key@, prop@),
    {
        let ghost before = self@;
        let i: usize = self.index_of(key);
        let e: Entry = Entry { key: key.to_owned(), prop };
        if i < self.entries.len() {
            self.entries.set(i, e);
        } else {
            self.entries.push(e);
        }
        proof {
            assert(self@ =~= stored(before, key@, prop@));
            law_stored_reads_back(before, key@, prop@, key@);
        }
    }

    /// Takes the property under `key` out.
    pub fn remove(&mut self, key: &str)
        requires
            old(self).wf(),
        ensures
            final(self).wf(),
            final(self)@ == without(old(self)@, key@),
    {
        let ghost before = self@;
        let i: usize = self.index_of(key);
        if i < self.entries.len() {
            self.entries.remove(i);
            proof {
                assert(self@ =~= before.remove(i as int));
                assert forall|a: int, b: int| 0 <= a < b < self@.len() implies (#[trigger] self@[a]).key
                    != (#[trigger] self@[b]).key by {
                    let x = if a < i {
                        a
                    } else {
                        a + 1
                    };
                    let y = if b < i {
                        b
                    } else {
                        b + 1
                    };
                    assert(self@[a] == before[x] && self@[b] == before[y]);
                }
            }
        }
    }
}

/// What becomes of the properties when `desc` is defined under `key`: stored where the definition
/// is allowed, unchanged and an error where it is not.
pub open spec fn ordinary_define_run(
    h: Host,
    pos: nat,
    map: Seq<EntryV>,
    key: Seq<char>,
    desc: Val,
    extensible: bool,
) -> Run<Seq<EntryV>> {
    let d = to_descriptor(h, pos, desc);
    match d.out {
        Err(e) => halted(e, d.pos),
        Ok(dv) => match applied(lookup(map, key), dv, extensible) {
            Ok(p) => done(stored(map, key, p), d.pos),
            Err(Refusal::NotExtensible) => raised(
                ErrorKind::TypeError,
                "Cannot define property: object is not extensible"@,
                d.pos,
            ),
            Err(Refusal::NotRedefinable) => raised(
                ErrorKind::TypeError,
                "Cannot redefine property"@,
                d.pos,
            ),
        },
    }
}

pub open spec fn desc_run(r: Result<Desc, Stop>, it: Interp) -> Run<DescV> {
    match r {
        Ok(d) => done(d@, it.pos as nat),
        Err(e) => halted(e@, it.pos as nat),
    }
}

fn flag_exec(v: Option<Value>) -> (r: Option<bool>)
    ensures
        r == flag(opt(v)),
{
    match v {
        Some(x) => Some(to_bool(&x)),
        None => None,
    }
}

fn good_function_exec(f: &Option<Value>) -> (r: bool)
    ensures
        r == good_function(opt(*f)),
{
    match f {
        None => true,
        Some(Value::Undefined) => true,
        Some(v) => is_callable(v),
    }
}

impl Interp {
    pub fn desc_field(&mut self, desc: &Value, key: &str) -> (r: Result<Option<Value>, Stop>)
        requires
            old(self).wf(),
        ensures
            final(self).follows(*old(self)),
            crate::host::run_slot(r, *final(self)) == desc_field(
                old(self).host(),
                old(self).pos as nat,
                desc@,
                key@,
            ),
    {
        if self.has_property(desc, key)? {
            Ok(Some(self.member_get(desc, key)?))
        } else {
            Ok(None)
        }
    }

    /// ToPropertyDescriptor.
    pub fn to_descriptor(&mut self, desc: &Value) -> (r: Result<Desc, Stop>)
        requires
            old(self).wf(),
        ensures
            final(self).follows(*old(self)),
            desc_run(r, *final(self)) == to_descriptor(
                old(self).host(),
                old(self).pos as nat,
                desc@,
            ),
    {
        if !is_object(desc) {
            return Err(fail(ErrorKind::TypeError, "Property description must be an object"));
        }
        let value: Option<Value> = self.desc_field(desc, "value")?;
        let get: Option<Value> = self.desc_field(desc, "get")?;
        let set: Option<Value> = self.desc_field(desc, "set")?;
        let writable: Option<Value> = self.desc_field(desc, "writable")?;
        let enumerable: Option<Value> = self.desc_field(desc, "enumerable")?;
        let configurable: Option<Value> = self.desc_field(desc, "configurable")?;
        let d: Desc = Desc {
            value,
            get,
            set,
            writable: flag_exec(writable),
            enumerable: flag_exec(enumerable),
            configurable: flag_exec(configurable),
        };
        if (d.get.is_some() || d.set.is_some()) && (d.value.is_some() || d.writable.is_some()) {
            return Err(
                fail(
                    ErrorKind::TypeError,
                    "Invalid property descriptor. Cannot both specify accessors and a value or writable",
                ),
            );
        }
        if !good_function_exec(&d.get) {
            return Err(fail(ErrorKind::TypeError, "Getter must be a function"));
        }
        if !good_function_exec(&d.set) {
            return Err(fail(ErrorKind::TypeError, "Setter must be a function"));
        }
        Ok(d)
    }

    /// The error of a redefinition that is not allowed.
    pub fn redefine_err() -> (r: Stop)
        ensures
            r@ == Halt::Throw(Thrown::Error(ErrorKind::TypeError, "Cannot redefine property"@)),
    {
        fail(ErrorKind::TypeError, "Cannot redefine property")
    }

    /// OrdinaryDefineOwnProperty on the properties `map` of an object.
    pub fn ordinary_define(
        &mut self,
        map: &mut PropertyMap,
        key: &str,
        desc: &Value,
        extensible: bool,
    ) -> (r: Result<(), Stop>)
        requires
            old(self).wf(),
            old(map).wf(),
        ensures
            final(self).follows(*old(self)),
            final(map).wf(),
            r is Err ==> final(map)@ == old(map)@,
            ({
                let s = ordinary_define_run(
                    old(self).host(),
                    old(self).pos as nat,
                    old(map)@,
                    key@,
                    desc@,
                    extensible,
                );
                &&& s.pos == final(self).pos
                &&& match r {
                    Ok(_) => s.out == Ok::<Seq<EntryV>, Halt>(final(map)@),
                    Err(e) => s.out == Err::<Seq<EntryV>, Halt>(e@),
                }
            }),
    {
        let d: Desc = self.to_descriptor(desc)?;
        match validate_and_apply(&map.get(key), &d, extensible) {
            Ok(p) => {
                map.store(key, p);
                Ok(())
            },
            Err(Refusal::NotExtensible) => Err(
                fail(ErrorKind::TypeError, "Cannot define property: object is not extensible"),
            ),
            Err(Refusal::NotRedefinable) => Err(Interp::redefine_err()),
        }
    }
}

/// The essential invariant of properties that are not configurable. Whatever is defined on one
/// leaves it not configurable, as enumerable as it was, and of its kind. An accessor keeps its
/// functions. A data property that is not writable either keeps its value and stays not writable.
pub proof fn law_fixed_property_stays(cur: PropV, d: DescV, extensible: bool)
    requires
        !cur.configurable,
        good_function(d.get),
        good_function(d.set),
        cur.slot matches SlotV::Accessor(g, s) ==> (g is Some ==> callable(g->0)) && (s is Some
            ==> callable(s->0)),
        applied(Some(cur), d, extensible) is Ok,
    ensures
        ({
            let new = applied(Some(cur), d, extensible)->Ok_0;
            &&& !new.configurable
            &&& new.enumerable == cur.enumerable
            &&& match cur.slot {
                SlotV::Accessor(g, s) => new.slot matches SlotV::Accessor(g2, s2) && same(
                    or_undefined(g2),
                    or_undefined(g),
                ) && same(or_undefined(s2), or_undefined(s)),
                SlotV::Data(v) => {
                    &&& new.slot is Data
                    &&& !cur.writable ==> !new.writable && same(v, new.slot->Data_0)
                },
            }
        }),
{
}

/// A definition that went through goes through again, and changes nothing more.
pub proof fn law_define_twice(cur: Option<PropV>, d: DescV, extensible: bool, again: bool)
    requires
        !(is_accessor_desc(d) && is_data_desc(d)),
        good_function(d.get),
        good_function(d.set),
        applied(cur, d, extensible) is Ok,
    ensures
        applied(Some(applied(cur, d, extensible)->Ok_0), d, again) == applied(cur, d, extensible),
{
    let p = applied(cur, d, extensible)->Ok_0;
    match p.slot {
        SlotV::Data(v) => {},
        SlotV::Accessor(g, s) => {},
    }
    assert(redefinable(p, d));
    assert(defined(Some(p), d) =~= p);
}

/// A definition touches one key: every other key keeps its property.
pub proof fn law_define_frame(
    h: Host,
    pos: nat,
    map: Seq<EntryV>,
    key: Seq<char>,
    desc: Val,
    extensible: bool,
    other: Seq<char>,
)
    requires
        ordinary_define_run(h, pos, map, key, desc, extensible).out is Ok,
        other != key,
    ensures
        lookup(ordinary_define_run(h, pos, map, key, desc, extensible).out->Ok_0, other) == lookup(
            map,
            other,
        ),
{
    let d = to_descriptor(h, pos, desc).out->Ok_0;
    law_stored_reads_back(map, key, applied(lookup(map, key), d, extensible)->Ok_0, other);
}

/// The full descriptor of a stored property: what `getOwnPropertyDescriptor` reports.
pub open spec fn described(p: PropV) -> DescV {
    match p.slot {
        SlotV::Data(v) => DescV {
            value: Some(v),
            get: None,
            set: None,
            writable: Some(p.writable),
            enumerable: Some(p.enumerable),
            configurable: Some(p.configurable),
        },
        SlotV::Accessor(g, s) => DescV {
            value: None,
            get: Some(or_undefined(g)),
            set: Some(or_undefined(s)),
            writable: None,
            enumerable: Some(p.enumerable),
            configurable: Some(p.configurable),
        },
    }
}

fn or_undefined_exec(v: &Option<Value>) -> (r: Value)
    ensures
        r@ == or_undefined(opt(*v)),
{
    match v {
        Some(x) => x.clone(),
        None => Value::Undefined,
    }
}

/// The full descriptor of a stored property.
pub fn describe(p: &Prop) -> (r: Desc)
    ensures
        r@ == described(p@),
{
    match &p.slot {
        Slot::Data(v) => Desc {
            value: Some(v.clone()),
            get: None,
            set: None,
            writable: Some(p.writable),
            enumerable: Some(p.enumerable),
            configurable: Some(p.configurable),
        },
        Slot::Accessor(g, s) => Desc {
            value: None,
            get: Some(or_undefined_exec(g)),
            set: Some(or_undefined_exec(s)),
            writable: None,
            enumerable: Some(p.enumerable),
            configurable: Some(p.configurable),
        },
    }
}

/// A property that is defined from its own description comes out the same, and the description of
/// a stored property is always accepted on that property.
pub proof fn law_describe_define(p: PropV)
    requires
        p.slot matches SlotV::Accessor(g, s) ==> (g is Some ==> callable(g->0)) && (s is Some
            ==> callable(s->0)),
        p.slot is Accessor ==> !p.writable,
    ensures
        applied(None, described(p), true) == Ok::<PropV, Refusal>(p),
        applied(Some(p), described(p), false) == Ok::<PropV, Refusal>(p),
{
    assert(defined(None, described(p)) =~= p);
    assert(defined(Some(p), described(p)) =~= p);
    assert(redefinable(p, described(p)));
}

/// How far an object is closed.
#[derive(Clone, Copy, Debug, PartialEq, Eq, Structural)]
pub enum Integrity {
    /// Takes no new properties.
    Closed,
    Sealed,
    Frozen,
}

/// A property of a sealed or frozen object: no longer configurable, and a frozen data property no
/// longer writable.
pub open spec fn tightened(p: PropV, level: Integrity) -> PropV {
    PropV {
        slot: p.slot,
        writable: p.writable && !(level == Integrity::Frozen && p.slot is Data),
        enumerable: p.enumerable,
        configurable: p.configurable && level == Integrity::Closed,
    }
}

pub fn tighten(p: &mut Prop, level: Integrity)
    ensures
        final(p)@ == tightened(old(p)@, level),
{
    if level != Integrity::Closed {
        p.configurable = false;
    }
    let data: bool = match &p.slot {
        Slot::Data(_) => true,
        Slot::Accessor(_, _) => false,
    };
    if level == Integrity::Frozen && data {
        p.writable = false;
    }
}

/// A key that the engine keeps for itself: the prototype link, and every key that begins with a
/// null character, the keys of symbols among them.
pub open spec fn internal_key(key: Seq<char>) -> bool {
    key == "__proto__"@ || (key.len() > 0 && key[0] == '\0')
}

pub fn is_internal_key(key: &str) -> (r: bool)
    ensures
        r == internal_key(key@),
{
    if same_text(key, "__proto__") {
        return true;
    }
    let cs: Vec<char> = chars_of(key);
    cs.len() > 0 && cs[0] == '\0'
}

/// The properties of a sealed or frozen object; those under the engine's own keys stay, but for
/// those of symbols.
pub open spec fn tightened_all(s: Seq<EntryV>, level: Integrity) -> Seq<EntryV> {
    Seq::new(
        s.len(),
        |i: int|
            if internal_key(s[i].key) && !symbol_key(s[i].key) {
                s[i]
            } else {
                EntryV { key: s[i].key, prop: tightened(s[i].prop, level) }
            },
    )
}

impl PropertyMap {
    /// Seals or freezes every property but the engine's own.
    pub fn set_integrity(&mut self, level: Integrity)
        requires
            old(self).wf(),
        ensures
            final(self).wf(),
            final(self)@ == tightened_all(old(self)@, level),
    {
        let ghost before = self@;
        let mut i: usize = 0;
        while i < self.entries.len()
            invariant
                i <= self.entries@.len(),
                self@.len() == before.len(),
                forall|j: int| 0 <= j < i ==> #[trigger] self@[j] == tightened_all(before, level)[j],
                forall|j: int| i <= j < before.len() ==> #[trigger] self@[j] == before[j],
            decreases self.entries@.len() - i,
        {
            let ghost prior = self@;
            let key: String = self.entries[i].key.clone();
            assert(self@[i as int] == entry_view(self.entries@[i as int]));
            if !is_internal_key(key.as_str()) || is_symbol_key(key.as_str()) {
                let mut p: Prop = self.entries[i].prop.copy();
                tighten(&mut p, level);
                self.entries.set(i, Entry { key, prop: p });
                assert(self@ =~= prior.update(
                    i as int,
                    EntryV {
                        key: before[i as int].key,
                        prop: tightened(before[i as int].prop, level),
                    },
                ));
            }
            i = i + 1;
        }
        assert(self@ =~= tightened_all(before, level));
        assert forall|a: int, b: int| 0 <= a < b < self@.len() implies (#[trigger] self@[a]).key != (
        #[trigger] self@[b]).key by {
            assert(before[a].key != before[b].key);
        }
    }
}

/// A frozen data property takes no other value and never becomes writable again.
pub proof fn law_frozen_value_stays(p: PropV, d: DescV, extensible: bool)
    requires
        p.slot is Data,
        applied(Some(tightened(p, Integrity::Frozen)), d, extensible) is Ok,
    ensures
        ({
            let new = applied(Some(tightened(p, Integrity::Frozen)), d, extensible)->Ok_0;
            &&& new.slot is Data
            &&& same(p.slot->Data_0, new.slot->Data_0)
            &&& !new.writable
            &&& !new.configurable
        }),
{
}

} // verus!
