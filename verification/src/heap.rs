//! Objects as the engine stores them: ordered maps from keys to values, linked by `__proto__`.
use crate::arr_ops::array_push_run;
use crate::array_live::{count_as_num, count_num};
use crate::host::{
    ask_number, done, fail, halted, list1, raised, run_list, run_plain, Answer, Halt, Host, Interp,
    Op, Question, Run, Stop,
};
use crate::number::{array_like_len, beyond_arrays, Num};
use crate::text::{decimal, decimal_text, is_digit, law_index_keys, lemma_decimal_value, same_text};
use crate::value::{views, ErrorKind, Kind, Val, Value};
use vstd::prelude::*;

verus! {

/// A stored property.
pub struct Item {
    pub key: String,
    pub value: Value,
}

/// The mathematical counterpart of `Item`.
#[verifier::ext_equal]
pub struct ItemV {
    pub key: Seq<char>,
    pub value: Val,
}

impl View for Item {
    type V = ItemV;

    open spec fn view(&self) -> ItemV {
        ItemV { key: self.key@, value: self.value@ }
    }
}

pub open spec fn item_views(s: Seq<Item>) -> Seq<ItemV> {
    Seq::new(s.len(), |i: int| s[i]@)
}

/// A map that keeps its keys in the order in which they were first stored.
pub struct ObjMap {
    pub items: Vec<Item>,
}

impl View for ObjMap {
    type V = Seq<ItemV>;

    open spec fn view(&self) -> Seq<ItemV> {
        item_views(self.items@)
    }
}

/// The place of a key.
pub open spec fn item_index(s: Seq<ItemV>, key: Seq<char>) -> Option<nat>
    decreases s.len(),
{
    if s.len() == 0 {
        None
    } else if s[0].key == key {
        Some(0)
    } else {
        match item_index(s.skip(1), key) {
            Some(i) => Some(i + 1),
            None => None,
        }
    }
}

/// What is stored under a key.
pub open spec fn item(s: Seq<ItemV>, key: Seq<char>) -> Option<Val> {
    match item_index(s, key) {
        Some(i) => Some(s[i as int].value),
        None => None,
    }
}

/// The map after a value was stored: in place where the key is there, else at the end.
pub open spec fn put(s: Seq<ItemV>, key: Seq<char>, value: Val) -> Seq<ItemV> {
    match item_index(s, key) {
        Some(i) => s.update(i as int, ItemV { key, value }),
        None => s.push(ItemV { key, value }),
    }
}

/// The map without a key.
pub open spec fn dropped(s: Seq<ItemV>, key: Seq<char>) -> Seq<ItemV> {
    match item_index(s, key) {
        Some(i) => s.remove(i as int),
        None => s,
    }
}

/// No key occurs twice.
pub open spec fn distinct(s: Seq<ItemV>) -> bool {
    forall|i: int, j: int| 0 <= i < j < s.len() ==> (#[trigger] s[i]).key != (#[trigger] s[j]).key
}

proof fn lemma_item_index(s: Seq<ItemV>, key: Seq<char>, i: nat)
    requires
        i <= s.len(),
        i < s.len() ==> s[i as int].key == key,
        forall|j: int| 0 <= j < i ==> (#[trigger] s[j]).key != key,
    ensures
        item_index(s, key) == if i < s.len() {
            Some(i)
        } else {
            None::<nat>
        },
    decreases s.len(),
{
    if s.len() > 0 && i > 0 {
        assert(s[0].key != key);
        assert forall|j: int| 0 <= j < i - 1 implies (#[trigger] s.skip(1)[j]).key != key by {
            assert(s[j + 1].key != key);
        }
        lemma_item_index(s.skip(1), key, (i - 1) as nat);
    }
}

proof fn lemma_item_found(s: Seq<ItemV>, key: Seq<char>)
    ensures
        item_index(s, key) matches Some(i) ==> {
            &&& i < s.len()
            &&& s[i as int].key == key
            &&& forall|j: int| 0 <= j < i ==> (#[trigger] s[j]).key != key
        },
        item_index(s, key) is None ==> forall|j: int|
            0 <= j < s.len() ==> (#[trigger] s[j]).key != key,
    decreases s.len(),
{
    if s.len() > 0 && s[0].key != key {
        lemma_item_found(s.skip(1), key);
        assert forall|j: int| 0 <= j < s.len() && item_index(s, key) is None implies (
        #[trigger] s[j]).key != key by {
            if j > 0 {
                assert(s.skip(1)[j - 1].key != key);
            }
        }
        if item_index(s, key) is Some {
            let i = item_index(s, key)->0;
            assert forall|j: int| 0 <= j < i implies (#[trigger] s[j]).key != key by {
                if j > 0 {
                    assert(s.skip(1)[j - 1].key != key);
                }
            }
        }
    }
}

/// What is stored reads back, what is removed is gone, other keys keep their values, and no key
/// comes to occur twice.
pub proof fn law_map(s: Seq<ItemV>, key: Seq<char>, value: Val, other: Seq<char>)
    requires
        distinct(s),
    ensures
        item(put(s, key, value), key) == Some(value),
        item(dropped(s, key), key) is None,
        other != key ==> item(put(s, key, value), other) == item(s, other),
        other != key ==> item(dropped(s, key), other) == item(s, other),
        distinct(put(s, key, value)),
        distinct(dropped(s, key)),
{
    let p = put(s, key, value);
    let d = dropped(s, key);
    lemma_item_found(s, key);
    lemma_item_found(s, other);
    match item_index(s, key) {
        Some(i) => {
            let i = i as int;
            lemma_item_index(p, key, i as nat);
            assert forall|j: int| 0 <= j < d.len() implies (#[trigger] d[j]).key != key by {
                if j < i {
                    assert(d[j] == s[j]);
                } else {
                    assert(d[j] == s[j + 1]);
                    assert(s[i].key != s[j + 1].key);
                }
            }
            lemma_item_index(d, key, d.len());
            assert forall|a: int, b: int| 0 <= a < b < p.len() implies (#[trigger] p[a]).key != (
            #[trigger] p[b]).key by {
                assert(s[a].key != s[b].key);
            }
            assert forall|a: int, b: int| 0 <= a < b < d.len() implies (#[trigger] d[a]).key != (
            #[trigger] d[b]).key by {
                let a2 = if a < i {
                    a
                } else {
                    a + 1
                };
                let b2 = if b < i {
                    b
                } else {
                    b + 1
                };
                assert(s[a2].key != s[b2].key);
            }
            if other != key {
                match item_index(s, other) {
                    Some(k) => {
                        let k = k as int;
                        lemma_item_index(p, other, k as nat);
                        let k2 = if k < i {
                            k
                        } else {
                            k - 1
                        };
                        assert forall|j: int| 0 <= j < k2 implies (#[trigger] d[j]).key != other by {
                            if j < i {
                                assert(d[j] == s[j]);
                            } else {
                                assert(d[j] == s[j + 1]);
                            }
                        }
                        lemma_item_index(d, other, k2 as nat);
                    },
                    None => {
                        lemma_item_index(p, other, p.len());
                        assert forall|j: int| 0 <= j < d.len() implies (#[trigger] d[j]).key
                            != other by {
                            if j < i {
                                assert(d[j] == s[j]);
                            } else {
                                assert(d[j] == s[j + 1]);
                            }
                        }
                        lemma_item_index(d, other, d.len());
                    },
                }
            }
        },
        None => {
            lemma_item_index(p, key, s.len());
            if other != key {
                match item_index(s, other) {
                    Some(k) => {
                        lemma_item_index(p, other, k);
                    },
                    None => {
                        lemma_item_index(p, other, p.len());
                    },
                }
            }
        },
    }
}

impl ObjMap {
    pub fn new() -> (r: Self)
        ensures
            r@ == Seq::<ItemV>::empty(),
    {
        let r: ObjMap = ObjMap { items: Vec::new() };
        assert(r@ =~= Seq::<ItemV>::empty());
        r
    }

    fn place(&self, key: &str) -> (r: usize)
        ensures
            r <= self@.len(),
            item_index(self@, key@) == if r < self@.len() {
                Some(r as nat)
            } else {
                None::<nat>
            },
    {
        let mut i: usize = 0;
        while i < self.items.len()
            invariant
                i <= self.items@.len(),
                forall|j: int| 0 <= j < i ==> (#[trigger] self@[j]).key != key@,
            decreases self.items@.len() - i,
        {
            assert(self@[i as int].key == self.items@[i as int].key@);
            if same_text(self.items[i].key.as_str(), key) {
                proof {
                    lemma_item_index(self@, key@, i as nat);
                }
                return i;
            }
            i = i + 1;
        }
        proof {
            lemma_item_index(self@, key@, i as nat);
        }
        i
    }

    /// What is stored under a key.
    pub fn get(&self, key: &str) -> (r: Option<Value>)
        ensures
            crate::host::opt_view(r) == item(self@, key@),
    {
        let i: usize = self.place(key);
        if i < self.items.len() {
            Some(self.items[i].value.clone())
        } else {
            None
        }
    }

    pub fn contains_key(&self, key: &str) -> (r: bool)
        ensures
            r == (item(self@, key@) is Some),
    {
        self.place(key) < self.items.len()
    }

    /// Stores a value.
    pub fn insert(&mut self, key: String, value: Value)
        ensures
            final(self)@ == put(old(self)@, key@, value@),
    {
        let ghost before = self@;
        let i: usize = self.place(key.as_str());
        let ghost (k, v) = (key@, value@);
        if i < self.items.len() {
            self.items.set(i, Item { key, value });
        } else {
            self.items.push(Item { key, value });
        }
        assert(self@ =~= put(before, k, v));
    }

    /// Removes a key.
    pub fn remove(&mut self, key: &str)
        ensures
            final(self)@ == dropped(old(self)@, key@),
    {
        let ghost before = self@;
        let i: usize = self.place(key);
        if i < self.items.len() {
            let gone: Item = self.items.remove(i);
        }
        assert(self@ =~= dropped(before, key@));
    }
}

/// The objects of the engine; an object's number is its place.
pub struct Heap {
    pub objects: Vec<ObjMap>,
}

impl View for Heap {
    type V = Seq<Seq<ItemV>>;

    open spec fn view(&self) -> Seq<Seq<ItemV>> {
        Seq::new(self.objects@.len(), |i: int| self.objects@[i]@)
    }
}

/// The prototype of an object, where that is a plain object.
pub open spec fn proto_link(s: Seq<ItemV>) -> Option<u64> {
    match item(s, "__proto__"@) {
        Some(Val::Ref(Kind::Obj, p)) => Some(p),
        _ => None,
    }
}

/// The `length` that `o` has or inherits, within `fuel` objects up.
pub open spec fn length_slot(heap: Seq<Seq<ItemV>>, o: u64, fuel: nat) -> Option<Val>
    decreases fuel,
{
    if fuel == 0 || o >= heap.len() {
        None
    } else {
        match item(heap[o as int], "length"@) {
            Some(v) => Some(v),
            None => match proto_link(heap[o as int]) {
                Some(p) => length_slot(heap, p, (fuel - 1) as nat),
                None => None,
            },
        }
    }
}

/// How far the chain of prototypes is followed.
pub const CHAIN_LIMIT: usize = 100;

impl Heap {
    /// Every key of every object occurs once.
    pub open spec fn wf(self) -> bool {
        forall|i: int| 0 <= i < self@.len() ==> distinct(#[trigger] self@[i])
    }

    fn find_length(&self, o: u64) -> (r: Option<Value>)
        ensures
            crate::host::opt_view(r) == length_slot(self@, o, CHAIN_LIMIT as nat),
    {
        let mut cur: u64 = o;
        let mut fuel: usize = CHAIN_LIMIT;
        while fuel > 0
            invariant
                length_slot(self@, o, CHAIN_LIMIT as nat) == length_slot(self@, cur, fuel as nat),
            decreases fuel,
        {
            if cur >= self.objects.len() as u64 {
                return None;
            }
            let m: &ObjMap = &self.objects[cur as usize];
            assert(self@[cur as int] == m@);
            match m.get("length") {
                Some(v) => {
                    return Some(v);
                },
                None => {},
            }
            match m.get("__proto__") {
                Some(Value::Ref(Kind::Obj, p)) => {
                    cur = p;
                },
                _ => {
                    return None;
                },
            }
            fuel = fuel - 1;
        }
        None
    }
}

/// The `length` of an object as a number.
pub open spec fn length_number(h: Host, pos: nat, heap: Seq<Seq<ItemV>>, o: u64) -> Run<
    Option<Num>,
> {
    match length_slot(heap, o, CHAIN_LIMIT as nat) {
        None => done(None, pos),
        Some(v) => {
            let n = ask_number(h, pos, Op::PlainNumber, seq![v]);
            match n.out {
                Ok(x) => done(Some(x), n.pos),
                Err(e) => halted(e, n.pos),
            }
        },
    }
}

pub open spec fn array_like(len: Option<Num>) -> bool {
    match len {
        Some(n) => n.finite() && n.at_least_zero(),
        None => false,
    }
}

pub open spec fn length_or_zero(len: Option<Num>) -> Num {
    match len {
        Some(n) => n,
        None => Num { bits: 0 },
    }
}

/// The first `n` elements of an array-like object; undefined where there is none.
pub open spec fn elements(s: Seq<ItemV>, n: nat) -> Seq<Val> {
    Seq::new(
        n,
        |i: int|
            match item(s, decimal(i as nat)) {
                Some(v) => v,
                None => Val::Undefined,
            },
    )
}

/// The elements of an array-like object.
pub open spec fn listed(h: Host, pos: nat, heap: Seq<Seq<ItemV>>, o: u64) -> Run<Seq<Val>> {
    let l = length_number(h, pos, heap, o);
    match l.out {
        Err(e) => halted(e, l.pos),
        Ok(len) => {
            let n = length_or_zero(len);
            if beyond_arrays(n) {
                raised(ErrorKind::RangeError, "Invalid array length"@, l.pos)
            } else if n.positive() {
                done(elements(heap[o as int], n.magnitude()), l.pos)
            } else {
                done(Seq::empty(), l.pos)
            }
        },
    }
}

/// The map without the index keys from `from` up to `to`.
pub open spec fn truncated(s: Seq<ItemV>, from: nat, to: nat) -> Seq<ItemV>
    decreases to - from,
{
    if from >= to {
        s
    } else {
        dropped(truncated(s, from, (to - 1) as nat), decimal((to - 1) as nat))
    }
}

/// The map with the first `n` of some values under their indices.
pub open spec fn filled(s: Seq<ItemV>, items: Seq<Val>, n: nat) -> Seq<ItemV>
    decreases n,
{
    if n == 0 || n > items.len() {
        s
    } else {
        put(filled(s, items, (n - 1) as nat), decimal((n - 1) as nat), items[n - 1])
    }
}

/// An array-like object of the given former length after it was given these elements.
pub open spec fn written(s: Seq<ItemV>, former: nat, items: Seq<Val>) -> Seq<ItemV> {
    put(
        filled(truncated(s, items.len(), former), items, items.len()),
        "length"@,
        Val::Num(count_num(items.len())),
    )
}

/// The number of elements that a former length stands for.
pub open spec fn former_length(len: Option<Num>) -> nat {
    let n = length_or_zero(len);
    if n.finite() && n.positive() {
        if n.magnitude() <= u64::MAX {
            n.magnitude()
        } else {
            u64::MAX as nat
        }
    } else {
        0
    }
}

impl Interp {
    /// The `length` of an object, its own or an inherited one.
    pub fn lookup_length(&mut self, heap: &Heap, o: u64) -> (r: Result<Option<Num>, Stop>)
        requires
            old(self).wf(),
        ensures
            final(self).follows(*old(self)),
            run_plain(r, *final(self)) == length_number(
                old(self).host(),
                old(self).pos as nat,
                heap@,
                o,
            ),
    {
        match heap.find_length(o) {
            None => Ok(None),
            Some(v) => {
                let n: Num = self.ask_number(Op::PlainNumber, list1(v))?;
                Ok(Some(n))
            },
        }
    }

    /// True of an object whose `length` is a number from zero on.
    pub fn is_array_like(&mut self, heap: &Heap, o: u64) -> (r: Result<bool, Stop>)
        requires
            old(self).wf(),
        ensures
            final(self).follows(*old(self)),
            run_plain(r, *final(self)) == ({
                let l = length_number(old(self).host(), old(self).pos as nat, heap@, o);
                match l.out {
                    Ok(len) => done(array_like(len), l.pos),
                    Err(e) => halted(e, l.pos),
                }
            }),
    {
        match self.lookup_length(heap, o)? {
            Some(n) => Ok(n.is_finite() && n.is_at_least_zero()),
            None => Ok(false),
        }
    }

    /// The elements of an array-like object.
    #[verifier::loop_isolation(false)]
    pub fn array_like_to_vec(&mut self, heap: &Heap, o: u64) -> (r: Result<Vec<Value>, Stop>)
        requires
            old(self).wf(),
            o < heap@.len(),
        ensures
            final(self).follows(*old(self)),
            run_list(r, *final(self)) == listed(
                old(self).host(),
                old(self).pos as nat,
                heap@,
                o,
            ),
    {
        let len: Num = match self.lookup_length(heap, o)? {
            Some(n) => n,
            None => Num { bits: 0 },
        };
        let n: u64 = match array_like_len(len) {
            Ok(n) => n,
            Err(_) => {
                return Err(fail(ErrorKind::RangeError, "Invalid array length"));
            },
        };
        let size: usize = heap.objects.len();
        assert(o < size);
        let m: &ObjMap = &heap.objects[o as usize];
        assert(heap@[o as int] == m@);
        let mut out: Vec<Value> = Vec::new();
        let mut i: u64 = 0;
        assert(views(out@) =~= elements(m@, 0));
        while i < n
            invariant
                i <= n,
                views(out@) == elements(m@, i as nat),
            decreases n - i,
        {
            let v: Value = match m.get(decimal_text(i).as_str()) {
                Some(v) => v,
                None => Value::Undefined,
            };
            let ghost before = views(out@);
            out.push(v);
            assert(views(out@) =~= before.push(v@));
            i = i + 1;
            assert(views(out@) =~= elements(m@, i as nat));
        }
        assert(!len.positive() ==> views(out@) =~= Seq::<Val>::empty());
        Ok(out)
    }

    /// Stores new elements in an array-like object: the indices and `length`; indices from the
    /// former length beyond the new one are removed.
    #[verifier::loop_isolation(false)]
    pub fn write_back_array_like(&mut self, heap: &mut Heap, o: u64, items: &Vec<Value>) -> (r:
        Result<(), Stop>)
        requires
            old(self).wf(),
            o < old(heap)@.len(),
        ensures
            final(self).follows(*old(self)),
            ({
                let l = length_number(old(self).host(), old(self).pos as nat, old(heap)@, o);
                &&& final(self).pos == l.pos
                &&& match l.out {
                    Err(e) => {
                        &&& r matches Err(s) && s@ == e
                        &&& final(heap)@ == old(heap)@
                    },
                    Ok(len) => {
                        &&& r is Ok
                        &&& final(heap)@ == old(heap)@.update(
                            o as int,
                            written(old(heap)@[o as int], former_length(len), views(items@)),
                        )
                    },
                }
            }),
    {
        let ghost before = heap@;
        let len: Num = match self.lookup_length(heap, o)? {
            Some(n) => n,
            None => Num { bits: 0 },
        };
        let former: u64 = if len.is_finite() && len.is_positive() {
            len.whole()
        } else {
            0
        };
        let size: usize = heap.objects.len();
        assert(o < size);
        let k: usize = o as usize;
        let mut m: ObjMap = ObjMap::new();
        std::mem::swap(&mut m, &mut heap.objects[k]);
        let ghost start = m@;
        assert(start == before[o as int]);
        let n: usize = items.len();
        let mut i: u64 = n as u64;
        while i < former
            invariant
                n as nat <= i,
                i <= former || i == n,
                m@ == truncated(start, n as nat, i as nat),
            decreases former - i,
        {
            m.remove(decimal_text(i).as_str());
            i = i + 1;
        }
        proof {
            if (former as nat) < n as nat {
                assert(truncated(start, n as nat, former as nat) == start);
                assert(truncated(start, n as nat, n as nat) == start);
            }
        }
        assert(m@ == truncated(start, n as nat, former as nat));
        let ghost cut = m@;
        let mut j: usize = 0;
        while j < n
            invariant
                j <= n,
                m@ == filled(cut, views(items@), j as nat),
            decreases n - j,
        {
            m.insert(decimal_text(j as u64), items[j].clone());
            j = j + 1;
        }
        m.insert("length".to_owned(), Value::Num(count_as_num(n)));
        std::mem::swap(&mut m, &mut heap.objects[k]);
        assert(heap@ =~= before.update(
            o as int,
            written(start, former as nat, views(items@)),
        ));
        Ok(())
    }
}

proof fn lemma_index_key_is_no_length(i: nat)
    ensures
        decimal(i) != "length"@,
{
    lemma_decimal_value(i);
    reveal_strlit("length");
    assert("length"@[0] == 'l');
    assert(is_digit(decimal(i)[0]));
}

proof fn lemma_truncated(s: Seq<ItemV>, from: nat, to: nat, i: nat)
    requires
        distinct(s),
    ensures
        distinct(truncated(s, from, to)),
        from <= i < to ==> item(truncated(s, from, to), decimal(i)) is None,
        !(from <= i < to) ==> item(truncated(s, from, to), decimal(i)) == item(s, decimal(i)),
    decreases to - from,
{
    if from < to {
        lemma_truncated(s, from, (to - 1) as nat, i);
        law_index_keys(i, (to - 1) as nat);
        law_map(
            truncated(s, from, (to - 1) as nat),
            decimal((to - 1) as nat),
            Val::Undefined,
            decimal(i),
        );
    }
}

proof fn lemma_filled(s: Seq<ItemV>, items: Seq<Val>, n: nat, i: nat)
    requires
        distinct(s),
        n <= items.len(),
    ensures
        distinct(filled(s, items, n)),
        i < n ==> item(filled(s, items, n), decimal(i)) == Some(items[i as int]),
        i >= n ==> item(filled(s, items, n), decimal(i)) == item(s, decimal(i)),
    decreases n,
{
    if n > 0 {
        lemma_filled(s, items, (n - 1) as nat, i);
        law_index_keys(i, (n - 1) as nat);
        law_map(
            filled(s, items, (n - 1) as nat),
            decimal((n - 1) as nat),
            items[n - 1],
            decimal(i),
        );
    }
}

/// A key that is no index.
pub open spec fn no_index(key: Seq<char>) -> bool {
    forall|j: nat| key != #[trigger] decimal(j)
}

proof fn lemma_truncated_others(s: Seq<ItemV>, from: nat, to: nat, key: Seq<char>)
    requires
        distinct(s),
        no_index(key),
    ensures
        item(truncated(s, from, to), key) == item(s, key),
        distinct(truncated(s, from, to)),
    decreases to - from,
{
    if from < to {
        let last = (to - 1) as nat;
        lemma_truncated_others(s, from, last, key);
        assert(key != decimal(last));
        law_map(truncated(s, from, last), decimal(last), Val::Undefined, key);
    }
}

proof fn lemma_filled_others(s: Seq<ItemV>, items: Seq<Val>, n: nat, key: Seq<char>)
    requires
        distinct(s),
        no_index(key),
    ensures
        item(filled(s, items, n), key) == item(s, key),
        distinct(filled(s, items, n)),
    decreases n,
{
    if 0 < n <= items.len() {
        let last = (n - 1) as nat;
        lemma_filled_others(s, items, last, key);
        assert(key != decimal(last));
        law_map(filled(s, items, last), decimal(last), items[n - 1], key);
    }
}

/// Elements that were stored in an array-like object read back, none of the former ones is left
/// over, its `length` is their number, and what stands under any other key stays.
pub proof fn law_write_back(s: Seq<ItemV>, former: nat, items: Seq<Val>, i: nat, other: Seq<char>)
    requires
        distinct(s),
    ensures
        no_index(other) && other != "length"@ ==> item(written(s, former, items), other) == item(
            s,
            other,
        ),
        item(written(s, former, items), "length"@) == Some(Val::Num(count_num(items.len()))),
        i < items.len() ==> item(written(s, former, items), decimal(i)) == Some(items[i as int]),
        items.len() <= i < former ==> item(written(s, former, items), decimal(i)) is None,
        i >= items.len() && i >= former ==> item(written(s, former, items), decimal(i)) == item(
            s,
            decimal(i),
        ),
        elements(written(s, former, items), items.len()) == items,
        distinct(written(s, former, items)),
{
    let cut = truncated(s, items.len(), former);
    let full = filled(cut, items, items.len());
    let w = written(s, former, items);
    lemma_truncated(s, items.len(), former, i);
    lemma_filled(cut, items, items.len(), i);
    lemma_index_key_is_no_length(i);
    law_map(full, "length"@, Val::Num(count_num(items.len())), decimal(i));
    assert forall|j: int| 0 <= j < items.len() implies #[trigger] elements(w, items.len())[j]
        == items[j] by {
        lemma_filled(cut, items, items.len(), j as nat);
        lemma_index_key_is_no_length(j as nat);
        law_map(full, "length"@, Val::Num(count_num(items.len())), decimal(j as nat));
    }
    assert(elements(w, items.len()) =~= items);
    if no_index(other) && other != "length"@ {
        lemma_truncated_others(s, items.len(), former, other);
        lemma_filled_others(cut, items, items.len(), other);
        law_map(full, "length"@, Val::Num(count_num(items.len())), other);
    }
}

/// `push` onto an array-like object, over what `is_array_like`, `array_like_to_vec` and
/// `write_back_array_like` do: the object is handed its elements and the new ones behind them, they
/// are its elements after that, and the result is their number, which is its new length.
pub proof fn law_push_onto_array_like(
    h: Host,
    pos: nat,
    o: u64,
    s: Seq<ItemV>,
    former: nat,
    items: Seq<Val>,
    args: Seq<Val>,
)
    requires
        distinct(s),
        h.len > pos + 1,
        (h.reply)(
            pos,
            (Question { op: Op::IsArrayLike, args: seq![Val::Ref(Kind::Obj, o)] }),
        ) == Answer::Value(Val::Bool(true)),
        (h.reply)(
            pos + 1,
            (Question { op: Op::ArrayLikeItems, args: seq![Val::Ref(Kind::Obj, o)] }),
        ) == Answer::List(items),
    ensures
        ({
            let r = array_push_run(h, pos, Some(Val::Ref(Kind::Obj, o)), args);
            let q = Question {
                op: Op::WriteBack,
                args: seq![Val::Ref(Kind::Obj, o)] + (items + args),
            };
            &&& h.len == pos + 2 ==> r == halted::<Val>(Halt::Ask(q), pos + 2)
            &&& h.len > pos + 2 && !((h.reply)(pos + 2, q) is Throw) ==> r == done(
                Val::Num(count_num((items + args).len())),
                pos + 3,
            )
        }),
        elements(written(s, former, items + args), (items + args).len()) == items + args,
        item(written(s, former, items + args), "length"@) == Some(
            Val::Num(count_num((items + args).len())),
        ),
{
    law_write_back(s, former, items + args, 0, "length"@);
}

} // verus!
