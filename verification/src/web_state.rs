//! What a page keeps besides its document: the storage, the timers, and lists of named values.
use crate::host::text_in;
use crate::number::{count_of_num, num_to_count, Num};
use crate::text::same_text;
use crate::value::{views, Val, Value};
use vstd::prelude::*;

verus! {

/// A named text.
pub struct Pair {
    pub name: String,
    pub value: String,
}

/// The mathematical counterpart of `Pair`.
#[verifier::ext_equal]
pub struct PairV {
    pub name: Seq<char>,
    pub value: Seq<char>,
}

impl View for Pair {
    type V = PairV;

    open spec fn view(&self) -> PairV {
        PairV { name: self.name@, value: self.value@ }
    }
}

pub open spec fn pair_views(s: Seq<Pair>) -> Seq<PairV> {
    Seq::new(s.len(), |i: int| s[i]@)
}

/// The place of the first pair of a name, from `i` on; the number of pairs where there is none.
pub open spec fn place_of(s: Seq<PairV>, name: Seq<char>, i: int) -> int
    decreases s.len() - i,
{
    if !(0 <= i < s.len()) {
        s.len() as int
    } else if s[i].name == name {
        i
    } else {
        place_of(s, name, i + 1)
    }
}

/// The first value of a name.
pub open spec fn first_value(s: Seq<PairV>, name: Seq<char>) -> Option<Seq<char>> {
    let i = place_of(s, name, 0);
    if 0 <= i < s.len() {
        Some(s[i].value)
    } else {
        None
    }
}

/// All values of a name, in order.
pub open spec fn values_of(s: Seq<PairV>, name: Seq<char>) -> Seq<Seq<char>>
    decreases s.len(),
{
    if s.len() == 0 {
        Seq::empty()
    } else if s.last().name == name {
        values_of(s.drop_last(), name).push(s.last().value)
    } else {
        values_of(s.drop_last(), name)
    }
}

/// The pairs of other names, in order.
pub open spec fn others(s: Seq<PairV>, name: Seq<char>) -> Seq<PairV>
    decreases s.len(),
{
    if s.len() == 0 {
        Seq::empty()
    } else if s.last().name == name {
        others(s.drop_last(), name)
    } else {
        others(s.drop_last(), name).push(s.last())
    }
}

/// The pairs with one name given one value: in the place of the first pair of the name, or at the
/// end.
pub open spec fn with_value(s: Seq<PairV>, name: Seq<char>, value: Seq<char>) -> Seq<PairV> {
    let i = place_of(s, name, 0);
    if 0 <= i < s.len() {
        s.update(i, PairV { name, value })
    } else {
        s.push(PairV { name, value })
    }
}

proof fn lemma_place(s: Seq<PairV>, name: Seq<char>, i: int)
    requires
        0 <= i <= s.len(),
    ensures
        i <= place_of(s, name, i) <= s.len(),
        place_of(s, name, i) < s.len() ==> s[place_of(s, name, i)].name == name,
        forall|j: int| i <= j < place_of(s, name, i) ==> (#[trigger] s[j]).name != name,
    decreases s.len() - i,
{
    if i < s.len() && s[i].name != name {
        lemma_place(s, name, i + 1);
    }
}

proof fn lemma_place_is(s: Seq<PairV>, name: Seq<char>, i: int, at: int)
    requires
        0 <= i <= at <= s.len(),
        at < s.len() ==> s[at].name == name,
        forall|j: int| i <= j < at ==> (#[trigger] s[j]).name != name,
    ensures
        place_of(s, name, i) == at,
    decreases at - i,
{
    if i < at {
        assert(s[i].name != name);
        lemma_place_is(s, name, i + 1, at);
    }
}

/// The place of the first pair of a name.
pub fn find_pair(s: &Vec<Pair>, name: &str) -> (r: usize)
    ensures
        r as int == place_of(pair_views(s@), name@, 0),
        r <= s@.len(),
{
    let ghost all = pair_views(s@);
    let mut i: usize = 0;
    while i < s.len()
        invariant
            i <= s@.len(),
            all == pair_views(s@),
            forall|j: int| 0 <= j < i ==> (#[trigger] all[j]).name != name@,
        decreases s@.len() - i,
    {
        assert(all[i as int] == s@[i as int]@);
        if same_text(s[i].name.as_str(), name) {
            proof {
                lemma_place_is(all, name@, 0, i as int);
            }
            return i;
        }
        i = i + 1;
    }
    proof {
        lemma_place_is(all, name@, 0, i as int);
    }
    i
}

/// The first value of a name.
pub fn get_first(s: &Vec<Pair>, name: &str) -> (r: Option<String>)
    ensures
        match r {
            Some(v) => first_value(pair_views(s@), name@) == Some(v@),
            None => first_value(pair_views(s@), name@) is None,
        },
{
    let i: usize = find_pair(s, name);
    if i < s.len() {
        Some(s[i].value.clone())
    } else {
        None
    }
}

/// All values of a name, in order.
pub fn get_all(s: &Vec<Pair>, name: &str) -> (r: Vec<Value>)
    ensures
        views(r@) == texts_as_values(values_of(pair_views(s@), name@)),
{
    let ghost all = pair_views(s@);
    let mut out: Vec<Value> = Vec::new();
    let mut i: usize = 0;
    assert(all.take(0) =~= Seq::<PairV>::empty());
    assert(views(out@) =~= texts_as_values(values_of(all.take(0), name@)));
    while i < s.len()
        invariant
            i <= s@.len(),
            all == pair_views(s@),
            views(out@) == texts_as_values(values_of(all.take(i as int), name@)),
        decreases s@.len() - i,
    {
        let ghost before = views(out@);
        let ghost had = values_of(all.take(i as int), name@);
        assert(all.take(i + 1).drop_last() =~= all.take(i as int));
        assert(all.take(i + 1).last() == s@[i as int]@);
        if same_text(s[i].name.as_str(), name) {
            out.push(Value::Str(s[i].value.clone()));
            assert(views(out@) =~= before.push(Val::Str(s@[i as int].value@)));
            assert(texts_as_values(had.push(s@[i as int].value@)) =~= texts_as_values(had).push(
                Val::Str(s@[i as int].value@),
            ));
        }
        i = i + 1;
    }
    assert(all.take(i as int) =~= all);
    out
}

pub open spec fn texts_as_values(s: Seq<Seq<char>>) -> Seq<Val> {
    Seq::new(s.len(), |i: int| Val::Str(s[i]))
}

/// The pairs of other names, in order.
pub fn without_name(s: Vec<Pair>, name: &str) -> (r: Vec<Pair>)
    ensures
        pair_views(r@) == others(pair_views(s@), name@),
{
    let ghost all = pair_views(s@);
    let mut out: Vec<Pair> = Vec::new();
    let mut i: usize = 0;
    assert(all.take(0) =~= Seq::<PairV>::empty());
    assert(pair_views(out@) =~= others(all.take(0), name@));
    while i < s.len()
        invariant
            i <= s@.len(),
            all == pair_views(s@),
            pair_views(out@) == others(all.take(i as int), name@),
        decreases s@.len() - i,
    {
        let ghost before = pair_views(out@);
        assert(all.take(i + 1).drop_last() =~= all.take(i as int));
        assert(all.take(i + 1).last() == s@[i as int]@);
        if !same_text(s[i].name.as_str(), name) {
            out.push(Pair { name: s[i].name.clone(), value: s[i].value.clone() });
            assert(pair_views(out@) =~= before.push(s@[i as int]@));
        }
        i = i + 1;
    }
    assert(all.take(i as int) =~= all);
    out
}

/// The pairs that a list of alternating names and values stands for.
pub open spec fn pairs_in(l: Seq<Val>) -> Seq<PairV> {
    Seq::new(
        l.len() / 2,
        |i: int| PairV { name: text_in(l[2 * i]), value: text_in(l[2 * i + 1]) },
    )
}

/// A text that a value is; empty for anything else.
pub fn text_of_value(v: &Value) -> (r: String)
    ensures
        r@ == text_in(v@),
{
    match v {
        Value::Str(s) => s.clone(),
        _ => {
            let s: String = String::new();
            assert(s@ =~= Seq::<char>::empty());
            s
        },
    }
}

pub fn read_pairs(l: &Vec<Value>) -> (r: Vec<Pair>)
    ensures
        pair_views(r@) == pairs_in(views(l@)),
{
    let ghost all = views(l@);
    let mut out: Vec<Pair> = Vec::new();
    let size: usize = l.len();
    let n: usize = size / 2;
    let mut i: usize = 0;
    while i < n
        invariant
            i <= n,
            size == l@.len(),
            n == size / 2,
            all == views(l@),
            pair_views(out@) == pairs_in(all).take(i as int),
        decreases n - i,
    {
        let ghost before = pair_views(out@);
        let p: Pair = Pair { name: text_of_value(&l[2 * i]), value: text_of_value(&l[2 * i + 1]) };
        assert(all[2 * i as int] == l@[2 * i as int]@ && all[2 * i as int + 1] == l@[2 * i as int
            + 1]@);
        out.push(p);
        assert(pair_views(out@) =~= before.push(pairs_in(all)[i as int]));
        i = i + 1;
        assert(pair_views(out@) =~= pairs_in(all).take(i as int));
    }
    assert(pair_views(out@) =~= pairs_in(all));
    out
}

/// The pairs as a list of alternating names and values.
pub open spec fn flat_pairs(s: Seq<PairV>) -> Seq<Val> {
    Seq::new(
        2 * s.len(),
        |i: int|
            if i % 2 == 0 {
                Val::Str(s[i / 2].name)
            } else {
                Val::Str(s[i / 2].value)
            },
    )
}

pub fn write_pairs(s: &Vec<Pair>) -> (r: Vec<Value>)
    ensures
        views(r@) == flat_pairs(pair_views(s@)),
{
    let ghost goal = flat_pairs(pair_views(s@));
    let mut out: Vec<Value> = Vec::new();
    let mut i: usize = 0;
    while i < s.len()
        invariant
            i <= s@.len(),
            goal == flat_pairs(pair_views(s@)),
            views(out@) == goal.take(2 * i),
        decreases s@.len() - i,
    {
        let ghost before = views(out@);
        out.push(Value::Str(s[i].name.clone()));
        assert(views(out@) =~= before.push(goal[2 * i as int]));
        let ghost half = views(out@);
        out.push(Value::Str(s[i].value.clone()));
        assert(views(out@) =~= half.push(goal[2 * i as int + 1]));
        i = i + 1;
        assert(views(out@) =~= goal.take(2 * i));
    }
    assert(views(out@) =~= goal);
    out
}

/// What a page stores under names, in the order in which the names were first used.
pub struct Storage {
    pub items: Vec<Pair>,
}

impl View for Storage {
    type V = Seq<PairV>;

    open spec fn view(&self) -> Seq<PairV> {
        pair_views(self.items@)
    }
}

impl Clone for Pair {
    fn clone(&self) -> (r: Pair)
        ensures
            r@ == self@,
    {
        Pair { name: self.name.clone(), value: self.value.clone() }
    }
}

impl Storage {
    /// Another storage with the same names and values.
    pub fn copy(&self) -> (r: Storage)
        ensures
            r@ == self@,
    {
        let mut items: Vec<Pair> = Vec::new();
        let mut i: usize = 0;
        assert(pair_views(items@) =~= self@.take(0));
        while i < self.items.len()
            invariant
                i <= self.items@.len(),
                self@ == pair_views(self.items@),
                pair_views(items@) == self@.take(i as int),
            decreases self.items@.len() - i,
        {
            let ghost before = pair_views(items@);
            let p: Pair = self.items[i].clone();
            items.push(p);
            assert(pair_views(items@) =~= before.push(p@));
            i = i + 1;
            assert(pair_views(items@) =~= self@.take(i as int));
        }
        assert(self@.take(i as int) =~= self@);
        Storage { items }
    }

    /// The value under a name.
    pub fn get_item(&self, name: &str) -> (r: Option<String>)
        ensures
            match r {
                Some(v) => first_value(self@, name@) == Some(v@),
                None => first_value(self@, name@) is None,
            },
    {
        get_first(&self.items, name)
    }

    pub fn length(&self) -> (r: usize)
        ensures
            r == self@.len(),
    {
        self.items.len()
    }

    /// The name at a place.
    pub fn key(&self, at: Num) -> (r: Option<String>)
        ensures
            match r {
                Some(k) => stored_name(self@, at) == Some(k@),
                None => stored_name(self@, at) is None,
            },
    {
        if !at.is_finite() || (at.is_negative() && !at.is_zero()) {
            return None;
        }
        let i: u64 = num_to_count(at);
        let n: usize = self.items.len();
        if i < n as u64 {
            assert(self@[i as int] == self.items@[i as int]@);
            Some(self.items[i as usize].name.clone())
        } else {
            None
        }
    }

    /// Stores a value under a name.
    pub fn set_item(&mut self, name: &str, value: &str)
        ensures
            final(self)@ == with_value(old(self)@, name@, value@),
    {
        let i: usize = find_pair(&self.items, name);
        let p: Pair = Pair { name: name.to_owned(), value: value.to_owned() };
        let ghost before = self@;
        if i < self.items.len() {
            self.items.set(i, p);
            assert(self@ =~= before.update(i as int, PairV { name: name@, value: value@ }));
        } else {
            self.items.push(p);
            assert(self@ =~= before.push(PairV { name: name@, value: value@ }));
        }
    }

    /// Forgets a name.
    pub fn remove_item(&mut self, name: &str)
        ensures
            final(self)@ == others(old(self)@, name@),
    {
        let mut items: Vec<Pair> = Vec::new();
        items.append(&mut self.items);
        assert(items@ =~= old(self).items@);
        self.items = without_name(items, name);
    }

    /// Forgets everything.
    pub fn clear(&mut self)
        ensures
            final(self)@ == Seq::<PairV>::empty(),
    {
        self.items = Vec::new();
        assert(self@ =~= Seq::<PairV>::empty());
    }
}

/// The name at a place; none where the number is no place.
pub open spec fn stored_name(s: Seq<PairV>, at: Num) -> Option<Seq<char>> {
    if at.finite() && (!at.negative() || at.zero()) && count_of_num(at) < s.len() {
        Some(s[count_of_num(at) as int].name)
    } else {
        None
    }
}

proof fn lemma_others(s: Seq<PairV>, name: Seq<char>)
    ensures
        forall|j: int| 0 <= j < others(s, name).len() ==> (#[trigger] others(s, name)[j]).name != name,
    decreases s.len(),
{
    if s.len() > 0 {
        let init = others(s.drop_last(), name);
        lemma_others(s.drop_last(), name);
        assert forall|j: int| 0 <= j < others(s, name).len() implies (
        #[trigger] others(s, name)[j]).name != name by {
            if j < init.len() {
                assert(others(s, name)[j] == init[j]);
            }
        }
    }
}

proof fn lemma_place_push(s: Seq<PairV>, x: PairV, name: Seq<char>)
    requires
        x.name != name,
    ensures
        place_of(s.push(x), name, 0) == if place_of(s, name, 0) < s.len() {
            place_of(s, name, 0)
        } else {
            (s.len() + 1) as int
        },
{
    lemma_place(s, name, 0);
    let t = s.push(x);
    let at = if place_of(s, name, 0) < s.len() {
        place_of(s, name, 0)
    } else {
        (s.len() + 1) as int
    };
    assert forall|j: int| 0 <= j < at implies (#[trigger] t[j]).name != name by {
        if j < s.len() {
            assert(t[j] == s[j]);
        }
    }
    lemma_place_is(t, name, 0, at);
}

/// One more pair is found first only where none of its name was there.
pub proof fn lemma_first_pushed(s: Seq<PairV>, x: PairV, name: Seq<char>)
    ensures
        first_value(s.push(x), name) == match first_value(s, name) {
            Some(v) => Some(v),
            None => if x.name == name {
                Some(x.value)
            } else {
                None
            },
        },
{
    lemma_place(s, name, 0);
    let t = s.push(x);
    if x.name != name {
        lemma_place_push(s, x, name);
        let at = place_of(s, name, 0);
        if at < s.len() {
            assert(t[at] == s[at]);
        }
    } else {
        let at = place_of(s, name, 0);
        assert forall|j: int| 0 <= j < at implies (#[trigger] t[j]).name != name by {
            assert(t[j] == s[j]);
        }
        assert(t[at].name == name);
        lemma_place_is(t, name, 0, at);
    }
}

/// The names of some pairs, in order.
pub open spec fn pair_names(s: Seq<PairV>) -> Seq<Seq<char>> {
    Seq::new(s.len(), |i: int| s[i].name)
}

/// What is stored under a name is read back under it, and what is under other names stays. The
/// names keep their order: a new one comes last, and no name comes to occur twice.
pub proof fn law_storage_set(s: Seq<PairV>, name: Seq<char>, value: Seq<char>, other: Seq<char>)
    ensures
        pair_names(with_value(s, name, value)) == if pair_names(s).contains(name) {
            pair_names(s)
        } else {
            pair_names(s).push(name)
        },
        pair_names(s).no_duplicates() ==> pair_names(with_value(s, name, value)).no_duplicates(),
        first_value(with_value(s, name, value), name) == Some(value),
        other != name ==> first_value(with_value(s, name, value), other) == first_value(s, other),
        place_of(s, name, 0) < s.len() ==> with_value(s, name, value).len() == s.len(),
{
    let t = with_value(s, name, value);
    let i = place_of(s, name, 0);
    lemma_place(s, name, 0);
    let ns = pair_names(s);
    if i < s.len() {
        assert(ns[i] == name);
        assert(pair_names(t) =~= ns);
    } else {
        assert(!ns.contains(name)) by {
            if ns.contains(name) {
                let j = choose|j: int| 0 <= j < ns.len() && ns[j] == name;
                assert(s[j].name == name);
            }
        }
        assert(pair_names(t) =~= ns.push(name));
    }
    assert forall|j: int| 0 <= j < i implies (#[trigger] t[j]).name != name by {
        assert(t[j] == s[j]);
    }
    lemma_place_is(t, name, 0, i);
    if other != name {
        lemma_place(s, other, 0);
        let k = place_of(s, other, 0);
        if i < s.len() {
            assert forall|j: int| 0 <= j < k implies (#[trigger] t[j]).name != other by {
                if j != i {
                    assert(t[j] == s[j]);
                }
            }
            lemma_place_is(t, other, 0, k);
        } else {
            lemma_place_push(s, PairV { name, value }, other);
        }
    }
}

/// A name that was removed has no value, and what is under other names stays, the names in their
/// order.
pub proof fn law_storage_remove(s: Seq<PairV>, name: Seq<char>, other: Seq<char>)
    ensures
        pair_names(others(s, name)) == pair_names(s).filter(|n: Seq<char>| n != name),
        first_value(others(s, name), name) is None,
        other != name ==> first_value(others(s, name), other) == first_value(s, other),
    decreases s.len(),
{
    let t = others(s, name);
    lemma_others(s, name);
    lemma_place_is(t, name, 0, t.len() as int);
    lemma_names_left(s, name);
    if other != name && s.len() > 0 {
        let init = s.drop_last();
        law_storage_remove(init, name, other);
        assert(init.push(s.last()) =~= s);
        lemma_place(init, other, 0);
        lemma_place(others(init, name), other, 0);
        if s.last().name == other {
            assert(t == others(init, name).push(s.last()));
            lemma_place_last(init, s.last(), other);
            lemma_place_last(others(init, name), s.last(), other);
        } else {
            lemma_place_push(init, s.last(), other);
            if s.last().name != name {
                lemma_place_push(others(init, name), s.last(), other);
            }
        }
    }
}

proof fn lemma_names_left(s: Seq<PairV>, name: Seq<char>)
    ensures
        pair_names(others(s, name)) == pair_names(s).filter(|n: Seq<char>| n != name),
    decreases s.len(),
{
    reveal(Seq::filter);
    let keep = |n: Seq<char>| n != name;
    let ns = pair_names(s);
    if s.len() == 0 {
        assert(pair_names(others(s, name)) =~= ns.filter(keep));
    } else {
        let init = s.drop_last();
        lemma_names_left(init, name);
        assert(ns.drop_last() =~= pair_names(init));
        assert(ns.last() == s.last().name);
        assert(pair_names(others(s, name)) =~= ns.filter(keep));
    }
}

proof fn lemma_place_last(s: Seq<PairV>, x: PairV, name: Seq<char>)
    requires
        x.name == name,
    ensures
        place_of(s.push(x), name, 0) == place_of(s, name, 0),
{
    lemma_place(s, name, 0);
    let t = s.push(x);
    assert forall|j: int| 0 <= j < place_of(s, name, 0) implies (#[trigger] t[j]).name != name by {
        assert(t[j] == s[j]);
    }
    lemma_place_is(t, name, 0, place_of(s, name, 0));
}

/// A timer that is waiting.
pub struct Timer {
    pub id: u64,
    pub callback: Value,
    pub delay: Num,
    pub repeat: bool,
}

/// The mathematical counterpart of `Timer`.
#[verifier::ext_equal]
pub struct TimerV {
    pub id: u64,
    pub callback: Val,
    pub delay: Num,
    pub repeat: bool,
}

impl View for Timer {
    type V = TimerV;

    open spec fn view(&self) -> TimerV {
        TimerV {
            id: self.id,
            callback: self.callback@,
            delay: self.delay,
            repeat: self.repeat,
        }
    }
}

pub open spec fn timer_views(s: Seq<Timer>) -> Seq<TimerV> {
    Seq::new(s.len(), |i: int| s[i]@)
}

/// The timers of a page.
pub struct Timers {
    pub next_id: u64,
    pub waiting: Vec<Timer>,
    pub cleared: Vec<u64>,
}

/// The timers of other numbers, in order.
pub open spec fn other_timers(s: Seq<TimerV>, id: u64) -> Seq<TimerV>
    decreases s.len(),
{
    if s.len() == 0 {
        Seq::empty()
    } else if s.last().id == id {
        other_timers(s.drop_last(), id)
    } else {
        other_timers(s.drop_last(), id).push(s.last())
    }
}

/// The mathematical counterpart of `Timers`.
#[verifier::ext_equal]
pub struct TimersV {
    pub next_id: u64,
    pub waiting: Seq<TimerV>,
    pub cleared: Seq<u64>,
}

impl View for Timers {
    type V = TimersV;

    open spec fn view(&self) -> TimersV {
        TimersV {
            next_id: self.next_id,
            waiting: timer_views(self.waiting@),
            cleared: self.cleared@,
        }
    }
}

/// The timers with one more.
pub open spec fn timer_started(t: TimersV, callback: Val, delay: Num, repeat: bool) -> TimersV {
    TimersV {
        next_id: (t.next_id + 1) as u64,
        waiting: t.waiting.push(TimerV { id: t.next_id, callback, delay, repeat }),
        cleared: t.cleared,
    }
}

/// The timers without one, which is noted as stopped.
pub open spec fn timer_cleared(t: TimersV, id: u64) -> TimersV {
    TimersV {
        next_id: t.next_id,
        waiting: other_timers(t.waiting, id),
        cleared: t.cleared.push(id),
    }
}

impl Timers {
    /// Every timer's number was given out before, and each to one timer.
    pub open spec fn wf(self) -> bool {
        &&& forall|i: int| 0 <= i < self.waiting@.len() ==> (#[trigger] self.waiting@[i]).id < self.next_id
        &&& forall|i: int, j: int|
            0 <= i < j < self.waiting@.len() ==> (#[trigger] self.waiting@[i]).id != (
            #[trigger] self.waiting@[j]).id
    }

    /// Another set of the same timers.
    pub fn copy(&self) -> (r: Timers)
        ensures
            r@ == self@,
            self.wf() ==> r.wf(),
    {
        let mut waiting: Vec<Timer> = Vec::new();
        let mut i: usize = 0;
        while i < self.waiting.len()
            invariant
                i <= self.waiting@.len(),
                waiting@.len() == i,
                forall|j: int| 0 <= j < i ==> (#[trigger] waiting@[j])@ == self.waiting@[j]@,
            decreases self.waiting@.len() - i,
        {
            let t: &Timer = &self.waiting[i];
            waiting.push(
                Timer {
                    id: t.id,
                    callback: t.callback.clone(),
                    delay: t.delay,
                    repeat: t.repeat,
                },
            );
            i = i + 1;
        }
        let mut cleared: Vec<u64> = Vec::new();
        let mut k: usize = 0;
        while k < self.cleared.len()
            invariant
                k <= self.cleared@.len(),
                cleared@ == self.cleared@.take(k as int),
            decreases self.cleared@.len() - k,
        {
            cleared.push(self.cleared[k]);
            k = k + 1;
            assert(cleared@ =~= self.cleared@.take(k as int));
        }
        assert(cleared@ =~= self.cleared@);
        let copied: Timers = Timers { next_id: self.next_id, waiting, cleared };
        assert(timer_views(copied.waiting@) =~= timer_views(self.waiting@));
        assert forall|j: int| 0 <= j < copied.waiting@.len() implies (
        #[trigger] copied.waiting@[j]).id == self.waiting@[j].id by {
            assert(copied.waiting@[j]@ == self.waiting@[j]@);
        }
        copied
    }

    /// Starts a timer and gives its number.
    pub fn start(&mut self, callback: Value, delay: Num, repeat: bool) -> (r: u64)
        requires
            old(self).wf(),
            old(self).next_id < u64::MAX,
        ensures
            final(self).wf(),
            r == old(self).next_id,
            final(self)@ == timer_started(old(self)@, callback@, delay, repeat),
    {
        let id: u64 = self.next_id;
        let ghost before = timer_views(self.waiting@);
        self.next_id = id + 1;
        self.waiting.push(Timer { id, callback, delay, repeat });
        assert(timer_views(self.waiting@) =~= before.push(
            TimerV { id, callback: callback@, delay, repeat },
        ));
        id
    }

    /// Stops a timer, also one that is just running.
    pub fn clear(&mut self, id: u64)
        requires
            old(self).wf(),
        ensures
            final(self).wf(),
            final(self)@ == timer_cleared(old(self)@, id),
    {
        let ghost all = timer_views(self.waiting@);
        let mut rest: Vec<Timer> = Vec::new();
        let mut left: Vec<Timer> = Vec::new();
        rest.append(&mut self.waiting);
        assert(rest@ =~= old(self).waiting@);
        let mut i: usize = 0;
        assert(all.take(0) =~= Seq::<TimerV>::empty());
        assert(timer_views(left@) =~= other_timers(all.take(0), id));
        while i < rest.len()
            invariant
                i <= rest@.len(),
                all == timer_views(rest@),
                rest@ == old(self).waiting@,
                old(self).wf(),
                self.next_id == old(self).next_id,
                self.cleared@ == old(self).cleared@,
                timer_views(left@) == other_timers(all.take(i as int), id),
                forall|j: int|
                    0 <= j < left@.len() ==> (#[trigger] left@[j]).id < self.next_id && exists|k: int|
                        0 <= k < i && (#[trigger] rest@[k]).id == left@[j].id,
                forall|a: int, b: int|
                    0 <= a < b < left@.len() ==> (#[trigger] left@[a]).id != (
                    #[trigger] left@[b]).id,
            decreases rest@.len() - i,
        {
            let ghost before = timer_views(left@);
            assert(all.take(i + 1).drop_last() =~= all.take(i as int));
            assert(all.take(i + 1).last() == rest@[i as int]@);
            if rest[i].id != id {
                let ghost had = left@;
                left.push(
                    Timer {
                        id: rest[i].id,
                        callback: rest[i].callback.clone(),
                        delay: rest[i].delay,
                        repeat: rest[i].repeat,
                    },
                );
                assert(timer_views(left@) =~= before.push(rest@[i as int]@));
                assert forall|a: int, b: int| 0 <= a < b < left@.len() implies (
                #[trigger] left@[a]).id != (#[trigger] left@[b]).id by {
                    if b == had.len() {
                        assert(left@[a] == had[a]);
                        let k = choose|k: int| 0 <= k < i && (#[trigger] rest@[k]).id == had[a].id;
                        assert(rest@[k].id != rest@[i as int].id);
                    } else {
                        assert(left@[a] == had[a] && left@[b] == had[b]);
                    }
                }
                assert forall|j: int| 0 <= j < left@.len() implies (#[trigger] left@[j]).id
                    < self.next_id && exists|k: int|
                    0 <= k < i + 1 && (#[trigger] rest@[k]).id == left@[j].id by {
                    if j < had.len() {
                        assert(left@[j] == had[j]);
                        let k = choose|k: int| 0 <= k < i && (#[trigger] rest@[k]).id == had[j].id;
                        assert(rest@[k].id == left@[j].id);
                    } else {
                        assert(rest@[i as int].id == left@[j].id);
                    }
                }
            }
            i = i + 1;
        }
        assert(all.take(i as int) =~= all);
        self.waiting = left;
        self.cleared.push(id);
    }
}

/// A timer that was cleared waits no longer, and the others wait on.
pub proof fn law_cleared_timer(s: Seq<TimerV>, id: u64, t: TimerV)
    ensures
        other_timers(s, id).contains(t) <==> s.contains(t) && t.id != id,
    decreases s.len(),
{
    if s.len() > 0 {
        let init = s.drop_last();
        law_cleared_timer(init, id, t);
        let r = other_timers(init, id);
        if s.contains(t) {
            let k = choose|k: int| 0 <= k < s.len() && s[k] == t;
            if k < init.len() {
                assert(init[k] == t);
            }
        }
        if init.contains(t) {
            let k = choose|k: int| 0 <= k < init.len() && init[k] == t;
            assert(s[k] == t);
        }
        if s.last().id != id {
            let w = r.push(s.last());
            assert(other_timers(s, id) == w);
            assert(w[r.len() as int] == s.last());
            if r.contains(t) {
                let k = choose|k: int| 0 <= k < r.len() && r[k] == t;
                assert(w[k] == t);
            }
            if w.contains(t) {
                let k = choose|k: int| 0 <= k < w.len() && w[k] == t;
                if k < r.len() {
                    assert(r[k] == t);
                }
            }
        }
        assert(s[s.len() - 1] == s.last());
    }
}

} // verus!
