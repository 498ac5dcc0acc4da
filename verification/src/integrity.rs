//! Freezing and sealing: what becomes of an object's own properties.
use crate::descriptors::{own_prop, set_attributes, Bits};
use crate::entries::{is_private_name, private_name};
use crate::host::{ask_list, chain, done, halted, list1, run_plain, Host, Interp, Op, Run, Stop};
use crate::json::{text_views, texts_in, texts_of};
use crate::property::{internal_key, is_internal_key, tighten, tightened, Integrity, Prop, PropV};
use crate::reflect::{indices_of_array, names_run};
use crate::symbols::{is_symbol_key, symbol_key};
use crate::value::{Kind, Val, Value};
use vstd::prelude::*;

verus! {

/// The flags of a property.
pub open spec fn flags_of(p: PropV) -> Bits {
    Bits { writable: p.writable, enumerable: p.enumerable, configurable: p.configurable }
}

/// Tightens one property.
pub open spec fn tighten_key(h: Host, pos: nat, v: Val, key: Seq<char>, level: Integrity) -> Run<()> {
    chain(
        own_prop(h, pos, v, key),
        |o: Option<PropV>, p: nat|
            match o {
                None => done((), p),
                Some(f) => set_attributes(h, p, v, key, flags_of(tightened(f, level))),
            },
    )
}

/// Tightens the properties under the keys from the `i`-th on.
pub open spec fn tighten_keys(
    h: Host,
    pos: nat,
    v: Val,
    keys: Seq<Seq<char>>,
    i: int,
    level: Integrity,
) -> Run<()>
    decreases keys.len() - i,
{
    if !(0 <= i < keys.len()) {
        done((), pos)
    } else {
        let t = tighten_key(h, pos, v, keys[i], level);
        match t.out {
            Err(e) => halted(e, t.pos),
            Ok(_) => tighten_keys(h, t.pos, v, keys, i + 1, level),
        }
    }
}

/// Whether a stored key is that of an own property: the engine's own keys are not, but for those of
/// symbols, nor are private names just where `private` is not set.
pub open spec fn property_key(key: Seq<char>, private: bool) -> bool {
    (!internal_key(key) || symbol_key(key)) && (private || !private_name(key))
}

/// Those of the first `n` keys that are keys of own properties, in order.
pub open spec fn property_keys(keys: Seq<Seq<char>>, n: nat, private: bool) -> Seq<Seq<char>>
    decreases n,
{
    if n == 0 || n > keys.len() {
        Seq::empty()
    } else if property_key(keys[n - 1], private) {
        property_keys(keys, (n - 1) as nat, private).push(keys[n - 1])
    } else {
        property_keys(keys, (n - 1) as nat, private)
    }
}

/// The keys of the properties that are tightened: what an object, an instance or a function stores
/// as its own, and of an array those of its elements and of what else it holds.
pub open spec fn keys_to_tighten(h: Host, pos: nat, v: Val) -> Run<Seq<Seq<char>>> {
    match v {
        Val::Ref(Kind::Arr, _) => chain(
            indices_of_array(h, pos, v),
            |indices: Seq<Seq<char>>, p: nat|
                chain(
                    ask_list(h, p, Op::ArrayProps, seq![v]),
                    |props: Seq<Val>, q: nat| done(indices + texts_in(props), q),
                ),
        ),
        Val::Ref(k, _) => if stores_properties(k) {
            chain(
                ask_list(h, pos, Op::StoredKeys, seq![v]),
                |l: Seq<Val>, p: nat|
                    done(
                        property_keys(texts_in(l), texts_in(l).len(), k != Kind::Instance),
                        p,
                    ),
            )
        } else {
            done(Seq::empty(), pos)
        },
        _ => done(Seq::empty(), pos),
    }
}

/// What keeps properties with flags of their own.
pub open spec fn stores_properties(k: Kind) -> bool {
    k == Kind::Obj || k == Kind::Instance || k == Kind::Fn || k == Kind::Bound
}

fn keep_property_keys(keys: &Vec<String>, private: bool) -> (r: Vec<String>)
    ensures
        text_views(r@) == property_keys(text_views(keys@), keys@.len(), private),
{
    let ghost all = text_views(keys@);
    let mut out: Vec<String> = Vec::new();
    let mut i: usize = 0;
    assert(text_views(out@) =~= Seq::<Seq<char>>::empty());
    while i < keys.len()
        invariant
            i <= keys@.len(),
            all == text_views(keys@),
            text_views(out@) == property_keys(all, i as nat, private),
        decreases keys@.len() - i,
    {
        let ghost before = text_views(out@);
        let k: &str = keys[i].as_str();
        assert(all[i as int] == k@);
        if (!is_internal_key(k) || is_symbol_key(k)) && (private || !is_private_name(k)) {
            out.push(keys[i].clone());
            assert(text_views(out@) =~= before.push(all[i as int]));
        }
        i = i + 1;
    }
    out
}

/// What freezing and sealing do to the own properties of an object; closing it leaves them alone.
pub open spec fn tighten_properties(h: Host, pos: nat, v: Val, level: Integrity) -> Run<()> {
    if level is Closed {
        done((), pos)
    } else {
        chain(
            keys_to_tighten(h, pos, v),
            |keys: Seq<Seq<char>>, p: nat| tighten_keys(h, p, v, keys, 0, level),
        )
    }
}

fn append_texts(out: &mut Vec<String>, more: &Vec<String>)
    ensures
        text_views(final(out)@) == text_views(old(out)@) + text_views(more@),
{
    let ghost start = text_views(out@);
    let ghost all = text_views(more@);
    let mut i: usize = 0;
    assert(text_views(out@) =~= start + all.take(0));
    while i < more.len()
        invariant
            i <= more@.len(),
            all == text_views(more@),
            text_views(out@) == start + all.take(i as int),
        decreases more@.len() - i,
    {
        let ghost before = text_views(out@);
        out.push(more[i].clone());
        assert(text_views(out@) =~= before.push(all[i as int]));
        i = i + 1;
        assert(text_views(out@) =~= start + all.take(i as int));
    }
    assert(all.take(all.len() as int) =~= all);
}

impl Interp {
    fn tighten_key(&mut self, v: &Value, key: &str, level: Integrity) -> (r: Result<(), Stop>)
        requires
            old(self).wf(),
        ensures
            final(self).follows(*old(self)),
            run_plain(r, *final(self)) == tighten_key(
                old(self).host(),
                old(self).pos as nat,
                v@,
                key@,
                level,
            ),
    {
        match self.own_prop(v, key)? {
            None => Ok(()),
            Some(f) => {
                let mut t: Prop = f;
                tighten(&mut t, level);
                let b: Bits = Bits {
                    writable: t.writable,
                    enumerable: t.enumerable,
                    configurable: t.configurable,
                };
                self.set_attributes(v, key, b)
            },
        }
    }

    #[verifier::loop_isolation(false)]
    fn tighten_keys(&mut self, v: &Value, keys: &Vec<String>, level: Integrity) -> (r: Result<(), Stop>)
        requires
            old(self).wf(),
        ensures
            final(self).follows(*old(self)),
            run_plain(r, *final(self)) == tighten_keys(
                old(self).host(),
                old(self).pos as nat,
                v@,
                text_views(keys@),
                0,
                level,
            ),
    {
        let ghost all = text_views(keys@);
        let ghost goal = tighten_keys(self.host(), self.pos as nat, v@, all, 0, level);
        let mut i: usize = 0;
        while i < keys.len()
            invariant
                i <= keys@.len(),
                self.follows(*old(self)),
                goal == tighten_keys(self.host(), self.pos as nat, v@, all, i as int, level),
            decreases keys@.len() - i,
        {
            assert(all[i as int] == keys@[i as int]@);
            self.tighten_key(v, keys[i].as_str(), level)?;
            i = i + 1;
        }
        Ok(())
    }

    fn keys_to_tighten(&mut self, v: &Value) -> (r: Result<Vec<String>, Stop>)
        requires
            old(self).wf(),
        ensures
            final(self).follows(*old(self)),
            names_run(r, *final(self)) == keys_to_tighten(
                old(self).host(),
                old(self).pos as nat,
                v@,
            ),
    {
        match v {
            Value::Ref(Kind::Arr, _) => {
                let mut keys: Vec<String> = self.indices_of_array(v)?;
                let props: Vec<Value> = self.ask_list(Op::ArrayProps, list1(v.clone()))?;
                append_texts(&mut keys, &texts_of(&props));
                Ok(keys)
            },
            Value::Ref(Kind::Obj | Kind::Instance | Kind::Fn | Kind::Bound, _) => {
                let l: Vec<Value> = self.ask_list(Op::StoredKeys, list1(v.clone()))?;
                let private: bool = !matches!(v, Value::Ref(Kind::Instance, _));
                Ok(keep_property_keys(&texts_of(&l), private))
            },
            _ => {
                let none: Vec<String> = Vec::new();
                assert(text_views(none@) =~= Seq::<Seq<char>>::empty());
                Ok(none)
            },
        }
    }

    /// Freezes or seals the own properties of an object.
    pub fn tighten_properties(&mut self, v: &Value, level: Integrity) -> (r: Result<(), Stop>)
        requires
            old(self).wf(),
        ensures
            final(self).follows(*old(self)),
            run_plain(r, *final(self)) == tighten_properties(
                old(self).host(),
                old(self).pos as nat,
                v@,
                level,
            ),
    {
        if matches!(level, Integrity::Closed) {
            return Ok(());
        }
        let keys: Vec<String> = self.keys_to_tighten(v)?;
        self.tighten_keys(v, &keys, level)
    }
}

/// A sealed property cannot be reconfigured, a frozen value cannot be changed either, and to do so
/// again changes nothing; the value itself and whether it is listed stay.
pub proof fn law_tightened_property(p: PropV, level: Integrity)
    ensures
        !(level is Closed) ==> !tightened(p, level).configurable,
        level is Frozen && p.slot is Data ==> !tightened(p, level).writable,
        level is Sealed ==> tightened(p, level).writable == p.writable,
        tightened(p, level).slot == p.slot,
        tightened(p, level).enumerable == p.enumerable,
        tightened(tightened(p, level), level) == tightened(p, level),
{
}

} // verus!
