//! The reviver of `JSON.parse`.
use crate::array_iter::data_descriptor;
use crate::array_live::generic_length;
use crate::descriptors::object_define_property_run;
use crate::entries::{keep_listed_keys, listed_keys};
use crate::host::{
    ask_flag, ask_list, ask_value, call, done, get, halted, list1, list2, list3, raised, run_plain,
    run_value, text_value, Host, Interp, Op, Run, Stop,
};
use crate::json::{identity, identity_of, later, room, text_views, texts_in, texts_of, texts_run};
use crate::reflect::{enumerable_names, reflect_define_property_run, says_refused};
use crate::text::{decimal, decimal_text, same_text};
use crate::value::{is_object, object, same, same_value, views, ErrorKind, Kind, Val, Value};
use vstd::prelude::*;

verus! {

/// The source text of a parsed JSON value: of a primitive its text and its value, of an array or
/// an object the sources of its parts.
pub enum JsonSrc {
    Prim(String, Value),
    Arr(Vec<JsonSrc>),
    Obj(Vec<(String, JsonSrc)>),
}

/// The source of an element.
pub open spec fn item_source(snap: Option<&JsonSrc>, i: nat) -> Option<&JsonSrc> {
    match snap {
        Some(JsonSrc::Arr(v)) => if i < v@.len() {
            Some(&v@[i as int])
        } else {
            None
        },
        _ => None,
    }
}

/// The last of the first `n` members with this key.
pub open spec fn last_member(v: Seq<(String, JsonSrc)>, key: Seq<char>, n: nat) -> Option<int>
    decreases n,
{
    if n == 0 {
        None
    } else if v[n - 1].0@ == key {
        Some(n - 1)
    } else {
        last_member(v, key, (n - 1) as nat)
    }
}

/// The source of a member; of members with one key the last counts.
pub open spec fn member_source(snap: Option<&JsonSrc>, key: Seq<char>) -> Option<&JsonSrc> {
    match snap {
        Some(JsonSrc::Obj(v)) => match last_member(v@, key, v@.len()) {
            Some(i) => Some(&v@[i].1),
            None => None,
        },
        _ => None,
    }
}

fn item_source_exec<'a>(snap: Option<&'a JsonSrc>, i: u64) -> (r: Option<&'a JsonSrc>)
    ensures
        r == item_source(snap, i as nat),
{
    match snap {
        Some(JsonSrc::Arr(v)) => if i < v.len() as u64 {
            Some(&v[i as usize])
        } else {
            None
        },
        _ => None,
    }
}

#[verifier::loop_isolation(false)]
fn member_source_exec<'a>(snap: Option<&'a JsonSrc>, key: &str) -> (r: Option<&'a JsonSrc>)
    ensures
        r == member_source(snap, key@),
{
    match snap {
        Some(JsonSrc::Obj(v)) => {
            let mut n: usize = v.len();
            while n > 0
                invariant
                    n <= v@.len(),
                    last_member(v@, key@, v@.len()) == last_member(v@, key@, n as nat),
                decreases n,
            {
                if same_text(v[n - 1].0.as_str(), key) {
                    return Some(&v[n - 1].1);
                }
                n = n - 1;
            }
            None
        },
        _ => None,
    }
}

/// The keys of an object that its reviver visits.
pub open spec fn revived_keys(h: Host, pos: nat, v: Val) -> Run<Seq<Seq<char>>> {
    match v {
        Val::Ref(Kind::Instance, _) => {
            let l = ask_list(h, pos, Op::StoredKeys, seq![v]);
            match l.out {
                Err(e) => halted(e, l.pos),
                Ok(ks) => done(listed_keys(texts_in(ks), texts_in(ks).len(), false), l.pos),
            }
        },
        _ => {
            let l = enumerable_names(h, pos, v);
            match l.out {
                Err(e) => halted(e, l.pos),
                Ok(ks) => done(texts_in(ks), l.pos),
            }
        },
    }
}

/// CreateDataProperty of a revived part: a refusal is no error, what a trap throws is.
#[verifier::opaque]
pub open spec fn define_revived(h: Host, pos: nat, target: Val, key: Seq<char>, v: Val) -> Run<()> {
    let d = ask_value(h, pos, Op::NewObject, data_descriptor(v));
    match d.out {
        Err(e) => halted(e, d.pos),
        Ok(desc) => {
            let r = reflect_define_property_run(
                h,
                d.pos,
                None,
                seq![target, Val::Str(key), desc],
            );
            match r.out {
                Err(e) => halted(e, r.pos),
                Ok(_) => done((), r.pos),
            }
        },
    }
}

/// Puts a revived part back: undefined deletes it, anything else is defined as an own property,
/// and neither minds a refusal.
pub open spec fn put_revived(h: Host, pos: nat, o: Val, key: Seq<char>, v: Val) -> Run<()> {
    if v == Val::Undefined {
        let d = ask_value(h, pos, Op::Delete, seq![o, Val::Str(key)]);
        match d.out {
            Err(e) => halted(e, d.pos),
            Ok(_) => done((), d.pos),
        }
    } else {
        define_revived(h, pos, o, key, v)
    }
}

/// The fields of the context object: the source text of a primitive that is still what was parsed.
pub open spec fn revive_context(v: Val, snap: Option<&JsonSrc>) -> Seq<Val> {
    if identity(v) is Some {
        Seq::empty()
    } else {
        match snap {
            Some(JsonSrc::Prim(raw, parsed)) => if same(v, parsed@) {
                seq![Val::Str("source"@), Val::Str(raw@)]
            } else {
                Seq::empty()
            },
            _ => Seq::empty(),
        }
    }
}

/// The reviver applied to `holder[name]`, parts first.
pub open spec fn revived(
    h: Host,
    pos: nat,
    holder: Val,
    name: Seq<char>,
    reviver: Val,
    snap: Option<&JsonSrc>,
) -> Run<Val>
    decreases room(h, pos), 1nat, 0nat,
{
    let g = get(h, pos, holder, name);
    match g.out {
        Err(e) => halted(e, g.pos),
        Ok(v) => {
            let p = if !object(v) {
                done((), g.pos)
            } else {
                let a = ask_flag(h, g.pos, Op::IsArray, seq![v]);
                match a.out {
                    Err(e) => halted(e, a.pos),
                    Ok(true) => {
                        let l = generic_length(h, a.pos, v);
                        match l.out {
                            Err(e) => halted(e, l.pos),
                            Ok(n) => revived_items(h, l.pos, v, reviver, snap, 0, n),
                        }
                    },
                    Ok(false) => {
                        let k = revived_keys(h, a.pos, v);
                        match k.out {
                            Err(e) => halted(e, k.pos),
                            Ok(keys) => revived_members(
                                h,
                                later(a.pos, k.pos),
                                v,
                                reviver,
                                snap,
                                keys,
                                0,
                            ),
                        }
                    },
                }
            };
            match p.out {
                Err(e) => halted(e, p.pos),
                Ok(_) => {
                    let c = ask_value(h, p.pos, Op::NewObject, revive_context(v, snap));
                    match c.out {
                        Err(e) => halted(e, c.pos),
                        Ok(ctx) => call(
                            h,
                            c.pos,
                            reviver,
                            Some(holder),
                            seq![Val::Str(name), v, ctx],
                        ),
                    }
                },
            }
        },
    }
}

/// The elements from `k` on.
pub open spec fn revived_items(
    h: Host,
    pos: nat,
    o: Val,
    reviver: Val,
    snap: Option<&JsonSrc>,
    k: nat,
    n: nat,
) -> Run<()>
    decreases room(h, pos), 2nat, n - k,
{
    if k >= n {
        done((), pos)
    } else {
        let r = revived(h, pos, o, decimal(k), reviver, item_source(snap, k));
        match r.out {
            Err(e) => halted(e, r.pos),
            Ok(v) => {
                let p = put_revived(h, later(pos, r.pos), o, decimal(k), v);
                match p.out {
                    Err(e) => halted(e, p.pos),
                    Ok(_) => revived_items(h, later(pos, p.pos), o, reviver, snap, k + 1, n),
                }
            },
        }
    }
}

/// The members under the keys from `j` on.
pub open spec fn revived_members(
    h: Host,
    pos: nat,
    o: Val,
    reviver: Val,
    snap: Option<&JsonSrc>,
    keys: Seq<Seq<char>>,
    j: int,
) -> Run<()>
    decreases room(h, pos), 2nat, keys.len() - j,
{
    if !(0 <= j < keys.len()) {
        done((), pos)
    } else {
        let r = revived(h, pos, o, keys[j], reviver, member_source(snap, keys[j]));
        match r.out {
            Err(e) => halted(e, r.pos),
            Ok(v) => {
                let p = put_revived(h, later(pos, r.pos), o, keys[j], v);
                match p.out {
                    Err(e) => halted(e, p.pos),
                    Ok(_) => revived_members(h, later(pos, p.pos), o, reviver, snap, keys, j + 1),
                }
            },
        }
    }
}

impl Interp {
    fn revived_keys(&mut self, v: &Value) -> (r: Result<Vec<String>, Stop>)
        requires
            old(self).wf(),
        ensures
            final(self).follows(*old(self)),
            texts_run(r, *final(self)) == revived_keys(old(self).host(), old(self).pos as nat, v@),
    {
        match v {
            Value::Ref(Kind::Instance, _) => {
                let l: Vec<Value> = self.ask_list(Op::StoredKeys, list1(v.clone()))?;
                Ok(keep_listed_keys(&texts_of(&l), false))
            },
            _ => {
                let l: Vec<Value> = self.enumerable_names(v)?;
                Ok(texts_of(&l))
            },
        }
    }

    /// CreateDataProperty of a revived part; a refusal is no error.
    pub fn json_define_revived(&mut self, target: &Value, key: &str, v: Value) -> (r: Result<(), Stop>)
        requires
            old(self).wf(),
        ensures
            final(self).follows(*old(self)),
            run_plain(r, *final(self)) == define_revived(
                old(self).host(),
                old(self).pos as nat,
                target@,
                key@,
                v@,
            ),
    {
        proof {
            reveal(define_revived);
        }
        let desc: Value = self.new_data_descriptor(v)?;
        let args: Vec<Value> = list3(target.clone(), text_value(key), desc);
        self.reflect_define_property(&None, &args)?;
        Ok(())
    }

    fn put_revived(&mut self, o: &Value, key: &str, v: Value) -> (r: Result<(), Stop>)
        requires
            old(self).wf(),
        ensures
            final(self).follows(*old(self)),
            run_plain(r, *final(self)) == put_revived(
                old(self).host(),
                old(self).pos as nat,
                o@,
                key@,
                v@,
            ),
    {
        match v {
            Value::Undefined => {
                self.ask_value(Op::Delete, list2(o.clone(), text_value(key)))?;
                Ok(())
            },
            v => self.json_define_revived(o, key, v),
        }
    }

    /// InternalizeJSONProperty: the reviver applied to `holder[name]`, parts first.
    pub fn json_revive(
        &mut self,
        holder: &Value,
        name: &str,
        reviver: &Value,
        snap: Option<&JsonSrc>,
    ) -> (r: Result<Value, Stop>)
        requires
            old(self).wf(),
        ensures
            final(self).follows(*old(self)),
            run_value(r, *final(self)) == revived(
                old(self).host(),
                old(self).pos as nat,
                holder@,
                name@,
                reviver@,
                snap,
            ),
        decreases room(old(self).host(), old(self).pos as nat), 1nat, 0nat,
    {
        let v: Value = self.member_get(holder, name)?;
        if is_object(&v) {
            if self.ask_flag(Op::IsArray, list1(v.clone()))? {
                let n: u64 = self.generic_length(&v)?;
                self.revived_items(&v, reviver, snap, n)?;
            } else {
                let keys: Vec<String> = self.revived_keys(&v)?;
                self.revived_members(&v, reviver, snap, &keys)?;
            }
        }
        let mut fields: Vec<Value> = Vec::new();
        assert(views(fields@) =~= Seq::<Val>::empty());
        if identity_of(&v).is_none() {
            match snap {
                Some(JsonSrc::Prim(raw, parsed)) => {
                    if same_value(&v, parsed) {
                        fields = list2(text_value("source"), Value::Str(raw.clone()));
                    }
                },
                _ => {},
            }
        }
        let ctx: Value = self.ask_value(Op::NewObject, fields)?;
        self.call_value(
            reviver.clone(),
            Some(holder.clone()),
            list3(text_value(name), v, ctx),
        )
    }

    #[verifier::loop_isolation(false)]
    fn revived_items(&mut self, o: &Value, reviver: &Value, snap: Option<&JsonSrc>, n: u64) -> (r:
        Result<(), Stop>)
        requires
            old(self).wf(),
        ensures
            final(self).follows(*old(self)),
            run_plain(r, *final(self)) == revived_items(
                old(self).host(),
                old(self).pos as nat,
                o@,
                reviver@,
                snap,
                0,
                n as nat,
            ),
        decreases room(old(self).host(), old(self).pos as nat), 2nat, n,
    {
        let ghost goal = revived_items(
            self.host(),
            self.pos as nat,
            o@,
            reviver@,
            snap,
            0,
            n as nat,
        );
        let mut k: u64 = 0;
        while k < n
            invariant
                k <= n,
                self.follows(*old(self)),
                goal == revived_items(
                    self.host(),
                    self.pos as nat,
                    o@,
                    reviver@,
                    snap,
                    k as nat,
                    n as nat,
                ),
            decreases n - k,
        {
            let key: String = decimal_text(k);
            let v: Value = self.json_revive(o, key.as_str(), reviver, item_source_exec(snap, k))?;
            self.put_revived(o, key.as_str(), v)?;
            k = k + 1;
        }
        Ok(())
    }

    #[verifier::loop_isolation(false)]
    fn revived_members(
        &mut self,
        o: &Value,
        reviver: &Value,
        snap: Option<&JsonSrc>,
        keys: &Vec<String>,
    ) -> (r: Result<(), Stop>)
        requires
            old(self).wf(),
        ensures
            final(self).follows(*old(self)),
            run_plain(r, *final(self)) == revived_members(
                old(self).host(),
                old(self).pos as nat,
                o@,
                reviver@,
                snap,
                text_views(keys@),
                0,
            ),
        decreases room(old(self).host(), old(self).pos as nat), 2nat, keys@.len(),
    {
        let ghost goal = revived_members(
            self.host(),
            self.pos as nat,
            o@,
            reviver@,
            snap,
            text_views(keys@),
            0,
        );
        let mut j: usize = 0;
        while j < keys.len()
            invariant
                j <= keys@.len(),
                self.follows(*old(self)),
                goal == revived_members(
                    self.host(),
                    self.pos as nat,
                    o@,
                    reviver@,
                    snap,
                    text_views(keys@),
                    j as int,
                ),
            decreases keys@.len() - j,
        {
            assert(text_views(keys@)[j as int] == keys@[j as int]@);
            let v: Value = self.json_revive(
                o,
                keys[j].as_str(),
                reviver,
                member_source_exec(snap, keys[j].as_str()),
            )?;
            self.put_revived(o, keys[j].as_str(), v)?;
            j = j + 1;
        }
        Ok(())
    }
}

/// A revived part that its holder does not take is left out without an error, whatever the reason
/// for the refusal; any other error of the definition is handed on.
#[verifier::rlimit(60)]
#[verifier::spinoff_prover]
pub proof fn law_refused_part_is_ignored(
    h: Host,
    pos: nat,
    target: Val,
    key: Seq<char>,
    v: Val,
    desc: Val,
    message: Seq<char>,
    at: nat,
)
    requires
        object(target),
        ask_value(h, pos, Op::NewObject, data_descriptor(v)) == done(desc, pos + 1),
        object_define_property_run(h, pos + 1, None, seq![target, Val::Str(key), desc]) == raised::<
            Val,
        >(ErrorKind::TypeError, message, at),
    ensures
        says_refused(message) ==> define_revived(h, pos, target, key, v) == done((), at),
        !says_refused(message) ==> define_revived(h, pos, target, key, v) == raised::<()>(
            ErrorKind::TypeError,
            message,
            at,
        ),
{
    reveal(define_revived);
}

} // verus!
