use builtins::host::{Ask, Exception, Interp, Op, Reply, Stop};
use builtins::number::Num;
use builtins::property::{
    describe, is_internal_key, is_redefinable, validate_and_apply, Desc, Integrity, Prop,
    PropertyMap, Refusal, Slot,
};
use builtins::value::{ErrorKind, Kind, Value};

// A small engine: it answers what a built-in asks until the built-in has finished.
struct Engine {
    heap: Vec<Thing>,
    functions: Vec<fn(&mut Engine, Option<Value>, Vec<Value>) -> Result<Value, u64>>,
    console: Vec<String>,
    asked: Vec<Op>,
    extra: fn(&mut Engine, &Ask) -> Option<Reply>,
}

fn nothing_more(_: &mut Engine, _: &Ask) -> Option<Reply> {
    None
}

struct Thing {
    slots: Vec<(String, Value)>,
    items: Vec<Value>,
    holes: Vec<usize>,
}

fn num(x: f64) -> Value {
    Value::Num(Num { bits: x.to_bits() })
}

fn text(s: &str) -> Value {
    Value::Str(s.to_string())
}

fn show(v: &Value) -> String {
    match v {
        Value::Undefined => "undefined".to_string(),
        Value::Null => "null".to_string(),
        Value::Bool(b) => b.to_string(),
        Value::Num(n) => {
            let x = f64::from_bits(n.bits);
            if x == 0.0 { "0".to_string() } else { x.to_string() }
        },
        Value::Str(s) => s.clone(),
        Value::BigInt(s) => s.clone(),
        Value::Symbol(d) => format!("Symbol({})", d.desc.clone().unwrap_or_default()),
        other => format!("{:?}", other),
    }
}

fn number(v: &Value) -> f64 {
    match v {
        Value::Num(n) => f64::from_bits(n.bits),
        Value::Str(s) => if s.is_empty() { 0.0 } else { s.parse().unwrap_or(f64::NAN) },
        Value::Bool(b) => if *b { 1.0 } else { 0.0 },
        Value::Null => 0.0,
        _ => f64::NAN,
    }
}

fn index(v: &Value) -> usize {
    match v {
        Value::Ref(_, i) => *i as usize,
        other => panic!("no handle: {:?}", other),
    }
}

fn flag(b: bool) -> Reply {
    Reply::Value(Value::Bool(b))
}

impl Engine {
    fn new() -> Engine {
        Engine {
            heap: Vec::new(),
            functions: Vec::new(),
            console: Vec::new(),
            asked: Vec::new(),
            extra: nothing_more,
        }
    }

    fn object(&mut self, fields: &[(&str, Value)]) -> Value {
        let slots = fields.iter().map(|(k, v)| (k.to_string(), v.clone())).collect();
        self.heap.push(Thing { slots, items: Vec::new(), holes: Vec::new() });
        Value::Ref(Kind::Obj, (self.heap.len() - 1) as u64)
    }

    fn array(&mut self, items: Vec<Value>) -> Value {
        self.heap.push(Thing { slots: Vec::new(), items, holes: Vec::new() });
        Value::Ref(Kind::Arr, (self.heap.len() - 1) as u64)
    }

    fn function(
        &mut self,
        f: fn(&mut Engine, Option<Value>, Vec<Value>) -> Result<Value, u64>,
    ) -> Value {
        self.functions.push(f);
        self.heap.push(Thing { slots: Vec::new(), items: Vec::new(), holes: Vec::new() });
        Value::Ref(Kind::Fn, (self.functions.len() - 1) as u64)
    }

    fn slot(&self, o: &Value, key: &str) -> Option<Value> {
        match o {
            Value::Ref(Kind::Obj | Kind::Arr | Kind::Instance | Kind::Class, i) => {
                self.heap[*i as usize].slots.iter().find(|(k, _)| k == key).map(|(_, v)| v.clone())
            },
            _ => None,
        }
    }

    fn put(&mut self, o: &Value, key: &str, v: Value) {
        if matches!(o, Value::Ref(Kind::Arr, _)) {
            if let Ok(i) = key.parse::<usize>() {
                let t = &mut self.heap[index(o)];
                while t.items.len() <= i {
                    t.items.push(Value::Undefined);
                }
                t.items[i] = v;
                return;
            }
        }
        let t = &mut self.heap[index(o)];
        match t.slots.iter_mut().find(|(k, _)| k == key) {
            Some(s) => s.1 = v,
            None => t.slots.push((key.to_string(), v)),
        }
    }

    fn get(&self, o: &Value, key: &str) -> Option<Value> {
        if let Value::Ref(Kind::Arr, i) = o {
            let t = &self.heap[*i as usize];
            if key == "length" {
                return Some(num(t.items.len() as f64));
            }
            if let Ok(k) = key.parse::<usize>() {
                return if k < t.items.len() && !t.holes.contains(&k) {
                    Some(t.items[k].clone())
                } else {
                    None
                };
            }
        }
        if let Value::Str(s) = o {
            if key == "length" {
                return Some(num(s.encode_utf16().count() as f64));
            }
        }
        self.slot(o, key)
    }

    fn own(&self, o: &Value, key: &str) -> Option<Value> {
        match o {
            Value::Ref(Kind::Arr, _) => self.get(o, key),
            _ => self.slot(o, key),
        }
    }

    fn items(&self, v: &Value) -> Vec<Value> {
        self.heap[index(v)].items.clone()
    }

    fn shown(&self, v: &Value) -> Vec<String> {
        self.items(v).iter().map(show).collect()
    }

    fn call(&mut self, f: &Value, this: Option<Value>, args: Vec<Value>) -> Reply {
        let g = self.functions[index(f)];
        match g(self, this, args) {
            Ok(v) => Reply::Value(v),
            Err(n) => Reply::Throw(n),
        }
    }

    fn answer(&mut self, q: &Ask) -> Reply {
        self.asked.push(q.op);
        let more = self.extra;
        if let Some(r) = more(self, q) {
            return r;
        }
        let a = &q.args;
        match q.op {
            Op::Get => Reply::Value(self.get(&a[0], &show(&a[1])).unwrap_or(Value::Undefined)),
            Op::Has => flag(self.get(&a[0], &show(&a[1])).is_some()),
            Op::Assign => {
                self.put(&a[0], &show(&a[1]), a[2].clone());
                flag(true)
            },
            Op::Delete => {
                let key = show(&a[1]);
                self.heap[index(&a[0])].slots.retain(|(k, _)| *k != key);
                flag(true)
            },
            Op::OwnSlot => match self.own(&a[0], &show(&a[1])) {
                Some(v) => Reply::Value(v),
                None => Reply::Absent,
            },
            Op::StoreSlot => {
                self.put(&a[0], &show(&a[1]), a[2].clone());
                Reply::Absent
            },
            Op::Call => self.call(&a[0], Some(a[1].clone()), a[2..].to_vec()),
            Op::CallBare => self.call(&a[0], None, a[1..].to_vec()),
            Op::ToNumber | Op::PlainNumber => match &a[0] {
                Value::Symbol(_) => Reply::Throw(7),
                v => Reply::Value(num(number(v))),
            },
            Op::ToInteger => {
                let x = number(&a[0]);
                Reply::Value(num(if x.is_nan() { 0.0 } else { x.trunc() }))
            },
            Op::ToInt32 | Op::PlainInt32 => {
                let x = number(&a[0]);
                let i = if x.is_finite() { x as i64 as i32 } else { 0 };
                Reply::Value(num(i as f64))
            },
            Op::DelayOf => Reply::Value(num(number(&a[0]).max(0.0))),
            Op::ToText | Op::Display | Op::ToKey | Op::ToPrimitiveText => Reply::Value(text(&show(&a[0]))),
            Op::IsArray => flag(matches!(&a[0], Value::Ref(Kind::Arr, _))),
            Op::IsConstructor => flag(matches!(&a[0], Value::Native(_))),
            Op::ArrayLen => Reply::Value(num(self.items(&a[0]).len() as f64)),
            Op::ArrayPresent => {
                let k = number(&a[1]) as usize;
                let t = &self.heap[index(&a[0])];
                flag(k < t.items.len() && !t.holes.contains(&k))
            },
            Op::ArrayHole => {
                let k = number(&a[1]) as usize;
                flag(self.heap[index(&a[0])].holes.contains(&k))
            },
            Op::HasHoles => flag(!self.heap[index(&a[0])].holes.is_empty()),
            Op::FillHoles => {
                self.heap[index(&a[0])].holes.clear();
                Reply::Absent
            },
            Op::Elements => Reply::List(self.items(&a[0])),
            Op::StoreElements => {
                let i = index(&a[0]);
                self.heap[i].items = a[1..].to_vec();
                self.heap[i].holes.clear();
                Reply::Absent
            },
            Op::AppendElements => {
                self.heap[index(&a[0])].items.extend(a[1..].to_vec());
                Reply::Absent
            },
            Op::StoreElement => {
                self.put(&a[0], &show(&a[1]), a[2].clone());
                Reply::Absent
            },
            Op::StoredSlot => match self.get(&a[0], &show(&a[1])) {
                Some(v) => Reply::Value(v),
                None => Reply::Absent,
            },
            Op::StoreProperty => {
                self.put(&a[0], &show(&a[1]), a[3].clone());
                Reply::Absent
            },
            Op::Attributes => Reply::List(vec![Value::Bool(true); 3]),
            Op::SetAttributes | Op::SetIntegrity(_) => Reply::Absent,
            Op::ReportError => {
                self.console.push(format!("reported {}", show(&a[0])));
                Reply::Absent
            },
            Op::MappedParam => flag(false),
            Op::StoredKeys | Op::ArrayProps => {
                let t = &self.heap[index(&a[0])];
                Reply::List(t.slots.iter().map(|(k, _)| text(k)).collect())
            },
            Op::NewArray => Reply::Value(self.array(a.clone())),
            Op::NewObject => {
                let o = self.object(&[]);
                for p in a.chunks(2) {
                    self.put(&o, &show(&p[0]), p[1].clone());
                }
                Reply::Value(o)
            },
            Op::Keys => {
                let t = &self.heap[index(&a[0])];
                Reply::List(
                    t.slots.iter().filter(|(k, _)| !k.starts_with('\0')).map(|(k, _)| text(k)).collect(),
                )
            },
            Op::StoredFields => {
                let t = &self.heap[index(&a[0])];
                let mut l = Vec::new();
                for (k, v) in &t.slots {
                    l.push(text(k));
                    l.push(v.clone());
                }
                Reply::List(l)
            },
            Op::NewWrapper => {
                let o = self.object(&[("\0value", a[0].clone())]);
                Reply::Value(o)
            },
            Op::IsFrozen | Op::NonExtensible | Op::IsDate | Op::IsRegex | Op::IsRegexLike => flag(false),
            Op::LengthWritable | Op::ConcatSpreadable | Op::HasDocument => {
                flag(!matches!(&a.first(), Some(Value::Num(_)) | Some(Value::Str(_))))
            },
            Op::Wrapped | Op::RegexParts | Op::CollectionSlot => Reply::Absent,
            Op::JsonNumber | Op::NumberText => Reply::Value(text(&show(&a[0]))),
            Op::DecimalNumber => Reply::Value(num(show(&a[0]).parse().unwrap())),
            Op::DigitsNumber => {
                let radix = number(&a[0]) as u32;
                let mut x = 0.0;
                for c in show(&a[1]).chars() {
                    x = x * radix as f64 + c.to_digit(radix).unwrap() as f64;
                }
                Reply::Value(num(x))
            },
            Op::Console => {
                self.console.push(show(&a[0]));
                Reply::Absent
            },
            Op::PlusOne => Reply::Value(num(number(&a[0]) + 1.0)),
            Op::Sum => Reply::Value(num(number(&a[0]) + number(&a[1]))),
            Op::NewPromise => {
                let p = self.object(&[("\0state", text("pending"))]);
                Reply::Value(p)
            },
            Op::ResolvePromise => {
                self.put(&a[0], "\0state", text("fulfilled"));
                self.put(&a[0], "\0value", a[1].clone());
                Reply::Absent
            },
            Op::RejectPromise => {
                self.put(&a[0], "\0state", text("rejected"));
                self.put(&a[0], "\0value", a[1].clone());
                Reply::Absent
            },
            Op::SettleState => {
                if self.slot(&a[0], "\0state").map(|s| show(&s)) == Some("rejected".to_string()) {
                    Reply::List(vec![Value::Bool(false), self.slot(&a[0], "\0value").unwrap()])
                } else {
                    let v = self.slot(&a[0], "\0value").unwrap_or(a[0].clone());
                    Reply::List(vec![Value::Bool(true), v])
                }
            },
            Op::IsPromise => flag(self.slot(&a[0], "\0state").is_some()),
            Op::AbsoluteUrl | Op::ResolveUrl => Reply::Value(text(&format!("http://page/{}", show(&a[0])))),
            Op::SameCallable => flag(matches!((&a[0], &a[1]),
                (Value::Ref(_, i), Value::Ref(_, j)) if i == j)),
            Op::ThrownMessage => Reply::Value(text("broken")),
            Op::DeliverMutations => Reply::Absent,
            Op::Intrinsic(_) => {
                let o = self.object(&[]);
                Reply::Value(o)
            },
            Op::SetOwn => {
                let v = self.slot(&a[2], "value").unwrap_or(Value::Undefined);
                self.put(&a[0], &show(&a[1]), v);
                flag(true)
            },
            Op::NewSparseArray => {
                let n = number(&a[0]) as usize;
                let v = self.array(a[1..1 + n].to_vec());
                let i = index(&v);
                self.heap[i].holes = a[1 + n..].iter().map(|x| number(x) as usize).collect();
                Reply::Value(v)
            },
            Op::IterateAll => match &a[0] {
                Value::Str(s) => Reply::List(s.chars().map(|c| text(&c.to_string())).collect()),
                v => Reply::List(self.items(v)),
            },
            Op::IsArrayLike => flag(self.slot(&a[0], "length").is_some()),
            op => panic!("not answered: {:?} {:?}", op, a),
        }
    }

    fn run(
        &mut self,
        f: impl Fn(&mut Interp) -> Result<Value, Stop>,
    ) -> Result<Value, Exception> {
        let mut replies = Vec::new();
        loop {
            let mut it = Interp::new(replies);
            match f(&mut it) {
                Ok(v) => return Ok(v),
                Err(Stop::Throw(e)) => return Err(e),
                Err(Stop::Ask(q)) => {
                    replies = it.replies;
                    let r = self.answer(&q);
                    replies.push(r);
                },
            }
        }
    }
}

fn error(r: Result<Value, Exception>) -> (ErrorKind, String) {
    match r {
        Err(Exception::Error(k, m)) => (k, m),
        other => panic!("no error: {:?}", other),
    }
}

fn define(e: &mut Engine, map: &mut PropertyMap, key: &str, desc: &Value, open: bool) -> Result<
    Value,
    Exception,
> {
    let start = copy(map);
    let d = desc.clone();
    let k = key.to_string();
    let mut replies = Vec::new();
    loop {
        *map = copy(&start);
        let mut it = Interp::new(replies);
        match it.ordinary_define(map, &k, &d, open) {
            Ok(()) => return Ok(Value::Undefined),
            Err(Stop::Throw(x)) => return Err(x),
            Err(Stop::Ask(q)) => {
                replies = it.replies;
                let r = e.answer(&q);
                replies.push(r);
            },
        }
    }
}

fn copy(map: &PropertyMap) -> PropertyMap {
    let mut m = PropertyMap::new();
    for x in &map.entries {
        m.store(&x.key, x.prop.copy());
    }
    m
}

fn data(v: f64, writable: bool, enumerable: bool, configurable: bool) -> Prop {
    Prop { slot: Slot::Data(num(v)), writable, enumerable, configurable }
}

fn shown_prop(p: &Prop) -> String {
    let flags = (p.writable, p.enumerable, p.configurable);
    match &p.slot {
        Slot::Data(v) => format!("{} {:?}", show(v), flags),
        Slot::Accessor(..) => format!("accessor {:?}", flags),
    }
}

#[test]
fn a_new_property_takes_false_for_what_is_missing() {
    let mut e = Engine::new();
    let mut m = PropertyMap::new();
    let d = e.object(&[("value", num(1.0)), ("enumerable", Value::Bool(true))]);
    define(&mut e, &mut m, "x", &d, true).unwrap();
    assert_eq!(shown_prop(&m.get("x").unwrap()), "1 (false, true, false)");
}

#[test]
fn a_fixed_property_stays() {
    let mut e = Engine::new();
    let mut m = PropertyMap::new();
    m.store("x", data(1.0, false, true, false));
    let other = e.object(&[("value", num(2.0))]);
    assert_eq!(
        error(define(&mut e, &mut m, "x", &other, true)),
        (ErrorKind::TypeError, "Cannot redefine property".to_string()),
    );
    assert_eq!(shown_prop(&m.get("x").unwrap()), "1 (false, true, false)");
    let same = e.object(&[("value", num(1.0))]);
    define(&mut e, &mut m, "x", &same, false).unwrap();
    assert_eq!(shown_prop(&m.get("x").unwrap()), "1 (false, true, false)");
}

#[test]
fn defining_leaves_other_properties_alone() {
    let mut e = Engine::new();
    let mut m = PropertyMap::new();
    m.store("y", data(5.0, true, true, true));
    let d = e.object(&[("value", num(1.0))]);
    define(&mut e, &mut m, "x", &d, true).unwrap();
    define(&mut e, &mut m, "x", &d, true).unwrap();
    assert_eq!(shown_prop(&m.get("y").unwrap()), "5 (true, true, true)");
    assert_eq!(m.entries.len(), 2);
}

#[test]
fn closed_objects_take_no_new_properties() {
    let mut e = Engine::new();
    let mut m = PropertyMap::new();
    let d = e.object(&[("value", num(1.0))]);
    assert_eq!(error(define(&mut e, &mut m, "x", &d, false)).0, ErrorKind::TypeError);
    assert!(m.get("x").is_none());
}

#[test]
fn descriptors_are_objects() {
    let mut e = Engine::new();
    let mut m = PropertyMap::new();
    assert_eq!(error(define(&mut e, &mut m, "x", &num(1.0), true)).0, ErrorKind::TypeError);
}

#[test]
fn accessors_and_values_exclude_each_other() {
    let mut e = Engine::new();
    let mut m = PropertyMap::new();
    let f = e.function(nothing);
    let d = e.object(&[("get", f.clone()), ("value", num(1.0))]);
    assert_eq!(error(define(&mut e, &mut m, "x", &d, true)).0, ErrorKind::TypeError);
    let d = e.object(&[("get", num(1.0))]);
    assert_eq!(error(define(&mut e, &mut m, "x", &d, true)).0, ErrorKind::TypeError);
    let d = e.object(&[("get", f)]);
    define(&mut e, &mut m, "x", &d, true).unwrap();
    assert_eq!(shown_prop(&m.get("x").unwrap()), "accessor (false, false, false)");
}

fn nothing(_: &mut Engine, _: Option<Value>, _: Vec<Value>) -> Result<Value, u64> {
    Ok(Value::Undefined)
}

#[test]
fn a_description_defines_the_property_again() {
    let p = data(3.0, false, true, false);
    let d = describe(&p);
    assert!(is_redefinable(&p, &d));
    let again = validate_and_apply(&None, &d, true).unwrap();
    assert_eq!(shown_prop(&again), shown_prop(&p));
    let again = validate_and_apply(&Some(p), &d, false).unwrap();
    assert_eq!(shown_prop(&again), "3 (false, true, false)");
    let none = Desc {
        value: None,
        get: None,
        set: None,
        writable: None,
        enumerable: None,
        configurable: None,
    };
    assert!(matches!(validate_and_apply(&None, &none, false), Err(Refusal::NotExtensible)));
}

#[test]
fn freezing_and_sealing() {
    let mut m = PropertyMap::new();
    m.store("x", data(1.0, true, true, true));
    m.store("\0inner", data(2.0, true, true, true));
    m.set_integrity(Integrity::Sealed);
    assert_eq!(shown_prop(&m.get("x").unwrap()), "1 (true, true, false)");
    m.set_integrity(Integrity::Frozen);
    assert_eq!(shown_prop(&m.get("x").unwrap()), "1 (false, true, false)");
    assert!(is_internal_key("\0inner") && is_internal_key("__proto__") && !is_internal_key("x"));
}

#[test]
fn assignments_that_fail_throw() {
    let mut e = Engine::new();
    e.extra = refusing;
    let o = e.object(&[]);
    let r = e.run(
        move |it| match it.set_throw(&o, "x", num(1.0)) {
            Ok(()) => Ok(Value::Undefined),
            Err(s) => Err(s),
        },
    );
    assert_eq!(error(r).0, ErrorKind::TypeError);
}

fn refusing(_: &mut Engine, q: &Ask) -> Option<Reply> {
    match q.op {
        Op::Assign => Some(flag(false)),
        _ => None,
    }
}

#[test]
fn nothing_is_no_object() {
    let mut e = Engine::new();
    assert_eq!(show(&e.run(|it| it.to_object_value(Value::Null)).unwrap()), "null");
    assert_eq!(error(e.run(|it| it.object_keys(&None, &vec![]))).0, ErrorKind::TypeError);
    assert_eq!(
        error(e.run(|it| it.reflect_get(&None, &vec![num(1.0)]))).0,
        ErrorKind::TypeError,
    );
}

#[test]
fn keys_values_and_entries() {
    let mut e = Engine::new();
    let o = e.object(&[("a", num(1.0)), ("b", text("x"))]);
    let args = vec![o];
    let r = e.run(|it| it.object_keys(&None, &args)).unwrap();
    assert_eq!(e.shown(&r), ["a", "b"]);
}

fn names(e: &mut Engine, v: &Value) -> Vec<String> {
    let args = vec![v.clone()];
    let r = e.run(move |it| it.object_get_own_property_names(&None, &args)).unwrap();
    e.shown(&r)
}

#[test]
fn names_of_an_array() {
    let mut e = Engine::new();
    let a = e.array(vec![num(1.0)]);
    e.put(&a, "foo", num(2.0));
    e.put(&a, "\0inner", num(3.0));
    assert_eq!(names(&mut e, &a), ["0", "length", "foo"]);
    let a = e.array(vec![num(1.0), num(2.0), num(3.0)]);
    e.heap[index(&a)].holes = vec![1];
    assert_eq!(names(&mut e, &a), ["0", "2", "length"]);
}

#[test]
fn names_of_instances_and_classes() {
    let mut e = Engine::new();
    e.object(&[("b", num(1.0)), ("\0inner", num(2.0)), ("a", num(3.0))]);
    assert_eq!(names(&mut e, &Value::Ref(Kind::Instance, 0)), ["b", "a"]);
    assert_eq!(
        names(&mut e, &Value::Ref(Kind::Class, 0)),
        ["length", "name", "prototype", "b", "a"],
    );
}

#[test]
fn only_whole_indices_come_first() {
    let mut e = Engine::new();
    e.object(&[("01", num(1.0)), ("+2", num(2.0)), ("10", num(3.0)), ("9", num(4.0))]);
    let l = names(&mut e, &Value::Ref(Kind::Class, 0));
    assert_eq!(l, ["9", "10", "length", "name", "prototype", "01", "+2"]);
}

#[test]
fn whether_a_property_could_be_defined() {
    let mut e = Engine::new();
    let o = e.object(&[]);
    let d = e.object(&[("value", num(1.0))]);
    let args = vec![o.clone(), text("a"), d.clone()];
    assert_eq!(show(&e.run(move |it| it.reflect_define_property(&None, &args)).unwrap()), "true");
    e.extra = not_extensible;
    let args = vec![o.clone(), text("b"), d];
    assert_eq!(show(&e.run(move |it| it.reflect_define_property(&None, &args)).unwrap()), "false");
    let args = vec![o, text("b"), num(1.0)];
    assert_eq!(
        error(e.run(move |it| it.reflect_define_property(&None, &args))),
        (ErrorKind::TypeError, "Property description must be an object".to_string()),
    );
}

fn not_extensible(_: &mut Engine, q: &Ask) -> Option<Reply> {
    match q.op {
        Op::NonExtensible => Some(flag(true)),
        _ => None,
    }
}

#[test]
fn texts_of_errors() {
    for (name, message, shown) in [
        (text(""), text("boom"), "boom"),
        (text("E"), text(""), "E"),
        (text("E"), text("boom"), "E: boom"),
        (Value::Undefined, Value::Undefined, "Error"),
    ] {
        let mut e = Engine::new();
        let recv = Some(e.object(&[("name", name), ("message", message)]));
        let r = e.run(move |it| it.error_to_string(&recv, &vec![])).unwrap();
        assert_eq!(show(&r), shown);
    }
}

#[test]
fn names_of_an_object() {
    let mut e = Engine::new();
    let o = e.object(&[("b", num(1.0)), ("2", num(2.0)), ("\0inner", num(3.0)), ("1", num(4.0))]);
    assert_eq!(names(&mut e, &o), ["1", "2", "b"]);
}

#[test]
fn properties_from_an_instance() {
    let mut e = Engine::new();
    let target = e.object(&[]);
    let d = e.object(&[("value", num(7.0))]);
    let props = e.object(&[("a", d)]);
    let args = vec![target.clone(), Value::Ref(Kind::Instance, index(&props) as u64)];
    e.extra = instance_members;
    e.run(move |it| it.object_define_properties(&None, &args)).unwrap();
    assert_eq!(show(&e.slot(&target, "a").unwrap()), "7");
    let args = vec![target, num(1.0)];
    e.run(move |it| it.object_define_properties(&None, &args)).unwrap();
}

fn instance_members(e: &mut Engine, q: &Ask) -> Option<Reply> {
    match (q.op, &q.args[0]) {
        (Op::Get, Value::Ref(Kind::Instance, i)) => {
            e.slot(&Value::Ref(Kind::Obj, *i), &show(&q.args[1])).map(Reply::Value)
        },
        _ => None,
    }
}

fn concealing(_: &mut Engine, q: &Ask) -> Option<Reply> {
    match q.op {
        Op::Attributes if show(&q.args[1]) == "b" => {
            Some(Reply::List(vec![Value::Bool(true), Value::Bool(false), Value::Bool(true)]))
        },
        _ => None,
    }
}

#[test]
fn descriptors_of_properties() {
    let mut e = Engine::new();
    e.extra = concealing;
    let o = e.object(&[("a", num(1.0)), ("b", num(2.0))]);
    for (key, shown) in [("a", "true"), ("b", "false")] {
        let args = vec![o.clone(), text(key)];
        let d = e.run(move |it| it.reflect_get_own_property_descriptor(&None, &args)).unwrap();
        assert_eq!(show(&e.slot(&d, "enumerable").unwrap()), shown);
        assert_eq!(show(&e.slot(&d, "writable").unwrap()), "true");
        let recv = Some(o.clone());
        let args = vec![text(key)];
        let r = e.run(move |it| it.property_is_enumerable(&recv, &args)).unwrap();
        assert_eq!(show(&r), shown);
    }
    let args = vec![o.clone(), text("c")];
    let d = e.run(move |it| it.reflect_get_own_property_descriptor(&None, &args)).unwrap();
    assert_eq!(show(&d), "undefined");
    let recv = Some(o);
    let args = vec![text("c")];
    let r = e.run(move |it| it.property_is_enumerable(&recv, &args)).unwrap();
    assert_eq!(show(&r), "false");
}

#[test]
fn only_enumerable_properties_are_listed_and_copied() {
    let mut e = Engine::new();
    e.extra = concealing;
    let o = e.object(&[("a", num(1.0)), ("b", num(2.0)), ("c", num(3.0))]);
    let args = vec![o.clone()];
    let r = e.run(|it| it.object_values(&None, &args)).unwrap();
    assert_eq!(e.shown(&r), ["1", "3"]);
    let r = e.run(|it| it.object_entries(&None, &args)).unwrap();
    let pairs = e.items(&r);
    assert_eq!(e.shown(&pairs[1]), ["c", "3"]);
    let target = e.object(&[]);
    let args = vec![target.clone(), o];
    e.run(move |it| it.object_assign(&None, &args)).unwrap();
    assert_eq!(names(&mut e, &target), ["a", "c"]);
    assert_eq!(show(&e.slot(&target, "c").unwrap()), "3");
}

fn shown_keys(e: &mut Engine, v: &Value) -> Vec<String> {
    let args = vec![v.clone()];
    let r = e.run(move |it| it.object_keys(&None, &args)).unwrap();
    e.shown(&r)
}

#[test]
fn enumerable_names_of_arrays_instances_and_classes() {
    let mut e = Engine::new();
    e.extra = concealing;
    let a = e.array(vec![num(1.0), num(2.0)]);
    e.put(&a, "b", num(3.0));
    e.put(&a, "c", num(4.0));
    assert_eq!(shown_keys(&mut e, &a), ["0", "1", "c"]);
    let o = e.object(
        &[
            ("x", num(1.0)),
            ("\0inner", num(2.0)),
            ("y", num(3.0)),
            ("\0ne:y", Value::Bool(true)),
            ("#z", num(4.0)),
        ],
    );
    let i = index(&o) as u64;
    assert_eq!(shown_keys(&mut e, &Value::Ref(Kind::Instance, i)), ["x", "#z"]);
    assert_eq!(shown_keys(&mut e, &Value::Ref(Kind::Class, i)), ["x"]);
}

fn symbols_of(e: &mut Engine, v: &Value) -> Vec<String> {
    let args = vec![v.clone()];
    let r = e.run(move |it| it.object_get_own_property_symbols(&None, &args)).unwrap();
    e.shown(&r)
}

#[test]
fn own_symbols() {
    let mut e = Engine::new();
    let o = e.object(
        &[("a", num(1.0)), ("\0@@sym:3:first", num(2.0)), ("\0inner", num(3.0)), ("\0@@sym:4:next", num(4.0))],
    );
    assert_eq!(symbols_of(&mut e, &o), ["Symbol(first)", "Symbol(next)"]);
    let instance = Value::Ref(Kind::Instance, index(&o) as u64);
    assert_eq!(symbols_of(&mut e, &instance), ["Symbol(first)", "Symbol(next)"]);
    let args = vec![o];
    let r = e.run(move |it| it.reflect_own_keys(&None, &args)).unwrap();
    assert_eq!(e.shown(&r), ["a", "Symbol(first)", "Symbol(next)"]);
    let a = e.array(vec![num(1.0)]);
    assert_eq!(symbols_of(&mut e, &a), Vec::<String>::new());
}

fn noting_flags(e: &mut Engine, q: &Ask) -> Option<Reply> {
    match q.op {
        Op::SetAttributes => {
            e.console.push(q.args[1..].iter().map(show).collect::<Vec<String>>().join(" "));
            Some(Reply::Absent)
        },
        _ => None,
    }
}

#[test]
fn freezing_tightens_each_property() {
    let mut e = Engine::new();
    e.extra = noting_flags;
    let o = e.object(&[("a", num(1.0)), ("\0inner", num(2.0)), ("b", num(3.0))]);
    let args = vec![o.clone()];
    let r = e.run(|it| it.restrict(Integrity::Frozen, &args)).unwrap();
    assert_eq!(index(&r), index(&o));
    assert_eq!(e.console, ["a false true false", "b false true false"]);
    assert!(matches!(e.asked.last(), Some(Op::SetIntegrity(Integrity::Frozen))));
    e.console.clear();
    let a = e.array(vec![num(1.0), num(2.0)]);
    e.heap[index(&a)].holes = vec![1];
    e.put(&a, "foo", num(3.0));
    let args = vec![a];
    e.run(|it| it.restrict(Integrity::Sealed, &args)).unwrap();
    assert_eq!(e.console, ["0 true true false", "foo true true false"]);
    e.console.clear();
    let o = e.object(&[("a", num(1.0)), ("#b", num(2.0)), ("\0@@sym:3:s", num(3.0))]);
    let instance = vec![Value::Ref(Kind::Instance, index(&o) as u64)];
    e.run(|it| it.restrict(Integrity::Sealed, &instance)).unwrap();
    assert_eq!(e.console, ["a true true false", "\0@@sym:3:s true true false"]);
    e.console.clear();
    e.run(|it| it.restrict(Integrity::Closed, &args)).unwrap();
    assert_eq!(e.console.len(), 0);
    assert!(matches!(e.asked.last(), Some(Op::SetIntegrity(Integrity::Closed))));
}

// Proxy 3 stands before proxy 2, and that before object 0; their handlers are objects 1 and 2.
fn two_proxies(e: &mut Engine, q: &Ask) -> Option<Reply> {
    match (q.op, &q.args[0]) {
        (Op::ProxyTarget, Value::Proxy(3, _)) => Some(Reply::Value(Value::Proxy(2, false))),
        (Op::ProxyTarget, _) => Some(Reply::Value(Value::Ref(Kind::Obj, 0))),
        (Op::ProxyHandler, Value::Proxy(3, _)) => Some(Reply::Value(Value::Ref(Kind::Obj, 1))),
        (Op::ProxyHandler, _) => Some(Reply::Value(Value::Ref(Kind::Obj, 2))),
        (Op::TrapKey, k) => Some(Reply::Value(k.clone())),
        (Op::Extensible, _) => Some(flag(true)),
        (Op::Has, o) => Some(flag(e.slot(o, &show(&q.args[1])).is_some())),
        _ => None,
    }
}

fn no_such_property(_: &mut Engine, _: Option<Value>, _: Vec<Value>) -> Result<Value, u64> {
    Ok(Value::Undefined)
}

#[test]
fn proxies_are_asked_one_behind_the_other() {
    let mut e = Engine::new();
    e.extra = two_proxies;
    e.object(&[("a", num(1.0))]);
    e.object(&[]);
    e.object(&[]);
    let args = vec![Value::Proxy(3, false), text("a")];
    let d = e.run(|it| it.object_get_own_property_descriptor(&None, &args)).unwrap();
    assert_eq!(show(&e.slot(&d, "value").unwrap()), "1");
    let desc = e.object(&[("value", num(5.0))]);
    let given = vec![Value::Proxy(3, false), text("a"), desc];
    e.run(|it| it.object_define_property(&None, &given)).unwrap();
    assert_eq!(show(&e.slot(&Value::Ref(Kind::Obj, 0), "a").unwrap()), "5");
    let f = e.function(no_such_property);
    e.put(&Value::Ref(Kind::Obj, 2), "getOwnPropertyDescriptor", f);
    let d = e.run(|it| it.object_get_own_property_descriptor(&None, &args)).unwrap();
    assert_eq!(show(&d), "undefined");
    e.extra = fixed_behind_proxies;
    assert_eq!(
        error(e.run(|it| it.object_get_own_property_descriptor(&None, &args))).0,
        ErrorKind::TypeError,
    );
}

fn fixed_behind_proxies(e: &mut Engine, q: &Ask) -> Option<Reply> {
    match q.op {
        Op::Attributes => Some(Reply::List(vec![Value::Bool(false); 3])),
        _ => two_proxies(e, q),
    }
}

fn class_parts(_: &mut Engine, q: &Ask) -> Option<Reply> {
    match q.op {
        Op::StaticGetter | Op::StaticSetter => Some(Reply::Absent),
        Op::FunctionLength => Some(Reply::Value(num(2.0))),
        Op::SetProto => Some(flag(false)),
        _ => None,
    }
}

#[test]
fn the_length_of_a_class_is_not_listed() {
    let mut e = Engine::new();
    e.extra = class_parts;
    let o = e.object(&[]);
    let args = vec![Value::Ref(Kind::Class, index(&o) as u64), text("length")];
    let d = e.run(|it| it.object_get_own_property_descriptor(&None, &args)).unwrap();
    assert_eq!(show(&e.slot(&d, "value").unwrap()), "2");
    assert_eq!(show(&e.slot(&d, "enumerable").unwrap()), "false");
    assert_eq!(show(&e.slot(&d, "configurable").unwrap()), "true");
}

#[test]
fn a_prototype_that_cannot_be_set() {
    let mut e = Engine::new();
    e.extra = class_parts;
    let a = e.array(vec![]);
    let args = vec![a, Value::Null];
    let r = e.run(|it| it.object_set_prototype_of(&None, &args));
    assert_eq!(error(r), (ErrorKind::TypeError, "Cannot set prototype of this object".to_string()));
    let args = vec![num(1.0), Value::Null];
    assert_eq!(show(&e.run(|it| it.object_set_prototype_of(&None, &args)).unwrap()), "1");
}
