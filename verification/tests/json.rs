use builtins::host::{Ask, Exception, Interp, Op, Reply, Stop};
use builtins::json::{Identity, JsonOptions};
use builtins::number::Num;
use builtins::value::{ErrorKind, Kind, Value};

// A small engine: it answers what a built-in asks until the built-in has finished.
struct Engine {
    heap: Vec<Thing>,
    functions: Vec<fn(&mut Engine, Option<Value>, Vec<Value>) -> Result<Value, u64>>,
    console: Vec<String>,
    asked: Vec<Op>,
    extra: fn(&mut Engine, &Ask) -> Option<Reply>,
}

fn nothing_more(_: &mut Engine, _: &Ask) -> Option<Reply> {
    None
}

struct Thing {
    slots: Vec<(String, Value)>,
    items: Vec<Value>,
    holes: Vec<usize>,
}

fn num(x: f64) -> Value {
    Value::Num(Num { bits: x.to_bits() })
}

fn text(s: &str) -> Value {
    Value::Str(s.to_string())
}

fn show(v: &Value) -> String {
    match v {
        Value::Undefined => "undefined".to_string(),
        Value::Null => "null".to_string(),
        Value::Bool(b) => b.to_string(),
        Value::Num(n) => {
            let x = f64::from_bits(n.bits);
            if x == 0.0 { "0".to_string() } else { x.to_string() }
        },
        Value::Str(s) => s.clone(),
        Value::BigInt(s) => s.clone(),
        Value::Symbol(d) => format!("Symbol({})", d.desc.clone().unwrap_or_default()),
        other => format!("{:?}", other),
    }
}

fn number(v: &Value) -> f64 {
    match v {
        Value::Num(n) => f64::from_bits(n.bits),
        Value::Str(s) => if s.is_empty() { 0.0 } else { s.parse().unwrap_or(f64::NAN) },
        Value::Bool(b) => if *b { 1.0 } else { 0.0 },
        Value::Null => 0.0,
        _ => f64::NAN,
    }
}

fn index(v: &Value) -> usize {
    match v {
        Value::Ref(_, i) => *i as usize,
        other => panic!("no handle: {:?}", other),
    }
}

fn flag(b: bool) -> Reply {
    Reply::Value(Value::Bool(b))
}

impl Engine {
    fn new() -> Engine {
        Engine {
            heap: Vec::new(),
            functions: Vec::new(),
            console: Vec::new(),
            asked: Vec::new(),
            extra: nothing_more,
        }
    }

    fn object(&mut self, fields: &[(&str, Value)]) -> Value {
        let slots = fields.iter().map(|(k, v)| (k.to_string(), v.clone())).collect();
        self.heap.push(Thing { slots, items: Vec::new(), holes: Vec::new() });
        Value::Ref(Kind::Obj, (self.heap.len() - 1) as u64)
    }

    fn array(&mut self, items: Vec<Value>) -> Value {
        self.heap.push(Thing { slots: Vec::new(), items, holes: Vec::new() });
        Value::Ref(Kind::Arr, (self.heap.len() - 1) as u64)
    }

    fn function(
        &mut self,
        f: fn(&mut Engine, Option<Value>, Vec<Value>) -> Result<Value, u64>,
    ) -> Value {
        self.functions.push(f);
        self.heap.push(Thing { slots: Vec::new(), items: Vec::new(), holes: Vec::new() });
        Value::Ref(Kind::Fn, (self.functions.len() - 1) as u64)
    }

    fn slot(&self, o: &Value, key: &str) -> Option<Value> {
        match o {
            Value::Ref(Kind::Obj | Kind::Arr | Kind::Instance | Kind::Class, i) => {
                self.heap[*i as usize].slots.iter().find(|(k, _)| k == key).map(|(_, v)| v.clone())
            },
            _ => None,
        }
    }

    fn put(&mut self, o: &Value, key: &str, v: Value) {
        if matches!(o, Value::Ref(Kind::Arr, _)) {
            if let Ok(i) = key.parse::<usize>() {
                let t = &mut self.heap[index(o)];
                while t.items.len() <= i {
                    t.items.push(Value::Undefined);
                }
                t.items[i] = v;
                return;
            }
        }
        let t = &mut self.heap[index(o)];
        match t.slots.iter_mut().find(|(k, _)| k == key) {
            Some(s) => s.1 = v,
            None => t.slots.push((key.to_string(), v)),
        }
    }

    fn get(&self, o: &Value, key: &str) -> Option<Value> {
        if let Value::Ref(Kind::Arr, i) = o {
            let t = &self.heap[*i as usize];
            if key == "length" {
                return Some(num(t.items.len() as f64));
            }
            if let Ok(k) = key.parse::<usize>() {
                return if k < t.items.len() && !t.holes.contains(&k) {
                    Some(t.items[k].clone())
                } else {
                    None
                };
            }
        }
        if let Value::Str(s) = o {
            if key == "length" {
                return Some(num(s.encode_utf16().count() as f64));
            }
        }
        self.slot(o, key)
    }

    fn own(&self, o: &Value, key: &str) -> Option<Value> {
        match o {
            Value::Ref(Kind::Arr, _) => self.get(o, key),
            _ => self.slot(o, key),
        }
    }

    fn items(&self, v: &Value) -> Vec<Value> {
        self.heap[index(v)].items.clone()
    }

    fn shown(&self, v: &Value) -> Vec<String> {
        self.items(v).iter().map(show).collect()
    }

    fn call(&mut self, f: &Value, this: Option<Value>, args: Vec<Value>) -> Reply {
        let g = self.functions[index(f)];
        match g(self, this, args) {
            Ok(v) => Reply::Value(v),
            Err(n) => Reply::Throw(n),
        }
    }

    fn answer(&mut self, q: &Ask) -> Reply {
        self.asked.push(q.op);
        let more = self.extra;
        if let Some(r) = more(self, q) {
            return r;
        }
        let a = &q.args;
        match q.op {
            Op::Get => Reply::Value(self.get(&a[0], &show(&a[1])).unwrap_or(Value::Undefined)),
            Op::Has => flag(self.get(&a[0], &show(&a[1])).is_some()),
            Op::Assign => {
                self.put(&a[0], &show(&a[1]), a[2].clone());
                flag(true)
            },
            Op::Delete => {
                let key = show(&a[1]);
                self.heap[index(&a[0])].slots.retain(|(k, _)| *k != key);
                flag(true)
            },
            Op::OwnSlot => match self.own(&a[0], &show(&a[1])) {
                Some(v) => Reply::Value(v),
                None => Reply::Absent,
            },
            Op::StoreSlot => {
                self.put(&a[0], &show(&a[1]), a[2].clone());
                Reply::Absent
            },
            Op::Call => self.call(&a[0], Some(a[1].clone()), a[2..].to_vec()),
            Op::CallBare => self.call(&a[0], None, a[1..].to_vec()),
            Op::ToNumber | Op::PlainNumber => match &a[0] {
                Value::Symbol(_) => Reply::Throw(7),
                v => Reply::Value(num(number(v))),
            },
            Op::ToInteger => {
                let x = number(&a[0]);
                Reply::Value(num(if x.is_nan() { 0.0 } else { x.trunc() }))
            },
            Op::ToInt32 | Op::PlainInt32 => {
                let x = number(&a[0]);
                let i = if x.is_finite() { x as i64 as i32 } else { 0 };
                Reply::Value(num(i as f64))
            },
            Op::DelayOf => Reply::Value(num(number(&a[0]).max(0.0))),
            Op::ToText | Op::Display | Op::ToKey | Op::ToPrimitiveText => Reply::Value(text(&show(&a[0]))),
            Op::IsArray => flag(matches!(&a[0], Value::Ref(Kind::Arr, _))),
            Op::IsConstructor => flag(matches!(&a[0], Value::Native(_))),
            Op::ArrayLen => Reply::Value(num(self.items(&a[0]).len() as f64)),
            Op::ArrayPresent => {
                let k = number(&a[1]) as usize;
                let t = &self.heap[index(&a[0])];
                flag(k < t.items.len() && !t.holes.contains(&k))
            },
            Op::ArrayHole => {
                let k = number(&a[1]) as usize;
                flag(self.heap[index(&a[0])].holes.contains(&k))
            },
            Op::HasHoles => flag(!self.heap[index(&a[0])].holes.is_empty()),
            Op::FillHoles => {
                self.heap[index(&a[0])].holes.clear();
                Reply::Absent
            },
            Op::Elements => Reply::List(self.items(&a[0])),
            Op::StoreElements => {
                let i = index(&a[0]);
                self.heap[i].items = a[1..].to_vec();
                self.heap[i].holes.clear();
                Reply::Absent
            },
            Op::AppendElements => {
                self.heap[index(&a[0])].items.extend(a[1..].to_vec());
                Reply::Absent
            },
            Op::StoreElement => {
                self.put(&a[0], &show(&a[1]), a[2].clone());
                Reply::Absent
            },
            Op::StoredSlot => match self.get(&a[0], &show(&a[1])) {
                Some(v) => Reply::Value(v),
                None => Reply::Absent,
            },
            Op::StoreProperty => {
                self.put(&a[0], &show(&a[1]), a[3].clone());
                Reply::Absent
            },
            Op::Attributes => Reply::List(vec![Value::Bool(true); 3]),
            Op::SetAttributes | Op::SetIntegrity(_) => Reply::Absent,
            Op::ReportError => {
                self.console.push(format!("reported {}", show(&a[0])));
                Reply::Absent
            },
            Op::MappedParam => flag(false),
            Op::StoredKeys | Op::ArrayProps => {
                let t = &self.heap[index(&a[0])];
                Reply::List(t.slots.iter().map(|(k, _)| text(k)).collect())
            },
            Op::NewArray => Reply::Value(self.array(a.clone())),
            Op::NewObject => {
                let o = self.object(&[]);
                for p in a.chunks(2) {
                    self.put(&o, &show(&p[0]), p[1].clone());
                }
                Reply::Value(o)
            },
            Op::Keys => {
                let t = &self.heap[index(&a[0])];
                Reply::List(
                    t.slots.iter().filter(|(k, _)| !k.starts_with('\0')).map(|(k, _)| text(k)).collect(),
                )
            },
            Op::StoredFields => {
                let t = &self.heap[index(&a[0])];
                let mut l = Vec::new();
                for (k, v) in &t.slots {
                    l.push(text(k));
                    l.push(v.clone());
                }
                Reply::List(l)
            },
            Op::NewWrapper => {
                let o = self.object(&[("\0value", a[0].clone())]);
                Reply::Value(o)
            },
            Op::IsFrozen | Op::NonExtensible | Op::IsDate | Op::IsRegex | Op::IsRegexLike => flag(false),
            Op::LengthWritable | Op::ConcatSpreadable | Op::HasDocument => {
                flag(!matches!(&a.first(), Some(Value::Num(_)) | Some(Value::Str(_))))
            },
            Op::Wrapped | Op::RegexParts | Op::CollectionSlot => Reply::Absent,
            Op::JsonNumber | Op::NumberText => Reply::Value(text(&show(&a[0]))),
            Op::DecimalNumber => Reply::Value(num(show(&a[0]).parse().unwrap())),
            Op::DigitsNumber => {
                let radix = number(&a[0]) as u32;
                let mut x = 0.0;
                for c in show(&a[1]).chars() {
                    x = x * radix as f64 + c.to_digit(radix).unwrap() as f64;
                }
                Reply::Value(num(x))
            },
            Op::Console => {
                self.console.push(show(&a[0]));
                Reply::Absent
            },
            Op::PlusOne => Reply::Value(num(number(&a[0]) + 1.0)),
            Op::Sum => Reply::Value(num(number(&a[0]) + number(&a[1]))),
            Op::NewPromise => {
                let p = self.object(&[("\0state", text("pending"))]);
                Reply::Value(p)
            },
            Op::ResolvePromise => {
                self.put(&a[0], "\0state", text("fulfilled"));
                self.put(&a[0], "\0value", a[1].clone());
                Reply::Absent
            },
            Op::RejectPromise => {
                self.put(&a[0], "\0state", text("rejected"));
                self.put(&a[0], "\0value", a[1].clone());
                Reply::Absent
            },
            Op::SettleState => {
                if self.slot(&a[0], "\0state").map(|s| show(&s)) == Some("rejected".to_string()) {
                    Reply::List(vec![Value::Bool(false), self.slot(&a[0], "\0value").unwrap()])
                } else {
                    let v = self.slot(&a[0], "\0value").unwrap_or(a[0].clone());
                    Reply::List(vec![Value::Bool(true), v])
                }
            },
            Op::IsPromise => flag(self.slot(&a[0], "\0state").is_some()),
            Op::AbsoluteUrl | Op::ResolveUrl => Reply::Value(text(&format!("http://page/{}", show(&a[0])))),
            Op::SameCallable => flag(matches!((&a[0], &a[1]),
                (Value::Ref(_, i), Value::Ref(_, j)) if i == j)),
            Op::ThrownMessage => Reply::Value(text("broken")),
            Op::DeliverMutations => Reply::Absent,
            Op::Intrinsic(_) => {
                let o = self.object(&[]);
                Reply::Value(o)
            },
            Op::SetOwn => {
                let v = self.slot(&a[2], "value").unwrap_or(Value::Undefined);
                self.put(&a[0], &show(&a[1]), v);
                flag(true)
            },
            Op::NewSparseArray => {
                let n = number(&a[0]) as usize;
                let v = self.array(a[1..1 + n].to_vec());
                let i = index(&v);
                self.heap[i].holes = a[1 + n..].iter().map(|x| number(x) as usize).collect();
                Reply::Value(v)
            },
            Op::IterateAll => match &a[0] {
                Value::Str(s) => Reply::List(s.chars().map(|c| text(&c.to_string())).collect()),
                v => Reply::List(self.items(v)),
            },
            Op::IsArrayLike => flag(self.slot(&a[0], "length").is_some()),
            op => panic!("not answered: {:?} {:?}", op, a),
        }
    }

    fn run(
        &mut self,
        f: impl Fn(&mut Interp) -> Result<Value, Stop>,
    ) -> Result<Value, Exception> {
        let mut replies = Vec::new();
        loop {
            let mut it = Interp::new(replies);
            match f(&mut it) {
                Ok(v) => return Ok(v),
                Err(Stop::Throw(e)) => return Err(e),
                Err(Stop::Ask(q)) => {
                    replies = it.replies;
                    let r = self.answer(&q);
                    replies.push(r);
                },
            }
        }
    }
}

fn error(r: Result<Value, Exception>) -> (ErrorKind, String) {
    match r {
        Err(Exception::Error(k, m)) => (k, m),
        other => panic!("no error: {:?}", other),
    }
}

fn add_one(_: &mut Engine, _: Option<Value>, args: Vec<Value>) -> Result<Value, u64> {
    match &args[1] {
        Value::Num(_) => Ok(num(number(&args[1]) + 1.0)),
        v => Ok(v.clone()),
    }
}

fn stringify(e: &mut Engine, args: Vec<Value>) -> Result<Value, Exception> {
    e.run(move |it| it.json_stringify(&None, &args))
}

#[test]
fn scalars() {
    let mut e = Engine::new();
    assert_eq!(show(&stringify(&mut e, vec![text("a\"b")]).unwrap()), "\"a\\\"b\"");
    assert_eq!(show(&stringify(&mut e, vec![Value::Null]).unwrap()), "null");
    assert_eq!(show(&stringify(&mut e, vec![Value::Bool(true)]).unwrap()), "true");
    assert_eq!(show(&stringify(&mut e, vec![num(1.5)]).unwrap()), "1.5");
    assert_eq!(show(&stringify(&mut e, vec![Value::Undefined]).unwrap()), "undefined");
}

#[test]
fn nested_values() {
    let mut e = Engine::new();
    let inner = e.array(vec![num(1.0), Value::Undefined]);
    let o = e.object(&[("a", inner), ("b", Value::Undefined), ("c", text("x"))]);
    assert_eq!(
        show(&stringify(&mut e, vec![o.clone()]).unwrap()),
        "{\"a\":[1,null],\"c\":\"x\"}",
    );
    assert_eq!(
        show(&stringify(&mut e, vec![o, Value::Null, num(2.0)]).unwrap()),
        "{\n  \"a\": [\n    1,\n    null\n  ],\n  \"c\": \"x\"\n}",
    );
}

#[test]
fn a_list_of_keys() {
    let mut e = Engine::new();
    let o = e.object(&[("a", num(1.0)), ("b", num(2.0))]);
    let keys = e.array(vec![text("b")]);
    assert_eq!(show(&stringify(&mut e, vec![o, keys]).unwrap()), "{\"b\":2}");
}

#[test]
fn a_replacer() {
    let mut e = Engine::new();
    let o = e.object(&[("a", num(1.0))]);
    let f = e.function(add_one);
    assert_eq!(show(&stringify(&mut e, vec![o, f]).unwrap()), "{\"a\":2}");
}

#[test]
fn a_circle() {
    let mut e = Engine::new();
    let o = e.object(&[]);
    e.put(&o, "self", o.clone());
    assert_eq!(
        error(stringify(&mut e, vec![o])),
        (ErrorKind::TypeError, "Converting circular structure to JSON".to_string()),
    );
}

#[test]
fn big_integers() {
    let mut e = Engine::new();
    let r = stringify(&mut e, vec![Value::BigInt("1".to_string())]);
    assert_eq!(
        error(r),
        (ErrorKind::TypeError, "Do not know how to serialize a BigInt".to_string()),
    );
}

fn parser(e: &mut Engine, q: &Ask) -> Option<Reply> {
    match q.op {
        Op::ParseJson => {
            if show(&q.args[0]) == "[1,2]" {
                let a = e.array(vec![num(1.0), num(2.0)]);
                Some(Reply::Value(a))
            } else {
                Some(Reply::Throw(3))
            }
        },
        _ => None,
    }
}

#[test]
fn parsing_with_a_reviver() {
    let mut e = Engine::new();
    e.extra = parser;
    let f = e.function(add_one);
    let args = vec![text("[1,2]"), f];
    let r = e.run(move |it| it.json_parse(&args, None)).unwrap();
    assert_eq!(e.shown(&r), ["2", "3"]);
    let args = vec![text("[1,2]")];
    let r = e.run(move |it| it.json_parse(&args, None)).unwrap();
    assert_eq!(e.shown(&r), ["1", "2"]);
    let args = vec![text("[")];
    assert!(matches!(e.run(move |it| it.json_parse(&args, None)), Err(Exception::Thrown(3))));
}

#[test]
fn console_lines() {
    let mut e = Engine::new();
    e.run(|it| it.console_log(&None, &vec![text("a"), num(1.0)])).unwrap();
    e.run(|it| it.alert(&None, &vec![text("hey")])).unwrap();
    assert_eq!(e.console, ["a 1", "[alert] hey"]);
}

fn closed(_: &mut Engine, q: &Ask) -> Option<Reply> {
    match q.op {
        Op::NonExtensible => Some(flag(true)),
        _ => None,
    }
}

fn fixed(_: &mut Engine, q: &Ask) -> Option<Reply> {
    match q.op {
        Op::Attributes => Some(Reply::List(vec![Value::Bool(false); 3])),
        _ => None,
    }
}

fn trapped(e: &mut Engine, q: &Ask) -> Option<Reply> {
    match q.op {
        Op::ProxyTarget => Some(Reply::Value(Value::Ref(Kind::Obj, 0))),
        Op::ProxyHandler => Some(Reply::Value(Value::Ref(Kind::Obj, 1))),
        Op::TrapKey => Some(Reply::Value(q.args[0].clone())),
        Op::Get => Some(Reply::Value(e.slot(&q.args[0], &show(&q.args[1])).unwrap())),
        _ => None,
    }
}

fn throws(_: &mut Engine, _: Option<Value>, _: Vec<Value>) -> Result<Value, u64> {
    Err(8)
}

fn revived(e: &mut Engine, target: &Value, key: &'static str) -> Result<Value, Exception> {
    let target = target.clone();
    e.run(
        move |it| match it.json_define_revived(&target, key, num(2.0)) {
            Ok(()) => Ok(Value::Undefined),
            Err(s) => Err(s),
        },
    )
}

#[test]
fn refused_parts_are_left_out() {
    let mut e = Engine::new();
    let o = e.object(&[("a", num(1.0))]);
    revived(&mut e, &o, "a").unwrap();
    assert_eq!(show(&e.slot(&o, "a").unwrap()), "2");
    let o = e.object(&[("a", num(1.0))]);
    e.extra = closed;
    revived(&mut e, &o, "b").unwrap();
    assert!(e.slot(&o, "b").is_none());
    e.extra = fixed;
    revived(&mut e, &o, "a").unwrap();
    assert_eq!(show(&e.slot(&o, "a").unwrap()), "1");
}

#[test]
fn what_a_trap_throws_is_handed_on() {
    let mut e = Engine::new();
    e.object(&[]);
    e.object(&[]);
    let f = e.function(throws);
    e.put(&Value::Ref(Kind::Obj, 1), "defineProperty", f);
    e.extra = trapped;
    let r = revived(&mut e, &Value::Proxy(0, false), "a");
    assert!(matches!(r, Err(Exception::Thrown(8))));
}

#[test]
fn instances_show_their_own_fields_in_order() {
    let mut e = Engine::new();
    let o = e.object(
        &[
            ("b", num(1.0)),
            ("#secret", num(2.0)),
            ("\0inner", num(3.0)),
            ("c", num(4.0)),
            ("\0ne:c", Value::Bool(true)),
            ("a", text("x")),
        ],
    );
    e.extra = instance_slots;
    let instance = Value::Ref(Kind::Instance, index(&o) as u64);
    assert_eq!(show(&stringify(&mut e, vec![instance]).unwrap()), "{\"a\":\"x\",\"b\":1}");
}

fn instance_slots(e: &mut Engine, q: &Ask) -> Option<Reply> {
    match q.op {
        Op::ParseJson => Some(Reply::Value(Value::Ref(Kind::Instance, 0))),
        Op::Get if matches!(&q.args[0], Value::Ref(Kind::Instance, _)) => {
            Some(Reply::Value(e.slot(&q.args[0], &show(&q.args[1])).unwrap_or(Value::Undefined)))
        },
        _ => None,
    }
}

#[test]
fn a_reviver_sees_the_listed_fields_of_an_instance() {
    let mut e = Engine::new();
    e.object(&[("b", num(1.0)), ("#secret", num(2.0)), ("\0inner", num(3.0))]);
    e.extra = instance_slots;
    let f = e.function(add_one);
    let args = vec![text("{}"), f];
    e.run(move |it| it.json_parse(&args, None)).unwrap();
    assert_eq!(show(&e.heap[0].slots[0].1), "2");
    assert_eq!(show(&e.heap[0].slots[1].1), "2");
    assert_eq!(show(&e.heap[0].slots[2].1), "3");
}

fn numbers_only(_: &mut Engine, q: &Ask) -> Option<Reply> {
    match q.op {
        Op::ParseJson => Some(Reply::Value(num(1.0))),
        _ => None,
    }
}

#[test]
fn raw_text_is_put_out_as_it_is() {
    let mut e = Engine::new();
    e.extra = numbers_only;
    let args = vec![text("1.00")];
    let raw = e.run(move |it| it.json_raw_json(&None, &args)).unwrap();
    assert_eq!(show(&e.slot(&raw, "rawJSON").unwrap()), "1.00");
    assert!(e.asked.iter().any(|op| matches!(op, Op::SetIntegrity(_))));
    let args = vec![raw.clone()];
    let is = e.run(move |it| it.json_is_raw_json(&None, &args)).unwrap();
    assert_eq!(show(&is), "true");
    let a = e.array(vec![raw]);
    assert_eq!(show(&stringify(&mut e, vec![a]).unwrap()), "[1.00]");
    let args = vec![text(" 1")];
    let r = e.run(move |it| it.json_raw_json(&None, &args));
    assert_eq!(error(r).0, ErrorKind::SyntaxError);
}

// The text of a value at the deepest level there is, and the path afterwards.
fn at_the_bottom(e: &mut Engine, v: &Value, start: &[Identity]) -> (Result<String, Exception>, Vec<Identity>) {
    let options = JsonOptions { replacer: None, keys: None, indent: String::new() };
    let mut replies = Vec::new();
    loop {
        let mut it = Interp::new(replies);
        let mut path = start.to_vec();
        match it.json_ser(v, "", &Value::Undefined, &options, usize::MAX, &mut path) {
            Ok(t) => return (Ok(t.unwrap().iter().collect()), path),
            Err(Stop::Throw(x)) => return (Err(x), path),
            Err(Stop::Ask(q)) => {
                replies = it.replies;
                let r = e.answer(&q);
                replies.push(r);
            },
        }
    }
}

#[test]
fn the_path_is_as_it_was() {
    let mut e = Engine::new();
    let inner = e.array(vec![num(1.0)]);
    let o = e.object(&[("a", inner)]);
    let start = [Identity::Object(Kind::Obj, 99)];
    let (t, path) = at_the_bottom(&mut e, &o, &start);
    assert_eq!(t.unwrap(), "{\"a\":[1]}");
    assert_eq!(path, start);
    e.put(&o, "self", o.clone());
    let (t, path) = at_the_bottom(&mut e, &o, &start);
    assert!(matches!(t, Err(Exception::Error(ErrorKind::TypeError, _))));
    assert_eq!(path, start);
}

fn around(e: &mut Engine, q: &Ask) -> Option<Reply> {
    match q.op {
        Op::ProxyKeys => Some(Reply::List(vec![text("a")])),
        Op::ProxyTarget => Some(Reply::Value(Value::Ref(Kind::Obj, 0))),
        Op::ProxyHandler => Some(Reply::Value(Value::Ref(Kind::Obj, 1))),
        Op::Get if matches!(&q.args[0], Value::Proxy(..)) => {
            let v = e.slot(&Value::Ref(Kind::Obj, 0), &show(&q.args[1]));
            Some(Reply::Value(v.unwrap_or(Value::Undefined)))
        },
        _ => None,
    }
}

fn seven(_: &mut Engine, _: Option<Value>, _: Vec<Value>) -> Result<Value, u64> {
    Ok(num(7.0))
}

#[test]
fn proxies_in_circles_and_with_a_method_of_their_own() {
    let mut e = Engine::new();
    e.extra = around;
    let proxy = Value::Proxy(5, false);
    e.object(&[("a", proxy.clone())]);
    e.object(&[]);
    assert_eq!(
        error(stringify(&mut e, vec![proxy.clone()])),
        (ErrorKind::TypeError, "Converting circular structure to JSON".to_string()),
    );
    let f = e.function(seven);
    e.put(&Value::Ref(Kind::Obj, 0), "toJSON", f);
    assert_eq!(show(&stringify(&mut e, vec![proxy]).unwrap()), "7");
}
