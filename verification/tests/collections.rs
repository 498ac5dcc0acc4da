use builtins::canvas::CanvasMethod;
use builtins::entries::{own_enumerable_entries, own_entries_all, Stored};
use builtins::heap::{Heap, ObjMap};
use builtins::host::{Ask, Exception, Interp, Op, Reply, Stop};
use builtins::number::Num;
use builtins::str_ops::StrOp;
use builtins::symbols::symbol_from_key;
use builtins::value::{ErrorKind, Kind, Value};

// A small engine: it answers what a built-in asks until the built-in has finished.
struct Engine {
    heap: Vec<Thing>,
    functions: Vec<fn(&mut Engine, Option<Value>, Vec<Value>) -> Result<Value, u64>>,
    console: Vec<String>,
    asked: Vec<Op>,
    extra: fn(&mut Engine, &Ask) -> Option<Reply>,
}

fn nothing_more(_: &mut Engine, _: &Ask) -> Option<Reply> {
    None
}

struct Thing {
    slots: Vec<(String, Value)>,
    items: Vec<Value>,
    holes: Vec<usize>,
}

fn num(x: f64) -> Value {
    Value::Num(Num { bits: x.to_bits() })
}

fn text(s: &str) -> Value {
    Value::Str(s.to_string())
}

fn show(v: &Value) -> String {
    match v {
        Value::Undefined => "undefined".to_string(),
        Value::Null => "null".to_string(),
        Value::Bool(b) => b.to_string(),
        Value::Num(n) => {
            let x = f64::from_bits(n.bits);
            if x == 0.0 { "0".to_string() } else { x.to_string() }
        },
        Value::Str(s) => s.clone(),
        Value::BigInt(s) => s.clone(),
        Value::Symbol(d) => format!("Symbol({})", d.desc.clone().unwrap_or_default()),
        other => format!("{:?}", other),
    }
}

fn number(v: &Value) -> f64 {
    match v {
        Value::Num(n) => f64::from_bits(n.bits),
        Value::Str(s) => if s.is_empty() { 0.0 } else { s.parse().unwrap_or(f64::NAN) },
        Value::Bool(b) => if *b { 1.0 } else { 0.0 },
        Value::Null => 0.0,
        _ => f64::NAN,
    }
}

fn index(v: &Value) -> usize {
    match v {
        Value::Ref(_, i) => *i as usize,
        other => panic!("no handle: {:?}", other),
    }
}

fn flag(b: bool) -> Reply {
    Reply::Value(Value::Bool(b))
}

impl Engine {
    fn new() -> Engine {
        Engine {
            heap: Vec::new(),
            functions: Vec::new(),
            console: Vec::new(),
            asked: Vec::new(),
            extra: nothing_more,
        }
    }

    fn object(&mut self, fields: &[(&str, Value)]) -> Value {
        let slots = fields.iter().map(|(k, v)| (k.to_string(), v.clone())).collect();
        self.heap.push(Thing { slots, items: Vec::new(), holes: Vec::new() });
        Value::Ref(Kind::Obj, (self.heap.len() - 1) as u64)
    }

    fn array(&mut self, items: Vec<Value>) -> Value {
        self.heap.push(Thing { slots: Vec::new(), items, holes: Vec::new() });
        Value::Ref(Kind::Arr, (self.heap.len() - 1) as u64)
    }

    fn function(
        &mut self,
        f: fn(&mut Engine, Option<Value>, Vec<Value>) -> Result<Value, u64>,
    ) -> Value {
        self.functions.push(f);
        self.heap.push(Thing { slots: Vec::new(), items: Vec::new(), holes: Vec::new() });
        Value::Ref(Kind::Fn, (self.functions.len() - 1) as u64)
    }

    fn slot(&self, o: &Value, key: &str) -> Option<Value> {
        match o {
            Value::Ref(Kind::Obj | Kind::Arr | Kind::Instance | Kind::Class, i) => {
                self.heap[*i as usize].slots.iter().find(|(k, _)| k == key).map(|(_, v)| v.clone())
            },
            _ => None,
        }
    }

    fn put(&mut self, o: &Value, key: &str, v: Value) {
        if matches!(o, Value::Ref(Kind::Arr, _)) {
            if let Ok(i) = key.parse::<usize>() {
                let t = &mut self.heap[index(o)];
                while t.items.len() <= i {
                    t.items.push(Value::Undefined);
                }
                t.items[i] = v;
                return;
            }
        }
        let t = &mut self.heap[index(o)];
        match t.slots.iter_mut().find(|(k, _)| k == key) {
            Some(s) => s.1 = v,
            None => t.slots.push((key.to_string(), v)),
        }
    }

    fn get(&self, o: &Value, key: &str) -> Option<Value> {
        if let Value::Ref(Kind::Arr, i) = o {
            let t = &self.heap[*i as usize];
            if key == "length" {
                return Some(num(t.items.len() as f64));
            }
            if let Ok(k) = key.parse::<usize>() {
                return if k < t.items.len() && !t.holes.contains(&k) {
                    Some(t.items[k].clone())
                } else {
                    None
                };
            }
        }
        if let Value::Str(s) = o {
            if key == "length" {
                return Some(num(s.encode_utf16().count() as f64));
            }
        }
        self.slot(o, key)
    }

    fn own(&self, o: &Value, key: &str) -> Option<Value> {
        match o {
            Value::Ref(Kind::Arr, _) => self.get(o, key),
            _ => self.slot(o, key),
        }
    }

    fn items(&self, v: &Value) -> Vec<Value> {
        self.heap[index(v)].items.clone()
    }

    fn shown(&self, v: &Value) -> Vec<String> {
        self.items(v).iter().map(show).collect()
    }

    fn call(&mut self, f: &Value, this: Option<Value>, args: Vec<Value>) -> Reply {
        let g = self.functions[index(f)];
        match g(self, this, args) {
            Ok(v) => Reply::Value(v),
            Err(n) => Reply::Throw(n),
        }
    }

    fn answer(&mut self, q: &Ask) -> Reply {
        self.asked.push(q.op);
        let more = self.extra;
        if let Some(r) = more(self, q) {
            return r;
        }
        let a = &q.args;
        match q.op {
            Op::Get => Reply::Value(self.get(&a[0], &show(&a[1])).unwrap_or(Value::Undefined)),
            Op::Has => flag(self.get(&a[0], &show(&a[1])).is_some()),
            Op::Assign => {
                self.put(&a[0], &show(&a[1]), a[2].clone());
                flag(true)
            },
            Op::Delete => {
                let key = show(&a[1]);
                self.heap[index(&a[0])].slots.retain(|(k, _)| *k != key);
                flag(true)
            },
            Op::OwnSlot => match self.own(&a[0], &show(&a[1])) {
                Some(v) => Reply::Value(v),
                None => Reply::Absent,
            },
            Op::StoreSlot => {
                self.put(&a[0], &show(&a[1]), a[2].clone());
                Reply::Absent
            },
            Op::Call => self.call(&a[0], Some(a[1].clone()), a[2..].to_vec()),
            Op::CallBare => self.call(&a[0], None, a[1..].to_vec()),
            Op::ToNumber | Op::PlainNumber => match &a[0] {
                Value::Symbol(_) => Reply::Throw(7),
                v => Reply::Value(num(number(v))),
            },
            Op::ToInteger => {
                let x = number(&a[0]);
                Reply::Value(num(if x.is_nan() { 0.0 } else { x.trunc() }))
            },
            Op::ToInt32 | Op::PlainInt32 => {
                let x = number(&a[0]);
                let i = if x.is_finite() { x as i64 as i32 } else { 0 };
                Reply::Value(num(i as f64))
            },
            Op::DelayOf => Reply::Value(num(number(&a[0]).max(0.0))),
            Op::ToText | Op::Display | Op::ToKey | Op::ToPrimitiveText => Reply::Value(text(&show(&a[0]))),
            Op::IsArray => flag(matches!(&a[0], Value::Ref(Kind::Arr, _))),
            Op::IsConstructor => flag(matches!(&a[0], Value::Native(_))),
            Op::ArrayLen => Reply::Value(num(self.items(&a[0]).len() as f64)),
            Op::ArrayPresent => {
                let k = number(&a[1]) as usize;
                let t = &self.heap[index(&a[0])];
                flag(k < t.items.len() && !t.holes.contains(&k))
            },
            Op::ArrayHole => {
                let k = number(&a[1]) as usize;
                flag(self.heap[index(&a[0])].holes.contains(&k))
            },
            Op::HasHoles => flag(!self.heap[index(&a[0])].holes.is_empty()),
            Op::FillHoles => {
                self.heap[index(&a[0])].holes.clear();
                Reply::Absent
            },
            Op::Elements => Reply::List(self.items(&a[0])),
            Op::StoreElements => {
                let i = index(&a[0]);
                self.heap[i].items = a[1..].to_vec();
                self.heap[i].holes.clear();
                Reply::Absent
            },
            Op::AppendElements => {
                self.heap[index(&a[0])].items.extend(a[1..].to_vec());
                Reply::Absent
            },
            Op::StoreElement => {
                self.put(&a[0], &show(&a[1]), a[2].clone());
                Reply::Absent
            },
            Op::StoredSlot => match self.get(&a[0], &show(&a[1])) {
                Some(v) => Reply::Value(v),
                None => Reply::Absent,
            },
            Op::StoreProperty => {
                self.put(&a[0], &show(&a[1]), a[3].clone());
                Reply::Absent
            },
            Op::Attributes => Reply::List(vec![Value::Bool(true); 3]),
            Op::SetAttributes | Op::SetIntegrity(_) => Reply::Absent,
            Op::ReportError => {
                self.console.push(format!("reported {}", show(&a[0])));
                Reply::Absent
            },
            Op::MappedParam => flag(false),
            Op::StoredKeys | Op::ArrayProps => {
                let t = &self.heap[index(&a[0])];
                Reply::List(t.slots.iter().map(|(k, _)| text(k)).collect())
            },
            Op::NewArray => Reply::Value(self.array(a.clone())),
            Op::NewObject => {
                let o = self.object(&[]);
                for p in a.chunks(2) {
                    self.put(&o, &show(&p[0]), p[1].clone());
                }
                Reply::Value(o)
            },
            Op::Keys => {
                let t = &self.heap[index(&a[0])];
                Reply::List(
                    t.slots.iter().filter(|(k, _)| !k.starts_with('\0')).map(|(k, _)| text(k)).collect(),
                )
            },
            Op::StoredFields => {
                let t = &self.heap[index(&a[0])];
                let mut l = Vec::new();
                for (k, v) in &t.slots {
                    l.push(text(k));
                    l.push(v.clone());
                }
                Reply::List(l)
            },
            Op::NewWrapper => {
                let o = self.object(&[("\0value", a[0].clone())]);
                Reply::Value(o)
            },
            Op::IsFrozen | Op::NonExtensible | Op::IsDate | Op::IsRegex | Op::IsRegexLike => flag(false),
            Op::LengthWritable | Op::ConcatSpreadable | Op::HasDocument => {
                flag(!matches!(&a.first(), Some(Value::Num(_)) | Some(Value::Str(_))))
            },
            Op::Wrapped | Op::RegexParts | Op::CollectionSlot => Reply::Absent,
            Op::JsonNumber | Op::NumberText => Reply::Value(text(&show(&a[0]))),
            Op::DecimalNumber => Reply::Value(num(show(&a[0]).parse().unwrap())),
            Op::DigitsNumber => {
                let radix = number(&a[0]) as u32;
                let mut x = 0.0;
                for c in show(&a[1]).chars() {
                    x = x * radix as f64 + c.to_digit(radix).unwrap() as f64;
                }
                Reply::Value(num(x))
            },
            Op::Console => {
                self.console.push(show(&a[0]));
                Reply::Absent
            },
            Op::PlusOne => Reply::Value(num(number(&a[0]) + 1.0)),
            Op::Sum => Reply::Value(num(number(&a[0]) + number(&a[1]))),
            Op::NewPromise => {
                let p = self.object(&[("\0state", text("pending"))]);
                Reply::Value(p)
            },
            Op::ResolvePromise => {
                self.put(&a[0], "\0state", text("fulfilled"));
                self.put(&a[0], "\0value", a[1].clone());
                Reply::Absent
            },
            Op::RejectPromise => {
                self.put(&a[0], "\0state", text("rejected"));
                self.put(&a[0], "\0value", a[1].clone());
                Reply::Absent
            },
            Op::SettleState => {
                if self.slot(&a[0], "\0state").map(|s| show(&s)) == Some("rejected".to_string()) {
                    Reply::List(vec![Value::Bool(false), self.slot(&a[0], "\0value").unwrap()])
                } else {
                    let v = self.slot(&a[0], "\0value").unwrap_or(a[0].clone());
                    Reply::List(vec![Value::Bool(true), v])
                }
            },
            Op::IsPromise => flag(self.slot(&a[0], "\0state").is_some()),
            Op::AbsoluteUrl | Op::ResolveUrl => Reply::Value(text(&format!("http://page/{}", show(&a[0])))),
            Op::SameCallable => flag(matches!((&a[0], &a[1]),
                (Value::Ref(_, i), Value::Ref(_, j)) if i == j)),
            Op::ThrownMessage => Reply::Value(text("broken")),
            Op::DeliverMutations => Reply::Absent,
            Op::Intrinsic(_) => {
                let o = self.object(&[]);
                Reply::Value(o)
            },
            Op::SetOwn => {
                let v = self.slot(&a[2], "value").unwrap_or(Value::Undefined);
                self.put(&a[0], &show(&a[1]), v);
                flag(true)
            },
            Op::NewSparseArray => {
                let n = number(&a[0]) as usize;
                let v = self.array(a[1..1 + n].to_vec());
                let i = index(&v);
                self.heap[i].holes = a[1 + n..].iter().map(|x| number(x) as usize).collect();
                Reply::Value(v)
            },
            Op::IterateAll => match &a[0] {
                Value::Str(s) => Reply::List(s.chars().map(|c| text(&c.to_string())).collect()),
                v => Reply::List(self.items(v)),
            },
            Op::IsArrayLike => flag(self.slot(&a[0], "length").is_some()),
            op => panic!("not answered: {:?} {:?}", op, a),
        }
    }

    fn run(
        &mut self,
        f: impl Fn(&mut Interp) -> Result<Value, Stop>,
    ) -> Result<Value, Exception> {
        let mut replies = Vec::new();
        loop {
            let mut it = Interp::new(replies);
            match f(&mut it) {
                Ok(v) => return Ok(v),
                Err(Stop::Throw(e)) => return Err(e),
                Err(Stop::Ask(q)) => {
                    replies = it.replies;
                    let r = self.answer(&q);
                    replies.push(r);
                },
            }
        }
    }
}

fn error(r: Result<Value, Exception>) -> (ErrorKind, String) {
    match r {
        Err(Exception::Error(k, m)) => (k, m),
        other => panic!("no error: {:?}", other),
    }
}

fn parity(_: &mut Engine, _: Option<Value>, args: Vec<Value>) -> Result<Value, u64> {
    Ok(text(if number(&args[0]) % 2.0 == 0.0 { "even" } else { "odd" }))
}

#[test]
fn grouping_keeps_every_item() {
    let mut e = Engine::new();
    let list = e.array((1..6).map(|x| num(x as f64)).collect());
    let f = e.function(parity);
    let args = vec![list, f];
    let r = e.run(|it| it.object_group_by(&None, &args)).unwrap();
    let odd = e.slot(&r, "odd").unwrap();
    let even = e.slot(&r, "even").unwrap();
    assert_eq!(e.shown(&odd), ["1", "3", "5"]);
    assert_eq!(e.shown(&even), ["2", "4"]);
    assert_eq!(show(&e.slot(&r, "__proto__").unwrap()), "null");
    let r = e.run(|it| it.object_group_by(&None, &vec![]));
    assert_eq!(
        error(r),
        (ErrorKind::TypeError, "Object.groupBy callback is not callable".to_string()),
    );
}

fn map(fields: &[(&str, Value)]) -> ObjMap {
    let mut m = ObjMap::new();
    for (k, v) in fields {
        m.insert(k.to_string(), v.clone());
    }
    m
}

#[test]
fn stored_values_read_back() {
    let mut m = map(&[("a", num(1.0)), ("b", num(2.0))]);
    m.insert("a".to_string(), num(3.0));
    assert_eq!(m.items.len(), 2);
    assert_eq!(show(&m.get("a").unwrap()), "3");
    assert_eq!(show(&m.get("b").unwrap()), "2");
    m.remove("a");
    assert!(m.get("a").is_none() && !m.contains_key("a") && m.contains_key("b"));
}

fn finish<T>(e: &mut Engine, mut f: impl FnMut(&mut Interp) -> Result<T, Stop>) -> Result<T, Exception> {
    let mut replies = Vec::new();
    loop {
        let mut it = Interp::new(replies);
        match f(&mut it) {
            Ok(v) => return Ok(v),
            Err(Stop::Throw(x)) => return Err(x),
            Err(Stop::Ask(q)) => {
                replies = it.replies;
                let r = e.answer(&q);
                replies.push(r);
            },
        }
    }
}

#[test]
fn elements_of_array_like_objects() {
    let mut e = Engine::new();
    let mut heap = Heap {
        objects: vec![
            map(&[("length", num(3.0)), ("0", text("x")), ("2", text("z")), ("7", text("far"))]),
            map(&[]),
            map(&[("length", num(4294967296.0))]),
        ],
    };
    assert!(finish(&mut e, |it| it.is_array_like(&heap, 0)).unwrap());
    assert!(!finish(&mut e, |it| it.is_array_like(&heap, 1)).unwrap());
    let l = finish(&mut e, |it| it.array_like_to_vec(&heap, 0)).unwrap();
    assert_eq!(l.iter().map(show).collect::<Vec<String>>(), ["x", "undefined", "z"]);
    assert!(matches!(
        finish(&mut e, |it| it.array_like_to_vec(&heap, 2)),
        Err(Exception::Error(ErrorKind::RangeError, _))
    ));
    let items = vec![text("p"), text("q")];
    finish(&mut e, |it| it.write_back_array_like(&mut heap, 0, &items)).unwrap();
    let l = finish(&mut e, |it| it.array_like_to_vec(&heap, 0)).unwrap();
    assert_eq!(l.iter().map(show).collect::<Vec<String>>(), ["p", "q"]);
    assert!(heap.objects[0].get("2").is_none());
    assert_eq!(show(&heap.objects[0].get("7").unwrap()), "far");
}

#[test]
fn fields_that_are_shown() {
    let m = map(&[("a", num(1.0)), ("\0inner", num(2.0)), ("__proto__", Value::Null)]);
    let keys: Vec<String> =
        own_enumerable_entries(&Stored::Instance(m)).into_iter().map(|x| x.key).collect();
    assert_eq!(keys, ["a"]);
    let m = map(&[("a", num(1.0)), ("\0inner", num(2.0)), ("__proto__", Value::Null)]);
    let keys: Vec<String> =
        own_entries_all(&Stored::Object(m, Vec::new())).into_iter().map(|x| x.key).collect();
    assert_eq!(keys, ["a", "\0inner"]);
}

#[test]
fn long_indentations_and_repeated_keys() {
    let mut e = Engine::new();
    let o = e.object(&[("a", num(1.0)), ("b", num(2.0))]);
    let keys = e.array(vec![text("b"), text("b"), Value::Null]);
    let args = vec![o.clone(), keys];
    let r = e.run(|it| it.json_stringify(&None, &args)).unwrap();
    assert_eq!(show(&r), "{\"b\":2}");
    let args = vec![o.clone(), Value::Null, num(40.0)];
    let r = e.run(|it| it.json_stringify(&None, &args)).unwrap();
    assert_eq!(show(&r), "{\n          \"a\": 1,\n          \"b\": 2\n}");
    let args = vec![o, Value::Null, text("0123456789abc")];
    let r = e.run(|it| it.json_stringify(&None, &args)).unwrap();
    assert_eq!(show(&r), "{\n0123456789\"a\": 1,\n0123456789\"b\": 2\n}");
}

fn supports(e: &mut Engine, q: &Ask) -> Option<Reply> {
    match q.op {
        Op::StyleSupported => {
            e.console.push(show(&q.args[0]));
            Some(flag(true))
        },
        _ => None,
    }
}

#[test]
fn conditions_on_styles() {
    let mut e = Engine::new();
    e.extra = supports;
    assert_eq!(show(&e.run(|it| it.css_supports(&None, &vec![])).unwrap()), "false");
    for args in [vec![text("color: red")], vec![text(" (a)")], vec![text("color"), text("red")]] {
        e.run(|it| it.css_supports(&None, &args)).unwrap();
    }
    assert_eq!(e.console, ["(color: red)", " (a)", "(color: red)"]);
}

fn counter(_: &mut Engine, q: &Ask) -> Option<Reply> {
    match q.op {
        Op::NextSymbol => Some(Reply::Value(num(12.0))),
        _ => None,
    }
}

#[test]
fn the_registry_of_symbols() {
    let mut e = Engine::new();
    e.extra = counter;
    let s = e.run(|it| it.symbol_for(&vec![text("app")])).unwrap();
    let args = vec![s];
    assert_eq!(show(&e.run(|it| it.symbol_key_for(&args)).unwrap()), "app");
    let fresh = e.run(|it| it.symbol_ctor(&vec![text("d")])).unwrap();
    if let Value::Symbol(d) = &fresh {
        let again = symbol_from_key(&d.key);
        assert_eq!(show(&again), "Symbol(d)");
    }
    let args = vec![fresh];
    assert_eq!(show(&e.run(|it| it.symbol_key_for(&args)).unwrap()), "undefined");
}

fn method(op: StrOp, this: &str, args: Vec<Value>) -> String {
    let mut e = Engine::new();
    let recv = Some(text(this));
    show(&e.run(move |it| it.str_op(op, &recv, &args)).unwrap())
}

#[test]
fn replacing_texts() {
    assert_eq!(method(StrOp::Replace, "abab", vec![text("x"), text("y")]), "abab");
    assert_eq!(method(StrOp::Replace, "abab", vec![text("b"), text("[$&]")]), "a[b]ab");
    assert_eq!(method(StrOp::ReplaceAll, "abab", vec![text("b"), text("$&")]), "abab");
    assert_eq!(method(StrOp::ReplaceAll, "abab", vec![text("b"), text("$$")]), "a$a$");
}

#[test]
fn splitting_and_joining() {
    let mut e = Engine::new();
    let recv = Some(text("a,b,,c"));
    let args = vec![text(",")];
    let r = e.run(|it| it.str_op(StrOp::Split, &recv, &args)).unwrap();
    assert_eq!(e.shown(&r), ["a", "b", "", "c"]);
    assert_eq!(e.shown(&r).join(","), "a,b,,c");
    let args = vec![text(","), num(2.0)];
    let r = e.run(|it| it.str_op(StrOp::Split, &recv, &args)).unwrap();
    assert_eq!(e.shown(&r), ["a", "b"]);
}

fn paper(e: &mut Engine, q: &Ask) -> Option<Reply> {
    let a = &q.args;
    match q.op {
        Op::Single => Some(Reply::Value(num(number(&a[0])))),
        Op::Singles => Some(Reply::List(a.clone())),
        Op::Colour => Some(Reply::List(vec![num(0.0), num(0.0), num(0.0), num(255.0)])),
        Op::ScaleOpacity | Op::ClampUnit => Some(Reply::Value(a[0].clone())),
        Op::LastShadow => Some(Reply::List(e.heap[0].items.clone())),
        Op::CanRender => Some(flag(true)),
        Op::AttributeText => Some(Reply::Value(text("2"))),
        Op::Raster => Some(Reply::List((0..16).map(|x| num(x as f64)).collect())),
        Op::Draw(c) => {
            let rest = a[1..].iter().map(show).collect::<Vec<String>>().join(" ");
            e.console.push(format!("{:?} {}", c, rest));
            if format!("{:?}", c) == "SetShadow" {
                e.heap[0].items = a[1..].to_vec();
            }
            Some(Reply::Absent)
        },
        _ => None,
    }
}

fn draw(e: &mut Engine, ctx: &Value, m: CanvasMethod, args: Vec<Value>) -> Value {
    let recv = Some(ctx.clone());
    e.run(move |it| it.canvas_method(m, &recv, &args)).unwrap()
}

#[test]
fn a_shadow_is_sent_once() {
    let mut e = Engine::new();
    e.extra = paper;
    e.array(vec![]);
    let ctx = e.object(&[("\0canvas", num(0.0)), ("shadowColor", text("black"))]);
    let rect: Vec<Value> = (1..5).map(|x| num(x as f64)).collect();
    draw(&mut e, &ctx, CanvasMethod::ClearRect, rect.clone());
    draw(&mut e, &ctx, CanvasMethod::ClearRect, rect);
    assert_eq!(
        e.console,
        ["SetShadow 0 0 0 255 0 0 0", "ClearRect 1 2 3 4", "ClearRect 1 2 3 4"],
    );
}

#[test]
fn stops_of_a_gradient() {
    let mut e = Engine::new();
    e.extra = paper;
    e.array(vec![]);
    let ctx = e.object(&[("\0canvas", num(0.0))]);
    let g = draw(&mut e, &ctx, CanvasMethod::CreateLinearGradient, vec![num(1.0); 4]);
    assert!(e.slot(&g, "addColorStop").is_some());
    draw(&mut e, &g, CanvasMethod::AddColorStop, vec![num(1.0), text("red")]);
    draw(&mut e, &g, CanvasMethod::AddColorStop, vec![num(0.0), text("blue")]);
    let stops = e.slot(&g, "\0stops").unwrap();
    let first = e.items(&stops)[0].clone();
    assert_eq!(e.shown(&first), ["1", "red"]);
    e.put(&ctx, "fillStyle", g);
    let rect: Vec<Value> = (1..5).map(|x| num(x as f64)).collect();
    draw(&mut e, &ctx, CanvasMethod::FillRect, rect);
    assert!(e.console[0].starts_with("FillGradient 1 2 3 4"));
    let zero = e.console[0].find("0 0 0 255 0").unwrap();
    let one = e.console[0].find("0 0 0 255 1").unwrap();
    assert!(zero < one);
}

#[test]
fn cutting_pixels_out() {
    let mut e = Engine::new();
    e.extra = paper;
    e.array(vec![]);
    let ctx = e.object(&[("\0canvas", num(0.0))]);
    let args = vec![num(1.0), num(1.0), num(2.0), num(1.0)];
    let r = draw(&mut e, &ctx, CanvasMethod::GetImageData, args);
    let data = e.slot(&r, "data").unwrap();
    assert_eq!(e.shown(&data), ["12", "13", "14", "15", "0", "0", "0", "0"]);
    assert_eq!(show(&e.slot(&r, "width").unwrap()), "2");
    let r = draw(&mut e, &ctx, CanvasMethod::GetImageData, vec![]);
    assert_eq!(show(&r), "null");
}

#[test]
fn restoring_a_saved_state() {
    let mut e = Engine::new();
    e.extra = paper;
    e.array(vec![]);
    let ctx = e.object(
        &[
            ("\0canvas", num(0.0)),
            ("shadowColor", text("rgba(0,0,0,0)")),
            ("lineCap", text("butt")),
            ("textAlign", text("start")),
            ("fillStyle", text("black")),
            ("shadowBlur", num(0.0)),
        ],
    );
    e.heap[0].items = vec![num(0.0); 7];
    draw(&mut e, &ctx, CanvasMethod::Save, vec![]);
    e.put(&ctx, "lineCap", text("round"));
    e.put(&ctx, "textAlign", text("end"));
    e.put(&ctx, "fillStyle", text("red"));
    e.put(&ctx, "shadowBlur", num(4.0));
    e.console.clear();
    draw(&mut e, &ctx, CanvasMethod::Restore, vec![]);
    assert_eq!(show(&e.slot(&ctx, "lineCap").unwrap()), "butt");
    assert_eq!(show(&e.slot(&ctx, "textAlign").unwrap()), "start");
    assert_eq!(show(&e.slot(&ctx, "fillStyle").unwrap()), "black");
    assert_eq!(show(&e.slot(&ctx, "shadowBlur").unwrap()), "0");
    let last: Vec<&str> =
        e.console.iter().rev().take(2).map(|l| l.split(' ').next().unwrap()).collect();
    assert_eq!(last, ["Unclip", "SetTransform"]);
}

#[test]
fn entries_of_a_function() {
    let m = map(&[("__proto__", Value::Null), ("a", num(1.0)), ("prototype", num(2.0))]);
    let l = own_enumerable_entries(&Stored::Function(m));
    assert_eq!(l.len(), 1);
    assert_eq!(l[0].key, "a");
    assert_eq!(show(&l[0].value), "1");
}

#[test]
fn pushing_onto_an_array_like_object() {
    let mut e = Engine::new();
    let mut heap = Heap { objects: vec![map(&[("length", num(1.0)), ("0", text("x"))])] };
    let recv = Some(Value::Ref(Kind::Obj, 0));
    let args = vec![text("y"), text("z")];
    let mut replies = Vec::new();
    let result = loop {
        let mut it = Interp::new(replies);
        let q = match it.array_push(&recv, &args) {
            Ok(v) => break v,
            Err(Stop::Ask(q)) => q,
            Err(Stop::Throw(x)) => panic!("{:?}", x),
        };
        replies = it.replies;
        replies.push(
            match q.op {
                Op::IsArrayLike => flag(finish(&mut e, |it| it.is_array_like(&heap, 0)).unwrap()),
                Op::ArrayLikeItems => {
                    Reply::List(finish(&mut e, |it| it.array_like_to_vec(&heap, 0)).unwrap())
                },
                Op::WriteBack => {
                    let l = q.args[1..].to_vec();
                    finish(&mut e, |it| it.write_back_array_like(&mut heap, 0, &l)).unwrap();
                    Reply::Absent
                },
                op => panic!("not answered: {:?}", op),
            },
        );
    };
    assert_eq!(show(&result), "3");
    let l = finish(&mut e, |it| it.array_like_to_vec(&heap, 0)).unwrap();
    assert_eq!(l.iter().map(show).collect::<Vec<String>>(), ["x", "y", "z"]);
}

#[test]
fn a_shadow_that_changes_is_sent_again() {
    let mut e = Engine::new();
    e.extra = paper;
    e.array(vec![]);
    let ctx = e.object(&[("\0canvas", num(0.0)), ("shadowColor", text("black"))]);
    let rect: Vec<Value> = (1..5).map(|x| num(x as f64)).collect();
    for blur in [1.0, 1.0, 2.0, 2.0, 1.0] {
        e.put(&ctx, "shadowBlur", num(blur));
        draw(&mut e, &ctx, CanvasMethod::ClearRect, rect.clone());
    }
    let sent: Vec<String> =
        e.console.iter().filter(|l| l.starts_with("SetShadow")).cloned().collect();
    assert_eq!(
        sent,
        [
            "SetShadow 0 0 0 255 1 0 0",
            "SetShadow 0 0 0 255 2 0 0",
            "SetShadow 0 0 0 255 1 0 0",
        ],
    );
}

fn no_integers(_: &mut Engine, q: &Ask) -> Option<Reply> {
    match q.op {
        Op::BigIntOfNumber => Some(Reply::Absent),
        _ => None,
    }
}

#[test]
fn fractions_are_no_big_integers() {
    let mut e = Engine::new();
    e.extra = no_integers;
    let r = e.run(|it| it.big_int_ctor(&None, &vec![num(1.5)]));
    assert_eq!(error(r).0, ErrorKind::RangeError);
    let r = e.run(|it| it.big_int_ctor(&None, &vec![Value::Bool(true)])).unwrap();
    assert_eq!(show(&r), "1");
}
