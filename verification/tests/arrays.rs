use builtins::array_live::ArrOp;
use builtins::host::{Ask, Exception, Interp, Op, Reply, Stop};
use builtins::number::Num;
use builtins::value::Native;
use builtins::value::{ErrorKind, Kind, Value};

// A small engine: it answers what a built-in asks until the built-in has finished.
struct Engine {
    heap: Vec<Thing>,
    functions: Vec<fn(&mut Engine, Option<Value>, Vec<Value>) -> Result<Value, u64>>,
    console: Vec<String>,
    asked: Vec<Op>,
    extra: fn(&mut Engine, &Ask) -> Option<Reply>,
}

fn nothing_more(_: &mut Engine, _: &Ask) -> Option<Reply> {
    None
}

struct Thing {
    slots: Vec<(String, Value)>,
    items: Vec<Value>,
    holes: Vec<usize>,
}

fn num(x: f64) -> Value {
    Value::Num(Num { bits: x.to_bits() })
}

fn text(s: &str) -> Value {
    Value::Str(s.to_string())
}

fn show(v: &Value) -> String {
    match v {
        Value::Undefined => "undefined".to_string(),
        Value::Null => "null".to_string(),
        Value::Bool(b) => b.to_string(),
        Value::Num(n) => {
            let x = f64::from_bits(n.bits);
            if x == 0.0 { "0".to_string() } else { x.to_string() }
        },
        Value::Str(s) => s.clone(),
        Value::BigInt(s) => s.clone(),
        Value::Symbol(d) => format!("Symbol({})", d.desc.clone().unwrap_or_default()),
        other => format!("{:?}", other),
    }
}

fn number(v: &Value) -> f64 {
    match v {
        Value::Num(n) => f64::from_bits(n.bits),
        Value::Str(s) => if s.is_empty() { 0.0 } else { s.parse().unwrap_or(f64::NAN) },
        Value::Bool(b) => if *b { 1.0 } else { 0.0 },
        Value::Null => 0.0,
        _ => f64::NAN,
    }
}

fn index(v: &Value) -> usize {
    match v {
        Value::Ref(_, i) => *i as usize,
        other => panic!("no handle: {:?}", other),
    }
}

fn flag(b: bool) -> Reply {
    Reply::Value(Value::Bool(b))
}

impl Engine {
    fn new() -> Engine {
        Engine {
            heap: Vec::new(),
            functions: Vec::new(),
            console: Vec::new(),
            asked: Vec::new(),
            extra: nothing_more,
        }
    }

    fn object(&mut self, fields: &[(&str, Value)]) -> Value {
        let slots = fields.iter().map(|(k, v)| (k.to_string(), v.clone())).collect();
        self.heap.push(Thing { slots, items: Vec::new(), holes: Vec::new() });
        Value::Ref(Kind::Obj, (self.heap.len() - 1) as u64)
    }

    fn array(&mut self, items: Vec<Value>) -> Value {
        self.heap.push(Thing { slots: Vec::new(), items, holes: Vec::new() });
        Value::Ref(Kind::Arr, (self.heap.len() - 1) as u64)
    }

    fn function(
        &mut self,
        f: fn(&mut Engine, Option<Value>, Vec<Value>) -> Result<Value, u64>,
    ) -> Value {
        self.functions.push(f);
        self.heap.push(Thing { slots: Vec::new(), items: Vec::new(), holes: Vec::new() });
        Value::Ref(Kind::Fn, (self.functions.len() - 1) as u64)
    }

    fn slot(&self, o: &Value, key: &str) -> Option<Value> {
        match o {
            Value::Ref(Kind::Obj | Kind::Arr | Kind::Instance | Kind::Class, i) => {
                self.heap[*i as usize].slots.iter().find(|(k, _)| k == key).map(|(_, v)| v.clone())
            },
            _ => None,
        }
    }

    fn put(&mut self, o: &Value, key: &str, v: Value) {
        if matches!(o, Value::Ref(Kind::Arr, _)) {
            if let Ok(i) = key.parse::<usize>() {
                let t = &mut self.heap[index(o)];
                while t.items.len() <= i {
                    t.items.push(Value::Undefined);
                }
                t.items[i] = v;
                return;
            }
        }
        let t = &mut self.heap[index(o)];
        match t.slots.iter_mut().find(|(k, _)| k == key) {
            Some(s) => s.1 = v,
            None => t.slots.push((key.to_string(), v)),
        }
    }

    fn get(&self, o: &Value, key: &str) -> Option<Value> {
        if let Value::Ref(Kind::Arr, i) = o {
            let t = &self.heap[*i as usize];
            if key == "length" {
                return Some(num(t.items.len() as f64));
            }
            if let Ok(k) = key.parse::<usize>() {
                return if k < t.items.len() && !t.holes.contains(&k) {
                    Some(t.items[k].clone())
                } else {
                    None
                };
            }
        }
        if let Value::Str(s) = o {
            if key == "length" {
                return Some(num(s.encode_utf16().count() as f64));
            }
        }
        self.slot(o, key)
    }

    fn own(&self, o: &Value, key: &str) -> Option<Value> {
        match o {
            Value::Ref(Kind::Arr, _) => self.get(o, key),
            _ => self.slot(o, key),
        }
    }

    fn items(&self, v: &Value) -> Vec<Value> {
        self.heap[index(v)].items.clone()
    }

    fn shown(&self, v: &Value) -> Vec<String> {
        self.items(v).iter().map(show).collect()
    }

    fn call(&mut self, f: &Value, this: Option<Value>, args: Vec<Value>) -> Reply {
        let g = self.functions[index(f)];
        match g(self, this, args) {
            Ok(v) => Reply::Value(v),
            Err(n) => Reply::Throw(n),
        }
    }

    fn answer(&mut self, q: &Ask) -> Reply {
        self.asked.push(q.op);
        let more = self.extra;
        if let Some(r) = more(self, q) {
            return r;
        }
        let a = &q.args;
        match q.op {
            Op::Get => Reply::Value(self.get(&a[0], &show(&a[1])).unwrap_or(Value::Undefined)),
            Op::Has => flag(self.get(&a[0], &show(&a[1])).is_some()),
            Op::Assign => {
                self.put(&a[0], &show(&a[1]), a[2].clone());
                flag(true)
            },
            Op::Delete => {
                let key = show(&a[1]);
                self.heap[index(&a[0])].slots.retain(|(k, _)| *k != key);
                flag(true)
            },
            Op::OwnSlot => match self.own(&a[0], &show(&a[1])) {
                Some(v) => Reply::Value(v),
                None => Reply::Absent,
            },
            Op::StoreSlot => {
                self.put(&a[0], &show(&a[1]), a[2].clone());
                Reply::Absent
            },
            Op::Call => self.call(&a[0], Some(a[1].clone()), a[2..].to_vec()),
            Op::CallBare => self.call(&a[0], None, a[1..].to_vec()),
            Op::ToNumber | Op::PlainNumber => match &a[0] {
                Value::Symbol(_) => Reply::Throw(7),
                v => Reply::Value(num(number(v))),
            },
            Op::ToInteger => {
                let x = number(&a[0]);
                Reply::Value(num(if x.is_nan() { 0.0 } else { x.trunc() }))
            },
            Op::ToInt32 | Op::PlainInt32 => {
                let x = number(&a[0]);
                let i = if x.is_finite() { x as i64 as i32 } else { 0 };
                Reply::Value(num(i as f64))
            },
            Op::DelayOf => Reply::Value(num(number(&a[0]).max(0.0))),
            Op::ToText | Op::Display | Op::ToKey | Op::ToPrimitiveText => Reply::Value(text(&show(&a[0]))),
            Op::IsArray => flag(matches!(&a[0], Value::Ref(Kind::Arr, _))),
            Op::IsConstructor => flag(matches!(&a[0], Value::Native(_))),
            Op::ArrayLen => Reply::Value(num(self.items(&a[0]).len() as f64)),
            Op::ArrayPresent => {
                let k = number(&a[1]) as usize;
                let t = &self.heap[index(&a[0])];
                flag(k < t.items.len() && !t.holes.contains(&k))
            },
            Op::ArrayHole => {
                let k = number(&a[1]) as usize;
                flag(self.heap[index(&a[0])].holes.contains(&k))
            },
            Op::HasHoles => flag(!self.heap[index(&a[0])].holes.is_empty()),
            Op::FillHoles => {
                self.heap[index(&a[0])].holes.clear();
                Reply::Absent
            },
            Op::Elements => Reply::List(self.items(&a[0])),
            Op::StoreElements => {
                let i = index(&a[0]);
                self.heap[i].items = a[1..].to_vec();
                self.heap[i].holes.clear();
                Reply::Absent
            },
            Op::AppendElements => {
                self.heap[index(&a[0])].items.extend(a[1..].to_vec());
                Reply::Absent
            },
            Op::StoreElement => {
                self.put(&a[0], &show(&a[1]), a[2].clone());
                Reply::Absent
            },
            Op::StoredSlot => match self.get(&a[0], &show(&a[1])) {
                Some(v) => Reply::Value(v),
                None => Reply::Absent,
            },
            Op::StoreProperty => {
                self.put(&a[0], &show(&a[1]), a[3].clone());
                Reply::Absent
            },
            Op::Attributes => Reply::List(vec![Value::Bool(true); 3]),
            Op::SetAttributes | Op::SetIntegrity(_) => Reply::Absent,
            Op::ReportError => {
                self.console.push(format!("reported {}", show(&a[0])));
                Reply::Absent
            },
            Op::MappedParam => flag(false),
            Op::StoredKeys | Op::ArrayProps => {
                let t = &self.heap[index(&a[0])];
                Reply::List(t.slots.iter().map(|(k, _)| text(k)).collect())
            },
            Op::NewArray => Reply::Value(self.array(a.clone())),
            Op::NewObject => {
                let o = self.object(&[]);
                for p in a.chunks(2) {
                    self.put(&o, &show(&p[0]), p[1].clone());
                }
                Reply::Value(o)
            },
            Op::Keys => {
                let t = &self.heap[index(&a[0])];
                Reply::List(
                    t.slots.iter().filter(|(k, _)| !k.starts_with('\0')).map(|(k, _)| text(k)).collect(),
                )
            },
            Op::StoredFields => {
                let t = &self.heap[index(&a[0])];
                let mut l = Vec::new();
                for (k, v) in &t.slots {
                    l.push(text(k));
                    l.push(v.clone());
                }
                Reply::List(l)
            },
            Op::NewWrapper => {
                let o = self.object(&[("\0value", a[0].clone())]);
                Reply::Value(o)
            },
            Op::IsFrozen | Op::NonExtensible | Op::IsDate | Op::IsRegex | Op::IsRegexLike => flag(false),
            Op::LengthWritable | Op::ConcatSpreadable | Op::HasDocument => {
                flag(!matches!(&a.first(), Some(Value::Num(_)) | Some(Value::Str(_))))
            },
            Op::Wrapped | Op::RegexParts | Op::CollectionSlot => Reply::Absent,
            Op::JsonNumber | Op::NumberText => Reply::Value(text(&show(&a[0]))),
            Op::DecimalNumber => Reply::Value(num(show(&a[0]).parse().unwrap())),
            Op::DigitsNumber => {
                let radix = number(&a[0]) as u32;
                let mut x = 0.0;
                for c in show(&a[1]).chars() {
                    x = x * radix as f64 + c.to_digit(radix).unwrap() as f64;
                }
                Reply::Value(num(x))
            },
            Op::Console => {
                self.console.push(show(&a[0]));
                Reply::Absent
            },
            Op::PlusOne => Reply::Value(num(number(&a[0]) + 1.0)),
            Op::Sum => Reply::Value(num(number(&a[0]) + number(&a[1]))),
            Op::NewPromise => {
                let p = self.object(&[("\0state", text("pending"))]);
                Reply::Value(p)
            },
            Op::ResolvePromise => {
                self.put(&a[0], "\0state", text("fulfilled"));
                self.put(&a[0], "\0value", a[1].clone());
                Reply::Absent
            },
            Op::RejectPromise => {
                self.put(&a[0], "\0state", text("rejected"));
                self.put(&a[0], "\0value", a[1].clone());
                Reply::Absent
            },
            Op::SettleState => {
                if self.slot(&a[0], "\0state").map(|s| show(&s)) == Some("rejected".to_string()) {
                    Reply::List(vec![Value::Bool(false), self.slot(&a[0], "\0value").unwrap()])
                } else {
                    let v = self.slot(&a[0], "\0value").unwrap_or(a[0].clone());
                    Reply::List(vec![Value::Bool(true), v])
                }
            },
            Op::IsPromise => flag(self.slot(&a[0], "\0state").is_some()),
            Op::AbsoluteUrl | Op::ResolveUrl => Reply::Value(text(&format!("http://page/{}", show(&a[0])))),
            Op::SameCallable => flag(matches!((&a[0], &a[1]),
                (Value::Ref(_, i), Value::Ref(_, j)) if i == j)),
            Op::ThrownMessage => Reply::Value(text("broken")),
            Op::DeliverMutations => Reply::Absent,
            Op::Intrinsic(_) => {
                let o = self.object(&[]);
                Reply::Value(o)
            },
            Op::SetOwn => {
                let v = self.slot(&a[2], "value").unwrap_or(Value::Undefined);
                self.put(&a[0], &show(&a[1]), v);
                flag(true)
            },
            Op::NewSparseArray => {
                let n = number(&a[0]) as usize;
                let v = self.array(a[1..1 + n].to_vec());
                let i = index(&v);
                self.heap[i].holes = a[1 + n..].iter().map(|x| number(x) as usize).collect();
                Reply::Value(v)
            },
            Op::IterateAll => match &a[0] {
                Value::Str(s) => Reply::List(s.chars().map(|c| text(&c.to_string())).collect()),
                v => Reply::List(self.items(v)),
            },
            Op::IsArrayLike => flag(self.slot(&a[0], "length").is_some()),
            op => panic!("not answered: {:?} {:?}", op, a),
        }
    }

    fn run(
        &mut self,
        f: impl Fn(&mut Interp) -> Result<Value, Stop>,
    ) -> Result<Value, Exception> {
        let mut replies = Vec::new();
        loop {
            let mut it = Interp::new(replies);
            match f(&mut it) {
                Ok(v) => return Ok(v),
                Err(Stop::Throw(e)) => return Err(e),
                Err(Stop::Ask(q)) => {
                    replies = it.replies;
                    let r = self.answer(&q);
                    replies.push(r);
                },
            }
        }
    }
}

fn error(r: Result<Value, Exception>) -> (ErrorKind, String) {
    match r {
        Err(Exception::Error(k, m)) => (k, m),
        other => panic!("no error: {:?}", other),
    }
}

fn numbers(e: &mut Engine, xs: &[f64]) -> Value {
    e.array(xs.iter().map(|x| num(*x)).collect())
}

fn is_even(_: &mut Engine, _: Option<Value>, args: Vec<Value>) -> Result<Value, u64> {
    Ok(Value::Bool(number(&args[0]) % 2.0 == 0.0))
}

fn double(_: &mut Engine, _: Option<Value>, args: Vec<Value>) -> Result<Value, u64> {
    Ok(num(number(&args[0]) * 2.0))
}

fn sum(_: &mut Engine, _: Option<Value>, args: Vec<Value>) -> Result<Value, u64> {
    Ok(num(number(&args[0]) + number(&args[1])))
}

fn minus(_: &mut Engine, _: Option<Value>, args: Vec<Value>) -> Result<Value, u64> {
    Ok(num(number(&args[0]) - number(&args[1])))
}

fn fails(_: &mut Engine, _: Option<Value>, _: Vec<Value>) -> Result<Value, u64> {
    Err(5)
}

fn method(e: &mut Engine, op: ArrOp, this: &Value, args: Vec<Value>) -> Result<Value, Exception> {
    let recv = Some(this.clone());
    e.run(move |it| it.arr_op(op, &recv, &args))
}

#[test]
fn pushing_gives_the_new_length() {
    let mut e = Engine::new();
    let a = numbers(&mut e, &[1.0]);
    let recv = Some(a.clone());
    let r = e.run(move |it| it.array_push(&recv, &vec![num(2.0), num(3.0)]));
    assert_eq!(show(&r.unwrap()), "3");
    assert_eq!(e.shown(&a), ["1", "2", "3"]);
}

#[test]
fn pushing_to_nothing() {
    let mut e = Engine::new();
    let r = e.run(|it| it.array_push(&None, &vec![]));
    assert_eq!(error(r), (ErrorKind::Error, "push 는 배열 메서드".to_string()));
}

#[test]
fn iterating_methods() {
    let mut e = Engine::new();
    let a = numbers(&mut e, &[1.0, 2.0, 3.0, 4.0]);
    let even = e.function(is_even);
    let twice = e.function(double);
    let add = e.function(sum);
    let r = method(&mut e, ArrOp::Filter, &a, vec![even.clone()]).unwrap();
    assert_eq!(e.shown(&r), ["2", "4"]);
    let r = method(&mut e, ArrOp::MapEach, &a, vec![twice]).unwrap();
    assert_eq!(e.shown(&r), ["2", "4", "6", "8"]);
    assert_eq!(show(&method(&mut e, ArrOp::Find, &a, vec![even.clone()]).unwrap()), "2");
    assert_eq!(show(&method(&mut e, ArrOp::FindIndex, &a, vec![even.clone()]).unwrap()), "1");
    assert_eq!(show(&method(&mut e, ArrOp::FindLast, &a, vec![even.clone()]).unwrap()), "4");
    assert_eq!(show(&method(&mut e, ArrOp::SomeOf, &a, vec![even.clone()]).unwrap()), "true");
    assert_eq!(show(&method(&mut e, ArrOp::Every, &a, vec![even]).unwrap()), "false");
    assert_eq!(show(&method(&mut e, ArrOp::Reduce, &a, vec![add.clone()]).unwrap()), "10");
    assert_eq!(show(&method(&mut e, ArrOp::Reduce, &a, vec![add, num(5.0)]).unwrap()), "15");
}

#[test]
fn the_exception_of_a_callback_stands() {
    let mut e = Engine::new();
    let a = numbers(&mut e, &[1.0]);
    let f = e.function(fails);
    assert!(matches!(method(&mut e, ArrOp::ForEach, &a, vec![f]), Err(Exception::Thrown(5))));
}

#[test]
fn searching() {
    let mut e = Engine::new();
    let a = numbers(&mut e, &[5.0, 6.0, 5.0]);
    assert_eq!(show(&method(&mut e, ArrOp::IndexOf, &a, vec![num(5.0)]).unwrap()), "0");
    assert_eq!(show(&method(&mut e, ArrOp::IndexOf, &a, vec![num(5.0), num(1.0)]).unwrap()), "2");
    assert_eq!(show(&method(&mut e, ArrOp::IndexOf, &a, vec![num(9.0)]).unwrap()), "-1");
    assert_eq!(show(&method(&mut e, ArrOp::Includes, &a, vec![num(6.0)]).unwrap()), "true");
    let n = numbers(&mut e, &[f64::NAN]);
    assert_eq!(show(&method(&mut e, ArrOp::Includes, &n, vec![num(f64::NAN)]).unwrap()), "true");
    assert_eq!(show(&method(&mut e, ArrOp::IndexOf, &n, vec![num(f64::NAN)]).unwrap()), "-1");
}

#[test]
fn ends_of_an_array() {
    let mut e = Engine::new();
    let a = numbers(&mut e, &[1.0, 2.0, 3.0]);
    assert_eq!(show(&method(&mut e, ArrOp::Pop, &a, vec![]).unwrap()), "3");
    assert_eq!(show(&method(&mut e, ArrOp::Shift, &a, vec![]).unwrap()), "1");
    assert_eq!(show(&method(&mut e, ArrOp::Unshift, &a, vec![num(7.0), num(8.0)]).unwrap()), "3");
    assert_eq!(e.shown(&a), ["7", "8", "2"]);
    assert_eq!(show(&method(&mut e, ArrOp::At, &a, vec![num(-1.0)]).unwrap()), "2");
}

#[test]
fn splicing_and_undoing_it() {
    let mut e = Engine::new();
    let a = numbers(&mut e, &[1.0, 2.0, 3.0, 4.0]);
    let r = method(&mut e, ArrOp::Splice, &a, vec![num(1.0), num(2.0), num(9.0)]).unwrap();
    assert_eq!(e.shown(&r), ["2", "3"]);
    assert_eq!(e.shown(&a), ["1", "9", "4"]);
    method(&mut e, ArrOp::Splice, &a, vec![num(1.0), num(1.0), num(2.0), num(3.0)]).unwrap();
    assert_eq!(e.shown(&a), ["1", "2", "3", "4"]);
}

#[test]
fn reversing_twice() {
    let mut e = Engine::new();
    let a = numbers(&mut e, &[1.0, 2.0, 3.0]);
    method(&mut e, ArrOp::Reverse, &a, vec![]).unwrap();
    assert_eq!(e.shown(&a), ["3", "2", "1"]);
    method(&mut e, ArrOp::Reverse, &a, vec![]).unwrap();
    assert_eq!(e.shown(&a), ["1", "2", "3"]);
}

#[test]
fn filling() {
    let mut e = Engine::new();
    let a = numbers(&mut e, &[1.0, 2.0, 3.0, 4.0]);
    method(&mut e, ArrOp::Fill, &a, vec![num(0.0), num(1.0), num(-1.0)]).unwrap();
    assert_eq!(e.shown(&a), ["1", "0", "0", "4"]);
}

#[test]
fn sorting() {
    let mut e = Engine::new();
    let a = e.array(vec![num(10.0), Value::Undefined, num(9.0), num(1.0)]);
    method(&mut e, ArrOp::Sort, &a, vec![]).unwrap();
    assert_eq!(e.shown(&a), ["1", "10", "9", "undefined"]);
    let f = e.function(minus);
    method(&mut e, ArrOp::Sort, &a, vec![f]).unwrap();
    assert_eq!(e.shown(&a), ["1", "9", "10", "undefined"]);
}

#[test]
fn joining_and_slicing() {
    let mut e = Engine::new();
    let a = e.array(vec![num(1.0), Value::Null, num(3.0)]);
    assert_eq!(show(&method(&mut e, ArrOp::Join, &a, vec![text("-")]).unwrap()), "1--3");
    let r = method(&mut e, ArrOp::Slice, &a, vec![num(-2.0)]).unwrap();
    assert_eq!(e.shown(&r), ["null", "3"]);
}

#[test]
fn pushing_keeps_holes() {
    let mut e = Engine::new();
    let a = numbers(&mut e, &[1.0, 0.0, 3.0]);
    e.heap[index(&a)].holes = vec![1];
    let recv = Some(a.clone());
    let r = e.run(move |it| it.array_push(&recv, &vec![num(4.0)]));
    assert_eq!(show(&r.unwrap()), "4");
    assert_eq!(e.items(&a).len(), 4);
    assert_eq!(e.heap[index(&a)].holes, [1]);
}

fn digits(_: &mut Engine, _: Option<Value>, args: Vec<Value>) -> Result<Value, u64> {
    Ok(num(number(&args[0]) * 10.0 + number(&args[1])))
}

#[test]
fn reducing_from_both_ends() {
    let mut e = Engine::new();
    let a = numbers(&mut e, &[1.0, 2.0, 3.0]);
    let f = e.function(digits);
    assert_eq!(show(&method(&mut e, ArrOp::Reduce, &a, vec![f.clone()]).unwrap()), "123");
    assert_eq!(show(&method(&mut e, ArrOp::ReduceRight, &a, vec![f.clone()]).unwrap()), "321");
    let none = numbers(&mut e, &[]);
    let r = method(&mut e, ArrOp::ReduceRight, &none, vec![f]);
    assert_eq!(
        error(r),
        (ErrorKind::TypeError, "Reduce of empty array with no initial value".to_string()),
    );
}

fn by_tens(_: &mut Engine, _: Option<Value>, args: Vec<Value>) -> Result<Value, u64> {
    let tens = |v: &Value| (number(v) / 10.0).trunc();
    Ok(num(tens(&args[0]) - tens(&args[1])))
}

#[test]
fn equal_items_keep_their_order() {
    let mut e = Engine::new();
    let a = numbers(&mut e, &[25.0, 11.0, 21.0, 19.0, 23.0]);
    let f = e.function(by_tens);
    method(&mut e, ArrOp::Sort, &a, vec![f]).unwrap();
    assert_eq!(e.shown(&a), ["11", "19", "25", "21", "23"]);
}

#[test]
fn texts_are_lists_of_code_units() {
    let mut e = Engine::new();
    let f = e.function(itself);
    let r = method(&mut e, ArrOp::MapEach, &text("a\u{1f600}"), vec![f]).unwrap();
    assert_eq!(e.shown(&r), ["a", "\u{fffd}", "\u{fffd}"]);
}

fn itself(_: &mut Engine, _: Option<Value>, args: Vec<Value>) -> Result<Value, u64> {
    Ok(args[0].clone())
}

fn of_another_kind(e: &mut Engine, q: &Ask) -> Option<Reply> {
    match q.op {
        Op::Get if matches!(&q.args[0], Value::Ref(Kind::Arr, _))
            && show(&q.args[1]) == "constructor" =>
        {
            Some(Reply::Value(Value::Native(Native::RegExpCtor)))
        },
        Op::Get if matches!(&q.args[0], Value::Native(_)) => Some(Reply::Value(q.args[0].clone())),
        Op::Construct => {
            let o = e.object(&[]);
            Some(Reply::Value(o))
        },
        _ => None,
    }
}

#[test]
fn holes_stay_holes_in_arrays_of_another_kind() {
    let mut e = Engine::new();
    e.extra = of_another_kind;
    let a = numbers(&mut e, &[1.0, 0.0, 3.0]);
    e.heap[index(&a)].holes = vec![1];
    let twice = e.function(double);
    let r = method(&mut e, ArrOp::MapEach, &a, vec![twice]).unwrap();
    assert_eq!(show(&e.slot(&r, "0").unwrap()), "2");
    assert!(e.slot(&r, "1").is_none());
    assert_eq!(show(&e.slot(&r, "2").unwrap()), "6");
    let r = method(&mut e, ArrOp::Slice, &a, vec![num(1.0)]).unwrap();
    assert!(e.slot(&r, "0").is_none());
    assert_eq!(show(&e.slot(&r, "1").unwrap()), "3");
}
