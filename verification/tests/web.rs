use builtins::host::{Ask, Exception, Interp, Op, Reply, Stop};
use builtins::listeners::Listeners;
use builtins::natives::{Builtin, Page, PageFn, StateFn};
use builtins::number::Num;
use builtins::value::{ErrorKind, Kind, Value};
use builtins::web::QueryEdit;
use builtins::web_state::{Storage, Timers};

// A small engine: it answers what a built-in asks until the built-in has finished.
struct Engine {
    heap: Vec<Thing>,
    functions: Vec<fn(&mut Engine, Option<Value>, Vec<Value>) -> Result<Value, u64>>,
    console: Vec<String>,
    asked: Vec<Op>,
    extra: fn(&mut Engine, &Ask) -> Option<Reply>,
}

fn nothing_more(_: &mut Engine, _: &Ask) -> Option<Reply> {
    None
}

struct Thing {
    slots: Vec<(String, Value)>,
    items: Vec<Value>,
    holes: Vec<usize>,
}

fn num(x: f64) -> Value {
    Value::Num(Num { bits: x.to_bits() })
}

fn text(s: &str) -> Value {
    Value::Str(s.to_string())
}

fn show(v: &Value) -> String {
    match v {
        Value::Undefined => "undefined".to_string(),
        Value::Null => "null".to_string(),
        Value::Bool(b) => b.to_string(),
        Value::Num(n) => {
            let x = f64::from_bits(n.bits);
            if x == 0.0 { "0".to_string() } else { x.to_string() }
        },
        Value::Str(s) => s.clone(),
        Value::BigInt(s) => s.clone(),
        Value::Symbol(d) => format!("Symbol({})", d.desc.clone().unwrap_or_default()),
        other => format!("{:?}", other),
    }
}

fn number(v: &Value) -> f64 {
    match v {
        Value::Num(n) => f64::from_bits(n.bits),
        Value::Str(s) => if s.is_empty() { 0.0 } else { s.parse().unwrap_or(f64::NAN) },
        Value::Bool(b) => if *b { 1.0 } else { 0.0 },
        Value::Null => 0.0,
        _ => f64::NAN,
    }
}

fn index(v: &Value) -> usize {
    match v {
        Value::Ref(_, i) => *i as usize,
        other => panic!("no handle: {:?}", other),
    }
}

fn flag(b: bool) -> Reply {
    Reply::Value(Value::Bool(b))
}

impl Engine {
    fn new() -> Engine {
        Engine {
            heap: Vec::new(),
            functions: Vec::new(),
            console: Vec::new(),
            asked: Vec::new(),
            extra: nothing_more,
        }
    }

    fn object(&mut self, fields: &[(&str, Value)]) -> Value {
        let slots = fields.iter().map(|(k, v)| (k.to_string(), v.clone())).collect();
        self.heap.push(Thing { slots, items: Vec::new(), holes: Vec::new() });
        Value::Ref(Kind::Obj, (self.heap.len() - 1) as u64)
    }

    fn array(&mut self, items: Vec<Value>) -> Value {
        self.heap.push(Thing { slots: Vec::new(), items, holes: Vec::new() });
        Value::Ref(Kind::Arr, (self.heap.len() - 1) as u64)
    }

    fn function(
        &mut self,
        f: fn(&mut Engine, Option<Value>, Vec<Value>) -> Result<Value, u64>,
    ) -> Value {
        self.functions.push(f);
        self.heap.push(Thing { slots: Vec::new(), items: Vec::new(), holes: Vec::new() });
        Value::Ref(Kind::Fn, (self.functions.len() - 1) as u64)
    }

    fn slot(&self, o: &Value, key: &str) -> Option<Value> {
        match o {
            Value::Ref(Kind::Obj | Kind::Arr | Kind::Instance | Kind::Class, i) => {
                self.heap[*i as usize].slots.iter().find(|(k, _)| k == key).map(|(_, v)| v.clone())
            },
            _ => None,
        }
    }

    fn put(&mut self, o: &Value, key: &str, v: Value) {
        if matches!(o, Value::Ref(Kind::Arr, _)) {
            if let Ok(i) = key.parse::<usize>() {
                let t = &mut self.heap[index(o)];
                while t.items.len() <= i {
                    t.items.push(Value::Undefined);
                }
                t.items[i] = v;
                return;
            }
        }
        let t = &mut self.heap[index(o)];
        match t.slots.iter_mut().find(|(k, _)| k == key) {
            Some(s) => s.1 = v,
            None => t.slots.push((key.to_string(), v)),
        }
    }

    fn get(&self, o: &Value, key: &str) -> Option<Value> {
        if let Value::Ref(Kind::Arr, i) = o {
            let t = &self.heap[*i as usize];
            if key == "length" {
                return Some(num(t.items.len() as f64));
            }
            if let Ok(k) = key.parse::<usize>() {
                return if k < t.items.len() && !t.holes.contains(&k) {
                    Some(t.items[k].clone())
                } else {
                    None
                };
            }
        }
        if let Value::Str(s) = o {
            if key == "length" {
                return Some(num(s.encode_utf16().count() as f64));
            }
        }
        self.slot(o, key)
    }

    fn own(&self, o: &Value, key: &str) -> Option<Value> {
        match o {
            Value::Ref(Kind::Arr, _) => self.get(o, key),
            _ => self.slot(o, key),
        }
    }

    fn items(&self, v: &Value) -> Vec<Value> {
        self.heap[index(v)].items.clone()
    }

    fn shown(&self, v: &Value) -> Vec<String> {
        self.items(v).iter().map(show).collect()
    }

    fn call(&mut self, f: &Value, this: Option<Value>, args: Vec<Value>) -> Reply {
        let g = self.functions[index(f)];
        match g(self, this, args) {
            Ok(v) => Reply::Value(v),
            Err(n) => Reply::Throw(n),
        }
    }

    fn answer(&mut self, q: &Ask) -> Reply {
        self.asked.push(q.op);
        let more = self.extra;
        if let Some(r) = more(self, q) {
            return r;
        }
        let a = &q.args;
        match q.op {
            Op::Get => Reply::Value(self.get(&a[0], &show(&a[1])).unwrap_or(Value::Undefined)),
            Op::Has => flag(self.get(&a[0], &show(&a[1])).is_some()),
            Op::Assign => {
                self.put(&a[0], &show(&a[1]), a[2].clone());
                flag(true)
            },
            Op::Delete => {
                let key = show(&a[1]);
                self.heap[index(&a[0])].slots.retain(|(k, _)| *k != key);
                flag(true)
            },
            Op::OwnSlot => match self.own(&a[0], &show(&a[1])) {
                Some(v) => Reply::Value(v),
                None => Reply::Absent,
            },
            Op::StoreSlot => {
                self.put(&a[0], &show(&a[1]), a[2].clone());
                Reply::Absent
            },
            Op::Call => self.call(&a[0], Some(a[1].clone()), a[2..].to_vec()),
            Op::CallBare => self.call(&a[0], None, a[1..].to_vec()),
            Op::ToNumber | Op::PlainNumber => match &a[0] {
                Value::Symbol(_) => Reply::Throw(7),
                v => Reply::Value(num(number(v))),
            },
            Op::ToInteger => {
                let x = number(&a[0]);
                Reply::Value(num(if x.is_nan() { 0.0 } else { x.trunc() }))
            },
            Op::ToInt32 | Op::PlainInt32 => {
                let x = number(&a[0]);
                let i = if x.is_finite() { x as i64 as i32 } else { 0 };
                Reply::Value(num(i as f64))
            },
            Op::DelayOf => Reply::Value(num(number(&a[0]).max(0.0))),
            Op::ToText | Op::Display | Op::ToKey | Op::ToPrimitiveText => Reply::Value(text(&show(&a[0]))),
            Op::IsArray => flag(matches!(&a[0], Value::Ref(Kind::Arr, _))),
            Op::IsConstructor => flag(matches!(&a[0], Value::Native(_))),
            Op::ArrayLen => Reply::Value(num(self.items(&a[0]).len() as f64)),
            Op::ArrayPresent => {
                let k = number(&a[1]) as usize;
                let t = &self.heap[index(&a[0])];
                flag(k < t.items.len() && !t.holes.contains(&k))
            },
            Op::ArrayHole => {
                let k = number(&a[1]) as usize;
                flag(self.heap[index(&a[0])].holes.contains(&k))
            },
            Op::HasHoles => flag(!self.heap[index(&a[0])].holes.is_empty()),
            Op::FillHoles => {
                self.heap[index(&a[0])].holes.clear();
                Reply::Absent
            },
            Op::Elements => Reply::List(self.items(&a[0])),
            Op::StoreElements => {
                let i = index(&a[0]);
                self.heap[i].items = a[1..].to_vec();
                self.heap[i].holes.clear();
                Reply::Absent
            },
            Op::AppendElements => {
                self.heap[index(&a[0])].items.extend(a[1..].to_vec());
                Reply::Absent
            },
            Op::StoreElement => {
                self.put(&a[0], &show(&a[1]), a[2].clone());
                Reply::Absent
            },
            Op::StoredSlot => match self.get(&a[0], &show(&a[1])) {
                Some(v) => Reply::Value(v),
                None => Reply::Absent,
            },
            Op::StoreProperty => {
                self.put(&a[0], &show(&a[1]), a[3].clone());
                Reply::Absent
            },
            Op::Attributes => Reply::List(vec![Value::Bool(true); 3]),
            Op::SetAttributes | Op::SetIntegrity(_) => Reply::Absent,
            Op::ReportError => {
                self.console.push(format!("reported {}", show(&a[0])));
                Reply::Absent
            },
            Op::MappedParam => flag(false),
            Op::StoredKeys | Op::ArrayProps => {
                let t = &self.heap[index(&a[0])];
                Reply::List(t.slots.iter().map(|(k, _)| text(k)).collect())
            },
            Op::NewArray => Reply::Value(self.array(a.clone())),
            Op::NewObject => {
                let o = self.object(&[]);
                for p in a.chunks(2) {
                    self.put(&o, &show(&p[0]), p[1].clone());
                }
                Reply::Value(o)
            },
            Op::Keys => {
                let t = &self.heap[index(&a[0])];
                Reply::List(
                    t.slots.iter().filter(|(k, _)| !k.starts_with('\0')).map(|(k, _)| text(k)).collect(),
                )
            },
            Op::StoredFields => {
                let t = &self.heap[index(&a[0])];
                let mut l = Vec::new();
                for (k, v) in &t.slots {
                    l.push(text(k));
                    l.push(v.clone());
                }
                Reply::List(l)
            },
            Op::NewWrapper => {
                let o = self.object(&[("\0value", a[0].clone())]);
                Reply::Value(o)
            },
            Op::IsFrozen | Op::NonExtensible | Op::IsDate | Op::IsRegex | Op::IsRegexLike => flag(false),
            Op::LengthWritable | Op::ConcatSpreadable | Op::HasDocument => {
                flag(!matches!(&a.first(), Some(Value::Num(_)) | Some(Value::Str(_))))
            },
            Op::Wrapped | Op::RegexParts | Op::CollectionSlot => Reply::Absent,
            Op::JsonNumber | Op::NumberText => Reply::Value(text(&show(&a[0]))),
            Op::DecimalNumber => Reply::Value(num(show(&a[0]).parse().unwrap())),
            Op::DigitsNumber => {
                let radix = number(&a[0]) as u32;
                let mut x = 0.0;
                for c in show(&a[1]).chars() {
                    x = x * radix as f64 + c.to_digit(radix).unwrap() as f64;
                }
                Reply::Value(num(x))
            },
            Op::Console => {
                self.console.push(show(&a[0]));
                Reply::Absent
            },
            Op::PlusOne => Reply::Value(num(number(&a[0]) + 1.0)),
            Op::Sum => Reply::Value(num(number(&a[0]) + number(&a[1]))),
            Op::NewPromise => {
                let p = self.object(&[("\0state", text("pending"))]);
                Reply::Value(p)
            },
            Op::ResolvePromise => {
                self.put(&a[0], "\0state", text("fulfilled"));
                self.put(&a[0], "\0value", a[1].clone());
                Reply::Absent
            },
            Op::RejectPromise => {
                self.put(&a[0], "\0state", text("rejected"));
                self.put(&a[0], "\0value", a[1].clone());
                Reply::Absent
            },
            Op::SettleState => {
                if self.slot(&a[0], "\0state").map(|s| show(&s)) == Some("rejected".to_string()) {
                    Reply::List(vec![Value::Bool(false), self.slot(&a[0], "\0value").unwrap()])
                } else {
                    let v = self.slot(&a[0], "\0value").unwrap_or(a[0].clone());
                    Reply::List(vec![Value::Bool(true), v])
                }
            },
            Op::IsPromise => flag(self.slot(&a[0], "\0state").is_some()),
            Op::AbsoluteUrl | Op::ResolveUrl => Reply::Value(text(&format!("http://page/{}", show(&a[0])))),
            Op::SameCallable => flag(matches!((&a[0], &a[1]),
                (Value::Ref(_, i), Value::Ref(_, j)) if i == j)),
            Op::ThrownMessage => Reply::Value(text("broken")),
            Op::DeliverMutations => Reply::Absent,
            Op::Intrinsic(_) => {
                let o = self.object(&[]);
                Reply::Value(o)
            },
            Op::SetOwn => {
                let v = self.slot(&a[2], "value").unwrap_or(Value::Undefined);
                self.put(&a[0], &show(&a[1]), v);
                flag(true)
            },
            Op::NewSparseArray => {
                let n = number(&a[0]) as usize;
                let v = self.array(a[1..1 + n].to_vec());
                let i = index(&v);
                self.heap[i].holes = a[1 + n..].iter().map(|x| number(x) as usize).collect();
                Reply::Value(v)
            },
            Op::IterateAll => match &a[0] {
                Value::Str(s) => Reply::List(s.chars().map(|c| text(&c.to_string())).collect()),
                v => Reply::List(self.items(v)),
            },
            Op::IsArrayLike => flag(self.slot(&a[0], "length").is_some()),
            op => panic!("not answered: {:?} {:?}", op, a),
        }
    }

    fn run(
        &mut self,
        f: impl Fn(&mut Interp) -> Result<Value, Stop>,
    ) -> Result<Value, Exception> {
        let mut replies = Vec::new();
        loop {
            let mut it = Interp::new(replies);
            match f(&mut it) {
                Ok(v) => return Ok(v),
                Err(Stop::Throw(e)) => return Err(e),
                Err(Stop::Ask(q)) => {
                    replies = it.replies;
                    let r = self.answer(&q);
                    replies.push(r);
                },
            }
        }
    }
}

fn error(r: Result<Value, Exception>) -> (ErrorKind, String) {
    match r {
        Err(Exception::Error(k, m)) => (k, m),
        other => panic!("no error: {:?}", other),
    }
}

fn parts(e: &mut Engine, q: &Ask) -> Option<Reply> {
    let a = &q.args;
    match q.op {
        Op::ParseQuery => {
            let mut l = Vec::new();
            for p in show(&a[0]).split('&').filter(|p| !p.is_empty()) {
                let (k, v) = p.split_once('=').unwrap_or((p, ""));
                l.push(text(k));
                l.push(text(v));
            }
            Some(Reply::List(l))
        },
        Op::BuildQuery => {
            let l: Vec<String> = a.chunks(2).map(|p| format!("{}={}", show(&p[0]), show(&p[1]))).collect();
            Some(Reply::Value(text(&l.join("&"))))
        },
        Op::Http => {
            e.console.push(a.iter().map(show).collect::<Vec<String>>().join(" "));
            if show(&a[1]) == "http://page/none" {
                Some(Reply::List(vec![text("refused")]))
            } else {
                Some(Reply::List(vec![num(404.0), text("body"), num(6.0), text("X-Kind"), text("k")]))
            }
        },
        _ => None,
    }
}

fn page() -> Page {
    Page {
        storage: Storage { items: Vec::new() },
        timers: Timers { next_id: 1, waiting: Vec::new(), cleared: Vec::new() },
        listeners: Listeners { nodes: Vec::new(), page: Vec::new() },
    }
}

fn native(e: &mut Engine, p: &mut Page, n: Builtin, args: Vec<Value>) -> Result<Value, Exception> {
    let mut replies = Vec::new();
    loop {
        let mut it = Interp::new(replies);
        match it.call_native(&n, &None, &args, p, None) {
            Ok(v) => return Ok(v),
            Err(Stop::Throw(x)) => return Err(x),
            Err(Stop::Ask(q)) => {
                replies = it.replies;
                let r = e.answer(&q);
                replies.push(r);
            },
        }
    }
}

fn state(e: &mut Engine, p: &mut Page, f: StateFn, args: Vec<Value>) -> String {
    show(&native(e, p, Builtin::State(f), args).unwrap())
}

#[test]
fn queries() {
    let mut e = Engine::new();
    e.extra = parts;
    let q = Some(e.object(&[("\0query", text("a=1&b=2&a=3"))]));
    let a = vec![text("a")];
    assert_eq!(show(&e.run(|it| it.url_search_get(&q, &a)).unwrap()), "1");
    let all = e.run(|it| it.url_search_get_all(&q, &a)).unwrap();
    assert_eq!(e.shown(&all), ["1", "3"]);
    assert_eq!(show(&e.run(|it| it.url_search_has(&q, &vec![text("c")])).unwrap()), "false");
    let args = vec![text("a"), num(7.0)];
    e.run(|it| it.url_search_edit(QueryEdit::Put, &q, &args)).unwrap();
    assert_eq!(show(&e.run(|it| it.url_search_get(&q, &a)).unwrap()), "7");
    let all = e.run(|it| it.url_search_get_all(&q, &a)).unwrap();
    assert_eq!(e.shown(&all), ["7"]);
    e.run(|it| it.url_search_edit(QueryEdit::Append, &q, &args)).unwrap();
    e.run(|it| it.url_search_edit(QueryEdit::Delete, &q, &vec![text("b")])).unwrap();
    assert_eq!(show(&e.run(|it| it.url_search_to_string(&q, &vec![])).unwrap()), "a=7&a=7");
}

#[test]
fn items_of_the_storage() {
    let mut e = Engine::new();
    let mut p = page();
    let put = |e: &mut Engine, p: &mut Page, k: &str, v: &str| {
        state(e, p, StateFn::LsSetItem, vec![text(k), text(v)])
    };
    put(&mut e, &mut p, "a", "1");
    put(&mut e, &mut p, "b", "2");
    put(&mut e, &mut p, "a", "3");
    assert_eq!(state(&mut e, &mut p, StateFn::LsGetItem, vec![text("a")]), "3");
    assert_eq!(state(&mut e, &mut p, StateFn::LsGetItem, vec![text("b")]), "2");
    assert_eq!(state(&mut e, &mut p, StateFn::LsLength, vec![]), "2");
    assert_eq!(state(&mut e, &mut p, StateFn::LsKey, vec![num(1.0)]), "b");
    assert_eq!(state(&mut e, &mut p, StateFn::LsKey, vec![num(2.0)]), "null");
    state(&mut e, &mut p, StateFn::LsRemoveItem, vec![text("a")]);
    assert_eq!(state(&mut e, &mut p, StateFn::LsGetItem, vec![text("a")]), "null");
    state(&mut e, &mut p, StateFn::LsClear, vec![]);
    assert_eq!(state(&mut e, &mut p, StateFn::LsLength, vec![]), "0");
}

fn tick(e: &mut Engine, _: Option<Value>, _: Vec<Value>) -> Result<Value, u64> {
    e.console.push("tick".to_string());
    Ok(Value::Undefined)
}

#[test]
fn timers_that_are_cleared() {
    let mut e = Engine::new();
    let mut p = page();
    let f = e.function(tick);
    assert_eq!(state(&mut e, &mut p, StateFn::SetTimeout, vec![f.clone(), num(5.0)]), "1");
    assert_eq!(state(&mut e, &mut p, StateFn::SetInterval, vec![f]), "2");
    assert_eq!(state(&mut e, &mut p, StateFn::SetTimeout, vec![text("code")]), "0");
    assert_eq!(p.timers.waiting.len(), 2);
    assert!(p.timers.waiting[1].repeat);
    state(&mut e, &mut p, StateFn::ClearTimer, vec![num(1.0)]);
    assert_eq!(p.timers.waiting.len(), 1);
    assert_eq!(p.timers.waiting[0].id, 2);
    assert_eq!(e.asked.last(), Some(&Op::DeliverMutations));
}

#[test]
fn listeners_of_the_page() {
    let mut e = Engine::new();
    let mut p = page();
    let f = e.function(tick);
    let args = vec![text("load"), f];
    state(&mut e, &mut p, StateFn::AddGlobalListener, args.clone());
    let evt = e.object(&[("type", text("load"))]);
    assert_eq!(state(&mut e, &mut p, StateFn::DispatchGlobalEvent, vec![evt.clone()]), "true");
    assert_eq!(e.console, ["tick"]);
    state(&mut e, &mut p, StateFn::RemoveGlobalListener, args);
    assert_eq!(p.listeners.page.len(), 0);
    state(&mut e, &mut p, StateFn::DispatchGlobalEvent, vec![evt]);
    assert_eq!(e.console, ["tick"]);
}

#[test]
fn answers_to_requests() {
    let mut e = Engine::new();
    e.extra = parts;
    let p = e.run(|it| it.fetch(&None, &vec![text("x")])).unwrap();
    let r = e.slot(&p, "\0value").unwrap();
    assert_eq!(e.console[0], "GET http://page/x undefined");
    assert_eq!(show(&e.slot(&r, "status").unwrap()), "404");
    assert_eq!(show(&e.slot(&r, "ok").unwrap()), "false");
    assert_eq!(show(&e.slot(&r, "statusText").unwrap()), "Not Found");
    assert_eq!(show(&e.slot(&r, "url").unwrap()), "http://page/x");
    let headers = Some(e.slot(&r, "headers").unwrap());
    let name = vec![text("x-KIND")];
    assert_eq!(show(&e.run(|it| it.headers_get(&headers, &name)).unwrap()), "k");
    assert_eq!(show(&e.run(|it| it.headers_has(&headers, &vec![text("y")])).unwrap()), "false");
    assert_eq!(show(&e.run(|it| it.headers_get(&headers, &vec![text("y")])).unwrap()), "null");
}

#[test]
fn requests_with_settings() {
    let mut e = Engine::new();
    e.extra = parts;
    let headers = e.object(&[("Accept", text("all"))]);
    let init = e.object(&[("method", text("POST")), ("headers", headers), ("body", text("b"))]);
    let args = vec![text("x"), init];
    e.run(|it| it.fetch(&None, &args)).unwrap();
    assert_eq!(e.console[0], "POST http://page/x b Accept all");
}

#[test]
fn requests_without_an_answer() {
    let mut e = Engine::new();
    e.extra = parts;
    let p = e.run(|it| it.fetch(&None, &vec![text("none")])).unwrap();
    assert_eq!(show(&e.slot(&p, "\0value").unwrap()), "undefined");
    assert_eq!(e.console[1], "fetch 실패: refused");
}

fn sockets(e: &mut Engine, q: &Ask) -> Option<Reply> {
    match q.op {
        Op::SocketsOpened => Some(Reply::List(vec![Value::Ref(Kind::Obj, 0)])),
        Op::SocketsFailed => Some(Reply::List(vec![Value::Ref(Kind::Obj, 1)])),
        Op::SocketCount => Some(Reply::Value(num(2.0))),
        Op::SocketPoll => if number(&q.args[0]) == 0.0 {
            Some(
                Reply::List(
                    vec![
                        text("message"), text("hello"), Value::Undefined,
                        text("binary"), num(9.0), Value::Undefined,
                        text("close"), num(1000.0), text("bye"),
                    ],
                ),
            )
        } else {
            Some(Reply::List(vec![]))
        },
        Op::SocketObject => Some(Reply::Value(Value::Ref(Kind::Obj, number(&q.args[0]) as u64))),
        Op::NewArrayBuffer => Some(Reply::Throw(2)),
        Op::SocketFire => {
            let data = q.args.get(2).and_then(|v| e.slot(v, "data").or(e.slot(v, "wasClean")));
            let line = format!(
                "{} {} {}",
                index(&q.args[0]),
                show(&q.args[1]),
                data.map(|d| show(&d)).unwrap_or_default(),
            );
            e.console.push(line);
            Some(Reply::Absent)
        },
        _ => None,
    }
}

#[test]
fn what_happens_at_sockets() {
    let mut e = Engine::new();
    e.extra = sockets;
    e.object(&[]);
    e.object(&[]);
    e.run(
        |it| match it.pump_websockets() {
            Ok(()) => Ok(Value::Undefined),
            Err(s) => Err(s),
        },
    ).unwrap();
    assert_eq!(
        e.console,
        [
            "0 open ",
            "1 error ",
            "1 close ",
            "0 message hello",
            "0 message undefined",
            "0 close true",
        ],
    );
    assert_eq!(show(&e.slot(&Value::Ref(Kind::Obj, 0), "readyState").unwrap()), "3");
}

fn quiet(_: &mut Engine, q: &Ask) -> Option<Reply> {
    match q.op {
        Op::SocketsOpened | Op::SocketsFailed => Some(Reply::List(vec![])),
        Op::SocketCount => Some(Reply::Value(num(0.0))),
        _ => None,
    }
}

#[test]
fn quiet_sockets() {
    let mut e = Engine::new();
    e.extra = quiet;
    e.run(
        |it| match it.pump_websockets() {
            Ok(()) => Ok(Value::Undefined),
            Err(s) => Err(s),
        },
    ).unwrap();
    assert_eq!(e.asked.len(), 3);
}

#[test]
fn the_state_of_a_page_is_its_own() {
    let mut e = Engine::new();
    e.extra = parts;
    let mut p = page();
    state(&mut e, &mut p, StateFn::LsSetItem, vec![text("a"), text("1")]);
    native(&mut e, &mut p, Builtin::Page(PageFn::Fetch), vec![text("x")]).unwrap();
    assert_eq!(state(&mut e, &mut p, StateFn::LsGetItem, vec![text("a")]), "1");
}

fn failing_sockets(e: &mut Engine, q: &Ask) -> Option<Reply> {
    let r = sockets(e, q);
    match q.op {
        Op::SocketFire => Some(Reply::Throw(4)),
        _ => r,
    }
}

#[test]
fn what_listeners_of_sockets_throw_is_dropped() {
    let mut e = Engine::new();
    e.extra = failing_sockets;
    e.object(&[]);
    e.object(&[]);
    e.run(
        |it| match it.pump_websockets() {
            Ok(()) => Ok(Value::Undefined),
            Err(s) => Err(s),
        },
    ).unwrap();
    assert_eq!(e.console.len(), 6);
    e.extra = quiet;
    e.run(
        |it| match it.pump_websockets() {
            Ok(()) => Ok(Value::Undefined),
            Err(s) => Err(s),
        },
    ).unwrap();
    assert_eq!(e.console.len(), 6);
}

fn faulty(_: &mut Engine, _: Option<Value>, _: Vec<Value>) -> Result<Value, u64> {
    Err(8)
}

#[test]
fn what_a_listener_throws_is_reported() {
    let mut e = Engine::new();
    let mut p = page();
    let bad = e.function(faulty);
    let good = e.function(tick);
    state(&mut e, &mut p, StateFn::AddGlobalListener, vec![text("load"), bad.clone()]);
    state(&mut e, &mut p, StateFn::AddGlobalListener, vec![text("load"), good.clone()]);
    let evt = e.object(&[("type", text("load"))]);
    assert_eq!(state(&mut e, &mut p, StateFn::DispatchGlobalEvent, vec![evt.clone()]), "true");
    assert_eq!(e.console.len(), 2);
    assert!(e.console[0].starts_with("reported "));
    assert_eq!(e.console[1], "tick");
    e.extra = listener_slot;
    let l = e.array(vec![bad, good]);
    let o = Some(e.object(&[("\0on:load", l)]));
    let args = vec![evt];
    assert_eq!(show(&e.run(move |it| it.dispatch_event(&o, &args)).unwrap()), "true");
    assert_eq!(e.console.len(), 4);
    assert!(e.console[2].starts_with("reported "));
    assert_eq!(e.console[3], "tick");
}

fn listener_slot(_: &mut Engine, q: &Ask) -> Option<Reply> {
    match q.op {
        Op::ListenerKey => Some(Reply::Value(text(&format!("\0on:{}", show(&q.args[0]))))),
        _ => None,
    }
}

#[test]
fn scripts_make_no_trusted_events() {
    let mut e = Engine::new();
    e.extra = no_event_proto;
    let init = e.object(&[("isTrusted", Value::Bool(true)), ("bubbles", num(1.0)), ("key", text("a"))]);
    let args = vec![text("keydown"), init];
    let evt = e.run(|it| it.event_ctor("KeyboardEvent", &None, &args)).unwrap();
    assert_eq!(show(&e.slot(&evt, "isTrusted").unwrap()), "false");
    assert_eq!(show(&e.slot(&evt, "bubbles").unwrap()), "true");
    assert_eq!(show(&e.slot(&evt, "key").unwrap()), "a");
}

fn no_event_proto(_: &mut Engine, q: &Ask) -> Option<Reply> {
    match q.op {
        Op::EventProto => Some(Reply::Absent),
        _ => None,
    }
}

#[test]
fn headers_of_an_answer() {
    let mut e = Engine::new();
    let row = e.array(vec![text("X-Kind"), text("k")]);
    let rows = e.array(vec![row]);
    let recv = Some(e.object(&[("\0resheaders", rows)]));
    let all = e.run(|it| it.xhr_get_header(&recv, &vec![])).unwrap();
    assert_eq!(show(&all), "X-Kind: k\r\n");
    let one = e.run(|it| it.xhr_get_header(&recv, &vec![text("x-kind")])).unwrap();
    assert_eq!(show(&one), "k");
    let none = e.run(|it| it.xhr_get_header(&recv, &vec![text("")])).unwrap();
    assert_eq!(show(&none), "null");
}
