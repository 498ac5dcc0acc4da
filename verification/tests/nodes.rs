use builtins::elements::CharDataOp;
use builtins::host::DomError;
use builtins::host::{Ask, Exception, Interp, Op, Reply, Stop};
use builtins::number::Num;
use builtins::tree::Place;
use builtins::value::{ErrorKind, Kind, Value};

// A small engine: it answers what a built-in asks until the built-in has finished.
struct Engine {
    heap: Vec<Thing>,
    functions: Vec<fn(&mut Engine, Option<Value>, Vec<Value>) -> Result<Value, u64>>,
    console: Vec<String>,
    asked: Vec<Op>,
    extra: fn(&mut Engine, &Ask) -> Option<Reply>,
}

fn nothing_more(_: &mut Engine, _: &Ask) -> Option<Reply> {
    None
}

struct Thing {
    slots: Vec<(String, Value)>,
    items: Vec<Value>,
    holes: Vec<usize>,
}

fn num(x: f64) -> Value {
    Value::Num(Num { bits: x.to_bits() })
}

fn text(s: &str) -> Value {
    Value::Str(s.to_string())
}

fn show(v: &Value) -> String {
    match v {
        Value::Undefined => "undefined".to_string(),
        Value::Null => "null".to_string(),
        Value::Bool(b) => b.to_string(),
        Value::Num(n) => {
            let x = f64::from_bits(n.bits);
            if x == 0.0 { "0".to_string() } else { x.to_string() }
        },
        Value::Str(s) => s.clone(),
        Value::BigInt(s) => s.clone(),
        Value::Symbol(d) => format!("Symbol({})", d.desc.clone().unwrap_or_default()),
        other => format!("{:?}", other),
    }
}

fn number(v: &Value) -> f64 {
    match v {
        Value::Num(n) => f64::from_bits(n.bits),
        Value::Str(s) => if s.is_empty() { 0.0 } else { s.parse().unwrap_or(f64::NAN) },
        Value::Bool(b) => if *b { 1.0 } else { 0.0 },
        Value::Null => 0.0,
        _ => f64::NAN,
    }
}

fn index(v: &Value) -> usize {
    match v {
        Value::Ref(_, i) => *i as usize,
        other => panic!("no handle: {:?}", other),
    }
}

fn flag(b: bool) -> Reply {
    Reply::Value(Value::Bool(b))
}

impl Engine {
    fn new() -> Engine {
        Engine {
            heap: Vec::new(),
            functions: Vec::new(),
            console: Vec::new(),
            asked: Vec::new(),
            extra: nothing_more,
        }
    }

    fn object(&mut self, fields: &[(&str, Value)]) -> Value {
        let slots = fields.iter().map(|(k, v)| (k.to_string(), v.clone())).collect();
        self.heap.push(Thing { slots, items: Vec::new(), holes: Vec::new() });
        Value::Ref(Kind::Obj, (self.heap.len() - 1) as u64)
    }

    fn array(&mut self, items: Vec<Value>) -> Value {
        self.heap.push(Thing { slots: Vec::new(), items, holes: Vec::new() });
        Value::Ref(Kind::Arr, (self.heap.len() - 1) as u64)
    }

    fn function(
        &mut self,
        f: fn(&mut Engine, Option<Value>, Vec<Value>) -> Result<Value, u64>,
    ) -> Value {
        self.functions.push(f);
        self.heap.push(Thing { slots: Vec::new(), items: Vec::new(), holes: Vec::new() });
        Value::Ref(Kind::Fn, (self.functions.len() - 1) as u64)
    }

    fn slot(&self, o: &Value, key: &str) -> Option<Value> {
        match o {
            Value::Ref(Kind::Obj | Kind::Arr | Kind::Instance | Kind::Class, i) => {
                self.heap[*i as usize].slots.iter().find(|(k, _)| k == key).map(|(_, v)| v.clone())
            },
            _ => None,
        }
    }

    fn put(&mut self, o: &Value, key: &str, v: Value) {
        if matches!(o, Value::Ref(Kind::Arr, _)) {
            if let Ok(i) = key.parse::<usize>() {
                let t = &mut self.heap[index(o)];
                while t.items.len() <= i {
                    t.items.push(Value::Undefined);
                }
                t.items[i] = v;
                return;
            }
        }
        let t = &mut self.heap[index(o)];
        match t.slots.iter_mut().find(|(k, _)| k == key) {
            Some(s) => s.1 = v,
            None => t.slots.push((key.to_string(), v)),
        }
    }

    fn get(&self, o: &Value, key: &str) -> Option<Value> {
        if let Value::Ref(Kind::Arr, i) = o {
            let t = &self.heap[*i as usize];
            if key == "length" {
                return Some(num(t.items.len() as f64));
            }
            if let Ok(k) = key.parse::<usize>() {
                return if k < t.items.len() && !t.holes.contains(&k) {
                    Some(t.items[k].clone())
                } else {
                    None
                };
            }
        }
        if let Value::Str(s) = o {
            if key == "length" {
                return Some(num(s.encode_utf16().count() as f64));
            }
        }
        self.slot(o, key)
    }

    fn own(&self, o: &Value, key: &str) -> Option<Value> {
        match o {
            Value::Ref(Kind::Arr, _) => self.get(o, key),
            _ => self.slot(o, key),
        }
    }

    fn items(&self, v: &Value) -> Vec<Value> {
        self.heap[index(v)].items.clone()
    }

    fn shown(&self, v: &Value) -> Vec<String> {
        self.items(v).iter().map(show).collect()
    }

    fn call(&mut self, f: &Value, this: Option<Value>, args: Vec<Value>) -> Reply {
        let g = self.functions[index(f)];
        match g(self, this, args) {
            Ok(v) => Reply::Value(v),
            Err(n) => Reply::Throw(n),
        }
    }

    fn answer(&mut self, q: &Ask) -> Reply {
        self.asked.push(q.op);
        let more = self.extra;
        if let Some(r) = more(self, q) {
            return r;
        }
        let a = &q.args;
        match q.op {
            Op::Get => Reply::Value(self.get(&a[0], &show(&a[1])).unwrap_or(Value::Undefined)),
            Op::Has => flag(self.get(&a[0], &show(&a[1])).is_some()),
            Op::Assign => {
                self.put(&a[0], &show(&a[1]), a[2].clone());
                flag(true)
            },
            Op::Delete => {
                let key = show(&a[1]);
                self.heap[index(&a[0])].slots.retain(|(k, _)| *k != key);
                flag(true)
            },
            Op::OwnSlot => match self.own(&a[0], &show(&a[1])) {
                Some(v) => Reply::Value(v),
                None => Reply::Absent,
            },
            Op::StoreSlot => {
                self.put(&a[0], &show(&a[1]), a[2].clone());
                Reply::Absent
            },
            Op::Call => self.call(&a[0], Some(a[1].clone()), a[2..].to_vec()),
            Op::CallBare => self.call(&a[0], None, a[1..].to_vec()),
            Op::ToNumber | Op::PlainNumber => match &a[0] {
                Value::Symbol(_) => Reply::Throw(7),
                v => Reply::Value(num(number(v))),
            },
            Op::ToInteger => {
                let x = number(&a[0]);
                Reply::Value(num(if x.is_nan() { 0.0 } else { x.trunc() }))
            },
            Op::ToInt32 | Op::PlainInt32 => {
                let x = number(&a[0]);
                let i = if x.is_finite() { x as i64 as i32 } else { 0 };
                Reply::Value(num(i as f64))
            },
            Op::DelayOf => Reply::Value(num(number(&a[0]).max(0.0))),
            Op::ToText | Op::Display | Op::ToKey | Op::ToPrimitiveText => Reply::Value(text(&show(&a[0]))),
            Op::IsArray => flag(matches!(&a[0], Value::Ref(Kind::Arr, _))),
            Op::IsConstructor => flag(matches!(&a[0], Value::Native(_))),
            Op::ArrayLen => Reply::Value(num(self.items(&a[0]).len() as f64)),
            Op::ArrayPresent => {
                let k = number(&a[1]) as usize;
                let t = &self.heap[index(&a[0])];
                flag(k < t.items.len() && !t.holes.contains(&k))
            },
            Op::ArrayHole => {
                let k = number(&a[1]) as usize;
                flag(self.heap[index(&a[0])].holes.contains(&k))
            },
            Op::HasHoles => flag(!self.heap[index(&a[0])].holes.is_empty()),
            Op::FillHoles => {
                self.heap[index(&a[0])].holes.clear();
                Reply::Absent
            },
            Op::Elements => Reply::List(self.items(&a[0])),
            Op::StoreElements => {
                let i = index(&a[0]);
                self.heap[i].items = a[1..].to_vec();
                self.heap[i].holes.clear();
                Reply::Absent
            },
            Op::AppendElements => {
                self.heap[index(&a[0])].items.extend(a[1..].to_vec());
                Reply::Absent
            },
            Op::StoreElement => {
                self.put(&a[0], &show(&a[1]), a[2].clone());
                Reply::Absent
            },
            Op::StoredSlot => match self.get(&a[0], &show(&a[1])) {
                Some(v) => Reply::Value(v),
                None => Reply::Absent,
            },
            Op::StoreProperty => {
                self.put(&a[0], &show(&a[1]), a[3].clone());
                Reply::Absent
            },
            Op::Attributes => Reply::List(vec![Value::Bool(true); 3]),
            Op::SetAttributes | Op::SetIntegrity(_) => Reply::Absent,
            Op::ReportError => {
                self.console.push(format!("reported {}", show(&a[0])));
                Reply::Absent
            },
            Op::MappedParam => flag(false),
            Op::StoredKeys | Op::ArrayProps => {
                let t = &self.heap[index(&a[0])];
                Reply::List(t.slots.iter().map(|(k, _)| text(k)).collect())
            },
            Op::NewArray => Reply::Value(self.array(a.clone())),
            Op::NewObject => {
                let o = self.object(&[]);
                for p in a.chunks(2) {
                    self.put(&o, &show(&p[0]), p[1].clone());
                }
                Reply::Value(o)
            },
            Op::Keys => {
                let t = &self.heap[index(&a[0])];
                Reply::List(
                    t.slots.iter().filter(|(k, _)| !k.starts_with('\0')).map(|(k, _)| text(k)).collect(),
                )
            },
            Op::StoredFields => {
                let t = &self.heap[index(&a[0])];
                let mut l = Vec::new();
                for (k, v) in &t.slots {
                    l.push(text(k));
                    l.push(v.clone());
                }
                Reply::List(l)
            },
            Op::NewWrapper => {
                let o = self.object(&[("\0value", a[0].clone())]);
                Reply::Value(o)
            },
            Op::IsFrozen | Op::NonExtensible | Op::IsDate | Op::IsRegex | Op::IsRegexLike => flag(false),
            Op::LengthWritable | Op::ConcatSpreadable | Op::HasDocument => {
                flag(!matches!(&a.first(), Some(Value::Num(_)) | Some(Value::Str(_))))
            },
            Op::Wrapped | Op::RegexParts | Op::CollectionSlot => Reply::Absent,
            Op::JsonNumber | Op::NumberText => Reply::Value(text(&show(&a[0]))),
            Op::DecimalNumber => Reply::Value(num(show(&a[0]).parse().unwrap())),
            Op::DigitsNumber => {
                let radix = number(&a[0]) as u32;
                let mut x = 0.0;
                for c in show(&a[1]).chars() {
                    x = x * radix as f64 + c.to_digit(radix).unwrap() as f64;
                }
                Reply::Value(num(x))
            },
            Op::Console => {
                self.console.push(show(&a[0]));
                Reply::Absent
            },
            Op::PlusOne => Reply::Value(num(number(&a[0]) + 1.0)),
            Op::Sum => Reply::Value(num(number(&a[0]) + number(&a[1]))),
            Op::NewPromise => {
                let p = self.object(&[("\0state", text("pending"))]);
                Reply::Value(p)
            },
            Op::ResolvePromise => {
                self.put(&a[0], "\0state", text("fulfilled"));
                self.put(&a[0], "\0value", a[1].clone());
                Reply::Absent
            },
            Op::RejectPromise => {
                self.put(&a[0], "\0state", text("rejected"));
                self.put(&a[0], "\0value", a[1].clone());
                Reply::Absent
            },
            Op::SettleState => {
                if self.slot(&a[0], "\0state").map(|s| show(&s)) == Some("rejected".to_string()) {
                    Reply::List(vec![Value::Bool(false), self.slot(&a[0], "\0value").unwrap()])
                } else {
                    let v = self.slot(&a[0], "\0value").unwrap_or(a[0].clone());
                    Reply::List(vec![Value::Bool(true), v])
                }
            },
            Op::IsPromise => flag(self.slot(&a[0], "\0state").is_some()),
            Op::AbsoluteUrl | Op::ResolveUrl => Reply::Value(text(&format!("http://page/{}", show(&a[0])))),
            Op::SameCallable => flag(matches!((&a[0], &a[1]),
                (Value::Ref(_, i), Value::Ref(_, j)) if i == j)),
            Op::ThrownMessage => Reply::Value(text("broken")),
            Op::DeliverMutations => Reply::Absent,
            Op::Intrinsic(_) => {
                let o = self.object(&[]);
                Reply::Value(o)
            },
            Op::SetOwn => {
                let v = self.slot(&a[2], "value").unwrap_or(Value::Undefined);
                self.put(&a[0], &show(&a[1]), v);
                flag(true)
            },
            Op::NewSparseArray => {
                let n = number(&a[0]) as usize;
                let v = self.array(a[1..1 + n].to_vec());
                let i = index(&v);
                self.heap[i].holes = a[1 + n..].iter().map(|x| number(x) as usize).collect();
                Reply::Value(v)
            },
            Op::IterateAll => match &a[0] {
                Value::Str(s) => Reply::List(s.chars().map(|c| text(&c.to_string())).collect()),
                v => Reply::List(self.items(v)),
            },
            Op::IsArrayLike => flag(self.slot(&a[0], "length").is_some()),
            op => panic!("not answered: {:?} {:?}", op, a),
        }
    }

    fn run(
        &mut self,
        f: impl Fn(&mut Interp) -> Result<Value, Stop>,
    ) -> Result<Value, Exception> {
        let mut replies = Vec::new();
        loop {
            let mut it = Interp::new(replies);
            match f(&mut it) {
                Ok(v) => return Ok(v),
                Err(Stop::Throw(e)) => return Err(e),
                Err(Stop::Ask(q)) => {
                    replies = it.replies;
                    let r = self.answer(&q);
                    replies.push(r);
                },
            }
        }
    }
}

fn error(r: Result<Value, Exception>) -> (ErrorKind, String) {
    match r {
        Err(Exception::Error(k, m)) => (k, m),
        other => panic!("no error: {:?}", other),
    }
}

fn node(i: u64) -> Value {
    Value::Ref(Kind::Dom, i)
}

// The things of the engine stand for nodes: the slot "kind", the data or the attributes, and the
// children as items.
fn tree(e: &mut Engine, q: &Ask) -> Option<Reply> {
    let a = &q.args;
    let at = |v: &Value| index(v);
    match q.op {
        Op::NodeKind => Some(Reply::Value(own(e, &a[0], "\0kind").unwrap())),
        Op::NodeData => Some(Reply::Value(own(e, &a[0], "\0data").unwrap())),
        Op::SetNodeData => {
            set_own(e, &a[0], "\0data", a[1].clone());
            Some(Reply::Absent)
        },
        Op::NewText => {
            e.heap.push(Thing { slots: Vec::new(), items: Vec::new(), holes: Vec::new() });
            let n = node((e.heap.len() - 1) as u64);
            set_own(e, &n, "\0kind", text("text"));
            set_own(e, &n, "\0data", a[0].clone());
            Some(Reply::Value(n))
        },
        Op::ElementNamespace => Some(match own(e, &a[0], "\0ns") {
            Some(v) => Reply::Value(v),
            None => Reply::Absent,
        }),
        Op::AttributeText => Some(match own(e, &a[0], &show(&a[1])) {
            Some(v) => Reply::Value(v),
            None => Reply::Absent,
        }),
        Op::AttributeNames => Some(Reply::List(
            e.heap[at(&a[0])].slots.iter().filter(|(k, _)| !k.starts_with('\0')).map(|(k, _)| text(k)).collect(),
        )),
        Op::AttributeName => Some(Reply::Value(text(&show(&a[1]).to_lowercase()))),
        Op::SetAttributeText => {
            set_own(e, &a[0], &show(&a[1]), a[2].clone());
            Some(Reply::Absent)
        },
        Op::DropAttribute => {
            let key = show(&a[1]);
            e.heap[at(&a[0])].slots.retain(|(k, _)| *k != key);
            Some(Reply::Absent)
        },
        Op::NodeChildren => Some(Reply::List(e.heap[at(&a[0])].items.clone())),
        Op::NodeParent => Some(match parent(e, &a[0]) {
            Some(p) => Reply::Value(p),
            None => Reply::Absent,
        }),
        Op::Ancestors => {
            let mut l = Vec::new();
            let mut cur = parent(e, &a[0]);
            while let Some(p) = cur {
                cur = parent(e, &p);
                l.push(p);
            }
            Some(Reply::List(l))
        },
        Op::InsertNode => {
            if let Some(p) = parent(e, &a[1]) {
                let me = at(&a[1]);
                e.heap[at(&p)].items.retain(|c| index(c) != me);
            }
            let list = &mut e.heap[at(&a[0])].items;
            let place = match &a[2] {
                Value::Ref(..) => list.iter().position(|c| index(c) == index(&a[2])).unwrap_or(list.len()),
                _ => list.len(),
            };
            list.insert(place, a[1].clone());
            Some(Reply::Absent)
        },
        Op::AppendNode => {
            e.heap[at(&a[0])].items.push(a[1].clone());
            Some(Reply::Absent)
        },
        Op::DetachNode => {
            if let Some(p) = parent(e, &a[0]) {
                let me = at(&a[0]);
                e.heap[at(&p)].items.retain(|c| index(c) != me);
            }
            Some(Reply::Absent)
        },
        Op::ClearNode => {
            e.heap[at(&a[0])].items.clear();
            Some(Reply::Absent)
        },
        Op::CheckInsert => Some(Reply::Absent),
        Op::IsFragment => Some(flag(own(e, &a[0], "\0fragment").is_some())),
        Op::NodesOfValues => Some(Reply::List(a.clone())),
        Op::IsSelector => Some(flag(show(&a[0]) != "!")),
        Op::SelectorFits => Some(flag(own(e, &a[0], &show(&a[1])).is_some())),
        Op::DocumentIndex => Some(Reply::Value(num(at(&a[0]) as f64))),
        Op::TypeOf => Some(Reply::Value(text("number"))),
        Op::InterfaceName => Some(Reply::Value(text("SVGRectElement"))),
        _ => None,
    }
}

fn own(e: &Engine, v: &Value, key: &str) -> Option<Value> {
    e.heap[index(v)].slots.iter().find(|(k, _)| k == key).map(|(_, v)| v.clone())
}

fn set_own(e: &mut Engine, v: &Value, key: &str, x: Value) {
    let t = &mut e.heap[index(v)];
    match t.slots.iter_mut().find(|(k, _)| k == key) {
        Some(s) => s.1 = x,
        None => t.slots.push((key.to_string(), x)),
    }
}

fn parent(e: &Engine, v: &Value) -> Option<Value> {
    let me = index(v);
    for (i, t) in e.heap.iter().enumerate() {
        if t.items.iter().any(|c| index(c) == me) {
            return Some(node(i as u64));
        }
    }
    None
}

fn children(e: &Engine, v: &Value) -> Vec<usize> {
    e.heap[index(v)].items.iter().map(index).collect()
}

// Node 0 holds nodes 1, 2 and 3; node 4 stands alone; node 5 is a text.
fn page() -> Engine {
    let mut e = Engine::new();
    e.extra = tree;
    for i in 0..6 {
        let kind = if i == 5 { "text" } else { "element" };
        e.object(&[("\0kind", text(kind)), ("\0data", text("a\u{1f600}bc"))]);
    }
    e.heap[0].items = vec![node(1), node(2), node(3)];
    e
}

#[test]
fn attributes_of_html_ignore_case() {
    let mut e = page();
    let n = Some(node(1));
    e.run(|it| it.set_attribute(&n, &vec![text("ID"), text("x")])).unwrap();
    assert_eq!(show(&e.run(|it| it.get_attribute(&n, &vec![text("Id")])).unwrap()), "x");
    assert_eq!(show(&e.run(|it| it.has_attribute(&n, &vec![text("iD")])).unwrap()), "true");
    e.run(|it| it.remove_attribute(&n, &vec![text("ID")])).unwrap();
    assert_eq!(show(&e.run(|it| it.get_attribute(&n, &vec![text("id")])).unwrap()), "null");
    let r = e.run(|it| it.get_attribute(&Some(num(1.0)), &vec![]));
    assert_eq!(error(r).1, "getAttribute 는 요소 메서드 (수신자=number)");
    let r = e.run(|it| it.get_attribute(&None, &vec![]));
    assert_eq!(error(r).1, "getAttribute 는 요소 메서드 (수신자=없음)");
    let r = e.run(|it| it.set_attribute(&None, &vec![]));
    assert_eq!(error(r), (ErrorKind::TypeError, "setAttribute 는 요소 메서드".to_string()));
}

#[test]
fn toggling_an_attribute() {
    let mut e = page();
    let n = Some(node(1));
    let args = vec![text("hidden")];
    assert_eq!(show(&e.run(|it| it.toggle_attribute(&n, &args)).unwrap()), "true");
    assert_eq!(show(&e.run(|it| it.has_attributes(&n, &vec![])).unwrap()), "true");
    assert_eq!(show(&e.run(|it| it.toggle_attribute(&n, &args)).unwrap()), "false");
    assert_eq!(show(&e.run(|it| it.has_attributes(&n, &vec![])).unwrap()), "false");
    let args = vec![text("hidden"), Value::Bool(false)];
    assert_eq!(show(&e.run(|it| it.toggle_attribute(&n, &args)).unwrap()), "false");
}

#[test]
fn attributes_by_local_name() {
    let mut e = page();
    let n = Some(node(1));
    e.run(|it| it.set_attribute_ns(&n, &vec![Value::Null, text("xlink:href"), text("#a")])).unwrap();
    let args = vec![Value::Null, text("href")];
    assert_eq!(show(&e.run(|it| it.get_attribute_ns(&n, &args)).unwrap()), "#a");
    assert_eq!(show(&e.run(|it| it.has_attribute_ns(&n, &args)).unwrap()), "true");
    e.run(|it| it.remove_attribute_ns(&n, &args)).unwrap();
    assert_eq!(show(&e.run(|it| it.get_attribute_ns(&n, &args)).unwrap()), "null");
    let r = e.run(|it| it.set_attribute_ns(&n, &vec![Value::Null, text("")]));
    assert!(matches!(r, Err(Exception::Dom(DomError::InvalidCharacterError, _))));
}

#[test]
fn character_data_counts_code_units() {
    let mut e = page();
    let n = Some(node(5));
    let data = |e: &Engine| show(&own(e, &node(5), "\0data").unwrap());
    let r = e.run(|it| it.char_data(CharDataOp::Substring, &n, &vec![num(1.0), num(3.0)])).unwrap();
    assert_eq!(show(&r), "\u{1f600}b");
    e.run(|it| it.char_data(CharDataOp::Insert, &n, &vec![num(3.0), text("-")])).unwrap();
    assert_eq!(data(&e), "a\u{1f600}-bc");
    e.run(|it| it.char_data(CharDataOp::Delete, &n, &vec![num(3.0), num(1.0)])).unwrap();
    assert_eq!(data(&e), "a\u{1f600}bc");
    e.run(|it| it.char_data(CharDataOp::Append, &n, &vec![text("d")])).unwrap();
    e.run(|it| it.char_data(CharDataOp::Replace, &n, &vec![num(0.0), num(1.0), text("zz")])).unwrap();
    assert_eq!(data(&e), "zz\u{1f600}bcd");
    e.run(|it| it.char_data(CharDataOp::Delete, &n, &vec![num(4.0), num(99.0)])).unwrap();
    assert_eq!(data(&e), "zz\u{1f600}");
    let r = e.run(|it| it.char_data(CharDataOp::Delete, &n, &vec![num(9.0), num(1.0)]));
    assert!(matches!(r, Err(Exception::Dom(DomError::IndexSizeError, _))));
    let r = e.run(|it| it.char_data(CharDataOp::Delete, &Some(node(1)), &vec![]));
    assert_eq!(error(r).0, ErrorKind::TypeError);
}

#[test]
fn splitting_a_text() {
    let mut e = page();
    e.heap[0].items = vec![node(1), node(5), node(2)];
    let n = Some(node(5));
    let r = e.run(|it| it.split_text(&n, &vec![num(3.0)])).unwrap();
    assert_eq!(show(&own(&e, &node(5), "\0data").unwrap()), "a\u{1f600}");
    assert_eq!(show(&own(&e, &r, "\0data").unwrap()), "bc");
    assert_eq!(children(&e, &node(0)), [1, 5, index(&r), 2]);
    let r = e.run(|it| it.split_text(&n, &vec![num(4.0)]));
    assert!(matches!(r, Err(Exception::Dom(DomError::IndexSizeError, _))));
    let r = e.run(|it| it.split_text(&Some(node(1)), &vec![]));
    assert_eq!(error(r).1, "splitText 는 Text 메서드");
}

#[test]
fn putting_nodes() {
    let mut e = page();
    let four = vec![node(4)];
    e.run(|it| it.node_put(Place::After, &Some(node(1)), &four)).unwrap();
    assert_eq!(children(&e, &node(0)), [1, 4, 2, 3]);
    e.run(|it| it.node_put(Place::Before, &Some(node(1)), &four)).unwrap();
    assert_eq!(children(&e, &node(0)), [4, 1, 2, 3]);
    e.run(|it| it.node_put(Place::Last, &Some(node(0)), &four)).unwrap();
    assert_eq!(children(&e, &node(0)), [1, 2, 3, 4]);
    e.run(|it| it.node_put(Place::First, &Some(node(0)), &four)).unwrap();
    assert_eq!(children(&e, &node(0)), [4, 1, 2, 3]);
    e.run(|it| it.node_replace_with(&Some(node(2)), &vec![node(5)])).unwrap();
    assert_eq!(children(&e, &node(0)), [4, 1, 5, 3]);
    e.run(|it| it.insert_before(&Some(node(0)), &vec![node(2), node(1)])).unwrap();
    assert_eq!(children(&e, &node(0)), [4, 2, 1, 5, 3]);
    e.run(|it| it.remove_child(&Some(node(0)), &vec![node(4)])).unwrap();
    e.run(|it| it.remove_element(&Some(node(1)), &vec![])).unwrap();
    assert_eq!(children(&e, &node(0)), [2, 5, 3]);
    let args = vec![text("beforeEnd"), node(4)];
    e.run(|it| it.insert_adjacent(false, &Some(node(0)), &args)).unwrap();
    assert_eq!(children(&e, &node(0)), [2, 5, 3, 4]);
}

#[test]
fn refused_insertions() {
    let mut e = page();
    let r = e.run(|it| it.insert_before(&Some(node(0)), &vec![]));
    assert_eq!(error(r).1, "insertBefore 는 요소 인자가 필요");
    let r = e.run(|it| it.append_child(&Some(node(0)), &vec![]));
    assert_eq!(error(r).1, "appendChild 는 요소 인자가 필요");
    let r = e.run(|it| it.remove_element(&None, &vec![]));
    assert_eq!(error(r).1, "remove 는 요소 메서드");
    let r = e.run(|it| it.clone_node(&None, &vec![]));
    assert_eq!(error(r).1, "cloneNode 는 요소 메서드");
}

#[test]
fn appending_a_fragment() {
    let mut e = page();
    set_own(&mut e, &node(4), "\0fragment", Value::Bool(true));
    e.heap[4].items = vec![node(5)];
    e.run(|it| it.append_child(&Some(node(0)), &vec![node(4)])).unwrap();
    assert_eq!(children(&e, &node(0)), [1, 2, 3, 5]);
}

#[test]
fn replacing_children() {
    let mut e = page();
    e.run(|it| it.replace_children(&Some(node(0)), &vec![node(4), text("t")])).unwrap();
    assert_eq!(children(&e, &node(0)).len(), 2);
    assert_eq!(children(&e, &node(0))[0], 4);
}

#[test]
fn selectors_and_containment() {
    let mut e = page();
    set_own(&mut e, &node(0), ".box", Value::Bool(true));
    let r = e.run(|it| it.closest(&Some(node(2)), &vec![text(".box")])).unwrap();
    assert_eq!(index(&r), 0);
    assert_eq!(show(&e.run(|it| it.closest(&Some(node(2)), &vec![text("!")])).unwrap()), "null");
    assert_eq!(show(&e.run(|it| it.matches(&Some(node(0)), &vec![text(".box")])).unwrap()), "true");
    assert_eq!(show(&e.run(|it| it.dom_contains(&Some(node(0)), &vec![node(2)])).unwrap()), "true");
    assert_eq!(show(&e.run(|it| it.dom_contains(&Some(node(2)), &vec![node(2)])).unwrap()), "true");
    assert_eq!(show(&e.run(|it| it.dom_contains(&Some(node(2)), &vec![node(0)])).unwrap()), "false");
    let r = e.run(|it| it.compare_doc_position(&Some(node(1)), &vec![node(2)])).unwrap();
    assert_eq!(show(&r), "4");
    let r = e.run(|it| it.compare_doc_position(&Some(node(2)), &vec![node(1)])).unwrap();
    assert_eq!(show(&r), "2");
}

#[test]
fn chains_of_interfaces() {
    let mut e = page();
    let r = e.run(|it| it.brand(&None, &vec![node(5)])).unwrap();
    assert_eq!(e.shown(&r), ["Text", "CharacterData", "Node", "EventTarget"]);
    let r = e.run(|it| it.brand(&None, &vec![node(1)])).unwrap();
    assert_eq!(e.shown(&r), ["SVGRectElement", "SVGElement", "Element", "Node", "EventTarget"]);
    let r = e.run(|it| it.brand(&None, &vec![num(1.0)])).unwrap();
    assert_eq!(e.shown(&r).len(), 0);
}

fn classes(e: &mut Engine, q: &Ask) -> Option<Reply> {
    match q.op {
        Op::ClassTokens => Some(Reply::List(e.heap[0].items.clone())),
        Op::SetClassTokens => {
            e.heap[0].items = q.args[1..].to_vec();
            Some(Reply::Absent)
        },
        Op::CheckTokens => if q.args.iter().any(|t| show(t).is_empty()) {
            Some(Reply::Throw(8))
        } else {
            Some(Reply::Absent)
        },
        _ => None,
    }
}

#[test]
fn lists_of_classes() {
    let mut e = Engine::new();
    e.extra = classes;
    let list = e.array(vec![text("c"), text("b"), text("a")]);
    let recv = Some(Value::Ref(Kind::ClassList, 0));
    let mut run = |e: &mut Engine, name: &str, args: Vec<Value>| {
        let recv = recv.clone();
        let name = name.to_string();
        let r = e.run(move |it| match name.as_str() {
            "add" => it.class_edit(true, &recv, &args),
            "remove" => it.class_edit(false, &recv, &args),
            "toggle" => it.class_toggle(&recv, &args),
            "replace" => it.class_replace(&recv, &args),
            "contains" => it.class_contains(&recv, &args),
            _ => it.class_item(&recv, &args),
        });
        show(&r.unwrap())
    };
    run(&mut e, "add", vec![text("b"), text("d")]);
    assert_eq!(e.shown(&list), ["c", "b", "a", "d"]);
    run(&mut e, "remove", vec![text("d")]);
    assert_eq!(run(&mut e, "replace", vec![text("c"), text("a")]), "true");
    assert_eq!(e.shown(&list), ["a", "b"]);
    assert_eq!(run(&mut e, "replace", vec![text("x"), text("y")]), "false");
    assert_eq!(run(&mut e, "toggle", vec![text("z")]), "true");
    assert_eq!(e.shown(&list), ["a", "b", "z"]);
    assert_eq!(run(&mut e, "toggle", vec![text("z")]), "false");
    assert_eq!(e.shown(&list), ["a", "b"]);
    assert_eq!(run(&mut e, "toggle", vec![text("a"), Value::Bool(true)]), "true");
    assert_eq!(run(&mut e, "toggle", vec![text("q"), Value::Bool(false)]), "false");
    assert_eq!(run(&mut e, "toggle", vec![text("q"), Value::Undefined]), "false");
    assert_eq!(e.shown(&list), ["a", "b"]);
    assert_eq!(run(&mut e, "contains", vec![text("b")]), "true");
    assert_eq!(run(&mut e, "item", vec![num(1.0)]), "b");
    assert_eq!(run(&mut e, "item", vec![num(-1.0)]), "null");
    assert_eq!(run(&mut e, "item", vec![num(9.0)]), "null");
}

#[test]
fn classes_have_nothing_to_support() {
    let mut e = Engine::new();
    let r = e.run(|it| it.class_supports(&None, &vec![]));
    assert_eq!(error(r), (ErrorKind::TypeError, "class 속성은 지원 토큰 목록이 없다".to_string()));
}
