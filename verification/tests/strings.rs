use builtins::functions::{is_identifier, is_identifier_by, IntegrityTest};
use builtins::host::{Ask, Exception, Interp, Op, Reply, Stop};
use builtins::number::Num;
use builtins::str_ops::StrOp;
use builtins::value::Native;
use builtins::value::{ErrorKind, Kind, Value};

// A small engine: it answers what a built-in asks until the built-in has finished.
struct Engine {
    heap: Vec<Thing>,
    functions: Vec<fn(&mut Engine, Option<Value>, Vec<Value>) -> Result<Value, u64>>,
    console: Vec<String>,
    asked: Vec<Op>,
    extra: fn(&mut Engine, &Ask) -> Option<Reply>,
}

fn nothing_more(_: &mut Engine, _: &Ask) -> Option<Reply> {
    None
}

struct Thing {
    slots: Vec<(String, Value)>,
    items: Vec<Value>,
    holes: Vec<usize>,
}

fn num(x: f64) -> Value {
    Value::Num(Num { bits: x.to_bits() })
}

fn text(s: &str) -> Value {
    Value::Str(s.to_string())
}

fn show(v: &Value) -> String {
    match v {
        Value::Undefined => "undefined".to_string(),
        Value::Null => "null".to_string(),
        Value::Bool(b) => b.to_string(),
        Value::Num(n) => {
            let x = f64::from_bits(n.bits);
            if x == 0.0 { "0".to_string() } else { x.to_string() }
        },
        Value::Str(s) => s.clone(),
        Value::BigInt(s) => s.clone(),
        Value::Symbol(d) => format!("Symbol({})", d.desc.clone().unwrap_or_default()),
        other => format!("{:?}", other),
    }
}

fn number(v: &Value) -> f64 {
    match v {
        Value::Num(n) => f64::from_bits(n.bits),
        Value::Str(s) => if s.is_empty() { 0.0 } else { s.parse().unwrap_or(f64::NAN) },
        Value::Bool(b) => if *b { 1.0 } else { 0.0 },
        Value::Null => 0.0,
        _ => f64::NAN,
    }
}

fn index(v: &Value) -> usize {
    match v {
        Value::Ref(_, i) => *i as usize,
        other => panic!("no handle: {:?}", other),
    }
}

fn flag(b: bool) -> Reply {
    Reply::Value(Value::Bool(b))
}

impl Engine {
    fn new() -> Engine {
        Engine {
            heap: Vec::new(),
            functions: Vec::new(),
            console: Vec::new(),
            asked: Vec::new(),
            extra: nothing_more,
        }
    }

    fn object(&mut self, fields: &[(&str, Value)]) -> Value {
        let slots = fields.iter().map(|(k, v)| (k.to_string(), v.clone())).collect();
        self.heap.push(Thing { slots, items: Vec::new(), holes: Vec::new() });
        Value::Ref(Kind::Obj, (self.heap.len() - 1) as u64)
    }

    fn array(&mut self, items: Vec<Value>) -> Value {
        self.heap.push(Thing { slots: Vec::new(), items, holes: Vec::new() });
        Value::Ref(Kind::Arr, (self.heap.len() - 1) as u64)
    }

    fn function(
        &mut self,
        f: fn(&mut Engine, Option<Value>, Vec<Value>) -> Result<Value, u64>,
    ) -> Value {
        self.functions.push(f);
        self.heap.push(Thing { slots: Vec::new(), items: Vec::new(), holes: Vec::new() });
        Value::Ref(Kind::Fn, (self.functions.len() - 1) as u64)
    }

    fn slot(&self, o: &Value, key: &str) -> Option<Value> {
        match o {
            Value::Ref(Kind::Obj | Kind::Arr | Kind::Instance | Kind::Class, i) => {
                self.heap[*i as usize].slots.iter().find(|(k, _)| k == key).map(|(_, v)| v.clone())
            },
            _ => None,
        }
    }

    fn put(&mut self, o: &Value, key: &str, v: Value) {
        if matches!(o, Value::Ref(Kind::Arr, _)) {
            if let Ok(i) = key.parse::<usize>() {
                let t = &mut self.heap[index(o)];
                while t.items.len() <= i {
                    t.items.push(Value::Undefined);
                }
                t.items[i] = v;
                return;
            }
        }
        let t = &mut self.heap[index(o)];
        match t.slots.iter_mut().find(|(k, _)| k == key) {
            Some(s) => s.1 = v,
            None => t.slots.push((key.to_string(), v)),
        }
    }

    fn get(&self, o: &Value, key: &str) -> Option<Value> {
        if let Value::Ref(Kind::Arr, i) = o {
            let t = &self.heap[*i as usize];
            if key == "length" {
                return Some(num(t.items.len() as f64));
            }
            if let Ok(k) = key.parse::<usize>() {
                return if k < t.items.len() && !t.holes.contains(&k) {
                    Some(t.items[k].clone())
                } else {
                    None
                };
            }
        }
        if let Value::Str(s) = o {
            if key == "length" {
                return Some(num(s.encode_utf16().count() as f64));
            }
        }
        self.slot(o, key)
    }

    fn own(&self, o: &Value, key: &str) -> Option<Value> {
        match o {
            Value::Ref(Kind::Arr, _) => self.get(o, key),
            _ => self.slot(o, key),
        }
    }

    fn items(&self, v: &Value) -> Vec<Value> {
        self.heap[index(v)].items.clone()
    }

    fn shown(&self, v: &Value) -> Vec<String> {
        self.items(v).iter().map(show).collect()
    }

    fn call(&mut self, f: &Value, this: Option<Value>, args: Vec<Value>) -> Reply {
        let g = self.functions[index(f)];
        match g(self, this, args) {
            Ok(v) => Reply::Value(v),
            Err(n) => Reply::Throw(n),
        }
    }

    fn answer(&mut self, q: &Ask) -> Reply {
        self.asked.push(q.op);
        let more = self.extra;
        if let Some(r) = more(self, q) {
            return r;
        }
        let a = &q.args;
        match q.op {
            Op::Get => Reply::Value(self.get(&a[0], &show(&a[1])).unwrap_or(Value::Undefined)),
            Op::Has => flag(self.get(&a[0], &show(&a[1])).is_some()),
            Op::Assign => {
                self.put(&a[0], &show(&a[1]), a[2].clone());
                flag(true)
            },
            Op::Delete => {
                let key = show(&a[1]);
                self.heap[index(&a[0])].slots.retain(|(k, _)| *k != key);
                flag(true)
            },
            Op::OwnSlot => match self.own(&a[0], &show(&a[1])) {
                Some(v) => Reply::Value(v),
                None => Reply::Absent,
            },
            Op::StoreSlot => {
                self.put(&a[0], &show(&a[1]), a[2].clone());
                Reply::Absent
            },
            Op::Call => self.call(&a[0], Some(a[1].clone()), a[2..].to_vec()),
            Op::CallBare => self.call(&a[0], None, a[1..].to_vec()),
            Op::ToNumber | Op::PlainNumber => match &a[0] {
                Value::Symbol(_) => Reply::Throw(7),
                v => Reply::Value(num(number(v))),
            },
            Op::ToInteger => {
                let x = number(&a[0]);
                Reply::Value(num(if x.is_nan() { 0.0 } else { x.trunc() }))
            },
            Op::ToInt32 | Op::PlainInt32 => {
                let x = number(&a[0]);
                let i = if x.is_finite() { x as i64 as i32 } else { 0 };
                Reply::Value(num(i as f64))
            },
            Op::DelayOf => Reply::Value(num(number(&a[0]).max(0.0))),
            Op::ToText | Op::Display | Op::ToKey | Op::ToPrimitiveText => Reply::Value(text(&show(&a[0]))),
            Op::IsArray => flag(matches!(&a[0], Value::Ref(Kind::Arr, _))),
            Op::IsConstructor => flag(matches!(&a[0], Value::Native(_))),
            Op::ArrayLen => Reply::Value(num(self.items(&a[0]).len() as f64)),
            Op::ArrayPresent => {
                let k = number(&a[1]) as usize;
                let t = &self.heap[index(&a[0])];
                flag(k < t.items.len() && !t.holes.contains(&k))
            },
            Op::ArrayHole => {
                let k = number(&a[1]) as usize;
                flag(self.heap[index(&a[0])].holes.contains(&k))
            },
            Op::HasHoles => flag(!self.heap[index(&a[0])].holes.is_empty()),
            Op::FillHoles => {
                self.heap[index(&a[0])].holes.clear();
                Reply::Absent
            },
            Op::Elements => Reply::List(self.items(&a[0])),
            Op::StoreElements => {
                let i = index(&a[0]);
                self.heap[i].items = a[1..].to_vec();
                self.heap[i].holes.clear();
                Reply::Absent
            },
            Op::AppendElements => {
                self.heap[index(&a[0])].items.extend(a[1..].to_vec());
                Reply::Absent
            },
            Op::StoreElement => {
                self.put(&a[0], &show(&a[1]), a[2].clone());
                Reply::Absent
            },
            Op::StoredSlot => match self.get(&a[0], &show(&a[1])) {
                Some(v) => Reply::Value(v),
                None => Reply::Absent,
            },
            Op::StoreProperty => {
                self.put(&a[0], &show(&a[1]), a[3].clone());
                Reply::Absent
            },
            Op::Attributes => Reply::List(vec![Value::Bool(true); 3]),
            Op::SetAttributes | Op::SetIntegrity(_) => Reply::Absent,
            Op::ReportError => {
                self.console.push(format!("reported {}", show(&a[0])));
                Reply::Absent
            },
            Op::MappedParam => flag(false),
            Op::StoredKeys | Op::ArrayProps => {
                let t = &self.heap[index(&a[0])];
                Reply::List(t.slots.iter().map(|(k, _)| text(k)).collect())
            },
            Op::NewArray => Reply::Value(self.array(a.clone())),
            Op::NewObject => {
                let o = self.object(&[]);
                for p in a.chunks(2) {
                    self.put(&o, &show(&p[0]), p[1].clone());
                }
                Reply::Value(o)
            },
            Op::Keys => {
                let t = &self.heap[index(&a[0])];
                Reply::List(
                    t.slots.iter().filter(|(k, _)| !k.starts_with('\0')).map(|(k, _)| text(k)).collect(),
                )
            },
            Op::StoredFields => {
                let t = &self.heap[index(&a[0])];
                let mut l = Vec::new();
                for (k, v) in &t.slots {
                    l.push(text(k));
                    l.push(v.clone());
                }
                Reply::List(l)
            },
            Op::NewWrapper => {
                let o = self.object(&[("\0value", a[0].clone())]);
                Reply::Value(o)
            },
            Op::IsFrozen | Op::NonExtensible | Op::IsDate | Op::IsRegex | Op::IsRegexLike => flag(false),
            Op::LengthWritable | Op::ConcatSpreadable | Op::HasDocument => {
                flag(!matches!(&a.first(), Some(Value::Num(_)) | Some(Value::Str(_))))
            },
            Op::Wrapped | Op::RegexParts | Op::CollectionSlot => Reply::Absent,
            Op::JsonNumber | Op::NumberText => Reply::Value(text(&show(&a[0]))),
            Op::DecimalNumber => Reply::Value(num(show(&a[0]).parse().unwrap())),
            Op::DigitsNumber => {
                let radix = number(&a[0]) as u32;
                let mut x = 0.0;
                for c in show(&a[1]).chars() {
                    x = x * radix as f64 + c.to_digit(radix).unwrap() as f64;
                }
                Reply::Value(num(x))
            },
            Op::Console => {
                self.console.push(show(&a[0]));
                Reply::Absent
            },
            Op::PlusOne => Reply::Value(num(number(&a[0]) + 1.0)),
            Op::Sum => Reply::Value(num(number(&a[0]) + number(&a[1]))),
            Op::NewPromise => {
                let p = self.object(&[("\0state", text("pending"))]);
                Reply::Value(p)
            },
            Op::ResolvePromise => {
                self.put(&a[0], "\0state", text("fulfilled"));
                self.put(&a[0], "\0value", a[1].clone());
                Reply::Absent
            },
            Op::RejectPromise => {
                self.put(&a[0], "\0state", text("rejected"));
                self.put(&a[0], "\0value", a[1].clone());
                Reply::Absent
            },
            Op::SettleState => {
                if self.slot(&a[0], "\0state").map(|s| show(&s)) == Some("rejected".to_string()) {
                    Reply::List(vec![Value::Bool(false), self.slot(&a[0], "\0value").unwrap()])
                } else {
                    let v = self.slot(&a[0], "\0value").unwrap_or(a[0].clone());
                    Reply::List(vec![Value::Bool(true), v])
                }
            },
            Op::IsPromise => flag(self.slot(&a[0], "\0state").is_some()),
            Op::AbsoluteUrl | Op::ResolveUrl => Reply::Value(text(&format!("http://page/{}", show(&a[0])))),
            Op::SameCallable => flag(matches!((&a[0], &a[1]),
                (Value::Ref(_, i), Value::Ref(_, j)) if i == j)),
            Op::ThrownMessage => Reply::Value(text("broken")),
            Op::DeliverMutations => Reply::Absent,
            Op::Intrinsic(_) => {
                let o = self.object(&[]);
                Reply::Value(o)
            },
            Op::SetOwn => {
                let v = self.slot(&a[2], "value").unwrap_or(Value::Undefined);
                self.put(&a[0], &show(&a[1]), v);
                flag(true)
            },
            Op::NewSparseArray => {
                let n = number(&a[0]) as usize;
                let v = self.array(a[1..1 + n].to_vec());
                let i = index(&v);
                self.heap[i].holes = a[1 + n..].iter().map(|x| number(x) as usize).collect();
                Reply::Value(v)
            },
            Op::IterateAll => match &a[0] {
                Value::Str(s) => Reply::List(s.chars().map(|c| text(&c.to_string())).collect()),
                v => Reply::List(self.items(v)),
            },
            Op::IsArrayLike => flag(self.slot(&a[0], "length").is_some()),
            op => panic!("not answered: {:?} {:?}", op, a),
        }
    }

    fn run(
        &mut self,
        f: impl Fn(&mut Interp) -> Result<Value, Stop>,
    ) -> Result<Value, Exception> {
        let mut replies = Vec::new();
        loop {
            let mut it = Interp::new(replies);
            match f(&mut it) {
                Ok(v) => return Ok(v),
                Err(Stop::Throw(e)) => return Err(e),
                Err(Stop::Ask(q)) => {
                    replies = it.replies;
                    let r = self.answer(&q);
                    replies.push(r);
                },
            }
        }
    }
}

fn error(r: Result<Value, Exception>) -> (ErrorKind, String) {
    match r {
        Err(Exception::Error(k, m)) => (k, m),
        other => panic!("no error: {:?}", other),
    }
}

fn method(op: StrOp, this: &str, args: Vec<Value>) -> Result<Value, Exception> {
    let mut e = Engine::new();
    let recv = Some(text(this));
    e.run(move |it| it.str_op(op, &recv, &args))
}

fn shown(op: StrOp, this: &str, args: Vec<Value>) -> String {
    show(&method(op, this, args).unwrap())
}

#[test]
fn cases() {
    assert_eq!(shown(StrOp::Upper, "stra\u{df}e", vec![]), "STRASSE");
    assert_eq!(shown(StrOp::Lower, "\u{c9}A", vec![]), "\u{e9}a");
    assert_eq!(shown(StrOp::LocaleUpper, "ab", vec![]), "AB");
    assert_eq!(shown(StrOp::LocaleLower, "AB", vec![]), "ab");
}

#[test]
fn trimming() {
    assert_eq!(shown(StrOp::Trim, " \u{feff}x\n", vec![]), "x");
    assert_eq!(shown(StrOp::TrimStart, "  x ", vec![]), "x ");
    assert_eq!(shown(StrOp::TrimEnd, "  x ", vec![]), "  x");
}

#[test]
fn places_count_code_units() {
    let s = "a\u{1f600}b";
    assert_eq!(shown(StrOp::IndexOf, s, vec![text("b")]), "3");
    assert_eq!(shown(StrOp::LastIndexOf, "abab", vec![text("ab")]), "2");
    assert_eq!(shown(StrOp::CharAt, s, vec![num(3.0)]), "b");
    assert_eq!(shown(StrOp::CharAt, s, vec![num(9.0)]), "");
    assert_eq!(shown(StrOp::CharCodeAt, s, vec![num(1.0)]), "55357");
    assert_eq!(shown(StrOp::CharCodeAt, s, vec![num(9.0)]), "NaN");
    assert_eq!(shown(StrOp::CodePointAt, s, vec![num(1.0)]), "128512");
    assert_eq!(shown(StrOp::CodePointAt, s, vec![num(9.0)]), "undefined");
    assert_eq!(shown(StrOp::At, "abc", vec![num(-1.0)]), "c");
}

#[test]
fn parts() {
    assert_eq!(shown(StrOp::Slice, "abcdef", vec![num(-3.0), num(-1.0)]), "de");
    assert_eq!(shown(StrOp::Substring, "abcdef", vec![num(4.0), num(1.0)]), "bcd");
    assert_eq!(shown(StrOp::Substr, "abcdef", vec![num(-3.0), num(2.0)]), "de");
}

#[test]
fn containing() {
    assert_eq!(shown(StrOp::Includes, "abc", vec![text("bc")]), "true");
    assert_eq!(shown(StrOp::StartsWith, "abc", vec![text("b"), num(1.0)]), "true");
    assert_eq!(shown(StrOp::EndsWith, "abc", vec![text("b"), num(2.0)]), "true");
    let s = "\u{1f600}ab";
    assert_eq!(shown(StrOp::Includes, s, vec![text("a"), num(2.0)]), "true");
    assert_eq!(shown(StrOp::Includes, s, vec![text("a"), num(3.0)]), "false");
    assert_eq!(shown(StrOp::StartsWith, s, vec![text("a"), num(2.0)]), "true");
    assert_eq!(shown(StrOp::EndsWith, s, vec![text("a"), num(3.0)]), "true");
    assert_eq!(shown(StrOp::PadStart, s, vec![num(6.0), text("-")]), "--\u{1f600}ab");
}

#[test]
fn repeating() {
    assert_eq!(shown(StrOp::Repeat, "ab", vec![num(2.0)]), "abab");
    assert_eq!(shown(StrOp::PadStart, "5", vec![num(3.0), text("0")]), "005");
    assert_eq!(shown(StrOp::PadEnd, "5", vec![num(3.0)]), "5  ");
    assert_eq!(error(method(StrOp::Repeat, "ab", vec![num(-1.0)])).0, ErrorKind::RangeError);
}

#[test]
fn joining_texts() {
    assert_eq!(shown(StrOp::Concat, "a", vec![num(1.0), text("b")]), "a1b");
}

#[test]
fn parsing_numbers() {
    let mut e = Engine::new();
    let parsed = |e: &mut Engine, s: &str| {
        let args = vec![text(s)];
        show(&e.run(move |it| it.parse_float(&args)).unwrap())
    };
    assert_eq!(parsed(&mut e, "  3.25px"), "3.25");
    assert_eq!(parsed(&mut e, "-.5"), "-0.5");
    assert_eq!(parsed(&mut e, "px"), "NaN");
    assert_eq!(parsed(&mut e, "-Infinity"), "-inf");
    let args = vec![text("ff"), num(16.0)];
    assert_eq!(show(&e.run(move |it| it.parse_int(&args)).unwrap()), "255");
    let args = vec![text("-0x10")];
    assert_eq!(show(&e.run(move |it| it.parse_int(&args)).unwrap()), "-16");
    let args = vec![text("z")];
    assert_eq!(show(&e.run(move |it| it.parse_int(&args)).unwrap()), "NaN");
}

#[test]
fn from_codes() {
    let mut e = Engine::new();
    let args = vec![num(0xd83d as f64), num(0xde00 as f64), num(65.0)];
    assert_eq!(show(&e.run(move |it| it.str_from_char_code(&args)).unwrap()), "\u{1f600}A");
    let args = vec![num(128512.0)];
    assert_eq!(show(&e.run(move |it| it.str_from_code_point(&args)).unwrap()), "\u{1f600}");
    let args = vec![num(-1.0)];
    assert_eq!(error(e.run(move |it| it.str_from_code_point(&args))).0, ErrorKind::RangeError);
}

#[test]
fn addresses() {
    let mut e = Engine::new();
    let r = e.run(|it| it.encode_uri_component(&None, &vec![text("a b/")]));
    assert_eq!(show(&r.unwrap()), "a%20b%2F");
    let r = e.run(|it| it.encode_uri(&None, &vec![text("a b/")]));
    assert_eq!(show(&r.unwrap()), "a%20b/");
    let r = e.run(|it| it.decode_uri_component(&None, &vec![text("%zz")]));
    assert_eq!(error(r).0, ErrorKind::URIError);
}

fn counting(_: &mut Engine, q: &Ask) -> Option<Reply> {
    match q.op {
        Op::NextSymbol => Some(Reply::Value(num(4.0))),
        _ => None,
    }
}

#[test]
fn symbols() {
    let mut e = Engine::new();
    e.extra = counting;
    let r = e.run(|it| it.symbol_ctor(&vec![text("name")])).unwrap();
    assert_eq!(show(&r), "Symbol(name)");
    let desc = e.run(move |it| it.symbol_desc_get(&Some(r.clone()), &vec![])).unwrap();
    assert_eq!(show(&desc), "name");
    let r = e.run(|it| it.symbol_key_for(&vec![num(1.0)]));
    assert_eq!(
        error(r),
        (ErrorKind::TypeError, "Symbol.keyFor requires a symbol argument".to_string()),
    );
    let r = e.run(|it| it.symbol_desc_get(&Some(num(1.0)), &vec![]));
    assert_eq!(error(r).0, ErrorKind::TypeError);
}

fn bits(_: &mut Engine, q: &Ask) -> Option<Reply> {
    match q.op {
        Op::IntegrityBits => Some(
            Reply::List(vec![Value::Bool(false), Value::Bool(true), Value::Bool(false)]),
        ),
        _ => None,
    }
}

#[test]
fn a_sealed_object_is_not_frozen() {
    let mut e = Engine::new();
    e.extra = bits;
    let o = e.object(&[]);
    let test = |e: &mut Engine, t: IntegrityTest, o: &Value| {
        let args = vec![o.clone()];
        show(&e.run(move |it| it.integrity(t, &args)).unwrap())
    };
    assert_eq!(test(&mut e, IntegrityTest::Sealed, &o), "true");
    assert_eq!(test(&mut e, IntegrityTest::Frozen, &o), "false");
    assert_eq!(test(&mut e, IntegrityTest::Extensible, &o), "false");
    assert_eq!(test(&mut e, IntegrityTest::Frozen, &num(1.0)), "true");
}

#[test]
fn functions_and_sources() {
    let mut e = Engine::new();
    let r = e.run(|it| it.fn_call(&Some(num(1.0)), &vec![]));
    assert_eq!(
        error(r),
        (ErrorKind::TypeError, "Function.prototype.call called on non-callable".to_string()),
    );
    let r = e.run(|it| it.proxy_ctor(&None, &vec![]));
    assert_eq!(error(r), (ErrorKind::Error, "Proxy 는 new 로 생성해야 함".to_string()));
    let r = e.run(|it| it.proxy_revocable(&None, &vec![num(1.0), num(2.0)]));
    assert_eq!(error(r).0, ErrorKind::TypeError);
}

#[test]
fn names_in_the_text_of_functions() {
    assert!(is_identifier("\u{e9}t\u{e9}_1$") && is_identifier("\u{ac00}"));
    assert!(!is_identifier("") && !is_identifier("1a") && !is_identifier("get x"));
    assert!(is_identifier_by("ab", &vec![true, true]));
    assert!(!is_identifier_by("ab", &vec![true, false]));
    assert!(is_identifier_by("_$", &vec![false, false]));
}

fn named(_: &mut Engine, q: &Ask) -> Option<Reply> {
    match q.op {
        Op::FunctionName => Some(Reply::Value(text("get\u{e9}"))),
        _ => None,
    }
}

#[test]
fn the_text_of_a_built_in_function() {
    let mut e = Engine::new();
    e.extra = named;
    let f = Some(Value::Native(Native::PromiseCtor));
    let r = e.run(|it| it.fn_to_string(&f, &vec![])).unwrap();
    assert_eq!(show(&r), "function get\u{e9}() { [native code] }");
    let r = e.run(|it| it.fn_to_string(&None, &vec![]));
    assert_eq!(error(r).0, ErrorKind::TypeError);
}

fn faults(e: &mut Engine, q: &Ask) -> Option<Reply> {
    match q.op {
        Op::BadRegexFlags => Some(if show(&q.args[0]) == "z" {
            Reply::Value(text("z"))
        } else {
            Reply::Absent
        }),
        Op::RegexFault => Some(if show(&q.args[0]) == "(" {
            Reply::Value(text("open group"))
        } else {
            Reply::Absent
        }),
        Op::NewRegex => {
            let o = e.object(&[("source", q.args[0].clone()), ("flags", q.args[1].clone())]);
            Some(Reply::Value(o))
        },
        Op::RegexParts => Some(match e.slot(&q.args[0], "source") {
            Some(s) => Reply::List(vec![s, e.slot(&q.args[0], "flags").unwrap()]),
            None => Reply::Absent,
        }),
        _ => None,
    }
}

#[test]
fn faulty_regular_expressions() {
    let mut e = Engine::new();
    e.extra = faults;
    assert_eq!(
        error(e.run(|it| it.regexp_ctor(&None, &vec![text("("), text("z")]))),
        (ErrorKind::SyntaxError, "Invalid regular expression flags: z".to_string()),
    );
    assert_eq!(
        error(e.run(|it| it.regexp_ctor(&None, &vec![text("(")]))),
        (ErrorKind::SyntaxError, "Invalid regular expression: /(/: open group".to_string()),
    );
    let r = e.run(|it| it.regexp_ctor(&None, &vec![text("a"), text("g")])).unwrap();
    assert_eq!(show(&e.slot(&r, "flags").unwrap()), "g");
    let bad = e.object(&[("source", text("(")), ("flags", text(""))]);
    let recv = Some(bad.clone());
    assert_eq!(
        error(e.run(|it| it.regex_test(&recv, &vec![]))).0,
        ErrorKind::SyntaxError,
    );
    let text = Some(text("x"));
    let args = vec![bad];
    assert_eq!(
        error(e.run(|it| it.str_op(StrOp::Split, &text, &args))),
        (ErrorKind::Error, "정규식: open group".to_string()),
    );
}
