use builtins::canvas::CanvasMethod;
use builtins::dates::DateField;
use builtins::host::DrawCmd;
use builtins::host::{Ask, Exception, Interp, Op, Reply, Stop};
use builtins::maths::MathOp;
use builtins::number::Num;
use builtins::value::{ErrorKind, Kind, Value};

// A small engine: it answers what a built-in asks until the built-in has finished.
struct Engine {
    heap: Vec<Thing>,
    functions: Vec<fn(&mut Engine, Option<Value>, Vec<Value>) -> Result<Value, u64>>,
    console: Vec<String>,
    asked: Vec<Op>,
    extra: fn(&mut Engine, &Ask) -> Option<Reply>,
}

fn nothing_more(_: &mut Engine, _: &Ask) -> Option<Reply> {
    None
}

struct Thing {
    slots: Vec<(String, Value)>,
    items: Vec<Value>,
    holes: Vec<usize>,
}

fn num(x: f64) -> Value {
    Value::Num(Num { bits: x.to_bits() })
}

fn text(s: &str) -> Value {
    Value::Str(s.to_string())
}

fn show(v: &Value) -> String {
    match v {
        Value::Undefined => "undefined".to_string(),
        Value::Null => "null".to_string(),
        Value::Bool(b) => b.to_string(),
        Value::Num(n) => {
            let x = f64::from_bits(n.bits);
            if x == 0.0 { "0".to_string() } else { x.to_string() }
        },
        Value::Str(s) => s.clone(),
        Value::BigInt(s) => s.clone(),
        Value::Symbol(d) => format!("Symbol({})", d.desc.clone().unwrap_or_default()),
        other => format!("{:?}", other),
    }
}

fn number(v: &Value) -> f64 {
    match v {
        Value::Num(n) => f64::from_bits(n.bits),
        Value::Str(s) => if s.is_empty() { 0.0 } else { s.parse().unwrap_or(f64::NAN) },
        Value::Bool(b) => if *b { 1.0 } else { 0.0 },
        Value::Null => 0.0,
        _ => f64::NAN,
    }
}

fn index(v: &Value) -> usize {
    match v {
        Value::Ref(_, i) => *i as usize,
        other => panic!("no handle: {:?}", other),
    }
}

fn flag(b: bool) -> Reply {
    Reply::Value(Value::Bool(b))
}

impl Engine {
    fn new() -> Engine {
        Engine {
            heap: Vec::new(),
            functions: Vec::new(),
            console: Vec::new(),
            asked: Vec::new(),
            extra: nothing_more,
        }
    }

    fn object(&mut self, fields: &[(&str, Value)]) -> Value {
        let slots = fields.iter().map(|(k, v)| (k.to_string(), v.clone())).collect();
        self.heap.push(Thing { slots, items: Vec::new(), holes: Vec::new() });
        Value::Ref(Kind::Obj, (self.heap.len() - 1) as u64)
    }

    fn array(&mut self, items: Vec<Value>) -> Value {
        self.heap.push(Thing { slots: Vec::new(), items, holes: Vec::new() });
        Value::Ref(Kind::Arr, (self.heap.len() - 1) as u64)
    }

    fn function(
        &mut self,
        f: fn(&mut Engine, Option<Value>, Vec<Value>) -> Result<Value, u64>,
    ) -> Value {
        self.functions.push(f);
        self.heap.push(Thing { slots: Vec::new(), items: Vec::new(), holes: Vec::new() });
        Value::Ref(Kind::Fn, (self.functions.len() - 1) as u64)
    }

    fn slot(&self, o: &Value, key: &str) -> Option<Value> {
        match o {
            Value::Ref(Kind::Obj | Kind::Arr | Kind::Instance | Kind::Class, i) => {
                self.heap[*i as usize].slots.iter().find(|(k, _)| k == key).map(|(_, v)| v.clone())
            },
            _ => None,
        }
    }

    fn put(&mut self, o: &Value, key: &str, v: Value) {
        if matches!(o, Value::Ref(Kind::Arr, _)) {
            if let Ok(i) = key.parse::<usize>() {
                let t = &mut self.heap[index(o)];
                while t.items.len() <= i {
                    t.items.push(Value::Undefined);
                }
                t.items[i] = v;
                return;
            }
        }
        let t = &mut self.heap[index(o)];
        match t.slots.iter_mut().find(|(k, _)| k == key) {
            Some(s) => s.1 = v,
            None => t.slots.push((key.to_string(), v)),
        }
    }

    fn get(&self, o: &Value, key: &str) -> Option<Value> {
        if let Value::Ref(Kind::Arr, i) = o {
            let t = &self.heap[*i as usize];
            if key == "length" {
                return Some(num(t.items.len() as f64));
            }
            if let Ok(k) = key.parse::<usize>() {
                return if k < t.items.len() && !t.holes.contains(&k) {
                    Some(t.items[k].clone())
                } else {
                    None
                };
            }
        }
        if let Value::Str(s) = o {
            if key == "length" {
                return Some(num(s.encode_utf16().count() as f64));
            }
        }
        self.slot(o, key)
    }

    fn own(&self, o: &Value, key: &str) -> Option<Value> {
        match o {
            Value::Ref(Kind::Arr, _) => self.get(o, key),
            _ => self.slot(o, key),
        }
    }

    fn items(&self, v: &Value) -> Vec<Value> {
        self.heap[index(v)].items.clone()
    }

    fn shown(&self, v: &Value) -> Vec<String> {
        self.items(v).iter().map(show).collect()
    }

    fn call(&mut self, f: &Value, this: Option<Value>, args: Vec<Value>) -> Reply {
        let g = self.functions[index(f)];
        match g(self, this, args) {
            Ok(v) => Reply::Value(v),
            Err(n) => Reply::Throw(n),
        }
    }

    fn answer(&mut self, q: &Ask) -> Reply {
        self.asked.push(q.op);
        let more = self.extra;
        if let Some(r) = more(self, q) {
            return r;
        }
        let a = &q.args;
        match q.op {
            Op::Get => Reply::Value(self.get(&a[0], &show(&a[1])).unwrap_or(Value::Undefined)),
            Op::Has => flag(self.get(&a[0], &show(&a[1])).is_some()),
            Op::Assign => {
                self.put(&a[0], &show(&a[1]), a[2].clone());
                flag(true)
            },
            Op::Delete => {
                let key = show(&a[1]);
                self.heap[index(&a[0])].slots.retain(|(k, _)| *k != key);
                flag(true)
            },
            Op::OwnSlot => match self.own(&a[0], &show(&a[1])) {
                Some(v) => Reply::Value(v),
                None => Reply::Absent,
            },
            Op::StoreSlot => {
                self.put(&a[0], &show(&a[1]), a[2].clone());
                Reply::Absent
            },
            Op::Call => self.call(&a[0], Some(a[1].clone()), a[2..].to_vec()),
            Op::CallBare => self.call(&a[0], None, a[1..].to_vec()),
            Op::ToNumber | Op::PlainNumber => match &a[0] {
                Value::Symbol(_) => Reply::Throw(7),
                v => Reply::Value(num(number(v))),
            },
            Op::ToInteger => {
                let x = number(&a[0]);
                Reply::Value(num(if x.is_nan() { 0.0 } else { x.trunc() }))
            },
            Op::ToInt32 | Op::PlainInt32 => {
                let x = number(&a[0]);
                let i = if x.is_finite() { x as i64 as i32 } else { 0 };
                Reply::Value(num(i as f64))
            },
            Op::DelayOf => Reply::Value(num(number(&a[0]).max(0.0))),
            Op::ToText | Op::Display | Op::ToKey | Op::ToPrimitiveText => Reply::Value(text(&show(&a[0]))),
            Op::IsArray => flag(matches!(&a[0], Value::Ref(Kind::Arr, _))),
            Op::IsConstructor => flag(matches!(&a[0], Value::Native(_))),
            Op::ArrayLen => Reply::Value(num(self.items(&a[0]).len() as f64)),
            Op::ArrayPresent => {
                let k = number(&a[1]) as usize;
                let t = &self.heap[index(&a[0])];
                flag(k < t.items.len() && !t.holes.contains(&k))
            },
            Op::ArrayHole => {
                let k = number(&a[1]) as usize;
                flag(self.heap[index(&a[0])].holes.contains(&k))
            },
            Op::HasHoles => flag(!self.heap[index(&a[0])].holes.is_empty()),
            Op::FillHoles => {
                self.heap[index(&a[0])].holes.clear();
                Reply::Absent
            },
            Op::Elements => Reply::List(self.items(&a[0])),
            Op::StoreElements => {
                let i = index(&a[0]);
                self.heap[i].items = a[1..].to_vec();
                self.heap[i].holes.clear();
                Reply::Absent
            },
            Op::AppendElements => {
                self.heap[index(&a[0])].items.extend(a[1..].to_vec());
                Reply::Absent
            },
            Op::StoreElement => {
                self.put(&a[0], &show(&a[1]), a[2].clone());
                Reply::Absent
            },
            Op::StoredSlot => match self.get(&a[0], &show(&a[1])) {
                Some(v) => Reply::Value(v),
                None => Reply::Absent,
            },
            Op::StoreProperty => {
                self.put(&a[0], &show(&a[1]), a[3].clone());
                Reply::Absent
            },
            Op::Attributes => Reply::List(vec![Value::Bool(true); 3]),
            Op::SetAttributes | Op::SetIntegrity(_) => Reply::Absent,
            Op::ReportError => {
                self.console.push(format!("reported {}", show(&a[0])));
                Reply::Absent
            },
            Op::MappedParam => flag(false),
            Op::StoredKeys | Op::ArrayProps => {
                let t = &self.heap[index(&a[0])];
                Reply::List(t.slots.iter().map(|(k, _)| text(k)).collect())
            },
            Op::NewArray => Reply::Value(self.array(a.clone())),
            Op::NewObject => {
                let o = self.object(&[]);
                for p in a.chunks(2) {
                    self.put(&o, &show(&p[0]), p[1].clone());
                }
                Reply::Value(o)
            },
            Op::Keys => {
                let t = &self.heap[index(&a[0])];
                Reply::List(
                    t.slots.iter().filter(|(k, _)| !k.starts_with('\0')).map(|(k, _)| text(k)).collect(),
                )
            },
            Op::StoredFields => {
                let t = &self.heap[index(&a[0])];
                let mut l = Vec::new();
                for (k, v) in &t.slots {
                    l.push(text(k));
                    l.push(v.clone());
                }
                Reply::List(l)
            },
            Op::NewWrapper => {
                let o = self.object(&[("\0value", a[0].clone())]);
                Reply::Value(o)
            },
            Op::IsFrozen | Op::NonExtensible | Op::IsDate | Op::IsRegex | Op::IsRegexLike => flag(false),
            Op::LengthWritable | Op::ConcatSpreadable | Op::HasDocument => {
                flag(!matches!(&a.first(), Some(Value::Num(_)) | Some(Value::Str(_))))
            },
            Op::Wrapped | Op::RegexParts | Op::CollectionSlot => Reply::Absent,
            Op::JsonNumber | Op::NumberText => Reply::Value(text(&show(&a[0]))),
            Op::DecimalNumber => Reply::Value(num(show(&a[0]).parse().unwrap())),
            Op::DigitsNumber => {
                let radix = number(&a[0]) as u32;
                let mut x = 0.0;
                for c in show(&a[1]).chars() {
                    x = x * radix as f64 + c.to_digit(radix).unwrap() as f64;
                }
                Reply::Value(num(x))
            },
            Op::Console => {
                self.console.push(show(&a[0]));
                Reply::Absent
            },
            Op::PlusOne => Reply::Value(num(number(&a[0]) + 1.0)),
            Op::Sum => Reply::Value(num(number(&a[0]) + number(&a[1]))),
            Op::NewPromise => {
                let p = self.object(&[("\0state", text("pending"))]);
                Reply::Value(p)
            },
            Op::ResolvePromise => {
                self.put(&a[0], "\0state", text("fulfilled"));
                self.put(&a[0], "\0value", a[1].clone());
                Reply::Absent
            },
            Op::RejectPromise => {
                self.put(&a[0], "\0state", text("rejected"));
                self.put(&a[0], "\0value", a[1].clone());
                Reply::Absent
            },
            Op::SettleState => {
                if self.slot(&a[0], "\0state").map(|s| show(&s)) == Some("rejected".to_string()) {
                    Reply::List(vec![Value::Bool(false), self.slot(&a[0], "\0value").unwrap()])
                } else {
                    let v = self.slot(&a[0], "\0value").unwrap_or(a[0].clone());
                    Reply::List(vec![Value::Bool(true), v])
                }
            },
            Op::IsPromise => flag(self.slot(&a[0], "\0state").is_some()),
            Op::AbsoluteUrl | Op::ResolveUrl => Reply::Value(text(&format!("http://page/{}", show(&a[0])))),
            Op::SameCallable => flag(matches!((&a[0], &a[1]),
                (Value::Ref(_, i), Value::Ref(_, j)) if i == j)),
            Op::ThrownMessage => Reply::Value(text("broken")),
            Op::DeliverMutations => Reply::Absent,
            Op::Intrinsic(_) => {
                let o = self.object(&[]);
                Reply::Value(o)
            },
            Op::SetOwn => {
                let v = self.slot(&a[2], "value").unwrap_or(Value::Undefined);
                self.put(&a[0], &show(&a[1]), v);
                flag(true)
            },
            Op::NewSparseArray => {
                let n = number(&a[0]) as usize;
                let v = self.array(a[1..1 + n].to_vec());
                let i = index(&v);
                self.heap[i].holes = a[1 + n..].iter().map(|x| number(x) as usize).collect();
                Reply::Value(v)
            },
            Op::IterateAll => match &a[0] {
                Value::Str(s) => Reply::List(s.chars().map(|c| text(&c.to_string())).collect()),
                v => Reply::List(self.items(v)),
            },
            Op::IsArrayLike => flag(self.slot(&a[0], "length").is_some()),
            op => panic!("not answered: {:?} {:?}", op, a),
        }
    }

    fn run(
        &mut self,
        f: impl Fn(&mut Interp) -> Result<Value, Stop>,
    ) -> Result<Value, Exception> {
        let mut replies = Vec::new();
        loop {
            let mut it = Interp::new(replies);
            match f(&mut it) {
                Ok(v) => return Ok(v),
                Err(Stop::Throw(e)) => return Err(e),
                Err(Stop::Ask(q)) => {
                    replies = it.replies;
                    let r = self.answer(&q);
                    replies.push(r);
                },
            }
        }
    }
}

fn error(r: Result<Value, Exception>) -> (ErrorKind, String) {
    match r {
        Err(Exception::Error(k, m)) => (k, m),
        other => panic!("no error: {:?}", other),
    }
}

fn clock(e: &mut Engine, q: &Ask) -> Option<Reply> {
    let a = &q.args;
    match q.op {
        Op::IsDate => Some(flag(e.slot(&a[0], "\0time").is_some())),
        Op::DateParts => Some(
            Reply::List([2024.0, 1.0, 29.0, 12.0, 30.0, 15.0, 250.0, 4.0].iter().map(|x| num(*x)).collect()),
        ),
        Op::ExactDate | Op::FullDate => {
            e.console.push(a.iter().map(show).collect::<Vec<String>>().join(" "));
            Some(Reply::Value(num(77.0)))
        },
        Op::TimeClip => Some(Reply::Value(a[0].clone())),
        Op::Minus => Some(Reply::Value(num(number(&a[0]) - number(&a[1])))),
        _ => None,
    }
}

#[test]
fn parts_of_a_date() {
    let mut e = Engine::new();
    e.extra = clock;
    let d = Some(e.object(&[("\0time", num(5.0))]));
    let part = |e: &mut Engine, f: DateField| {
        let d = d.clone();
        show(&e.run(move |it| it.date_method(f, &d, &vec![])).unwrap())
    };
    assert_eq!(part(&mut e, DateField::FullYear), "2024");
    assert_eq!(part(&mut e, DateField::UtcFullYear), "2024");
    assert_eq!(part(&mut e, DateField::Month), "1");
    assert_eq!(part(&mut e, DateField::UtcDay), "4");
    assert_eq!(part(&mut e, DateField::GetYear), "124");
    assert_eq!(part(&mut e, DateField::Time), "5");
    assert_eq!(part(&mut e, DateField::TimezoneOffset), "0");
}

#[test]
fn setting_a_part_keeps_the_others() {
    let mut e = Engine::new();
    e.extra = clock;
    let d = e.object(&[("\0time", num(5.0))]);
    let recv = Some(d.clone());
    let r = e.run(|it| it.date_method(DateField::SetMinutes, &recv, &vec![num(7.0)])).unwrap();
    assert_eq!(show(&r), "77");
    assert_eq!(e.console, ["2024 1 29 12 7 15 250"]);
    assert_eq!(show(&e.slot(&d, "\0time").unwrap()), "77");
}

#[test]
fn invalid_dates_stay_invalid() {
    let mut e = Engine::new();
    e.extra = clock;
    let d = e.object(&[("\0time", num(f64::NAN))]);
    let recv = Some(d.clone());
    let r = e.run(|it| it.date_method(DateField::SetMinutes, &recv, &vec![num(7.0)])).unwrap();
    assert_eq!(show(&r), "NaN");
    assert_eq!(show(&e.slot(&d, "\0time").unwrap()), "NaN");
    assert_eq!(show(&e.run(|it| it.date_method(DateField::Hours, &recv, &vec![])).unwrap()), "NaN");
    let r = e.run(|it| it.date_method(DateField::ToIso, &recv, &vec![]));
    assert_eq!(error(r).0, ErrorKind::RangeError);
    let r = e.run(|it| it.date_method(DateField::Hours, &None, &vec![]));
    assert_eq!(error(r), (ErrorKind::TypeError, "this is not a Date object".to_string()));
}

#[test]
fn functions_of_numbers() {
    let mut e = Engine::new();
    let math = |e: &mut Engine, op: MathOp, args: &[f64]| {
        let args: Vec<Value> = args.iter().map(|x| num(*x)).collect();
        show(&e.run(move |it| it.math_op(op, &args)).unwrap())
    };
    assert_eq!(math(&mut e, MathOp::MaxOf, &[1.0, 3.0, 2.0]), "3");
    assert_eq!(math(&mut e, MathOp::MaxOf, &[]), "-inf");
    assert_eq!(math(&mut e, MathOp::MinOf, &[1.0, f64::NAN]), "NaN");
    assert_eq!(math(&mut e, MathOp::Abs, &[-2.5]), "2.5");
    assert_eq!(math(&mut e, MathOp::Sign, &[-2.5]), "-1");
    assert_eq!(math(&mut e, MathOp::Clz32, &[1.0]), "31");
    assert_eq!(math(&mut e, MathOp::Imul, &[-1.0, 5.0]), "-5");
}

fn paper(e: &mut Engine, q: &Ask) -> Option<Reply> {
    let a = &q.args;
    match q.op {
        Op::Single => Some(Reply::Value(num(number(&a[0])))),
        Op::Singles => Some(Reply::List(a.clone())),
        Op::Colour => Some(Reply::List(vec![num(1.0), num(2.0), num(3.0), num(255.0)])),
        Op::ScaleOpacity => Some(Reply::Value(a[0].clone())),
        Op::ClampUnit => Some(Reply::Value(a[0].clone())),
        Op::LastShadow => Some(Reply::List(vec![])),
        Op::Draw(c) => {
            let rest = a[1..].iter().map(show).collect::<Vec<String>>().join(" ");
            e.console.push(format!("{:?} {}", c, rest));
            Some(Reply::Absent)
        },
        _ => None,
    }
}

fn draw(e: &mut Engine, ctx: &Value, m: CanvasMethod, args: &[f64]) -> Result<Value, Exception> {
    let recv = Some(ctx.clone());
    let args: Vec<Value> = args.iter().map(|x| num(*x)).collect();
    e.run(move |it| it.canvas_method(m, &recv, &args))
}

#[test]
fn rectangles_take_the_colour_of_the_context() {
    let mut e = Engine::new();
    e.extra = paper;
    let ctx = e.object(&[("\0canvas", num(4.0)), ("fillStyle", text("red"))]);
    draw(&mut e, &ctx, CanvasMethod::FillRect, &[1.0, 2.0, 3.0, 4.0]).unwrap();
    assert_eq!(e.console, ["FillRect 1 2 3 4 1 2 3 255"]);
    assert!(e.asked.contains(&Op::Draw(DrawCmd::FillRect)));
}

#[test]
fn paths_collect_points() {
    let mut e = Engine::new();
    e.extra = paper;
    let ctx = e.object(&[("\0canvas", num(4.0))]);
    draw(&mut e, &ctx, CanvasMethod::MoveTo, &[9.0, 9.0]).unwrap();
    draw(&mut e, &ctx, CanvasMethod::BeginPath, &[]).unwrap();
    draw(&mut e, &ctx, CanvasMethod::MoveTo, &[1.0, 2.0]).unwrap();
    draw(&mut e, &ctx, CanvasMethod::LineTo, &[3.0, 4.0]).unwrap();
    let path = e.slot(&ctx, "\0path").unwrap();
    assert_eq!(e.shown(&path), ["1", "2", "3", "4"]);
}

#[test]
fn drawing_needs_a_context() {
    let mut e = Engine::new();
    e.extra = paper;
    let o = e.object(&[]);
    assert_eq!(show(&draw(&mut e, &o, CanvasMethod::FillRect, &[]).unwrap()), "undefined");
    assert_eq!(show(&draw(&mut e, &num(1.0), CanvasMethod::FillRect, &[]).unwrap()), "undefined");
    assert_eq!(e.console.len(), 0);
}

#[test]
fn restoring_undoes_what_was_set() {
    let mut e = Engine::new();
    e.extra = paper;
    let ctx = e.object(
        &[
            ("\0canvas", num(4.0)),
            ("fillStyle", text("red")),
            ("miterLimit", num(10.0)),
            ("globalCompositeOperation", text("source-over")),
        ],
    );
    draw(&mut e, &ctx, CanvasMethod::Save, &[]).unwrap();
    e.put(&ctx, "fillStyle", text("blue"));
    e.put(&ctx, "miterLimit", num(2.0));
    e.put(&ctx, "globalCompositeOperation", text("xor"));
    draw(&mut e, &ctx, CanvasMethod::Restore, &[]).unwrap();
    assert_eq!(show(&e.slot(&ctx, "fillStyle").unwrap()), "red");
    assert_eq!(show(&e.slot(&ctx, "miterLimit").unwrap()), "10");
    assert_eq!(show(&e.slot(&ctx, "globalCompositeOperation").unwrap()), "source-over");
}
