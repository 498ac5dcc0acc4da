//! The delivery of what has happened at the sockets.
use crate::array_live::{is_plain, is_plain_ref};
use crate::host::{
    ask_list, ask_number, ask_value, done, halted, list1, list2, list3, list4, number_in, plays,
    run_plain, text_in, text_value, Answer, Halt, Host, Interp, NAN_BITS, Op, Question, Run, Stop,
};
use crate::number::{length_of, num_of, to_length, MAX_SAFE, Num};
use crate::text::same_text;
use crate::value::{views, Val, Value};
use vstd::prelude::*;

verus! {

/// What happened at a socket.
#[verifier::ext_equal]
pub enum SocketEvent {
    Message(Seq<char>),
    /// A message of bytes, which the engine keeps.
    Binary(Val),
    Close(Num, Seq<char>),
}

/// The event that three values of a reply describe.
pub open spec fn event_in(kind: Val, a: Val, b: Val) -> SocketEvent {
    if kind == Val::Str("message"@) {
        SocketEvent::Message(text_in(a))
    } else if kind == Val::Str("binary"@) {
        SocketEvent::Binary(a)
    } else {
        SocketEvent::Close(number_in(a), text_in(b))
    }
}

/// The fields of the event object of a closed socket. It was closed cleanly with the code 1000.
pub open spec fn close_event(code: Num, reason: Seq<char>) -> Seq<Val> {
    seq![
        Val::Str("code"@),
        Val::Num(code),
        Val::Str("reason"@),
        Val::Str(reason),
        Val::Str("wasClean"@),
        Val::Bool(code.eq_number(num_of(1000))),
    ]
}

/// The fields of the event object of a message.
pub open spec fn message_event(data: Val) -> Seq<Val> {
    seq![Val::Str("data"@), data, Val::Str("type"@), Val::Str("message"@)]
}

/// What listeners throw is dropped.
pub open spec fn quiet(r: Run<Val>) -> Run<()> {
    match r.out {
        Err(Halt::Ask(q)) => halted(Halt::Ask(q), r.pos),
        _ => done((), r.pos),
    }
}

/// Runs the listeners of `o` for an event with an event object.
pub open spec fn fire_with(h: Host, pos: nat, o: Val, name: Seq<char>, fields: Seq<Val>) -> Run<()> {
    let e = ask_value(h, pos, Op::NewObject, fields);
    match e.out {
        Err(x) => halted(x, e.pos),
        Ok(evt) => quiet(ask_value(h, e.pos, Op::SocketFire, seq![o, Val::Str(name), evt])),
    }
}

/// Runs the listeners of `o` for an event without an event object.
pub open spec fn fire(h: Host, pos: nat, o: Val, name: Seq<char>) -> Run<()> {
    quiet(ask_value(h, pos, Op::SocketFire, seq![o, Val::Str(name)]))
}

/// Delivers one event: a message fires `message`, a close sets the ready state to closed and then
/// fires `close`. Bytes that make no array buffer are delivered as undefined.
pub open spec fn deliver(h: Host, pos: nat, o: Val, e: SocketEvent) -> Run<()> {
    match e {
        SocketEvent::Message(s) => fire_with(h, pos, o, "message"@, message_event(Val::Str(s))),
        SocketEvent::Binary(bytes) => {
            let b = ask_value(h, pos, Op::NewArrayBuffer, seq![bytes]);
            match b.out {
                Err(Halt::Ask(q)) => halted(Halt::Ask(q), b.pos),
                Err(Halt::Throw(_)) => fire_with(
                    h,
                    b.pos,
                    o,
                    "message"@,
                    message_event(Val::Undefined),
                ),
                Ok(buf) => fire_with(h, b.pos, o, "message"@, message_event(buf)),
            }
        },
        SocketEvent::Close(code, reason) => {
            let s = ask_value(
                h,
                pos,
                Op::StoreSlot,
                seq![o, Val::Str("readyState"@), Val::Num(num_of(3))],
            );
            match s.out {
                Err(x) => halted(x, s.pos),
                Ok(_) => fire_with(h, s.pos, o, "close"@, close_event(code, reason)),
            }
        },
    }
}

/// Delivers the events of a reply, in order.
pub open spec fn deliver_all(h: Host, pos: nat, o: Val, events: Seq<Val>) -> Run<()>
    decreases events.len(),
{
    if events.len() < 3 {
        done((), pos)
    } else {
        let d = deliver(h, pos, o, event_in(events[0], events[1], events[2]));
        match d.out {
            Err(x) => halted(x, d.pos),
            Ok(_) => deliver_all(h, d.pos, o, events.skip(3)),
        }
    }
}

/// Fires `open` at every opened socket from `j` on. Only a plain object can be a socket.
pub open spec fn fire_opened(h: Host, pos: nat, sockets: Seq<Val>, j: int) -> Run<()>
    decreases sockets.len() - j,
{
    if !(0 <= j < sockets.len()) {
        done((), pos)
    } else if !is_plain(sockets[j]) {
        fire_opened(h, pos, sockets, j + 1)
    } else {
        let f = fire(h, pos, sockets[j], "open"@);
        match f.out {
            Err(x) => halted(x, f.pos),
            Ok(_) => fire_opened(h, f.pos, sockets, j + 1),
        }
    }
}

/// Fires `error` and then `close` at every failed socket from `j` on.
pub open spec fn fire_failed(h: Host, pos: nat, sockets: Seq<Val>, j: int) -> Run<()>
    decreases sockets.len() - j,
{
    if !(0 <= j < sockets.len()) {
        done((), pos)
    } else if !is_plain(sockets[j]) {
        fire_failed(h, pos, sockets, j + 1)
    } else {
        let f = fire(h, pos, sockets[j], "error"@);
        match f.out {
            Err(x) => halted(x, f.pos),
            Ok(_) => {
                let c = fire(h, f.pos, sockets[j], "close"@);
                match c.out {
                    Err(x) => halted(x, c.pos),
                    Ok(_) => fire_failed(h, c.pos, sockets, j + 1),
                }
            },
        }
    }
}

/// Delivers what has arrived at the sockets `i..n`.
pub open spec fn pump_sockets(h: Host, pos: nat, i: nat, n: nat) -> Run<()>
    decreases n - i,
{
    if i >= n {
        done((), pos)
    } else {
        let at = Val::Num(num_of(i as int));
        let p = ask_list(h, pos, Op::SocketPoll, seq![at]);
        match p.out {
            Err(x) => halted(x, p.pos),
            Ok(events) => {
                if events.len() == 0 {
                    pump_sockets(h, p.pos, i + 1, n)
                } else {
                    let o = ask_value(h, p.pos, Op::SocketObject, seq![at]);
                    match o.out {
                        Err(x) => halted(x, o.pos),
                        Ok(socket) => {
                            if !is_plain(socket) {
                                pump_sockets(h, o.pos, i + 1, n)
                            } else {
                                let d = deliver_all(h, o.pos, socket, events);
                                match d.out {
                                    Err(x) => halted(x, d.pos),
                                    Ok(_) => pump_sockets(h, d.pos, i + 1, n),
                                }
                            }
                        },
                    }
                }
            },
        }
    }
}

/// Delivers everything: first the sockets that opened, then those that failed, then what has
/// arrived at each socket in turn. A failure that a listener of `open` brings about is delivered
/// in the same round.
pub open spec fn pump(h: Host, pos: nat) -> Run<()> {
    let o = ask_list(h, pos, Op::SocketsOpened, Seq::empty());
    match o.out {
        Err(x) => halted(x, o.pos),
        Ok(opened) => {
            let fo = fire_opened(h, o.pos, opened, 0);
            match fo.out {
                Err(x) => halted(x, fo.pos),
                Ok(_) => {
                    let f = ask_list(h, fo.pos, Op::SocketsFailed, Seq::empty());
                    match f.out {
                        Err(x) => halted(x, f.pos),
                        Ok(failed) => {
                            let ff = fire_failed(h, f.pos, failed, 0);
                            match ff.out {
                                Err(x) => halted(x, ff.pos),
                                Ok(_) => {
                                    let c = ask_number(h, ff.pos, Op::SocketCount, Seq::empty());
                                    match c.out {
                                        Err(x) => halted(x, c.pos),
                                        Ok(n) => pump_sockets(h, c.pos, 0, length_of(n)),
                                    }
                                },
                            }
                        },
                    }
                },
            }
        },
    }
}

fn none() -> (r: Vec<Value>)
    ensures
        views(r@) == Seq::<Val>::empty(),
{
    let v: Vec<Value> = Vec::new();
    assert(views(v@) =~= Seq::empty());
    v
}

fn text_of(v: &Value) -> (r: String)
    ensures
        r@ == text_in(v@),
{
    match v {
        Value::Str(s) => s.clone(),
        _ => String::new(),
    }
}

fn number_of(v: &Value) -> (r: Num)
    ensures
        r == number_in(v@),
{
    match v {
        Value::Num(n) => *n,
        _ => Num { bits: NAN_BITS },
    }
}

fn is_text(v: &Value, s: &str) -> (r: bool)
    ensures
        r == (v@ == Val::Str(s@)),
{
    match v {
        Value::Str(t) => same_text(t.as_str(), s),
        _ => false,
    }
}

impl Interp {
    fn fire_with(&mut self, o: &Value, name: &str, fields: Vec<Value>) -> (r: Result<(), Stop>)
        requires
            old(self).wf(),
        ensures
            final(self).follows(*old(self)),
            run_plain(r, *final(self)) == fire_with(
                old(self).host(),
                old(self).pos as nat,
                o@,
                name@,
                views(fields@),
            ),
    {
        let evt: Value = self.ask_value(Op::NewObject, fields)?;
        match self.ask_value(Op::SocketFire, list3(o.clone(), text_value(name), evt)) {
            Err(Stop::Ask(q)) => Err(Stop::Ask(q)),
            _ => Ok(()),
        }
    }

    fn fire(&mut self, o: &Value, name: &str) -> (r: Result<(), Stop>)
        requires
            old(self).wf(),
        ensures
            final(self).follows(*old(self)),
            run_plain(r, *final(self)) == fire(old(self).host(), old(self).pos as nat, o@, name@),
    {
        match self.ask_value(Op::SocketFire, list2(o.clone(), text_value(name))) {
            Err(Stop::Ask(q)) => Err(Stop::Ask(q)),
            _ => Ok(()),
        }
    }

    fn deliver(&mut self, o: &Value, kind: &Value, a: &Value, b: &Value) -> (r: Result<(), Stop>)
        requires
            old(self).wf(),
        ensures
            final(self).follows(*old(self)),
            run_plain(r, *final(self)) == deliver(
                old(self).host(),
                old(self).pos as nat,
                o@,
                event_in(kind@, a@, b@),
            ),
    {
        if is_text(kind, "message") {
            let fields: Vec<Value> = list4(
                text_value("data"),
                Value::Str(text_of(a)),
                text_value("type"),
                text_value("message"),
            );
            self.fire_with(o, "message", fields)
        } else if is_text(kind, "binary") {
            let buf: Value = match self.ask_value(Op::NewArrayBuffer, list1(a.clone())) {
                Ok(v) => v,
                Err(Stop::Throw(_)) => Value::Undefined,
                Err(Stop::Ask(q)) => {
                    return Err(Stop::Ask(q));
                },
            };
            let fields: Vec<Value> = list4(
                text_value("data"),
                buf,
                text_value("type"),
                text_value("message"),
            );
            self.fire_with(o, "message", fields)
        } else {
            self.ask_value(
                Op::StoreSlot,
                list3(o.clone(), text_value("readyState"), Value::Num(Num::from_u64(3))),
            )?;
            let code: Num = number_of(a);
            let mut fields: Vec<Value> = list4(
                text_value("code"),
                Value::Num(code),
                text_value("reason"),
                Value::Str(text_of(b)),
            );
            let ghost front = views(fields@);
            let mut clean: Vec<Value> = list2(
                text_value("wasClean"),
                Value::Bool(code.equals(Num::from_u64(1000))),
            );
            let ghost back = views(clean@);
            fields.append(&mut clean);
            assert(views(fields@) =~= front + back);
            assert(front + back =~= close_event(code, text_in(b@)));
            self.fire_with(o, "close", fields)
        }
    }

    #[verifier::loop_isolation(false)]
    fn deliver_all(&mut self, o: &Value, events: &Vec<Value>) -> (r: Result<(), Stop>)
        requires
            old(self).wf(),
        ensures
            final(self).follows(*old(self)),
            run_plain(r, *final(self)) == deliver_all(
                old(self).host(),
                old(self).pos as nat,
                o@,
                views(events@),
            ),
    {
        let ghost all = views(events@);
        let ghost goal = deliver_all(self.host(), self.pos as nat, o@, all);
        let mut i: usize = 0;
        assert(all.skip(0) =~= all);
        while events.len() - i >= 3
            invariant
                i <= events@.len(),
                self.follows(*old(self)),
                goal == deliver_all(self.host(), self.pos as nat, o@, all.skip(i as int)),
            decreases events@.len() - i,
        {
            let ghost rest = all.skip(i as int);
            assert(rest[0] == events@[i as int]@);
            assert(rest[1] == events@[i + 1]@);
            assert(rest[2] == events@[i + 2]@);
            self.deliver(o, &events[i], &events[i + 1], &events[i + 2])?;
            assert(rest.skip(3) =~= all.skip(i + 3));
            i = i + 3;
        }
        Ok(())
    }

    #[verifier::loop_isolation(false)]
    fn fire_opened(&mut self, sockets: &Vec<Value>) -> (r: Result<(), Stop>)
        requires
            old(self).wf(),
        ensures
            final(self).follows(*old(self)),
            run_plain(r, *final(self)) == fire_opened(
                old(self).host(),
                old(self).pos as nat,
                views(sockets@),
                0,
            ),
    {
        let ghost goal = fire_opened(self.host(), self.pos as nat, views(sockets@), 0);
        let mut j: usize = 0;
        while j < sockets.len()
            invariant
                j <= sockets@.len(),
                self.follows(*old(self)),
                goal == fire_opened(self.host(), self.pos as nat, views(sockets@), j as int),
            decreases sockets@.len() - j,
        {
            assert(views(sockets@)[j as int] == sockets@[j as int]@);
            if is_plain_ref(&sockets[j]) {
                self.fire(&sockets[j], "open")?;
            }
            j = j + 1;
        }
        Ok(())
    }

    #[verifier::loop_isolation(false)]
    fn fire_failed(&mut self, sockets: &Vec<Value>) -> (r: Result<(), Stop>)
        requires
            old(self).wf(),
        ensures
            final(self).follows(*old(self)),
            run_plain(r, *final(self)) == fire_failed(
                old(self).host(),
                old(self).pos as nat,
                views(sockets@),
                0,
            ),
    {
        let ghost goal = fire_failed(self.host(), self.pos as nat, views(sockets@), 0);
        let mut j: usize = 0;
        while j < sockets.len()
            invariant
                j <= sockets@.len(),
                self.follows(*old(self)),
                goal == fire_failed(self.host(), self.pos as nat, views(sockets@), j as int),
            decreases sockets@.len() - j,
        {
            assert(views(sockets@)[j as int] == sockets@[j as int]@);
            if is_plain_ref(&sockets[j]) {
                self.fire(&sockets[j], "error")?;
                self.fire(&sockets[j], "close")?;
            }
            j = j + 1;
        }
        Ok(())
    }

    /// Delivers what has happened at the sockets to their listeners.
    #[verifier::loop_isolation(false)]
    pub fn pump_websockets(&mut self) -> (r: Result<(), Stop>)
        requires
            old(self).wf(),
        ensures
            final(self).follows(*old(self)),
            run_plain(r, *final(self)) == pump(old(self).host(), old(self).pos as nat),
    {
        let opened: Vec<Value> = self.ask_list(Op::SocketsOpened, none())?;
        self.fire_opened(&opened)?;
        let failed: Vec<Value> = self.ask_list(Op::SocketsFailed, none())?;
        self.fire_failed(&failed)?;
        let count: Num = self.ask_number(Op::SocketCount, none())?;
        let n: u64 = to_length(count);
        let ghost goal = pump_sockets(self.host(), self.pos as nat, 0, n as nat);
        let mut i: u64 = 0;
        while i < n
            invariant
                i <= n <= MAX_SAFE,
                self.follows(*old(self)),
                goal == pump_sockets(self.host(), self.pos as nat, i as nat, n as nat),
            decreases n - i,
        {
            let at: Value = Value::Num(Num::from_u64(i));
            let events: Vec<Value> = self.ask_list(Op::SocketPoll, list1(at.clone()))?;
            if events.len() > 0 {
                let socket: Value = self.ask_value(Op::SocketObject, list1(at))?;
                if is_plain_ref(&socket) {
                    self.deliver_all(&socket, &events)?;
                }
            }
            i = i + 1;
        }
        Ok(())
    }
}

/// What has arrived is delivered in the order in which it arrived: the events of one reply and then
/// those of another are the events of both together.
pub proof fn law_delivered_in_order(h: Host, pos: nat, o: Val, a: Seq<Val>, b: Seq<Val>)
    requires
        a.len() % 3 == 0,
    ensures
        ({
            let first = deliver_all(h, pos, o, a);
            deliver_all(h, pos, o, a + b) == match first.out {
                Ok(_) => deliver_all(h, first.pos, o, b),
                Err(e) => halted(e, first.pos),
            }
        }),
    decreases a.len(),
{
    if a.len() == 0 {
        assert(a + b =~= b);
    } else {
        let d = deliver(h, pos, o, event_in(a[0], a[1], a[2]));
        assert((a + b).skip(3) =~= a.skip(3) + b);
        law_delivered_in_order(h, d.pos, o, a.skip(3), b);
    }
}

/// The question by which the listeners of a socket run.
pub open spec fn firing(o: Val, name: Seq<char>) -> Question {
    Question { op: Op::SocketFire, args: seq![o, Val::Str(name)] }
}

/// `open` at each of the first `n` sockets that are objects.
pub open spec fn open_firings(sockets: Seq<Val>, n: nat) -> Seq<Question>
    decreases n,
{
    if n == 0 || n > sockets.len() {
        Seq::empty()
    } else if is_plain(sockets[n - 1]) {
        open_firings(sockets, (n - 1) as nat).push(firing(sockets[n - 1], "open"@))
    } else {
        open_firings(sockets, (n - 1) as nat)
    }
}

/// `error` and `close` at each of the first `n` sockets that are objects.
pub open spec fn failure_firings(sockets: Seq<Val>, n: nat) -> Seq<Question>
    decreases n,
{
    if n == 0 || n > sockets.len() {
        Seq::empty()
    } else if is_plain(sockets[n - 1]) {
        failure_firings(sockets, (n - 1) as nat).push(firing(sockets[n - 1], "error"@)).push(
            firing(sockets[n - 1], "close"@),
        )
    } else {
        failure_firings(sockets, (n - 1) as nat)
    }
}

proof fn lemma_open_firings(h: Host, pos: nat, sockets: Seq<Val>, j: nat)
    requires
        j <= sockets.len(),
        pos + open_firings(sockets, j).len() <= h.len || j == 0,
        pos <= h.len,
    ensures
        fire_opened(h, pos + open_firings(sockets, j).len(), sockets, j as int) == plays(
            h,
            pos,
            open_firings(sockets, sockets.len()),
            (),
        ),
    decreases sockets.len() - j,
{
    let before = open_firings(sockets, j);
    let all = open_firings(sockets, sockets.len());
    if j < sockets.len() {
        lemma_open_firings_grow(sockets, j + 1, sockets.len());
        if is_plain(sockets[j as int]) {
            assert(open_firings(sockets, j + 1) == before.push(firing(sockets[j as int], "open"@)));
            assert(all[before.len() as int] == open_firings(sockets, j + 1)[before.len() as int]);
            if pos + before.len() < h.len {
                lemma_open_firings(h, pos, sockets, j + 1);
            }
        } else {
            lemma_open_firings(h, pos, sockets, j + 1);
        }
    }
}

proof fn lemma_open_firings_grow(sockets: Seq<Val>, i: nat, n: nat)
    requires
        i <= n <= sockets.len(),
    ensures
        open_firings(sockets, i).len() <= open_firings(sockets, n).len(),
        open_firings(sockets, n).take(open_firings(sockets, i).len() as int) == open_firings(
            sockets,
            i,
        ),
        forall|k: int|
            0 <= k < open_firings(sockets, i).len() ==> #[trigger] open_firings(sockets, n)[k]
                == open_firings(sockets, i)[k],
    decreases n - i,
{
    if i < n {
        lemma_open_firings_grow(sockets, i, (n - 1) as nat);
    }
    assert(open_firings(sockets, n).take(open_firings(sockets, i).len() as int) =~= open_firings(
        sockets,
        i,
    ));
}

proof fn lemma_failure_firings_grow(sockets: Seq<Val>, i: nat, n: nat)
    requires
        i <= n <= sockets.len(),
    ensures
        failure_firings(sockets, i).len() <= failure_firings(sockets, n).len(),
        forall|k: int|
            0 <= k < failure_firings(sockets, i).len() ==> #[trigger] failure_firings(sockets, n)[k]
                == failure_firings(sockets, i)[k],
    decreases n - i,
{
    if i < n {
        lemma_failure_firings_grow(sockets, i, (n - 1) as nat);
    }
}

proof fn lemma_failure_firings(h: Host, pos: nat, sockets: Seq<Val>, j: nat)
    requires
        j <= sockets.len(),
        pos + failure_firings(sockets, j).len() <= h.len || j == 0,
        pos <= h.len,
    ensures
        fire_failed(h, pos + failure_firings(sockets, j).len(), sockets, j as int) == plays(
            h,
            pos,
            failure_firings(sockets, sockets.len()),
            (),
        ),
    decreases sockets.len() - j,
{
    let before = failure_firings(sockets, j);
    let all = failure_firings(sockets, sockets.len());
    if j < sockets.len() {
        lemma_failure_firings_grow(sockets, j + 1, sockets.len());
        if is_plain(sockets[j as int]) {
            let next = failure_firings(sockets, j + 1);
            let n = before.len() as int;
            assert(next == before.push(firing(sockets[j as int], "error"@)).push(
                firing(sockets[j as int], "close"@),
            ));
            assert(all[n] == next[n]);
            assert(all[n + 1] == next[n + 1]);
            if pos + n + 1 < h.len {
                lemma_failure_firings(h, pos, sockets, j + 1);
            }
        } else {
            lemma_failure_firings(h, pos, sockets, j + 1);
        }
    }
}

pub open spec fn bare(op: Op) -> Question {
    Question { op, args: Seq::empty() }
}

/// What a round asks before it looks at what has arrived.
pub open spec fn round_begins(opened: Seq<Val>, failed: Seq<Val>) -> Seq<Question> {
    seq![bare(Op::SocketsOpened)] + open_firings(opened, opened.len()) + seq![
        bare(Op::SocketsFailed),
    ] + failure_firings(failed, failed.len()) + seq![bare(Op::SocketCount)]
}

/// A round first fires `open` at each socket that has opened, then `error` and `close` at each that
/// has failed, and nothing else, whatever the listeners throw; only after that it turns to what has
/// arrived, from the first socket to the last.
#[verifier::rlimit(60)]
pub proof fn law_round_order(h: Host, pos: nat, opened: Seq<Val>, failed: Seq<Val>, n: Num)
    requires
        pos <= h.len,
        (h.reply)(pos, bare(Op::SocketsOpened)) == Answer::List(opened),
        (h.reply)(pos + 1 + open_firings(opened, opened.len()).len(), bare(Op::SocketsFailed))
            == Answer::List(failed),
        (h.reply)(
            (pos + round_begins(opened, failed).len() - 1) as nat,
            bare(Op::SocketCount),
        ) == Answer::Value(Val::Num(n)),
    ensures
        h.len < pos + round_begins(opened, failed).len() ==> pump(h, pos) == plays(
            h,
            pos,
            round_begins(opened, failed),
            (),
        ),
        h.len >= pos + round_begins(opened, failed).len() ==> pump(h, pos) == pump_sockets(
            h,
            pos + round_begins(opened, failed).len(),
            0,
            length_of(n),
        ),
{
    let a = open_firings(opened, opened.len());
    let b = failure_firings(failed, failed.len());
    let all = round_begins(opened, failed);
    assert(all.len() == a.len() + b.len() + 3);
    assert(all[0] == bare(Op::SocketsOpened));
    assert(forall|k: int| 0 <= k < a.len() ==> all[k + 1] == #[trigger] a[k]);
    assert(all[a.len() as int + 1] == bare(Op::SocketsFailed));
    assert(forall|k: int| 0 <= k < b.len() ==> all[k + 2 + a.len()] == #[trigger] b[k]);
    assert(all[a.len() as int + b.len() + 2] == bare(Op::SocketCount));
    if pos < h.len {
        lemma_open_firings(h, pos + 1, opened, 0);
        assert(fire_opened(h, pos + 1, opened, 0) == plays(h, pos + 1, a, ()));
        if pos + 1 + a.len() <= h.len {
            if pos + 1 + a.len() < h.len {
                lemma_failure_firings(h, pos + 2 + a.len(), failed, 0);
                assert(fire_failed(h, pos + 2 + a.len(), failed, 0) == plays(
                    h,
                    pos + 2 + a.len(),
                    b,
                    (),
                ));
                if h.len < pos + 2 + a.len() + b.len() {
                    assert(all[h.len - pos] == b[h.len - (pos + 2 + a.len())]);
                }
            }
        } else {
            assert(all[h.len - pos] == a[h.len - (pos + 1)]);
        }
    }
}

/// What has arrived is delivered socket by socket: everything of the sockets before the `m`-th is
/// delivered before that one is asked.
pub proof fn law_polled_by_index(h: Host, pos: nat, i: nat, m: nat, n: nat)
    requires
        i <= m <= n,
    ensures
        ({
            let first = pump_sockets(h, pos, i, m);
            pump_sockets(h, pos, i, n) == match first.out {
                Ok(_) => pump_sockets(h, first.pos, m, n),
                Err(e) => halted(e, first.pos),
            }
        }),
    decreases m - i,
{
    if i < m {
        let at = Val::Num(num_of(i as int));
        let p = ask_list(h, pos, Op::SocketPoll, seq![at]);
        if p.out is Ok {
            let events = p.out->Ok_0;
            if events.len() == 0 {
                law_polled_by_index(h, p.pos, i + 1, m, n);
            } else {
                let o = ask_value(h, p.pos, Op::SocketObject, seq![at]);
                if o.out is Ok {
                    if is_plain(o.out->Ok_0) {
                        let d = deliver_all(h, o.pos, o.out->Ok_0, events);
                        law_polled_by_index(h, d.pos, i + 1, m, n);
                    } else {
                        law_polled_by_index(h, o.pos, i + 1, m, n);
                    }
                }
            }
        }
    }
}

/// The question for what has arrived at a socket.
pub open spec fn polling(i: nat) -> Question {
    Question { op: Op::SocketPoll, args: seq![Val::Num(num_of(i as int))] }
}

/// Where nothing has arrived, no listener runs: only the questions of whether something has are
/// asked.
pub proof fn law_quiet_sockets(h: Host, pos: nat, i: nat, n: nat)
    requires
        i <= n,
        pos + (n - i) <= h.len,
        forall|k: nat|
            i <= k < n ==> (h.reply)((pos + (k - i)) as nat, #[trigger] polling(k)) == Answer::List(
                Seq::empty(),
            ),
    ensures
        pump_sockets(h, pos, i, n) == done((), (pos + (n - i)) as nat),
    decreases n - i,
{
    if i < n {
        assert((h.reply)((pos + (i - i)) as nat, polling(i)) == Answer::List(Seq::empty()));
        assert forall|k: nat| i + 1 <= k < n implies (h.reply)(
            (pos + 1 + (k - (i + 1))) as nat,
            #[trigger] polling(k),
        ) == Answer::List(Seq::empty()) by {
            assert((pos + 1 + (k - (i + 1))) as nat == (pos + (k - i)) as nat);
        }
        law_quiet_sockets(h, pos + 1, i + 1, n);
    }
}

/// A round in which nothing has happened fires nothing: it asks what has opened, what has failed,
/// how many sockets there are and what has arrived at each, and ends.
pub proof fn law_quiet_round(h: Host, pos: nat, n: Num)
    requires
        pos + 3 + length_of(n) <= h.len,
        (h.reply)(pos, bare(Op::SocketsOpened)) == Answer::List(Seq::empty()),
        (h.reply)(pos + 1, bare(Op::SocketsFailed)) == Answer::List(Seq::empty()),
        (h.reply)(pos + 2, bare(Op::SocketCount)) == Answer::Value(Val::Num(n)),
        forall|k: nat|
            k < length_of(n) ==> (h.reply)((pos + 3 + k) as nat, #[trigger] polling(k))
                == Answer::List(Seq::empty()),
    ensures
        pump(h, pos) == done((), pos + 3 + length_of(n)),
{
    let none = Seq::<Val>::empty();
    assert(round_begins(none, none).len() == 3);
    law_round_order(h, pos, none, none, n);
    assert forall|k: nat| 0 <= k < length_of(n) implies (h.reply)(
        (pos + 3 + (k - 0)) as nat,
        #[trigger] polling(k),
    ) == Answer::List(Seq::empty()) by {}
    law_quiet_sockets(h, pos + 3, 0, length_of(n));
}

} // verus!
