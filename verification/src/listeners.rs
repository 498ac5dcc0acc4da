//! Listeners for events, and the methods that set events off.
use crate::canvas::{cat, ctx_slot, ctx_store, display_arg, empty_list, list_append, store_list};
use crate::functions::plain_slot;
use crate::host::{
    ask_flag, ask_list, ask_slot, ask_text, ask_value, call, chain, done, fail, halted,
    key_of_thrown, list1, list2, list3, list4, opt_view, raised, run_list, run_plain, run_text,
    run_value, text_in, text_value, thrown_key, Halt, Host, Interp, Op, Run, Stop,
};
use crate::number_format::{this_of, this_or_undefined};
use crate::text::same_text;
use crate::value::{
    arg, arg_at, callable, is_callable, to_bool, truthy, views, ErrorKind, Kind, Native, Val, Value,
};
use crate::web_state::text_of_value;
use vstd::prelude::*;

verus! {

/// A listener of a node.
pub struct NodeListener {
    pub node: u64,
    pub event: String,
    pub listener: Value,
    pub capture: bool,
    pub once: bool,
}

/// The mathematical counterpart of `NodeListener`.
#[verifier::ext_equal]
pub struct NodeListenerV {
    pub node: u64,
    pub event: Seq<char>,
    pub listener: Val,
    pub capture: bool,
    pub once: bool,
}

impl View for NodeListener {
    type V = NodeListenerV;

    open spec fn view(&self) -> NodeListenerV {
        NodeListenerV {
            node: self.node,
            event: self.event@,
            listener: self.listener@,
            capture: self.capture,
            once: self.once,
        }
    }
}

impl Clone for NodeListener {
    fn clone(&self) -> (r: NodeListener)
        ensures
            r@ == self@,
    {
        NodeListener {
            node: self.node,
            event: self.event.clone(),
            listener: self.listener.clone(),
            capture: self.capture,
            once: self.once,
        }
    }
}

/// A listener of the document or the window.
pub struct PageListener {
    pub event: String,
    pub listener: Value,
}

/// The mathematical counterpart of `PageListener`.
#[verifier::ext_equal]
pub struct PageListenerV {
    pub event: Seq<char>,
    pub listener: Val,
}

impl View for PageListener {
    type V = PageListenerV;

    open spec fn view(&self) -> PageListenerV {
        PageListenerV { event: self.event@, listener: self.listener@ }
    }
}

impl Clone for PageListener {
    fn clone(&self) -> (r: PageListener)
        ensures
            r@ == self@,
    {
        PageListener { event: self.event.clone(), listener: self.listener.clone() }
    }
}

pub open spec fn node_listeners(s: Seq<NodeListener>) -> Seq<NodeListenerV> {
    Seq::new(s.len(), |i: int| s[i]@)
}

pub open spec fn page_listeners(s: Seq<PageListener>) -> Seq<PageListenerV> {
    Seq::new(s.len(), |i: int| s[i]@)
}

/// The listeners of a page, in the order in which they were added.
pub struct Listeners {
    pub nodes: Vec<NodeListener>,
    pub page: Vec<PageListener>,
}

/// The mathematical counterpart of `Listeners`.
#[verifier::ext_equal]
pub struct ListenersV {
    pub nodes: Seq<NodeListenerV>,
    pub page: Seq<PageListenerV>,
}

impl View for Listeners {
    type V = ListenersV;

    open spec fn view(&self) -> ListenersV {
        ListenersV { nodes: node_listeners(self.nodes@), page: page_listeners(self.page@) }
    }
}

/// A method that changes the listeners and returns undefined: what it did is what `run` says;
/// where it stopped, the listeners are as they were.
pub open spec fn changed_by(
    r: Result<Value, Stop>,
    it: Interp,
    before: ListenersV,
    after: ListenersV,
    run: Run<ListenersV>,
) -> bool {
    &&& run.pos == it.pos
    &&& match r {
        Ok(v) => v@ == Val::Undefined && run.out == Ok::<ListenersV, Halt>(after),
        Err(e) => after == before && run.out == Err::<ListenersV, Halt>(e@),
    }
}

/// Whether an own property of an object is there and counts as true.
pub open spec fn option_set(h: Host, pos: nat, o: Val, key: Seq<char>) -> Run<bool> {
    chain(
        ctx_slot(h, pos, o, key),
        |s: Option<Val>, p: nat|
            done(
                match s {
                    Some(v) => truthy(v),
                    None => false,
                },
                p,
            ),
    )
}

/// Whether a listener is asked for early, and whether for one time only.
pub open spec fn listener_options(h: Host, pos: nat, v: Val) -> Run<(bool, bool)> {
    match v {
        Val::Bool(b) => done((b, false), pos),
        Val::Ref(Kind::Obj, _) => chain(
            option_set(h, pos, v, "capture"@),
            |capture: bool, p: nat|
                chain(
                    option_set(h, p, v, "once"@),
                    |once: bool, q: nat| done((capture, once), q),
                ),
        ),
        _ => done((false, false), pos),
    }
}

/// Adds a listener to those that an object keeps itself.
pub open spec fn object_listener(h: Host, pos: nat, o: Val, event: Seq<char>, listener: Val) -> Run<()> {
    chain(
        ask_text(h, pos, Op::ListenerKey, seq![Val::Str(event)]),
        |key: Seq<char>, p: nat|
            chain(
                ctx_slot(h, p, o, key),
                |s: Option<Val>, q: nat|
                    match s {
                        Some(Val::Ref(Kind::Arr, _)) => list_append(h, q, o, key, listener),
                        _ => store_list(h, q, o, key, seq![listener]),
                    },
            ),
    )
}

/// `addEventListener` of a node or an object: the listeners after it.
pub open spec fn add_event_listener_run(
    h: Host,
    pos: nat,
    s: ListenersV,
    recv: Option<Val>,
    args: Seq<Val>,
) -> Run<ListenersV> {
    chain(
        display_arg(h, pos, args, 0),
        |event: Seq<char>, p: nat|
            if !callable(arg(args, 1)) {
                done(s, p)
            } else {
                chain(
                    listener_options(h, p, arg(args, 2)),
                    |o: (bool, bool), q: nat|
                        match this_of(recv) {
                            Val::Ref(Kind::Dom, id) => done(
                                with_node_listener(s, id, event, arg(args, 1), o),
                                q,
                            ),
                            Val::Ref(Kind::Obj, _) => chain(
                                object_listener(h, q, this_of(recv), event, arg(args, 1)),
                                |u: (), t: nat| done(s, t),
                            ),
                            _ => done(s, q),
                        },
                )
            },
    )
}

pub open spec fn with_node_listener(
    s: ListenersV,
    node: u64,
    event: Seq<char>,
    listener: Val,
    o: (bool, bool),
) -> ListenersV {
    ListenersV {
        nodes: s.nodes.push(NodeListenerV { node, event, listener, capture: o.0, once: o.1 }),
        page: s.page,
    }
}

/// The listeners from the `i`-th on that stay when one is removed from a node, after `out`.
pub open spec fn kept_nodes(
    h: Host,
    pos: nat,
    all: Seq<NodeListenerV>,
    i: int,
    node: u64,
    event: Seq<char>,
    listener: Val,
    out: Seq<NodeListenerV>,
) -> Run<Seq<NodeListenerV>>
    decreases all.len() - i,
{
    if !(0 <= i < all.len()) {
        done(out, pos)
    } else if all[i].node != node || all[i].event != event {
        kept_nodes(h, pos, all, i + 1, node, event, listener, out.push(all[i]))
    } else {
        let s = ask_flag(h, pos, Op::SameCallable, seq![all[i].listener, listener]);
        match s.out {
            Err(e) => halted(e, s.pos),
            Ok(same) => kept_nodes(
                h,
                s.pos,
                all,
                i + 1,
                node,
                event,
                listener,
                if same {
                    out
                } else {
                    out.push(all[i])
                },
            ),
        }
    }
}

/// The listeners from the `i`-th on that stay when one is removed from the page, after `out`.
pub open spec fn kept_page(
    h: Host,
    pos: nat,
    all: Seq<PageListenerV>,
    i: int,
    event: Seq<char>,
    listener: Val,
    out: Seq<PageListenerV>,
) -> Run<Seq<PageListenerV>>
    decreases all.len() - i,
{
    if !(0 <= i < all.len()) {
        done(out, pos)
    } else if all[i].event != event {
        kept_page(h, pos, all, i + 1, event, listener, out.push(all[i]))
    } else {
        let s = ask_flag(h, pos, Op::SameCallable, seq![all[i].listener, listener]);
        match s.out {
            Err(e) => halted(e, s.pos),
            Ok(same) => kept_page(
                h,
                s.pos,
                all,
                i + 1,
                event,
                listener,
                if same {
                    out
                } else {
                    out.push(all[i])
                },
            ),
        }
    }
}

/// The functions from the `i`-th on that are not the same as a listener, after `out`.
pub open spec fn kept_functions(
    h: Host,
    pos: nat,
    all: Seq<Val>,
    i: int,
    listener: Val,
    out: Seq<Val>,
) -> Run<Seq<Val>>
    decreases all.len() - i,
{
    if !(0 <= i < all.len()) {
        done(out, pos)
    } else {
        let s = ask_flag(h, pos, Op::SameCallable, seq![all[i], listener]);
        match s.out {
            Err(e) => halted(e, s.pos),
            Ok(same) => kept_functions(
                h,
                s.pos,
                all,
                i + 1,
                listener,
                if same {
                    out
                } else {
                    out.push(all[i])
                },
            ),
        }
    }
}

/// Removes a listener from those that an object keeps itself.
pub open spec fn object_unlisten(h: Host, pos: nat, o: Val, event: Seq<char>, listener: Val) -> Run<()> {
    chain(
        ask_text(h, pos, Op::ListenerKey, seq![Val::Str(event)]),
        |key: Seq<char>, p: nat|
            chain(
                ctx_slot(h, p, o, key),
                |s: Option<Val>, q: nat|
                    match s {
                        Some(Val::Ref(Kind::Arr, i)) => unlisten_array(
                            h,
                            q,
                            Val::Ref(Kind::Arr, i),
                            listener,
                        ),
                        _ => done((), q),
                    },
            ),
    )
}

pub open spec fn unlisten_array(h: Host, pos: nat, a: Val, listener: Val) -> Run<()> {
    chain(
        ask_list(h, pos, Op::Elements, seq![a]),
        |l: Seq<Val>, p: nat|
            chain(
                kept_functions(h, p, l, 0, listener, Seq::empty()),
                |kept: Seq<Val>, q: nat|
                    chain(
                        ask_value(h, q, Op::StoreElements, seq![a] + kept),
                        |u: Val, r: nat| done((), r),
                    ),
            ),
    )
}

/// `removeEventListener` of a node or an object: the listeners after it.
pub open spec fn remove_event_listener_run(
    h: Host,
    pos: nat,
    s: ListenersV,
    recv: Option<Val>,
    args: Seq<Val>,
) -> Run<ListenersV> {
    chain(
        display_arg(h, pos, args, 0),
        |event: Seq<char>, p: nat|
            match this_of(recv) {
                Val::Ref(Kind::Dom, id) => chain(
                    kept_nodes(h, p, s.nodes, 0, id, event, arg(args, 1), Seq::empty()),
                    |nodes: Seq<NodeListenerV>, q: nat|
                        done(ListenersV { nodes, page: s.page }, q),
                ),
                Val::Ref(Kind::Obj, _) => chain(
                    object_unlisten(h, p, this_of(recv), event, arg(args, 1)),
                    |u: (), q: nat| done(s, q),
                ),
                _ => done(s, p),
            },
    )
}

/// `removeEventListener` of the document or the window: the listeners after it.
pub open spec fn remove_global_listener_run(h: Host, pos: nat, s: ListenersV, args: Seq<Val>) -> Run<
    ListenersV,
> {
    chain(
        display_arg(h, pos, args, 0),
        |event: Seq<char>, p: nat|
            chain(
                kept_page(h, p, s.page, 0, event, arg(args, 1), Seq::empty()),
                |page: Seq<PageListenerV>, q: nat| done(ListenersV { nodes: s.nodes, page }, q),
            ),
    )
}

/// `addEventListener` of the document or the window: the listeners after it.
pub open spec fn add_global_listener_run(h: Host, pos: nat, s: ListenersV, args: Seq<Val>) -> Run<
    ListenersV,
> {
    chain(
        display_arg(h, pos, args, 0),
        |event: Seq<char>, p: nat|
            done(
                if callable(arg(args, 1)) {
                    ListenersV {
                        nodes: s.nodes,
                        page: s.page.push(PageListenerV { event, listener: arg(args, 1) }),
                    }
                } else {
                    s
                },
                p,
            ),
    )
}

/// The name of an event: the type of an event object, or the value as a text.
pub open spec fn event_name(h: Host, pos: nat, evt: Val) -> Run<Seq<char>> {
    if evt matches Val::Ref(Kind::Obj, _) {
        chain(
            ctx_slot(h, pos, evt, "type"@),
            |s: Option<Val>, p: nat|
                match s {
                    Some(v) => ask_text(h, p, Op::Display, seq![v]),
                    None => done(Seq::empty(), p),
                },
        )
    } else {
        ask_text(h, pos, Op::Display, seq![evt])
    }
}

/// Whether an event was cancelled.
pub open spec fn cancelled(h: Host, pos: nat, evt: Val) -> Run<bool> {
    chain(
        plain_slot(h, pos, evt, "defaultPrevented"@),
        |s: Option<Val>, p: nat| done(s == Some(Val::Bool(true)), p),
    )
}

/// The page's listeners for an event, in order.
pub open spec fn listening(s: Seq<PageListenerV>, event: Seq<char>) -> Seq<Val>
    decreases s.len(),
{
    if s.len() == 0 {
        Seq::empty()
    } else if s.last().event == event {
        listening(s.drop_last(), event).push(s.last().listener)
    } else {
        listening(s.drop_last(), event)
    }
}

/// A call of a listener: what it throws is reported and goes no further.
pub open spec fn call_listener(h: Host, pos: nat, f: Val, this: Option<Val>, evt: Val) -> Run<()> {
    let c = call(h, pos, f, this, seq![evt]);
    match c.out {
        Ok(_) => done((), c.pos),
        Err(Halt::Throw(t)) => {
            let r = ask_value(h, c.pos, Op::ReportError, seq![thrown_key(t)]);
            match r.out {
                Err(Halt::Ask(q)) => halted(Halt::Ask(q), r.pos),
                _ => done((), r.pos),
            }
        },
        Err(e) => halted(e, c.pos),
    }
}

/// Calls functions from the `i`-th on, whatever they throw.
pub open spec fn call_each(h: Host, pos: nat, fs: Seq<Val>, i: int, this: Option<Val>, evt: Val) -> Run<()>
    decreases fs.len() - i,
{
    if !(0 <= i < fs.len()) {
        done((), pos)
    } else {
        let c = call_listener(h, pos, fs[i], this, evt);
        match c.out {
            Err(e) => halted(e, c.pos),
            Ok(_) => call_each(h, c.pos, fs, i + 1, this, evt),
        }
    }
}

/// `dispatchEvent` of the document or the window: whether the event was not cancelled.
pub open spec fn dispatch_global_event_run(h: Host, pos: nat, s: ListenersV, args: Seq<Val>) -> Run<Val> {
    let evt = arg(args, 0);
    chain(
        event_name(h, pos, evt),
        |name: Seq<char>, p0: nat|
            chain(
                call_each(h, p0, listening(s.page, name), 0, None, evt),
                |u: (), p1: nat|
                    chain(cancelled(h, p1, evt), |c: bool, p2: nat| done(Val::Bool(!c), p2)),
            ),
    )
}

/// `dispatchEvent` of an object that keeps its listeners itself.
pub open spec fn dispatch_to_object(h: Host, pos: nat, o: Val, evt: Val) -> Run<Val> {
    chain(
        event_name(h, pos, evt),
        |name: Seq<char>, p0: nat|
            chain(
                ask_text(h, p0, Op::ListenerKey, seq![Val::Str(name)]),
                |key: Seq<char>, p1: nat|
                    chain(
                        crate::canvas::ctx_list(h, p1, o, key),
                        |l: Option<Seq<Val>>, p2: nat|
                            chain(
                                match l {
                                    Some(fs) => call_each(h, p2, fs, 0, Some(o), evt),
                                    None => done((), p2),
                                },
                                |u: (), p3: nat| done(Val::Bool(true), p3),
                            ),
                    ),
            ),
    )
}

/// `dispatchEvent` of a node: whether the event was not cancelled. What is no object becomes an
/// event of that name.
pub open spec fn dispatch_to_node(h: Host, pos: nat, node: Val, evt: Val) -> Run<Val> {
    chain(
        event_name(h, pos, evt),
        |name: Seq<char>, p0: nat|
            chain(
                if evt matches Val::Ref(Kind::Obj, _) {
                    done(evt, p0)
                } else {
                    ask_value(h, p0, Op::MakeEvent, seq![Val::Str(name), node])
                },
                |e: Val, p1: nat|
                    chain(
                        ask_value(h, p1, Op::DispatchTo, seq![node, Val::Str(name), e]),
                        |u: Val, p2: nat|
                            chain(cancelled(h, p2, e), |c: bool, p3: nat| done(Val::Bool(!c), p3)),
                    ),
            ),
    )
}

/// `dispatchEvent`.
pub open spec fn dispatch_event_run(h: Host, pos: nat, recv: Option<Val>, args: Seq<Val>) -> Run<Val> {
    match this_of(recv) {
        Val::Ref(Kind::Dom, _) => dispatch_to_node(h, pos, this_of(recv), arg(args, 0)),
        Val::Ref(Kind::Obj, _) => dispatch_to_object(h, pos, this_of(recv), arg(args, 0)),
        _ => done(Val::Bool(false), pos),
    }
}

/// The settings of an event that are not simply taken over. An event that a script makes is never
/// trusted, whatever the settings say.
pub open spec fn set_apart(key: Seq<char>) -> bool {
    key == "bubbles"@ || key == "cancelable"@ || key == "isTrusted"@
}

/// The fields that an event takes over from its settings, from the `i`-th pair on.
pub open spec fn taken_over(fields: Seq<Val>, i: int) -> Seq<Val>
    decreases fields.len() - i,
{
    if !(0 <= i && i + 1 < fields.len()) {
        Seq::empty()
    } else if set_apart(text_in(fields[i])) {
        taken_over(fields, i + 2)
    } else {
        seq![Val::Str(text_in(fields[i])), fields[i + 1]] + taken_over(fields, i + 2)
    }
}

/// Whether a setting from the `i`-th pair on is there and counts as true; the last one counts.
pub open spec fn flag_in(fields: Seq<Val>, i: int, key: Seq<char>, before: bool) -> bool
    decreases fields.len() - i,
{
    if !(0 <= i && i + 1 < fields.len()) {
        before
    } else if text_in(fields[i]) == key {
        flag_in(fields, i + 2, key, truthy(fields[i + 1]))
    } else {
        flag_in(fields, i + 2, key, before)
    }
}

/// What a new event is made of.
pub open spec fn event_fields(proto: Option<Val>, name: Seq<char>, init: Seq<Val>) -> Seq<Val> {
    let front = match proto {
        Some(p) => seq![Val::Str("__proto__"@), p],
        None => Seq::empty(),
    };
    front + seq![
        Val::Str("type"@),
        Val::Str(name),
        Val::Str("isTrusted"@),
        Val::Bool(false),
    ] + taken_over(init, 0) + seq![
        Val::Str("bubbles"@),
        Val::Bool(flag_in(init, 0, "bubbles"@, false)),
        Val::Str("cancelable"@),
        Val::Bool(flag_in(init, 0, "cancelable"@, false)),
        Val::Str("defaultPrevented"@),
        Val::Bool(false),
        Val::Str("preventDefault"@),
        Val::Native(Native::EventPreventDefault),
        Val::Str("stopPropagation"@),
        Val::Native(Native::EventStopProp),
        Val::Str("stopImmediatePropagation"@),
        Val::Native(Native::EventStopProp),
    ]
}

/// The constructors of events.
pub open spec fn event_ctor_run(
    h: Host,
    pos: nat,
    interface: Seq<char>,
    recv: Option<Val>,
    args: Seq<Val>,
) -> Run<Val> {
    chain(
        display_arg(h, pos, args, 0),
        |name: Seq<char>, p0: nat|
            chain(
                ask_slot(h, p0, Op::EventProto, seq![Val::Str(interface)]),
                |proto: Option<Val>, p1: nat|
                    chain(
                        if arg(args, 1) matches Val::Ref(Kind::Obj, _) {
                            ask_list(h, p1, Op::StoredFields, seq![arg(args, 1)])
                        } else {
                            done(Seq::empty(), p1)
                        },
                        |init: Seq<Val>, p2: nat|
                            ask_value(h, p2, Op::NewObject, event_fields(proto, name, init)),
                    ),
            ),
    )
}

pub open spec fn mark_event(h: Host, pos: nat, recv: Option<Val>, key: Seq<char>) -> Run<Val> {
    chain(
        if this_of(recv) matches Val::Ref(Kind::Obj, _) {
            ctx_store(h, pos, this_of(recv), key, Val::Bool(true))
        } else {
            done((), pos)
        },
        |u: (), p: nat| done(Val::Undefined, p),
    )
}

/// `preventDefault` of an event.
pub open spec fn event_prevent_default_run(h: Host, pos: nat, recv: Option<Val>, args: Seq<Val>) -> Run<
    Val,
> {
    mark_event(h, pos, recv, "defaultPrevented"@)
}

/// `stopPropagation` of an event.
pub open spec fn event_stop_prop_run(h: Host, pos: nat, recv: Option<Val>, args: Seq<Val>) -> Run<Val> {
    mark_event(h, pos, recv, "\0stopProp"@)
}

/// Sets off an event of a name at a node.
pub open spec fn fire_at(h: Host, pos: nat, name: Seq<char>, node: Val) -> Run<()> {
    chain(
        ask_value(h, pos, Op::MakeEvent, seq![Val::Str(name), node]),
        |e: Val, p: nat|
            chain(
                ask_value(h, p, Op::DispatchTo, seq![node, Val::Str(name), e]),
                |u: Val, q: nat| done((), q),
            ),
    )
}

/// What follows the toggle of a click: the event, which is not trusted, and what the click does
/// unless the event was cancelled. A cancelled click puts back what was checked before it.
pub open spec fn click_after_toggle(
    h: Host,
    pos: nat,
    node: Val,
    kept: Seq<Val>,
    toggled: bool,
) -> Run<Val> {
    chain(
        ask_value(h, pos, Op::MakeEvent, seq![Val::Str("click"@), node]),
        |e: Val, p0: nat|
            chain(
                if e matches Val::Ref(Kind::Obj, _) {
                    ctx_store(h, p0, e, "isTrusted"@, Val::Bool(false))
                } else {
                    done((), p0)
                },
                |u: (), p1: nat|
                    chain(
                        ask_value(h, p1, Op::DispatchTo, seq![node, Val::Str("click"@), e]),
                        |v: Val, p2: nat|
                            chain(
                                cancelled(h, p2, e),
                                |c: bool, p3: nat| click_ends(h, p3, node, kept, toggled, c),
                            ),
                    ),
            ),
    )
}

pub open spec fn click_ends(
    h: Host,
    pos: nat,
    node: Val,
    kept: Seq<Val>,
    toggled: bool,
    c: bool,
) -> Run<Val> {
    if !c {
        chain(
            ask_value(h, pos, Op::ClickDefault, seq![node]),
            |u: Val, p: nat| done(Val::Undefined, p),
        )
    } else if toggled {
        chain(
            ask_value(h, pos, Op::RestoreChecked, seq![node] + kept),
            |u: Val, p: nat| done(Val::Undefined, p),
        )
    } else {
        done(Val::Undefined, pos)
    }
}

/// `click` of an element.
pub open spec fn element_click_run(h: Host, pos: nat, recv: Option<Val>, args: Seq<Val>) -> Run<Val> {
    match this_of(recv) {
        Val::Ref(Kind::Dom, _) => chain(
            ask_list(h, pos, Op::CheckedInputs, seq![this_of(recv)]),
            |kept: Seq<Val>, p: nat|
                chain(
                    ask_flag(h, p, Op::ToggleBeforeClick, seq![this_of(recv)]),
                    |toggled: bool, q: nat|
                        click_after_toggle(h, q, this_of(recv), kept, toggled),
                ),
        ),
        _ => raised(ErrorKind::Error, "click 은 요소 메서드"@, pos),
    }
}

/// Gives the focus to a node that does not have it: the node that had it loses it first.
pub open spec fn focus_moved(h: Host, pos: nat, before: Option<Val>, node: Val) -> Run<Val> {
    chain(
        match before {
            Some(b) => fire_at(h, pos, "blur"@, b),
            None => done((), pos),
        },
        |u: (), p0: nat|
            chain(
                ask_value(h, p0, Op::SetActive, seq![node]),
                |v: Val, p1: nat|
                    chain(fire_at(h, p1, "focus"@, node), |w: (), p2: nat| done(Val::Undefined, p2)),
            ),
    )
}

/// `focus` of an element.
pub open spec fn focus_run(h: Host, pos: nat, recv: Option<Val>, args: Seq<Val>) -> Run<Val> {
    match this_of(recv) {
        Val::Ref(Kind::Dom, _) => chain(
            ask_slot(h, pos, Op::ActiveNode, Seq::empty()),
            |before: Option<Val>, p: nat|
                if before == Some(this_of(recv)) {
                    done(Val::Undefined, p)
                } else {
                    focus_moved(h, p, before, this_of(recv))
                },
        ),
        _ => done(Val::Undefined, pos),
    }
}

/// `blur` of an element: nothing happens where it does not have the focus.
pub open spec fn blur_run(h: Host, pos: nat, recv: Option<Val>, args: Seq<Val>) -> Run<Val> {
    match this_of(recv) {
        Val::Ref(Kind::Dom, _) => chain(
            ask_slot(h, pos, Op::ActiveNode, Seq::empty()),
            |before: Option<Val>, p: nat|
                if before != Some(this_of(recv)) {
                    done(Val::Undefined, p)
                } else {
                    chain(
                        ask_value(h, p, Op::SetActive, seq![Val::Undefined]),
                        |u: Val, q: nat|
                            chain(
                                fire_at(h, q, "blur"@, this_of(recv)),
                                |v: (), r: nat| done(Val::Undefined, r),
                            ),
                    )
                },
        ),
        _ => done(Val::Undefined, pos),
    }
}

pub open spec fn pair_run(r: Result<(bool, bool), Stop>, it: Interp) -> Run<(bool, bool)> {
    run_plain(r, it)
}

pub open spec fn node_list_run(r: Result<Vec<NodeListener>, Stop>, it: Interp) -> Run<
    Seq<NodeListenerV>,
> {
    match r {
        Ok(v) => done(node_listeners(v@), it.pos as nat),
        Err(e) => halted(e@, it.pos as nat),
    }
}

pub open spec fn page_list_run(r: Result<Vec<PageListener>, Stop>, it: Interp) -> Run<
    Seq<PageListenerV>,
> {
    match r {
        Ok(v) => done(page_listeners(v@), it.pos as nat),
        Err(e) => halted(e@, it.pos as nat),
    }
}

impl Interp {
    fn option_set(&mut self, o: &Value, key: &str) -> (r: Result<bool, Stop>)
        requires
            old(self).wf(),
        ensures
            final(self).follows(*old(self)),
            run_plain(r, *final(self)) == option_set(
                old(self).host(),
                old(self).pos as nat,
                o@,
                key@,
            ),
    {
        match self.ctx_slot(o, key)? {
            Some(v) => Ok(to_bool(&v)),
            None => Ok(false),
        }
    }

    fn listener_options(&mut self, v: &Value) -> (r: Result<(bool, bool), Stop>)
        requires
            old(self).wf(),
        ensures
            final(self).follows(*old(self)),
            pair_run(r, *final(self)) == listener_options(
                old(self).host(),
                old(self).pos as nat,
                v@,
            ),
    {
        match v {
            Value::Bool(b) => Ok((*b, false)),
            Value::Ref(Kind::Obj, _) => {
                let capture: bool = self.option_set(v, "capture")?;
                let once: bool = self.option_set(v, "once")?;
                Ok((capture, once))
            },
            _ => Ok((false, false)),
        }
    }

    fn object_listener(&mut self, o: &Value, event: &str, listener: Value) -> (r: Result<(), Stop>)
        requires
            old(self).wf(),
        ensures
            final(self).follows(*old(self)),
            run_plain(r, *final(self)) == object_listener(
                old(self).host(),
                old(self).pos as nat,
                o@,
                event@,
                listener@,
            ),
    {
        let key: String = self.ask_text(Op::ListenerKey, list1(text_value(event)))?;
        match self.ctx_slot(o, key.as_str())? {
            Some(Value::Ref(Kind::Arr, _)) => self.list_append(o, key.as_str(), listener),
            _ => self.store_list(o, key.as_str(), &list1(listener)),
        }
    }

    /// `addEventListener` of a node or an object.
    pub fn add_event_listener(&mut self, listeners: &mut Listeners, recv: &Option<Value>, args: &Vec<Value>) -> (r: Result<
        Value,
        Stop,
    >)
        requires
            old(self).wf(),
        ensures
            final(self).follows(*old(self)),
            changed_by(
                r,
                *final(self),
                old(listeners)@,
                final(listeners)@,
                add_event_listener_run(
                    old(self).host(),
                    old(self).pos as nat,
                    old(listeners)@,
                    opt_view(*recv),
                    views(args@),
                ),
            ),
    {
        let event: String = self.display_arg(args, 0)?;
        let listener: Value = arg_at(args, 1);
        if !is_callable(&listener) {
            return Ok(Value::Undefined);
        }
        let (capture, once): (bool, bool) = self.listener_options(&arg_at(args, 2))?;
        let this: Value = this_or_undefined(recv);
        match &this {
            Value::Ref(Kind::Dom, id) => {
                let x: NodeListener = NodeListener { node: *id, event, listener, capture, once };
                listeners.nodes.push(x);
                assert(node_listeners(listeners.nodes@) =~= node_listeners(old(listeners).nodes@).push(x@));
            },
            Value::Ref(Kind::Obj, _) => {
                self.object_listener(&this, event.as_str(), listener)?;
            },
            _ => {},
        }
        Ok(Value::Undefined)
    }

    #[verifier::loop_isolation(false)]
    fn kept_nodes(&mut self, all: &Vec<NodeListener>, node: u64, event: &str, listener: &Value) -> (r: Result<Vec<NodeListener>, Stop>)
        requires
            old(self).wf(),
        ensures
            final(self).follows(*old(self)),
            node_list_run(r, *final(self)) == kept_nodes(
                old(self).host(),
                old(self).pos as nat,
                node_listeners(all@),
                0,
                node,
                event@,
                listener@,
                Seq::empty(),
            ),
    {
        let ghost seen = node_listeners(all@);
        let ghost goal = kept_nodes(self.host(), self.pos as nat, seen, 0, node, event@, listener@, Seq::empty());
        let mut out: Vec<NodeListener> = Vec::new();
        assert(node_listeners(out@) =~= Seq::empty());
        let mut i: usize = 0;
        while i < all.len()
            invariant
                i <= all@.len(),
                self.follows(*old(self)),
                goal == kept_nodes(self.host(), self.pos as nat, seen, i as int, node, event@, listener@, node_listeners(out@)),
            decreases all@.len() - i,
        {
            let ghost before = node_listeners(out@);
            assert(seen[i as int] == all@[i as int]@);
            let same: bool = if all[i].node != node || !same_text(all[i].event.as_str(), event) {
                false
            } else {
                self.ask_flag(Op::SameCallable, list2(all[i].listener.clone(), listener.clone()))?
            };
            if !same {
                let x: NodeListener = all[i].clone();
                out.push(x);
                assert(node_listeners(out@) =~= before.push(x@));
            }
            i = i + 1;
        }
        Ok(out)
    }

    #[verifier::loop_isolation(false)]
    fn kept_page(&mut self, all: &Vec<PageListener>, event: &str, listener: &Value) -> (r: Result<Vec<PageListener>, Stop>)
        requires
            old(self).wf(),
        ensures
            final(self).follows(*old(self)),
            page_list_run(r, *final(self)) == kept_page(
                old(self).host(),
                old(self).pos as nat,
                page_listeners(all@),
                0,
                event@,
                listener@,
                Seq::empty(),
            ),
    {
        let ghost seen = page_listeners(all@);
        let ghost goal = kept_page(self.host(), self.pos as nat, seen, 0, event@, listener@, Seq::empty());
        let mut out: Vec<PageListener> = Vec::new();
        assert(page_listeners(out@) =~= Seq::empty());
        let mut i: usize = 0;
        while i < all.len()
            invariant
                i <= all@.len(),
                self.follows(*old(self)),
                goal == kept_page(self.host(), self.pos as nat, seen, i as int, event@, listener@, page_listeners(out@)),
            decreases all@.len() - i,
        {
            let ghost before = page_listeners(out@);
            assert(seen[i as int] == all@[i as int]@);
            let same: bool = if !same_text(all[i].event.as_str(), event) {
                false
            } else {
                self.ask_flag(Op::SameCallable, list2(all[i].listener.clone(), listener.clone()))?
            };
            if !same {
                let x: PageListener = all[i].clone();
                out.push(x);
                assert(page_listeners(out@) =~= before.push(x@));
            }
            i = i + 1;
        }
        Ok(out)
    }

    #[verifier::loop_isolation(false)]
    fn kept_functions(&mut self, all: &Vec<Value>, listener: &Value) -> (r: Result<Vec<Value>, Stop>)
        requires
            old(self).wf(),
        ensures
            final(self).follows(*old(self)),
            run_list(r, *final(self)) == kept_functions(
                old(self).host(),
                old(self).pos as nat,
                views(all@),
                0,
                listener@,
                Seq::empty(),
            ),
    {
        let ghost seen = views(all@);
        let ghost goal = kept_functions(self.host(), self.pos as nat, seen, 0, listener@, Seq::empty());
        let mut out: Vec<Value> = empty_list();
        assert(views(out@) =~= Seq::empty());
        let mut i: usize = 0;
        while i < all.len()
            invariant
                i <= all@.len(),
                self.follows(*old(self)),
                goal == kept_functions(self.host(), self.pos as nat, seen, i as int, listener@, views(out@)),
            decreases all@.len() - i,
        {
            let ghost before = views(out@);
            assert(seen[i as int] == all@[i as int]@);
            if !self.ask_flag(Op::SameCallable, list2(all[i].clone(), listener.clone()))? {
                let x: Value = all[i].clone();
                out.push(x);
                assert(views(out@) =~= before.push(x@));
            }
            i = i + 1;
        }
        Ok(out)
    }

    fn object_unlisten(&mut self, o: &Value, event: &str, listener: &Value) -> (r: Result<(), Stop>)
        requires
            old(self).wf(),
        ensures
            final(self).follows(*old(self)),
            run_plain(r, *final(self)) == object_unlisten(
                old(self).host(),
                old(self).pos as nat,
                o@,
                event@,
                listener@,
            ),
    {
        let key: String = self.ask_text(Op::ListenerKey, list1(text_value(event)))?;
        match self.ctx_slot(o, key.as_str())? {
            Some(Value::Ref(Kind::Arr, i)) => self.unlisten_array(Value::Ref(Kind::Arr, i), listener),
            _ => Ok(()),
        }
    }

    fn unlisten_array(&mut self, a: Value, listener: &Value) -> (r: Result<(), Stop>)
        requires
            old(self).wf(),
        ensures
            final(self).follows(*old(self)),
            run_plain(r, *final(self)) == unlisten_array(
                old(self).host(),
                old(self).pos as nat,
                a@,
                listener@,
            ),
    {
        let l: Vec<Value> = self.ask_list(Op::Elements, list1(a.clone()))?;
        let kept: Vec<Value> = self.kept_functions(&l, listener)?;
        let u: Value = self.ask_value(Op::StoreElements, cat(list1(a), &kept))?;
        Ok(())
    }

    /// `removeEventListener` of a node or an object.
    pub fn remove_event_listener(&mut self, listeners: &mut Listeners, recv: &Option<Value>, args: &Vec<Value>) -> (r: Result<
        Value,
        Stop,
    >)
        requires
            old(self).wf(),
        ensures
            final(self).follows(*old(self)),
            changed_by(
                r,
                *final(self),
                old(listeners)@,
                final(listeners)@,
                remove_event_listener_run(
                    old(self).host(),
                    old(self).pos as nat,
                    old(listeners)@,
                    opt_view(*recv),
                    views(args@),
                ),
            ),
    {
        let event: String = self.display_arg(args, 0)?;
        let listener: Value = arg_at(args, 1);
        let this: Value = this_or_undefined(recv);
        match &this {
            Value::Ref(Kind::Dom, id) => {
                let kept: Vec<NodeListener> = self.kept_nodes(
                    &listeners.nodes,
                    *id,
                    event.as_str(),
                    &listener,
                )?;
                listeners.nodes = kept;
            },
            Value::Ref(Kind::Obj, _) => {
                self.object_unlisten(&this, event.as_str(), &listener)?;
            },
            _ => {},
        }
        Ok(Value::Undefined)
    }

    /// `removeEventListener` of the document or the window.
    pub fn remove_global_listener(&mut self, listeners: &mut Listeners, args: &Vec<Value>) -> (r: Result<
        Value,
        Stop,
    >)
        requires
            old(self).wf(),
        ensures
            final(self).follows(*old(self)),
            changed_by(
                r,
                *final(self),
                old(listeners)@,
                final(listeners)@,
                remove_global_listener_run(
                    old(self).host(),
                    old(self).pos as nat,
                    old(listeners)@,

                    views(args@),
                ),
            ),
    {
        let event: String = self.display_arg(args, 0)?;
        let kept: Vec<PageListener> = self.kept_page(
            &listeners.page,
            event.as_str(),
            &arg_at(args, 1),
        )?;
        listeners.page = kept;
        Ok(Value::Undefined)
    }

    /// `addEventListener` of the document or the window.
    pub fn add_global_listener(&mut self, listeners: &mut Listeners, args: &Vec<Value>) -> (r: Result<
        Value,
        Stop,
    >)
        requires
            old(self).wf(),
        ensures
            final(self).follows(*old(self)),
            changed_by(
                r,
                *final(self),
                old(listeners)@,
                final(listeners)@,
                add_global_listener_run(
                    old(self).host(),
                    old(self).pos as nat,
                    old(listeners)@,

                    views(args@),
                ),
            ),
    {
        let event: String = self.display_arg(args, 0)?;
        let listener: Value = arg_at(args, 1);
        if is_callable(&listener) {
            let x: PageListener = PageListener { event, listener };
            listeners.page.push(x);
            assert(page_listeners(listeners.page@) =~= page_listeners(old(listeners).page@).push(x@));
        }
        Ok(Value::Undefined)
    }

    fn event_name(&mut self, evt: &Value) -> (r: Result<String, Stop>)
        requires
            old(self).wf(),
        ensures
            final(self).follows(*old(self)),
            run_text(r, *final(self)) == event_name(
                old(self).host(),
                old(self).pos as nat,
                evt@,
            ),
    {
        match evt {
            Value::Ref(Kind::Obj, _) => {
                match self.ctx_slot(evt, "type")? {
                    Some(v) => self.ask_text(Op::Display, list1(v)),
                    None => {
                        let s: String = String::new();
                        assert(s@ =~= Seq::<char>::empty());
                        Ok(s)
                    },
                }
            },
            _ => self.ask_text(Op::Display, list1(evt.clone())),
        }
    }

    fn cancelled(&mut self, evt: &Value) -> (r: Result<bool, Stop>)
        requires
            old(self).wf(),
        ensures
            final(self).follows(*old(self)),
            run_plain(r, *final(self)) == cancelled(
                old(self).host(),
                old(self).pos as nat,
                evt@,
            ),
    {
        match self.plain_slot(evt, "defaultPrevented")? {
            Some(Value::Bool(b)) => Ok(b),
            _ => Ok(false),
        }
    }

    fn call_listener(&mut self, f: &Value, this: &Option<Value>, evt: &Value) -> (r: Result<(), Stop>)
        requires
            old(self).wf(),
        ensures
            final(self).follows(*old(self)),
            run_plain(r, *final(self)) == call_listener(
                old(self).host(),
                old(self).pos as nat,
                f@,
                opt_view(*this),
                evt@,
            ),
    {
        match self.call_value(f.clone(), crate::host::clone_opt(this), list1(evt.clone())) {
            Ok(_) => Ok(()),
            Err(Stop::Throw(t)) => match self.ask_value(Op::ReportError, list1(key_of_thrown(&t))) {
                Err(Stop::Ask(q)) => Err(Stop::Ask(q)),
                _ => Ok(()),
            },
            Err(e) => Err(e),
        }
    }

    #[verifier::loop_isolation(false)]
    fn call_each(&mut self, fs: &Vec<Value>, this: &Option<Value>, evt: &Value) -> (r: Result<(), Stop>)
        requires
            old(self).wf(),
        ensures
            final(self).follows(*old(self)),
            run_plain(r, *final(self)) == call_each(
                old(self).host(),
                old(self).pos as nat,
                views(fs@),
                0,
                opt_view(*this),
                evt@,
            ),
    {
        let ghost all = views(fs@);
        let ghost goal = call_each(self.host(), self.pos as nat, all, 0, opt_view(*this), evt@);
        let mut i: usize = 0;
        while i < fs.len()
            invariant
                i <= fs@.len(),
                self.follows(*old(self)),
                goal == call_each(self.host(), self.pos as nat, all, i as int, opt_view(*this), evt@),
            decreases fs@.len() - i,
        {
            assert(all[i as int] == fs@[i as int]@);
            self.call_listener(&fs[i], this, evt)?;
            i = i + 1;
        }
        Ok(())
    }

    /// `dispatchEvent` of the document or the window.
    pub fn dispatch_global_event(&mut self, listeners: &Listeners, args: &Vec<Value>) -> (r: Result<
        Value,
        Stop,
    >)
        requires
            old(self).wf(),
        ensures
            final(self).follows(*old(self)),
            run_value(r, *final(self)) == dispatch_global_event_run(
                old(self).host(),
                old(self).pos as nat,
                listeners@,
                views(args@),
            ),
    {
        let evt: Value = arg_at(args, 0);
        let name: String = self.event_name(&evt)?;
        let fs: Vec<Value> = listening_to(&listeners.page, name.as_str());
        self.call_each(&fs, &None, &evt)?;
        let c: bool = self.cancelled(&evt)?;
        Ok(Value::Bool(!c))
    }

    fn dispatch_to_object(&mut self, o: &Value, evt: &Value) -> (r: Result<Value, Stop>)
        requires
            old(self).wf(),
        ensures
            final(self).follows(*old(self)),
            run_value(r, *final(self)) == dispatch_to_object(
                old(self).host(),
                old(self).pos as nat,
                o@,
                evt@,
            ),
    {
        let name: String = self.event_name(evt)?;
        let key: String = self.ask_text(Op::ListenerKey, list1(Value::Str(name)))?;
        match self.ctx_list(o, key.as_str())? {
            Some(fs) => {
                self.call_each(&fs, &Some(o.clone()), evt)?;
            },
            None => {},
        }
        Ok(Value::Bool(true))
    }

    fn dispatch_to_node(&mut self, node: &Value, evt: &Value) -> (r: Result<Value, Stop>)
        requires
            old(self).wf(),
        ensures
            final(self).follows(*old(self)),
            run_value(r, *final(self)) == dispatch_to_node(
                old(self).host(),
                old(self).pos as nat,
                node@,
                evt@,
            ),
    {
        let name: String = self.event_name(evt)?;
        let e: Value = match evt {
            Value::Ref(Kind::Obj, _) => evt.clone(),
            _ => self.ask_value(Op::MakeEvent, list2(text_value(name.as_str()), node.clone()))?,
        };
        let u: Value = self.ask_value(
            Op::DispatchTo,
            list3(node.clone(), Value::Str(name), e.clone()),
        )?;
        let c: bool = self.cancelled(&e)?;
        Ok(Value::Bool(!c))
    }

    /// `dispatchEvent`.
    pub fn dispatch_event(&mut self, recv: &Option<Value>, args: &Vec<Value>) -> (r: Result<Value, Stop>)
        requires
            old(self).wf(),
        ensures
            final(self).follows(*old(self)),
            run_value(r, *final(self)) == dispatch_event_run(
                old(self).host(),
                old(self).pos as nat,
                opt_view(*recv),
                views(args@),
            ),
    {
        let this: Value = this_or_undefined(recv);
        match &this {
            Value::Ref(Kind::Dom, _) => self.dispatch_to_node(&this, &arg_at(args, 0)),
            Value::Ref(Kind::Obj, _) => self.dispatch_to_object(&this, &arg_at(args, 0)),
            _ => Ok(Value::Bool(false)),
        }
    }

    /// The constructors of events.
    pub fn event_ctor(&mut self, interface: &str, recv: &Option<Value>, args: &Vec<Value>) -> (r: Result<Value, Stop>)
        requires
            old(self).wf(),
        ensures
            final(self).follows(*old(self)),
            run_value(r, *final(self)) == event_ctor_run(
                old(self).host(),
                old(self).pos as nat,
                interface@,
                opt_view(*recv),
                views(args@),
            ),
    {
        let name: String = self.display_arg(args, 0)?;
        let proto: Option<Value> = self.ask_slot(Op::EventProto, list1(text_value(interface)))?;
        let settings: Value = arg_at(args, 1);
        let init: Vec<Value> = match &settings {
            Value::Ref(Kind::Obj, _) => self.ask_list(Op::StoredFields, list1(settings.clone()))?,
            _ => empty_list(),
        };
        assert(!(settings@ matches Val::Ref(Kind::Obj, _)) ==> views(init@) =~= Seq::empty());
        self.ask_value(Op::NewObject, fields_of_event(&proto, name.as_str(), &init))
    }

    fn mark_event(&mut self, recv: &Option<Value>, key: &str) -> (r: Result<Value, Stop>)
        requires
            old(self).wf(),
        ensures
            final(self).follows(*old(self)),
            run_value(r, *final(self)) == mark_event(
                old(self).host(),
                old(self).pos as nat,
                opt_view(*recv),
                key@,
            ),
    {
        let this: Value = this_or_undefined(recv);
        if let Value::Ref(Kind::Obj, _) = &this {
            self.ctx_store(&this, key, Value::Bool(true))?;
        }
        Ok(Value::Undefined)
    }

    /// `preventDefault` of an event.
    pub fn event_prevent_default(&mut self, recv: &Option<Value>, args: &Vec<Value>) -> (r: Result<Value, Stop>)
        requires
            old(self).wf(),
        ensures
            final(self).follows(*old(self)),
            run_value(r, *final(self)) == event_prevent_default_run(
                old(self).host(),
                old(self).pos as nat,
                opt_view(*recv),
                views(args@),
            ),
    {
        self.mark_event(recv, "defaultPrevented")
    }

    /// `stopPropagation` of an event.
    pub fn event_stop_prop(&mut self, recv: &Option<Value>, args: &Vec<Value>) -> (r: Result<Value, Stop>)
        requires
            old(self).wf(),
        ensures
            final(self).follows(*old(self)),
            run_value(r, *final(self)) == event_stop_prop_run(
                old(self).host(),
                old(self).pos as nat,
                opt_view(*recv),
                views(args@),
            ),
    {
        self.mark_event(recv, "\0stopProp")
    }

    fn fire_at(&mut self, name: &str, node: &Value) -> (r: Result<(), Stop>)
        requires
            old(self).wf(),
        ensures
            final(self).follows(*old(self)),
            run_plain(r, *final(self)) == fire_at(
                old(self).host(),
                old(self).pos as nat,
                name@,
                node@,
            ),
    {
        let e: Value = self.ask_value(Op::MakeEvent, list2(text_value(name), node.clone()))?;
        let u: Value = self.ask_value(Op::DispatchTo, list3(node.clone(), text_value(name), e))?;
        Ok(())
    }

    fn click_after_toggle(&mut self, node: &Value, kept: Vec<Value>, toggled: bool) -> (r: Result<
        Value,
        Stop,
    >)
        requires
            old(self).wf(),
        ensures
            final(self).follows(*old(self)),
            run_value(r, *final(self)) == click_after_toggle(
                old(self).host(),
                old(self).pos as nat,
                node@,
                views(kept@),
                toggled,
            ),
    {
        let e: Value = self.ask_value(Op::MakeEvent, list2(text_value("click"), node.clone()))?;
        if let Value::Ref(Kind::Obj, _) = &e {
            self.ctx_store(&e, "isTrusted", Value::Bool(false))?;
        }
        let v: Value = self.ask_value(
            Op::DispatchTo,
            list3(node.clone(), text_value("click"), e.clone()),
        )?;
        let c: bool = self.cancelled(&e)?;
        self.click_ends(node, kept, toggled, c)
    }

    fn click_ends(&mut self, node: &Value, kept: Vec<Value>, toggled: bool, c: bool) -> (r: Result<
        Value,
        Stop,
    >)
        requires
            old(self).wf(),
        ensures
            final(self).follows(*old(self)),
            run_value(r, *final(self)) == click_ends(
                old(self).host(),
                old(self).pos as nat,
                node@,
                views(kept@),
                toggled,
                c,
            ),
    {
        if !c {
            let u: Value = self.ask_value(Op::ClickDefault, list1(node.clone()))?;
        } else if toggled {
            let mut given: Vec<Value> = list1(node.clone());
            let mut more: Vec<Value> = kept;
            let ghost (front, back) = (views(given@), views(more@));
            given.append(&mut more);
            assert(views(given@) =~= front + back);
            let u: Value = self.ask_value(Op::RestoreChecked, given)?;
        }
        Ok(Value::Undefined)
    }

    /// `click` of an element.
    pub fn element_click(&mut self, recv: &Option<Value>, args: &Vec<Value>) -> (r: Result<Value, Stop>)
        requires
            old(self).wf(),
        ensures
            final(self).follows(*old(self)),
            run_value(r, *final(self)) == element_click_run(
                old(self).host(),
                old(self).pos as nat,
                opt_view(*recv),
                views(args@),
            ),
    {
        let this: Value = this_or_undefined(recv);
        match &this {
            Value::Ref(Kind::Dom, _) => {
                let kept: Vec<Value> = self.ask_list(Op::CheckedInputs, list1(this.clone()))?;
                let toggled: bool = self.ask_flag(Op::ToggleBeforeClick, list1(this.clone()))?;
                self.click_after_toggle(&this, kept, toggled)
            },
            _ => Err(fail(ErrorKind::Error, "click 은 요소 메서드")),
        }
    }

    fn focus_moved(&mut self, before: &Option<Value>, node: &Value) -> (r: Result<Value, Stop>)
        requires
            old(self).wf(),
        ensures
            final(self).follows(*old(self)),
            run_value(r, *final(self)) == focus_moved(
                old(self).host(),
                old(self).pos as nat,
                opt_view(*before),
                node@,
            ),
    {
        match before {
            Some(b) => {
                self.fire_at("blur", b)?;
            },
            None => {},
        }
        let v: Value = self.ask_value(Op::SetActive, list1(node.clone()))?;
        self.fire_at("focus", node)?;
        Ok(Value::Undefined)
    }

    /// `focus` of an element.
    pub fn focus(&mut self, recv: &Option<Value>, args: &Vec<Value>) -> (r: Result<Value, Stop>)
        requires
            old(self).wf(),
        ensures
            final(self).follows(*old(self)),
            run_value(r, *final(self)) == focus_run(
                old(self).host(),
                old(self).pos as nat,
                opt_view(*recv),
                views(args@),
            ),
    {
        let this: Value = this_or_undefined(recv);
        match &this {
            Value::Ref(Kind::Dom, id) => {
                let none: Vec<Value> = empty_list();
                assert(views(none@) =~= Seq::empty());
                let before: Option<Value> = self.ask_slot(Op::ActiveNode, none)?;
                if is_node(&before, *id) {
                    Ok(Value::Undefined)
                } else {
                    self.focus_moved(&before, &this)
                }
            },
            _ => Ok(Value::Undefined),
        }
    }

    /// `blur` of an element.
    pub fn blur(&mut self, recv: &Option<Value>, args: &Vec<Value>) -> (r: Result<Value, Stop>)
        requires
            old(self).wf(),
        ensures
            final(self).follows(*old(self)),
            run_value(r, *final(self)) == blur_run(
                old(self).host(),
                old(self).pos as nat,
                opt_view(*recv),
                views(args@),
            ),
    {
        let this: Value = this_or_undefined(recv);
        match &this {
            Value::Ref(Kind::Dom, id) => {
                let none: Vec<Value> = empty_list();
                assert(views(none@) =~= Seq::empty());
                let before: Option<Value> = self.ask_slot(Op::ActiveNode, none)?;
                if is_node(&before, *id) {
                    let u: Value = self.ask_value(Op::SetActive, list1(Value::Undefined))?;
                    self.fire_at("blur", &this)?;
                }
                Ok(Value::Undefined)
            },
            _ => Ok(Value::Undefined),
        }
    }
}

impl Listeners {
    /// Another set of the same listeners.
    pub fn copy(&self) -> (r: Listeners)
        ensures
            r@ == self@,
    {
        let mut nodes: Vec<NodeListener> = Vec::new();
        let mut i: usize = 0;
        while i < self.nodes.len()
            invariant
                i <= self.nodes@.len(),
                nodes@.len() == i,
                forall|j: int| 0 <= j < i ==> (#[trigger] nodes@[j])@ == self.nodes@[j]@,
            decreases self.nodes@.len() - i,
        {
            nodes.push(self.nodes[i].clone());
            i = i + 1;
        }
        let mut page: Vec<PageListener> = Vec::new();
        let mut k: usize = 0;
        while k < self.page.len()
            invariant
                k <= self.page@.len(),
                page@.len() == k,
                forall|j: int| 0 <= j < k ==> (#[trigger] page@[j])@ == self.page@[j]@,
            decreases self.page@.len() - k,
        {
            page.push(self.page[k].clone());
            k = k + 1;
        }
        assert(node_listeners(nodes@) =~= node_listeners(self.nodes@));
        assert(page_listeners(page@) =~= page_listeners(self.page@));
        Listeners { nodes, page }
    }
}

fn is_node(v: &Option<Value>, id: u64) -> (r: bool)
    ensures
        r == (opt_view(*v) == Some(Val::Ref(Kind::Dom, id))),
{
    match v {
        Some(Value::Ref(k, i)) => *k == Kind::Dom && *i == id,
        _ => false,
    }
}

fn listening_to(s: &Vec<PageListener>, event: &str) -> (r: Vec<Value>)
    ensures
        views(r@) == listening(page_listeners(s@), event@),
{
    let ghost all = page_listeners(s@);
    let mut out: Vec<Value> = empty_list();
    let mut i: usize = 0;
    assert(all.take(0) =~= Seq::empty());
    assert(views(out@) =~= Seq::empty());
    while i < s.len()
        invariant
            i <= s@.len(),
            all == page_listeners(s@),
            views(out@) == listening(all.take(i as int), event@),
        decreases s@.len() - i,
    {
        let ghost before = views(out@);
        assert(all.take(i + 1).drop_last() =~= all.take(i as int));
        assert(all.take(i + 1).last() == s@[i as int]@);
        if same_text(s[i].event.as_str(), event) {
            let f: Value = s[i].listener.clone();
            out.push(f);
            assert(views(out@) =~= before.push(f@));
        }
        i = i + 1;
    }
    assert(all.take(i as int) =~= all);
    out
}

fn fields_of_event(proto: &Option<Value>, name: &str, init: &Vec<Value>) -> (r: Vec<Value>)
    ensures
        views(r@) == event_fields(opt_view(*proto), name@, views(init@)),
{
    let ghost all = views(init@);
    let mut front: Vec<Value> = match proto {
        Some(p) => list2(text_value("__proto__"), p.clone()),
        None => empty_list(),
    };
    let ghost start = views(front@);
    assert(proto is None ==> start =~= Seq::empty());
    let mut out: Vec<Value> = cat(
        front,
        &list4(
            text_value("type"),
            text_value(name),
            text_value("isTrusted"),
            Value::Bool(false),
        ),
    );
    let ghost head = views(out@);
    let mut bubbles: bool = false;
    let mut cancelable: bool = false;
    let size: usize = init.len();
    let mut i: usize = 0;
    assert(head + taken_over(all, 0) == views(out@) + taken_over(all, i as int));
    while i < size && size - i > 1
        invariant
            i <= size,
            size == init@.len(),
            all == views(init@),
            head + taken_over(all, 0) == views(out@) + taken_over(all, i as int),
            flag_in(all, 0, "bubbles"@, false) == flag_in(all, i as int, "bubbles"@, bubbles),
            flag_in(all, 0, "cancelable"@, false) == flag_in(
                all,
                i as int,
                "cancelable"@,
                cancelable,
            ),
        decreases size - i,
    {
        assert(all[i as int] == init@[i as int]@ && all[i + 1] == init@[i + 1]@);
        let ghost before = views(out@);
        let key: String = text_of_value(&init[i]);
        proof {
            reveal_strlit("bubbles");
            reveal_strlit("cancelable");
            reveal_strlit("isTrusted");
            assert("bubbles"@.len() != "cancelable"@.len());
            assert("isTrusted"@.len() != "bubbles"@.len());
            assert("isTrusted"@.len() != "cancelable"@.len());
        }
        if same_text(key.as_str(), "bubbles") {
            bubbles = to_bool(&init[i + 1]);
        } else if same_text(key.as_str(), "cancelable") {
            cancelable = to_bool(&init[i + 1]);
        } else if !same_text(key.as_str(), "isTrusted") {
            out = cat(out, &list2(Value::Str(key), init[i + 1].clone()));
            assert(views(out@) + taken_over(all, i + 2) =~= before + taken_over(all, i as int));
        }
        i = i + 2;
    }
    assert(taken_over(all, i as int) =~= Seq::empty());
    assert(head + taken_over(all, 0) =~= views(out@));
    let a: Vec<Value> = list4(
        text_value("bubbles"),
        Value::Bool(bubbles),
        text_value("cancelable"),
        Value::Bool(cancelable),
    );
    let b: Vec<Value> = list4(
        text_value("defaultPrevented"),
        Value::Bool(false),
        text_value("preventDefault"),
        Value::Native(Native::EventPreventDefault),
    );
    let c: Vec<Value> = list4(
        text_value("stopPropagation"),
        Value::Native(Native::EventStopProp),
        text_value("stopImmediatePropagation"),
        Value::Native(Native::EventStopProp),
    );
    let all_fields: Vec<Value> = cat(cat(cat(out, &a), &b), &c);
    assert(views(all_fields@) =~= event_fields(opt_view(*proto), name@, views(init@)));
    all_fields
}

/// Removing a listener from a node leaves the listeners of other nodes and of other events as they
/// are and in order.
pub proof fn law_others_keep_listening(
    h: Host,
    pos: nat,
    all: Seq<NodeListenerV>,
    i: int,
    node: u64,
    event: Seq<char>,
    listener: Val,
    out: Seq<NodeListenerV>,
)
    requires
        0 <= i <= all.len(),
        kept_nodes(h, pos, all, i, node, event, listener, out).out is Ok,
    ensures
        ({
            let kept = kept_nodes(h, pos, all, i, node, event, listener, out).out->Ok_0;
            other_listeners(kept, node, event) == other_listeners(out, node, event)
                + other_listeners(all.skip(i), node, event)
        }),
    decreases all.len() - i,
{
    if i == all.len() {
        assert(all.skip(i) =~= Seq::empty());
        assert(other_listeners(out, node, event) + Seq::empty() =~= other_listeners(
            out,
            node,
            event,
        ));
    } else {
        lemma_others_first(all.skip(i), node, event);
        assert(all.skip(i).skip(1) =~= all.skip(i + 1));
        let next = out.push(all[i]);
        assert(next.drop_last() =~= out);
        if all[i].node != node || all[i].event != event {
            law_others_keep_listening(h, pos, all, i + 1, node, event, listener, next);
            assert(other_listeners(next, node, event) + other_listeners(
                all.skip(i + 1),
                node,
                event,
            ) =~= other_listeners(out, node, event) + other_listeners(all.skip(i), node, event));
        } else {
            let s = ask_flag(h, pos, Op::SameCallable, seq![all[i].listener, listener]);
            let after = if s.out->Ok_0 {
                out
            } else {
                next
            };
            law_others_keep_listening(h, s.pos, all, i + 1, node, event, listener, after);
        }
    }
}

/// The listeners of other nodes and of other events, in order.
pub open spec fn other_listeners(s: Seq<NodeListenerV>, node: u64, event: Seq<char>) -> Seq<
    NodeListenerV,
>
    decreases s.len(),
{
    if s.len() == 0 {
        Seq::empty()
    } else if s.last().node != node || s.last().event != event {
        other_listeners(s.drop_last(), node, event).push(s.last())
    } else {
        other_listeners(s.drop_last(), node, event)
    }
}

proof fn lemma_others_first(s: Seq<NodeListenerV>, node: u64, event: Seq<char>)
    requires
        s.len() > 0,
    ensures
        other_listeners(s, node, event) == (if s[0].node != node || s[0].event != event {
            seq![s[0]]
        } else {
            Seq::empty()
        }) + other_listeners(s.skip(1), node, event),
    decreases s.len(),
{
    let rest = s.drop_last();
    if s.len() == 1 {
        assert(rest =~= Seq::empty());
        assert(s.skip(1) =~= Seq::empty());
        assert(other_listeners(s, node, event) =~= (if s[0].node != node || s[0].event != event {
            seq![s[0]]
        } else {
            Seq::empty()
        }) + other_listeners(s.skip(1), node, event));
    } else {
        lemma_others_first(rest, node, event);
        assert(s.skip(1).drop_last() =~= rest.skip(1));
        assert(s.skip(1).last() == s.last());
        assert(rest[0] == s[0]);
        assert(other_listeners(s, node, event) =~= (if s[0].node != node || s[0].event != event {
            seq![s[0]]
        } else {
            Seq::empty()
        }) + other_listeners(s.skip(1), node, event));
    }
}

} // verus!
