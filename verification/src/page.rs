//! What a page asks of the browser around it: its address, its styles, sockets, and canvases.
use crate::canvas::{cat, ctx_slot, ctx_store, display_arg, empty_list, int_val, CanvasMethod};
use crate::elements::{is_node, node_value, null_if_none, or_null};
use crate::entries::{bytes_in, bytes_of};
use crate::functions::{index_number, plain_slot};
use crate::host::{
    ask_flag, ask_list, ask_number, ask_slot, ask_text, ask_value, chain, done, fail, get, halted,
    list1, list2, list3, list4, opt_view, raised, run_plain, run_text, run_value, text_in,
    text_value, Host, Interp, Op, Run, Stop,
};
use crate::number::{count_of_num, num_of, num_to_count, Num};
use crate::number_format::{this_of, this_or_undefined};
use crate::property::{internal_key, is_internal_key};
use crate::text::{
    blank, chars_of, concat_text, decimal, decimal_text, is_blank, is_unicode_space, same_text,
    unicode_space,
};
use crate::tree::told;
use crate::value::{arg, arg_at, views, ErrorKind, Kind, Native, Val, Value};
use crate::web_state::{pair_views, text_of_value, Pair, PairV};
use vstd::prelude::*;

verus! {

/// Whether the end of an animation is what stays of it.
pub open spec fn keeps_end(fill: Seq<char>) -> bool {
    fill == "forwards"@ || fill == "both"@
}

/// How an animation is to end.
pub open spec fn fill_of(h: Host, pos: nat, v: Val) -> Run<Seq<char>> {
    chain(
        plain_slot(h, pos, v, "fill"@),
        |s: Option<Val>, p: nat|
            match s {
                Some(x) => ask_text(h, p, Op::Display, seq![x]),
                None => done(Seq::empty(), p),
            },
    )
}

/// The last of an animation's frames.
pub open spec fn last_frame(h: Host, pos: nat, v: Val) -> Run<Val> {
    match v {
        Val::Ref(Kind::Arr, _) => chain(
            ask_list(h, pos, Op::Elements, seq![v]),
            |l: Seq<Val>, p: nat|
                done(
                    if l.len() > 0 {
                        l.last()
                    } else {
                        Val::Undefined
                    },
                    p,
                ),
        ),
        _ => done(v, pos),
    }
}

/// A key of a frame that is no property of a style.
pub open spec fn frame_key(key: Seq<char>) -> bool {
    key == "offset"@ || key == "easing"@ || key == "composite"@ || internal_key(key)
}

/// The properties of a frame from the `i`-th field on.
pub open spec fn frame_styles(h: Host, pos: nat, fields: Seq<Val>, i: int, out: Seq<PairV>) -> Run<
    Seq<PairV>,
>
    decreases fields.len() - i,
{
    if !(0 <= i && i + 1 < fields.len()) {
        done(out, pos)
    } else if frame_key(text_in(fields[i])) {
        frame_styles(h, pos, fields, i + 2, out)
    } else {
        let n = ask_text(h, pos, Op::DashedName, seq![Val::Str(text_in(fields[i]))]);
        match n.out {
            Err(e) => halted(e, n.pos),
            Ok(name) => {
                let t = ask_text(h, n.pos, Op::Display, seq![fields[i + 1]]);
                match t.out {
                    Err(e) => halted(e, t.pos),
                    Ok(value) => frame_styles(
                        h,
                        t.pos,
                        fields,
                        i + 2,
                        out.push(PairV { name, value }),
                    ),
                }
            },
        }
    }
}

/// Sets properties of a node's style from the `i`-th on.
pub open spec fn set_styles(h: Host, pos: nat, node: Val, s: Seq<PairV>, i: int) -> Run<()>
    decreases s.len() - i,
{
    if !(0 <= i < s.len()) {
        done((), pos)
    } else {
        let u = ask_value(
            h,
            pos,
            Op::SetStyle,
            seq![node, Val::Str(s[i].name), Val::Str(s[i].value)],
        );
        match u.out {
            Err(e) => halted(e, u.pos),
            Ok(_) => set_styles(h, u.pos, node, s, i + 1),
        }
    }
}

/// Gives a node the properties of a frame.
pub open spec fn apply_frame(h: Host, pos: nat, node: Val, frame: Val) -> Run<()> {
    if frame matches Val::Ref(Kind::Obj, _) {
        chain(
            ask_list(h, pos, Op::StoredFields, seq![frame]),
            |fields: Seq<Val>, p: nat|
                chain(
                    frame_styles(h, p, fields, 0, Seq::empty()),
                    |s: Seq<PairV>, q: nat| set_styles(h, q, node, s, 0),
                ),
        )
    } else {
        done((), pos)
    }
}

pub open spec fn animation_fields(finished: Val) -> Seq<Val> {
    seq![
        Val::Str("finished"@),
        finished,
        Val::Str("ready"@),
        finished,
        Val::Str("playState"@),
        Val::Str("finished"@),
        Val::Str("currentTime"@),
        int_val(0),
        Val::Str("play"@),
        Val::Native(Native::Noop),
        Val::Str("pause"@),
        Val::Native(Native::Noop),
        Val::Str("cancel"@),
        Val::Native(Native::Noop),
        Val::Str("finish"@),
        Val::Native(Native::Noop),
        Val::Str("reverse"@),
        Val::Native(Native::Noop),
        Val::Str("addEventListener"@),
        Val::Native(Native::Noop),
        Val::Str("removeEventListener"@),
        Val::Native(Native::Noop),
    ]
}

/// An animation that has ended.
pub open spec fn ended_animation(h: Host, pos: nat) -> Run<Val> {
    chain(
        ask_value(h, pos, Op::NewPromise, Seq::empty()),
        |p: Val, p0: nat|
            chain(
                ask_value(h, p0, Op::ResolvePromise, seq![p, Val::Undefined]),
                |u: Val, p1: nat| ask_value(h, p1, Op::NewObject, animation_fields(p)),
            ),
    )
}

/// `animate` of an element: there is no time between the frames, so only the end shows, where it is
/// to stay.
pub open spec fn element_animate_run(h: Host, pos: nat, recv: Option<Val>, args: Seq<Val>) -> Run<Val> {
    let node = this_of(recv);
    if !is_node(node) {
        done(Val::Undefined, pos)
    } else {
        chain(
            fill_of(h, pos, arg(args, 1)),
            |fill: Seq<char>, p0: nat|
                chain(
                    if keeps_end(fill) {
                        chain(
                            last_frame(h, p0, arg(args, 0)),
                            |frame: Val, p1: nat| apply_frame(h, p1, node, frame),
                        )
                    } else {
                        done((), p0)
                    },
                    |u: (), p2: nat| ended_animation(h, p2),
                ),
        )
    }
}

/// `getAnimations`: none is ever running.
pub open spec fn get_animations_run(h: Host, pos: nat, recv: Option<Val>, args: Seq<Val>) -> Run<Val> {
    ask_value(h, pos, Op::NewArray, Seq::empty())
}

/// Whether a text starts with a bracket, after spaces.
pub open spec fn opens(s: Seq<char>) -> bool
    decreases s.len(),
{
    if s.len() == 0 {
        false
    } else if unicode_space(s[0]) {
        opens(s.skip(1))
    } else {
        s[0] == '('
    }
}

/// The condition that `CSS.supports` asks about.
pub open spec fn support_condition(h: Host, pos: nat, args: Seq<Val>) -> Run<Seq<char>> {
    chain(
        display_arg(h, pos, args, 0),
        |a: Seq<char>, p: nat|
            if args.len() == 1 {
                done(
                    if opens(a) {
                        a
                    } else {
                        "("@ + a + ")"@
                    },
                    p,
                )
            } else {
                chain(
                    display_arg(h, p, args, 1),
                    |b: Seq<char>, q: nat| done("("@ + a + ": "@ + b + ")"@, q),
                )
            },
    )
}

/// `CSS.supports`.
pub open spec fn css_supports_run(h: Host, pos: nat, recv: Option<Val>, args: Seq<Val>) -> Run<Val> {
    if args.len() == 0 {
        done(Val::Bool(false), pos)
    } else {
        chain(
            support_condition(h, pos, args),
            |c: Seq<char>, p: nat|
                chain(
                    ask_flag(h, p, Op::StyleSupported, seq![Val::Str(c)]),
                    |b: bool, q: nat| done(Val::Bool(b), q),
                ),
        )
    }
}

/// A number that an own property holds, in single precision; zero where there is none.
pub open spec fn coordinate_slot(h: Host, pos: nat, o: Val, key: Seq<char>) -> Run<Val> {
    chain(
        ctx_slot(h, pos, o, key),
        |s: Option<Val>, p: nat|
            match s {
                Some(v) => ask_value(h, p, Op::Single, seq![v]),
                None => done(int_val(0), p),
            },
    )
}

pub open spec fn coordinate_arg(h: Host, pos: nat, args: Seq<Val>, i: int) -> Run<Val> {
    if 0 <= i < args.len() {
        ask_value(h, pos, Op::Single, seq![args[i]])
    } else {
        done(int_val(0), pos)
    }
}

/// `scrollTo` and `scrollBy`: two numbers, or an object with `left` and `top`.
pub open spec fn scroll_run(
    h: Host,
    pos: nat,
    relative: bool,
    recv: Option<Val>,
    args: Seq<Val>,
) -> Run<Val> {
    let o = arg(args, 0);
    let of_object = o matches Val::Ref(Kind::Obj, _);
    chain(
        if of_object {
            coordinate_slot(h, pos, o, "left"@)
        } else {
            coordinate_arg(h, pos, args, 0)
        },
        |x: Val, p: nat|
            chain(
                if of_object {
                    coordinate_slot(h, p, o, "top"@)
                } else {
                    coordinate_arg(h, p, args, 1)
                },
                |y: Val, q: nat|
                    told(
                        ask_value(h, q, Op::SetScroll, seq![x, y, Val::Bool(relative)]),
                        Val::Undefined,
                    ),
            ),
    )
}

/// `getBoundingClientRect`.
pub open spec fn get_bounding_client_rect_run(
    h: Host,
    pos: nat,
    recv: Option<Val>,
    args: Seq<Val>,
) -> Run<Val> {
    chain(
        if is_node(this_of(recv)) {
            ask_list(h, pos, Op::LayoutRect, seq![this_of(recv)])
        } else {
            done(Seq::empty(), pos)
        },
        |l: Seq<Val>, p: nat|
            if l.len() < 4 {
                rect_object(h, p, int_val(0), int_val(0), int_val(0), int_val(0))
            } else {
                rect_object(h, p, l[0], l[1], l[2], l[3])
            },
    )
}

pub open spec fn rect_object(h: Host, pos: nat, x: Val, y: Val, w: Val, t: Val) -> Run<Val> {
    chain(
        ask_value(h, pos, Op::Sum, seq![x, w]),
        |right: Val, p: nat|
            chain(
                ask_value(h, p, Op::Sum, seq![y, t]),
                |bottom: Val, q: nat|
                    ask_value(
                        h,
                        q,
                        Op::NewObject,
                        seq![
                            Val::Str("x"@),
                            x,
                            Val::Str("y"@),
                            y,
                            Val::Str("left"@),
                            x,
                            Val::Str("top"@),
                            y,
                            Val::Str("right"@),
                            right,
                            Val::Str("bottom"@),
                            bottom,
                            Val::Str("width"@),
                            w,
                            Val::Str("height"@),
                            t,
                        ],
                    ),
            ),
    )
}

/// `location.href`.
pub open spec fn location_href_run(h: Host, pos: nat, recv: Option<Val>, args: Seq<Val>) -> Run<Val> {
    match recv {
        Some(v) => get(h, pos, v, "\0href"@),
        None => chain(
            ask_text(h, pos, Op::BaseUrl, Seq::empty()),
            |s: Seq<char>, p: nat| done(Val::Str(s), p),
        ),
    }
}

/// Setting `location.href`, and `location.assign`: a blank address leads nowhere.
pub open spec fn location_assign_run(h: Host, pos: nat, recv: Option<Val>, args: Seq<Val>) -> Run<Val> {
    chain(
        display_arg(h, pos, args, 0),
        |target: Seq<char>, p: nat|
            if blank(target) {
                done(Val::Undefined, p)
            } else {
                chain(
                    ask_text(h, p, Op::AbsoluteUrl, seq![Val::Str(target)]),
                    |url: Seq<char>, q: nat|
                        told(ask_value(h, q, Op::Navigate, seq![Val::Str(url)]), Val::Undefined),
                )
            },
    )
}

/// `location.reload`.
pub open spec fn location_reload_run(h: Host, pos: nat, recv: Option<Val>, args: Seq<Val>) -> Run<Val> {
    chain(
        ask_value(h, pos, Op::BaseUrl, Seq::empty()),
        |url: Val, p: nat| told(ask_value(h, p, Op::Navigate, seq![url]), Val::Undefined),
    )
}

/// Notes a state in the history object; a new entry makes the history longer.
pub open spec fn note_state(h: Host, pos: nat, history: Val, pushes: bool, state: Val) -> Run<Val> {
    chain(
        ctx_store(h, pos, history, "state"@, state),
        |u: (), p: nat|
            if pushes {
                chain(
                    longer(h, p, history),
                    |v: (), q: nat| done(Val::Undefined, q),
                )
            } else {
                done(Val::Undefined, p)
            },
    )
}

pub open spec fn longer(h: Host, pos: nat, history: Val) -> Run<()> {
    chain(
        ctx_slot(h, pos, history, "length"@),
        |s: Option<Val>, p0: nat|
            chain(
                match s {
                    Some(v) => ask_number(h, p0, Op::PlainNumber, seq![v]),
                    None => done(num_of(1), p0),
                },
                |n: Num, p1: nat|
                    chain(
                        ask_value(h, p1, Op::PlusOne, seq![Val::Num(n)]),
                        |m: Val, p2: nat| ctx_store(h, p2, history, "length"@, m),
                    ),
            ),
    )
}

/// `history.pushState` and `history.replaceState`.
pub open spec fn history_state_run(
    h: Host,
    pos: nat,
    pushes: bool,
    recv: Option<Val>,
    args: Seq<Val>,
) -> Run<Val> {
    let state = if args.len() > 0 {
        args[0]
    } else {
        Val::Null
    };
    chain(
        display_arg(h, pos, args, 2),
        |url: Seq<char>, p0: nat|
            chain(
                if url.len() == 0 {
                    done(Val::Undefined, p0)
                } else {
                    ask_value(h, p0, Op::UpdateLocation, seq![Val::Str(url)])
                },
                |u: Val, p1: nat|
                    chain(
                        ask_value(h, p1, Op::GlobalValue, seq![Val::Str("history"@)]),
                        |history: Val, p2: nat|
                            if history matches Val::Ref(Kind::Obj, _) {
                                note_state(h, p2, history, pushes, state)
                            } else {
                                done(Val::Undefined, p2)
                            },
                    ),
            ),
    )
}

/// `matchMedia`.
pub open spec fn match_media_run(h: Host, pos: nat, recv: Option<Val>, args: Seq<Val>) -> Run<Val> {
    chain(
        display_arg(h, pos, args, 0),
        |q: Seq<char>, p: nat|
            chain(
                ask_flag(h, p, Op::MediaMatches, seq![Val::Str(q)]),
                |m: bool, r: nat| ask_value(h, r, Op::NewObject, media_fields(q, m)),
            ),
    )
}

pub open spec fn media_fields(q: Seq<char>, m: bool) -> Seq<Val> {
    seq![
        Val::Str("matches"@),
        Val::Bool(m),
        Val::Str("media"@),
        Val::Str(q),
        Val::Str("onchange"@),
        Val::Null,
        Val::Str("addListener"@),
        Val::Native(Native::Noop),
        Val::Str("removeListener"@),
        Val::Native(Native::Noop),
        Val::Str("addEventListener"@),
        Val::Native(Native::Noop),
        Val::Str("removeEventListener"@),
        Val::Native(Native::Noop),
        Val::Str("dispatchEvent"@),
        Val::Native(Native::Noop),
    ]
}

/// `document.cookie`.
pub open spec fn cookie_get_run(h: Host, pos: nat, recv: Option<Val>, args: Seq<Val>) -> Run<Val> {
    chain(
        ask_text(h, pos, Op::Cookies, Seq::empty()),
        |s: Seq<char>, p: nat| done(Val::Str(s), p),
    )
}

/// Setting `document.cookie`.
pub open spec fn cookie_set_run(h: Host, pos: nat, recv: Option<Val>, args: Seq<Val>) -> Run<Val> {
    chain(
        display_arg(h, pos, args, 0),
        |s: Seq<char>, p: nat|
            told(ask_value(h, p, Op::StoreCookie, seq![Val::Str(s)]), Val::Undefined),
    )
}

/// `getPropertyValue` of a computed style.
pub open spec fn computed_get_property_run(h: Host, pos: nat, recv: Option<Val>, args: Seq<Val>) -> Run<
    Val,
> {
    chain(
        display_arg(h, pos, args, 0),
        |name: Seq<char>, p: nat|
            if this_of(recv) matches Val::Ref(Kind::ComputedStyle, _) {
                chain(
                    ask_text(h, p, Op::ComputedProperty, seq![this_of(recv), Val::Str(name)]),
                    |s: Seq<char>, q: nat| done(Val::Str(s), q),
                )
            } else {
                done(Val::Str(Seq::empty()), p)
            },
    )
}

/// Binds a class to an element.
pub open spec fn bind_element_class_run(h: Host, pos: nat, recv: Option<Val>, args: Seq<Val>) -> Run<Val> {
    if args.len() > 1 && is_node(args[0]) {
        told(ask_value(h, pos, Op::BindClass, seq![args[0], args[1]]), Val::Undefined)
    } else {
        done(Val::Undefined, pos)
    }
}

/// `document.styleSheets`.
pub open spec fn style_sheets_run(h: Host, pos: nat, recv: Option<Val>, args: Seq<Val>) -> Run<Val> {
    chain(
        ask_list(h, pos, Op::StyleSheetList, Seq::empty()),
        |l: Seq<Val>, p: nat|
            chain(
                ask_value(h, p, Op::NewArray, l),
                |a: Val, q: nat|
                    chain(
                        ctx_store(h, q, a, "item"@, Val::Native(Native::ListItem)),
                        |u: (), r: nat| done(a, r),
                    ),
            ),
    )
}

/// A place as an argument: never less than zero.
pub open spec fn place_arg_num(h: Host, pos: nat, args: Seq<Val>, i: int) -> Run<Val> {
    if 0 <= i < args.len() {
        chain(
            ask_number(h, pos, Op::DelayOf, seq![args[i]]),
            |n: Num, p: nat|
                done(Val::Num(crate::array_live::count_num(count_of_num(n) as nat)), p),
        )
    } else {
        done(int_val(0), pos)
    }
}

/// `insertRule` of a style sheet.
pub open spec fn sheet_insert_rule_run(h: Host, pos: nat, recv: Option<Val>, args: Seq<Val>) -> Run<Val> {
    if !(this_of(recv) matches Val::Ref(Kind::Sheet, _)) {
        done(int_val(0), pos)
    } else {
        chain(
            display_arg(h, pos, args, 0),
            |text: Seq<char>, p: nat|
                chain(
                    place_arg_num(h, p, args, 1),
                    |at: Val, q: nat|
                        ask_value(h, q, Op::InsertRule, seq![this_of(recv), Val::Str(text), at]),
                ),
        )
    }
}

/// `deleteRule` of a style sheet.
pub open spec fn sheet_delete_rule_run(h: Host, pos: nat, recv: Option<Val>, args: Seq<Val>) -> Run<Val> {
    if !(this_of(recv) matches Val::Ref(Kind::Sheet, _)) {
        done(Val::Undefined, pos)
    } else {
        chain(
            place_arg_num(h, pos, args, 0),
            |at: Val, p: nat| ask_value(h, p, Op::DeleteRule, seq![this_of(recv), at]),
        )
    }
}

pub open spec fn rule_style(v: Val) -> bool {
    v matches Val::Ref(Kind::RuleStyle, _)
}

/// `getPropertyValue` of a rule's style.
pub open spec fn rule_style_get_run(h: Host, pos: nat, recv: Option<Val>, args: Seq<Val>) -> Run<Val> {
    if !rule_style(this_of(recv)) {
        done(Val::Str(Seq::empty()), pos)
    } else {
        chain(
            display_arg(h, pos, args, 0),
            |name: Seq<char>, p: nat|
                chain(
                    ask_text(h, p, Op::RuleProperty, seq![this_of(recv), Val::Str(name)]),
                    |s: Seq<char>, q: nat| done(Val::Str(s), q),
                ),
        )
    }
}

/// `item` of a rule's style.
pub open spec fn rule_style_item_run(h: Host, pos: nat, recv: Option<Val>, args: Seq<Val>) -> Run<Val> {
    if !rule_style(this_of(recv)) {
        done(Val::Str(Seq::empty()), pos)
    } else {
        chain(
            if args.len() > 0 {
                ask_number(h, pos, Op::PlainNumber, seq![args[0]])
            } else {
                done(num_of(0), pos)
            },
            |n: Num, p: nat|
                ask_value(
                    h,
                    p,
                    Op::RuleItem,
                    seq![this_of(recv), Val::Str(decimal(count_of_num(n) as nat))],
                ),
        )
    }
}

/// `setProperty` of a rule's style.
pub open spec fn rule_style_set_run(h: Host, pos: nat, recv: Option<Val>, args: Seq<Val>) -> Run<Val> {
    if !rule_style(this_of(recv)) {
        done(Val::Undefined, pos)
    } else {
        chain(
            display_arg(h, pos, args, 0),
            |name: Seq<char>, p: nat|
                chain(
                    display_arg(h, p, args, 1),
                    |value: Seq<char>, q: nat|
                        told(
                            ask_value(
                                h,
                                q,
                                Op::SetRuleProperty,
                                seq![this_of(recv), Val::Str(name), Val::Str(value)],
                            ),
                            Val::Undefined,
                        ),
                ),
        )
    }
}

/// `removeProperty` of a rule's style: what the property was before.
pub open spec fn rule_style_remove_run(h: Host, pos: nat, recv: Option<Val>, args: Seq<Val>) -> Run<Val> {
    if !rule_style(this_of(recv)) {
        done(Val::Str(Seq::empty()), pos)
    } else {
        chain(
            display_arg(h, pos, args, 0),
            |name: Seq<char>, p: nat|
                chain(
                    ask_text(h, p, Op::RuleProperty, seq![this_of(recv), Val::Str(name)]),
                    |before: Seq<char>, q: nat|
                        told(
                            ask_value(
                                h,
                                q,
                                Op::SetRuleProperty,
                                seq![this_of(recv), Val::Str(name), Val::Str(Seq::empty())],
                            ),
                            Val::Str(before),
                        ),
                ),
        )
    }
}

pub open spec fn style(v: Val) -> bool {
    v matches Val::Ref(Kind::Style, _)
}

pub open spec fn set_style(h: Host, pos: nat, v: Val, name: Seq<char>, value: Seq<char>) -> Run<Val> {
    told(
        ask_value(h, pos, Op::SetStyle, seq![v, Val::Str(name), Val::Str(value)]),
        Val::Undefined,
    )
}

/// `setProperty` of an element's style.
pub open spec fn style_set_property_run(h: Host, pos: nat, recv: Option<Val>, args: Seq<Val>) -> Run<Val> {
    if !style(this_of(recv)) {
        done(Val::Undefined, pos)
    } else {
        chain(
            display_arg(h, pos, args, 0),
            |name: Seq<char>, p: nat|
                chain(
                    display_arg(h, p, args, 1),
                    |value: Seq<char>, q: nat| set_style(h, q, this_of(recv), name, value),
                ),
        )
    }
}

/// `getPropertyValue` of an element's style.
pub open spec fn style_get_property_run(h: Host, pos: nat, recv: Option<Val>, args: Seq<Val>) -> Run<Val> {
    if !style(this_of(recv)) {
        done(Val::Str(Seq::empty()), pos)
    } else {
        chain(
            display_arg(h, pos, args, 0),
            |name: Seq<char>, p: nat|
                chain(
                    ask_text(h, p, Op::StyleText, seq![this_of(recv), Val::Str(name)]),
                    |s: Seq<char>, q: nat| done(Val::Str(s), q),
                ),
        )
    }
}

/// `removeProperty` of an element's style.
pub open spec fn style_remove_property_run(h: Host, pos: nat, recv: Option<Val>, args: Seq<Val>) -> Run<
    Val,
> {
    if !style(this_of(recv)) {
        done(Val::Undefined, pos)
    } else {
        chain(
            display_arg(h, pos, args, 0),
            |name: Seq<char>, p: nat| set_style(h, p, this_of(recv), name, Seq::empty()),
        )
    }
}

/// `getNamedItem` of the attributes of an element.
pub open spec fn get_named_item_run(h: Host, pos: nat, recv: Option<Val>, args: Seq<Val>) -> Run<Val> {
    chain(
        display_arg(h, pos, args, 0),
        |name: Seq<char>, p: nat|
            if this_of(recv) matches Val::Ref(Kind::Arr, _) {
                chain(
                    ask_slot(h, p, Op::ArrayProperty, seq![this_of(recv), Val::Str(name)]),
                    |s: Option<Val>, q: nat| done(or_null(s), q),
                )
            } else {
                done(Val::Null, p)
            },
    )
}

/// The number of a socket object's socket, where it has one.
pub open spec fn socket_of(h: Host, pos: nat, v: Val) -> Run<Option<u64>> {
    chain(
        plain_slot(h, pos, v, "\0sock"@),
        |s: Option<Val>, p: nat|
            match s {
                Some(Val::Num(n)) => chain(
                    ask_flag(
                        h,
                        p,
                        Op::HasSocket,
                        seq![Val::Num(crate::array_live::count_num(count_of_num(n) as nat))],
                    ),
                    |there: bool, q: nat|
                        done(
                            if there {
                                Some(count_of_num(n))
                            } else {
                                None
                            },
                            q,
                        ),
                ),
                _ => done(None, p),
            },
    )
}

pub open spec fn bytes_as_values(b: Seq<u8>) -> Seq<Val> {
    Seq::new(b.len(), |i: int| int_val(b[i] as int))
}

/// Sends an array of numbers as bytes, and anything else as a text.
pub open spec fn send_data(h: Host, pos: nat, socket: u64, data: Val) -> Run<Val> {
    let at = Val::Num(crate::array_live::count_num(socket as nat));
    match data {
        Val::Ref(Kind::Arr, _) => chain(
            ask_list(h, pos, Op::Elements, seq![data]),
            |l: Seq<Val>, p: nat|
                told(
                    ask_value(h, p, Op::SendBytes, seq![at] + bytes_as_values(bytes_in(l))),
                    Val::Undefined,
                ),
        ),
        _ => chain(
            ask_text(h, pos, Op::Display, seq![data]),
            |s: Seq<char>, p: nat|
                told(ask_value(h, p, Op::SendText, seq![at, Val::Str(s)]), Val::Undefined),
        ),
    }
}

/// `send` of a socket.
pub open spec fn ws_send_run(h: Host, pos: nat, recv: Option<Val>, args: Seq<Val>) -> Run<Val> {
    chain(
        socket_of(h, pos, this_of(recv)),
        |s: Option<u64>, p: nat|
            match s {
                None => raised(ErrorKind::Error, "WebSocket 이 연결돼 있지 않다"@, p),
                Some(i) => send_data(h, p, i, arg(args, 0)),
            },
    )
}

/// `close` of a socket.
pub open spec fn ws_close_run(h: Host, pos: nat, recv: Option<Val>, args: Seq<Val>) -> Run<Val> {
    let v = this_of(recv);
    if !(v matches Val::Ref(Kind::Obj, _)) {
        done(Val::Undefined, pos)
    } else {
        chain(
            socket_of(h, pos, v),
            |s: Option<u64>, p: nat|
                chain(
                    match s {
                        Some(i) => ask_value(
                            h,
                            p,
                            Op::CloseSocket,
                            seq![Val::Num(crate::array_live::count_num(i as nat))],
                        ),
                        None => done(Val::Undefined, p),
                    },
                    |u: Val, q: nat|
                        chain(
                            ctx_store(h, q, v, "readyState"@, int_val(3)),
                            |w: (), r: nat| done(Val::Undefined, r),
                        ),
                ),
        )
    }
}

/// `scrollIntoView`: the page is scrolled so far down that the element is at the top.
pub open spec fn scroll_into_view_run(h: Host, pos: nat, recv: Option<Val>, args: Seq<Val>) -> Run<Val> {
    if !is_node(this_of(recv)) {
        done(Val::Undefined, pos)
    } else {
        chain(
            ask_list(h, pos, Op::LayoutRect, seq![this_of(recv)]),
            |l: Seq<Val>, p: nat|
                if l.len() < 4 {
                    done(Val::Undefined, p)
                } else {
                    told(
                        ask_value(h, p, Op::SetScroll, seq![Val::Undefined, l[1], Val::Bool(false)]),
                        Val::Undefined,
                    )
                },
        )
    }
}

/// What a drawing context starts with.
pub open spec fn context_settings(id: Val, node: Val, ctm: Val, path: Val) -> Seq<Val> {
    seq![
        Val::Str("\0canvas"@),
        id,
        Val::Str("fillStyle"@),
        Val::Str("#000000"@),
        Val::Str("strokeStyle"@),
        Val::Str("#000000"@),
        Val::Str("lineWidth"@),
        int_val(1),
        Val::Str("font"@),
        Val::Str("10px sans-serif"@),
        Val::Str("globalAlpha"@),
        int_val(1),
        Val::Str("textAlign"@),
        Val::Str("start"@),
        Val::Str("textBaseline"@),
        Val::Str("alphabetic"@),
        Val::Str("lineCap"@),
        Val::Str("butt"@),
        Val::Str("lineJoin"@),
        Val::Str("miter"@),
    ] + seq![
        Val::Str("globalCompositeOperation"@),
        Val::Str("source-over"@),
        Val::Str("shadowBlur"@),
        int_val(0),
        Val::Str("shadowColor"@),
        Val::Str("rgba(0,0,0,0)"@),
        Val::Str("shadowOffsetX"@),
        int_val(0),
        Val::Str("shadowOffsetY"@),
        int_val(0),
        Val::Str("miterLimit"@),
        int_val(10),
        Val::Str("canvas"@),
        node,
        Val::Str("\0ctm"@),
        ctm,
        Val::Str("\0path"@),
        path,
    ]
}

/// Some of the methods of a drawing context.
pub open spec fn context_methods_1() -> Seq<Val> {
    seq![
        Val::Str("fillRect"@),
        Val::Native(Native::Canvas(CanvasMethod::FillRect)),
        Val::Str("clearRect"@),
        Val::Native(Native::Canvas(CanvasMethod::ClearRect)),
        Val::Str("strokeRect"@),
        Val::Native(Native::Canvas(CanvasMethod::StrokeRect)),
        Val::Str("beginPath"@),
        Val::Native(Native::Canvas(CanvasMethod::BeginPath)),
        Val::Str("moveTo"@),
        Val::Native(Native::Canvas(CanvasMethod::MoveTo)),
        Val::Str("lineTo"@),
        Val::Native(Native::Canvas(CanvasMethod::LineTo)),
        Val::Str("arc"@),
        Val::Native(Native::Canvas(CanvasMethod::Arc)),
        Val::Str("rect"@),
        Val::Native(Native::Canvas(CanvasMethod::Rect)),
        Val::Str("closePath"@),
        Val::Native(Native::Canvas(CanvasMethod::ClosePath)),
    ]
}

/// Some of the methods of a drawing context.
pub open spec fn context_methods_2() -> Seq<Val> {
    seq![
        Val::Str("fill"@),
        Val::Native(Native::Canvas(CanvasMethod::Fill)),
        Val::Str("stroke"@),
        Val::Native(Native::Canvas(CanvasMethod::Stroke)),
        Val::Str("fillText"@),
        Val::Native(Native::Canvas(CanvasMethod::FillText)),
        Val::Str("strokeText"@),
        Val::Native(Native::Canvas(CanvasMethod::FillText)),
        Val::Str("save"@),
        Val::Native(Native::Canvas(CanvasMethod::Save)),
        Val::Str("restore"@),
        Val::Native(Native::Canvas(CanvasMethod::Restore)),
        Val::Str("scale"@),
        Val::Native(Native::Canvas(CanvasMethod::Scale)),
        Val::Str("translate"@),
        Val::Native(Native::Canvas(CanvasMethod::Translate)),
        Val::Str("rotate"@),
        Val::Native(Native::Canvas(CanvasMethod::Rotate)),
    ]
}

/// Some of the methods of a drawing context.
pub open spec fn context_methods_3() -> Seq<Val> {
    seq![
        Val::Str("transform"@),
        Val::Native(Native::Canvas(CanvasMethod::Transform)),
        Val::Str("setTransform"@),
        Val::Native(Native::Canvas(CanvasMethod::SetTransform)),
        Val::Str("resetTransform"@),
        Val::Native(Native::Canvas(CanvasMethod::ResetTransform)),
        Val::Str("measureText"@),
        Val::Native(Native::Canvas(CanvasMethod::MeasureText)),
        Val::Str("drawImage"@),
        Val::Native(Native::Canvas(CanvasMethod::DrawImage)),
        Val::Str("ellipse"@),
        Val::Native(Native::Canvas(CanvasMethod::Ellipse)),
        Val::Str("roundRect"@),
        Val::Native(Native::Canvas(CanvasMethod::RoundRect)),
        Val::Str("setLineDash"@),
        Val::Native(Native::Canvas(CanvasMethod::Noop)),
        Val::Str("clip"@),
        Val::Native(Native::Canvas(CanvasMethod::Clip)),
    ]
}

/// Some of the methods of a drawing context.
pub open spec fn context_methods_4() -> Seq<Val> {
    seq![
        Val::Str("createLinearGradient"@),
        Val::Native(Native::Canvas(CanvasMethod::CreateLinearGradient)),
        Val::Str("createRadialGradient"@),
        Val::Native(Native::Canvas(CanvasMethod::CreateRadialGradient)),
        Val::Str("createPattern"@),
        Val::Native(Native::Canvas(CanvasMethod::CreatePattern)),
        Val::Str("bezierCurveTo"@),
        Val::Native(Native::Canvas(CanvasMethod::BezierCurveTo)),
        Val::Str("quadraticCurveTo"@),
        Val::Native(Native::Canvas(CanvasMethod::QuadraticCurveTo)),
        Val::Str("putImageData"@),
        Val::Native(Native::Canvas(CanvasMethod::PutImageData)),
        Val::Str("getImageData"@),
        Val::Native(Native::Canvas(CanvasMethod::GetImageData)),
        Val::Str("createImageData"@),
        Val::Native(Native::Canvas(CanvasMethod::CreateImageData)),
    ]
}

/// All of the methods of a drawing context.
pub open spec fn context_methods() -> Seq<Val> {
    context_methods_1() + context_methods_2() + context_methods_3() + context_methods_4()
}

/// `getContext` of a canvas.
pub open spec fn canvas_get_context_run(h: Host, pos: nat, recv: Option<Val>, args: Seq<Val>) -> Run<Val> {
    match this_of(recv) {
        Val::Ref(Kind::Dom, id) => chain(
            ask_value(h, pos, Op::OpenCanvas, seq![this_of(recv)]),
            |u: Val, p0: nat|
                chain(
                    ask_value(
                        h,
                        p0,
                        Op::NewArray,
                        seq![int_val(1), int_val(0), int_val(0), int_val(1), int_val(0), int_val(0)],
                    ),
                    |ctm: Val, p1: nat|
                        chain(
                            ask_value(h, p1, Op::NewArray, Seq::empty()),
                            |path: Val, p2: nat|
                                ask_value(
                                    h,
                                    p2,
                                    Op::NewObject,
                                    context_settings(
                                        Val::Num(crate::array_live::count_num(id as nat)),
                                        this_of(recv),
                                        ctm,
                                        path,
                                    ) + context_methods(),
                                ),
                        ),
                ),
        ),
        _ => done(Val::Null, pos),
    }
}

impl Interp {
    fn fill_of(&mut self, v: &Value) -> (r: Result<String, Stop>)
        requires
            old(self).wf(),
        ensures
            final(self).follows(*old(self)),
            run_text(r, *final(self)) == fill_of(
                old(self).host(),
                old(self).pos as nat,
                v@,
            ),
    {
        match self.plain_slot(v, "fill")? {
            Some(x) => self.ask_text(Op::Display, list1(x)),
            None => Ok(no_text()),
        }
    }

    fn last_frame(&mut self, v: &Value) -> (r: Result<Value, Stop>)
        requires
            old(self).wf(),
        ensures
            final(self).follows(*old(self)),
            run_value(r, *final(self)) == last_frame(
                old(self).host(),
                old(self).pos as nat,
                v@,
            ),
    {
        match v {
            Value::Ref(Kind::Arr, _) => {
                let l: Vec<Value> = self.ask_list(Op::Elements, list1(v.clone()))?;
                if l.len() > 0 {
                    assert(views(l@).last() == l@[l@.len() - 1]@);
                    Ok(l[l.len() - 1].clone())
                } else {
                    Ok(Value::Undefined)
                }
            },
            _ => Ok(v.clone()),
        }
    }

    #[verifier::loop_isolation(false)]
    fn frame_styles(&mut self, fields: &Vec<Value>) -> (r: Result<Vec<Pair>, Stop>)
        requires
            old(self).wf(),
        ensures
            final(self).follows(*old(self)),
            crate::web::pairs_run(r, *final(self)) == frame_styles(
                old(self).host(),
                old(self).pos as nat,
                views(fields@),
                0,
                Seq::empty(),
            ),
    {
        let ghost all = views(fields@);
        let ghost goal = frame_styles(self.host(), self.pos as nat, all, 0, Seq::empty());
        let mut out: Vec<Pair> = Vec::new();
        assert(pair_views(out@) =~= Seq::<PairV>::empty());
        let size: usize = fields.len();
        let mut i: usize = 0;
        while i < size && size - i > 1
            invariant
                i <= size,
                size == fields@.len(),
                self.follows(*old(self)),
                goal == frame_styles(self.host(), self.pos as nat, all, i as int, pair_views(out@)),
            decreases size - i,
        {
            assert(all[i as int] == fields@[i as int]@ && all[i + 1] == fields@[i + 1]@);
            let ghost before = pair_views(out@);
            let key: String = text_of_value(&fields[i]);
            if !is_frame_key(key.as_str()) {
                let name: String = self.ask_text(Op::DashedName, list1(Value::Str(key)))?;
                let value: String = self.ask_text(Op::Display, list1(fields[i + 1].clone()))?;
                let p: Pair = Pair { name, value };
                out.push(p);
                assert(pair_views(out@) =~= before.push(p@));
            }
            i = i + 2;
        }
        Ok(out)
    }

    #[verifier::loop_isolation(false)]
    fn set_styles(&mut self, node: &Value, s: &Vec<Pair>) -> (r: Result<(), Stop>)
        requires
            old(self).wf(),
        ensures
            final(self).follows(*old(self)),
            run_plain(r, *final(self)) == set_styles(
                old(self).host(),
                old(self).pos as nat,
                node@,
                pair_views(s@),
                0,
            ),
    {
        let ghost all = pair_views(s@);
        let ghost goal = set_styles(self.host(), self.pos as nat, node@, all, 0);
        let mut i: usize = 0;
        while i < s.len()
            invariant
                i <= s@.len(),
                self.follows(*old(self)),
                goal == set_styles(self.host(), self.pos as nat, node@, all, i as int),
            decreases s@.len() - i,
        {
            assert(all[i as int] == s@[i as int]@);
            let u: Value = self.ask_value(
                Op::SetStyle,
                list3(
                    node.clone(),
                    text_value(s[i].name.as_str()),
                    text_value(s[i].value.as_str()),
                ),
            )?;
            i = i + 1;
        }
        Ok(())
    }

    fn apply_frame(&mut self, node: &Value, frame: &Value) -> (r: Result<(), Stop>)
        requires
            old(self).wf(),
        ensures
            final(self).follows(*old(self)),
            run_plain(r, *final(self)) == apply_frame(
                old(self).host(),
                old(self).pos as nat,
                node@,
                frame@,
            ),
    {
        match frame {
            Value::Ref(Kind::Obj, _) => {
                let fields: Vec<Value> = self.ask_list(Op::StoredFields, list1(frame.clone()))?;
                let s: Vec<Pair> = self.frame_styles(&fields)?;
                self.set_styles(node, &s)
            },
            _ => Ok(()),
        }
    }

    fn ended_animation(&mut self) -> (r: Result<Value, Stop>)
        requires
            old(self).wf(),
        ensures
            final(self).follows(*old(self)),
            run_value(r, *final(self)) == ended_animation(old(self).host(), old(self).pos as nat),
    {
        let none: Vec<Value> = empty_list();
        assert(views(none@) =~= Seq::empty());
        let p: Value = self.ask_value(Op::NewPromise, none)?;
        let u: Value = self.ask_value(Op::ResolvePromise, list2(p.clone(), Value::Undefined))?;
        self.ask_value(Op::NewObject, fields_of_animation(p))
    }

    /// `animate` of an element.
    pub fn element_animate(&mut self, recv: &Option<Value>, args: &Vec<Value>) -> (r: Result<Value, Stop>)
        requires
            old(self).wf(),
        ensures
            final(self).follows(*old(self)),
            run_value(r, *final(self)) == element_animate_run(
                old(self).host(),
                old(self).pos as nat,
                opt_view(*recv),
                views(args@),
            ),
    {
        let node: Value = this_or_undefined(recv);
        if !node_value(&node) {
            return Ok(Value::Undefined);
        }
        let fill: String = self.fill_of(&arg_at(args, 1))?;
        if same_text(fill.as_str(), "forwards") || same_text(fill.as_str(), "both") {
            let frame: Value = self.last_frame(&arg_at(args, 0))?;
            self.apply_frame(&node, &frame)?;
        }
        self.ended_animation()
    }

    /// `getAnimations`.
    pub fn get_animations(&mut self, recv: &Option<Value>, args: &Vec<Value>) -> (r: Result<Value, Stop>)
        requires
            old(self).wf(),
        ensures
            final(self).follows(*old(self)),
            run_value(r, *final(self)) == get_animations_run(
                old(self).host(),
                old(self).pos as nat,
                opt_view(*recv),
                views(args@),
            ),
    {
        let none: Vec<Value> = empty_list();
        assert(views(none@) =~= Seq::empty());
        self.ask_value(Op::NewArray, none)
    }

    fn support_condition(&mut self, args: &Vec<Value>) -> (r: Result<String, Stop>)
        requires
            old(self).wf(),
        ensures
            final(self).follows(*old(self)),
            run_text(r, *final(self)) == support_condition(
                old(self).host(),
                old(self).pos as nat,
                views(args@),
            ),
    {
        let a: String = self.display_arg(args, 0)?;
        if args.len() == 1 {
            if is_opened(a.as_str()) {
                return Ok(a);
            }
            let front: String = concat_text("(", a.as_str());
            return Ok(concat_text(front.as_str(), ")"));
        }
        let b: String = self.display_arg(args, 1)?;
        let front: String = concat_text("(", a.as_str());
        let middle: String = concat_text(front.as_str(), ": ");
        let back: String = concat_text(middle.as_str(), b.as_str());
        Ok(concat_text(back.as_str(), ")"))
    }

    /// `CSS.supports`.
    pub fn css_supports(&mut self, recv: &Option<Value>, args: &Vec<Value>) -> (r: Result<Value, Stop>)
        requires
            old(self).wf(),
        ensures
            final(self).follows(*old(self)),
            run_value(r, *final(self)) == css_supports_run(
                old(self).host(),
                old(self).pos as nat,
                opt_view(*recv),
                views(args@),
            ),
    {
        if args.len() == 0 {
            return Ok(Value::Bool(false));
        }
        let c: String = self.support_condition(args)?;
        let b: bool = self.ask_flag(Op::StyleSupported, list1(Value::Str(c)))?;
        Ok(Value::Bool(b))
    }

    fn coordinate_slot(&mut self, o: &Value, key: &str) -> (r: Result<Value, Stop>)
        requires
            old(self).wf(),
        ensures
            final(self).follows(*old(self)),
            run_value(r, *final(self)) == coordinate_slot(
                old(self).host(),
                old(self).pos as nat,
                o@,
                key@,
            ),
    {
        match self.ctx_slot(o, key)? {
            Some(v) => self.ask_value(Op::Single, list1(v)),
            None => Ok(Value::Num(Num::from_u64(0))),
        }
    }

    fn coordinate_arg(&mut self, args: &Vec<Value>, i: usize) -> (r: Result<Value, Stop>)
        requires
            old(self).wf(),
        ensures
            final(self).follows(*old(self)),
            run_value(r, *final(self)) == coordinate_arg(
                old(self).host(),
                old(self).pos as nat,
                views(args@),
                i as int,
            ),
    {
        if i < args.len() {
            self.ask_value(Op::Single, list1(args[i].clone()))
        } else {
            Ok(Value::Num(Num::from_u64(0)))
        }
    }

    /// `scrollTo` and `scrollBy`.
    pub fn scroll(&mut self, relative: bool, recv: &Option<Value>, args: &Vec<Value>) -> (r: Result<Value, Stop>)
        requires
            old(self).wf(),
        ensures
            final(self).follows(*old(self)),
            run_value(r, *final(self)) == scroll_run(
                old(self).host(),
                old(self).pos as nat,
                relative,
                opt_view(*recv),
                views(args@),
            ),
    {
        let o: Value = arg_at(args, 0);
        let of_object: bool = matches!(o, Value::Ref(Kind::Obj, _));
        let x: Value = if of_object {
            self.coordinate_slot(&o, "left")?
        } else {
            self.coordinate_arg(args, 0)?
        };
        let y: Value = if of_object {
            self.coordinate_slot(&o, "top")?
        } else {
            self.coordinate_arg(args, 1)?
        };
        let u: Value = self.ask_value(Op::SetScroll, list3(x, y, Value::Bool(relative)))?;
        Ok(Value::Undefined)
    }

    /// `getBoundingClientRect`.
    pub fn get_bounding_client_rect(&mut self, recv: &Option<Value>, args: &Vec<Value>) -> (r: Result<Value, Stop>)
        requires
            old(self).wf(),
        ensures
            final(self).follows(*old(self)),
            run_value(r, *final(self)) == get_bounding_client_rect_run(
                old(self).host(),
                old(self).pos as nat,
                opt_view(*recv),
                views(args@),
            ),
    {
        let v: Value = this_or_undefined(recv);
        let l: Vec<Value> = if node_value(&v) {
            self.ask_list(Op::LayoutRect, list1(v))?
        } else {
            empty_list()
        };
        if l.len() < 4 {
            let z: Value = Value::Num(Num::from_u64(0));
            self.rect_object(z.clone(), z.clone(), z.clone(), z)
        } else {
            self.rect_object(l[0].clone(), l[1].clone(), l[2].clone(), l[3].clone())
        }
    }

    fn rect_object(&mut self, x: Value, y: Value, w: Value, t: Value) -> (r: Result<Value, Stop>)
        requires
            old(self).wf(),
        ensures
            final(self).follows(*old(self)),
            run_value(r, *final(self)) == rect_object(
                old(self).host(),
                old(self).pos as nat,
                x@,
                y@,
                w@,
                t@,
            ),
    {
        let right: Value = self.ask_value(Op::Sum, list2(x.clone(), w.clone()))?;
        let bottom: Value = self.ask_value(Op::Sum, list2(y.clone(), t.clone()))?;
        let a: Vec<Value> = list4(text_value("x"), x.clone(), text_value("y"), y.clone());
        let b: Vec<Value> = list4(text_value("left"), x, text_value("top"), y);
        let c: Vec<Value> = list4(text_value("right"), right, text_value("bottom"), bottom);
        let d: Vec<Value> = list4(text_value("width"), w, text_value("height"), t);
        let all: Vec<Value> = cat(cat(cat(a, &b), &c), &d);
        assert(views(all@) =~= seq![
            Val::Str("x"@),
            x@,
            Val::Str("y"@),
            y@,
            Val::Str("left"@),
            x@,
            Val::Str("top"@),
            y@,
            Val::Str("right"@),
            right@,
            Val::Str("bottom"@),
            bottom@,
            Val::Str("width"@),
            w@,
            Val::Str("height"@),
            t@,
        ]);
        self.ask_value(Op::NewObject, all)
    }

    /// `location.href`.
    pub fn location_href(&mut self, recv: &Option<Value>, args: &Vec<Value>) -> (r: Result<Value, Stop>)
        requires
            old(self).wf(),
        ensures
            final(self).follows(*old(self)),
            run_value(r, *final(self)) == location_href_run(
                old(self).host(),
                old(self).pos as nat,
                opt_view(*recv),
                views(args@),
            ),
    {
        match recv {
            Some(v) => self.member_get(v, "\0href"),
            None => {
                let none: Vec<Value> = empty_list();
                assert(views(none@) =~= Seq::empty());
                let s: String = self.ask_text(Op::BaseUrl, none)?;
                Ok(Value::Str(s))
            },
        }
    }

    /// Setting `location.href`, and `location.assign`.
    pub fn location_assign(&mut self, recv: &Option<Value>, args: &Vec<Value>) -> (r: Result<Value, Stop>)
        requires
            old(self).wf(),
        ensures
            final(self).follows(*old(self)),
            run_value(r, *final(self)) == location_assign_run(
                old(self).host(),
                old(self).pos as nat,
                opt_view(*recv),
                views(args@),
            ),
    {
        let target: String = self.display_arg(args, 0)?;
        if is_blank(target.as_str()) {
            return Ok(Value::Undefined);
        }
        let url: String = self.ask_text(Op::AbsoluteUrl, list1(Value::Str(target)))?;
        let u: Value = self.ask_value(Op::Navigate, list1(Value::Str(url)))?;
        Ok(Value::Undefined)
    }

    /// `location.reload`.
    pub fn location_reload(&mut self, recv: &Option<Value>, args: &Vec<Value>) -> (r: Result<Value, Stop>)
        requires
            old(self).wf(),
        ensures
            final(self).follows(*old(self)),
            run_value(r, *final(self)) == location_reload_run(
                old(self).host(),
                old(self).pos as nat,
                opt_view(*recv),
                views(args@),
            ),
    {
        let none: Vec<Value> = empty_list();
        assert(views(none@) =~= Seq::empty());

        let url: Value = self.ask_value(Op::BaseUrl, none)?;
        let u: Value = self.ask_value(Op::Navigate, list1(url))?;
        Ok(Value::Undefined)
    }

    fn longer(&mut self, history: &Value) -> (r: Result<(), Stop>)
        requires
            old(self).wf(),
        ensures
            final(self).follows(*old(self)),
            run_plain(r, *final(self)) == longer(
                old(self).host(),
                old(self).pos as nat,
                history@,
            ),
    {
        let n: Num = match self.ctx_slot(history, "length")? {
            Some(v) => self.ask_number(Op::PlainNumber, list1(v))?,
            None => Num::from_u64(1),
        };
        let m: Value = self.ask_value(Op::PlusOne, list1(Value::Num(n)))?;
        self.ctx_store(history, "length", m)
    }

    fn note_state(&mut self, history: &Value, pushes: bool, state: Value) -> (r: Result<Value, Stop>)
        requires
            old(self).wf(),
        ensures
            final(self).follows(*old(self)),
            run_value(r, *final(self)) == note_state(
                old(self).host(),
                old(self).pos as nat,
                history@,
                pushes,
                state@,
            ),
    {
        self.ctx_store(history, "state", state)?;
        if pushes {
            self.longer(history)?;
        }
        Ok(Value::Undefined)
    }

    /// `history.pushState` and `history.replaceState`.
    pub fn history_state(&mut self, pushes: bool, recv: &Option<Value>, args: &Vec<Value>) -> (r: Result<Value, Stop>)
        requires
            old(self).wf(),
        ensures
            final(self).follows(*old(self)),
            run_value(r, *final(self)) == history_state_run(
                old(self).host(),
                old(self).pos as nat,
                pushes,
                opt_view(*recv),
                views(args@),
            ),
    {
        let state: Value = if args.len() > 0 {
            args[0].clone()
        } else {
            Value::Null
        };
        let url: String = self.display_arg(args, 2)?;
        if chars_of(url.as_str()).len() > 0 {
            let u: Value = self.ask_value(Op::UpdateLocation, list1(Value::Str(url)))?;
        }
        let history: Value = self.ask_value(Op::GlobalValue, list1(text_value("history")))?;
        match &history {
            Value::Ref(Kind::Obj, _) => self.note_state(&history, pushes, state),
            _ => Ok(Value::Undefined),
        }
    }

    /// `matchMedia`.
    pub fn match_media(&mut self, recv: &Option<Value>, args: &Vec<Value>) -> (r: Result<Value, Stop>)
        requires
            old(self).wf(),
        ensures
            final(self).follows(*old(self)),
            run_value(r, *final(self)) == match_media_run(
                old(self).host(),
                old(self).pos as nat,
                opt_view(*recv),
                views(args@),
            ),
    {
        let q: String = self.display_arg(args, 0)?;
        let m: bool = self.ask_flag(Op::MediaMatches, list1(text_value(q.as_str())))?;
        self.ask_value(Op::NewObject, fields_of_media(q, m))
    }

    /// `document.cookie`.
    pub fn cookie_get(&mut self, recv: &Option<Value>, args: &Vec<Value>) -> (r: Result<Value, Stop>)
        requires
            old(self).wf(),
        ensures
            final(self).follows(*old(self)),
            run_value(r, *final(self)) == cookie_get_run(
                old(self).host(),
                old(self).pos as nat,
                opt_view(*recv),
                views(args@),
            ),
    {
        let none: Vec<Value> = empty_list();
        assert(views(none@) =~= Seq::empty());

        let s: String = self.ask_text(Op::Cookies, none)?;
        Ok(Value::Str(s))
    }

    /// Setting `document.cookie`.
    pub fn cookie_set(&mut self, recv: &Option<Value>, args: &Vec<Value>) -> (r: Result<Value, Stop>)
        requires
            old(self).wf(),
        ensures
            final(self).follows(*old(self)),
            run_value(r, *final(self)) == cookie_set_run(
                old(self).host(),
                old(self).pos as nat,
                opt_view(*recv),
                views(args@),
            ),
    {
        let s: String = self.display_arg(args, 0)?;
        let u: Value = self.ask_value(Op::StoreCookie, list1(Value::Str(s)))?;
        Ok(Value::Undefined)
    }

    /// `getPropertyValue` of a computed style.
    pub fn computed_get_property(&mut self, recv: &Option<Value>, args: &Vec<Value>) -> (r: Result<Value, Stop>)
        requires
            old(self).wf(),
        ensures
            final(self).follows(*old(self)),
            run_value(r, *final(self)) == computed_get_property_run(
                old(self).host(),
                old(self).pos as nat,
                opt_view(*recv),
                views(args@),
            ),
    {
        let name: String = self.display_arg(args, 0)?;
        let v: Value = this_or_undefined(recv);
        if !matches!(v, Value::Ref(Kind::ComputedStyle, _)) {
            return Ok(Value::Str(no_text()));
        }
        let s: String = self.ask_text(Op::ComputedProperty, list2(v, Value::Str(name)))?;
        Ok(Value::Str(s))
    }

    /// Binds a class to an element.
    pub fn bind_element_class(&mut self, recv: &Option<Value>, args: &Vec<Value>) -> (r: Result<Value, Stop>)
        requires
            old(self).wf(),
        ensures
            final(self).follows(*old(self)),
            run_value(r, *final(self)) == bind_element_class_run(
                old(self).host(),
                old(self).pos as nat,
                opt_view(*recv),
                views(args@),
            ),
    {
        if args.len() > 1 && node_value(&args[0]) {
            let u: Value = self.ask_value(Op::BindClass, list2(args[0].clone(), args[1].clone()))?;
        }
        Ok(Value::Undefined)
    }

    /// `document.styleSheets`.
    pub fn style_sheets(&mut self, recv: &Option<Value>, args: &Vec<Value>) -> (r: Result<Value, Stop>)
        requires
            old(self).wf(),
        ensures
            final(self).follows(*old(self)),
            run_value(r, *final(self)) == style_sheets_run(
                old(self).host(),
                old(self).pos as nat,
                opt_view(*recv),
                views(args@),
            ),
    {
        let none: Vec<Value> = empty_list();
        assert(views(none@) =~= Seq::empty());

        let l: Vec<Value> = self.ask_list(Op::StyleSheetList, none)?;
        let a: Value = self.ask_value(Op::NewArray, l)?;
        self.ctx_store(&a, "item", Value::Native(Native::ListItem))?;
        Ok(a)
    }

    fn place_arg_num(&mut self, args: &Vec<Value>, i: usize) -> (r: Result<Value, Stop>)
        requires
            old(self).wf(),
        ensures
            final(self).follows(*old(self)),
            run_value(r, *final(self)) == place_arg_num(
                old(self).host(),
                old(self).pos as nat,
                views(args@),
                i as int,
            ),
    {
        if i < args.len() {
            let n: Num = self.ask_number(Op::DelayOf, list1(args[i].clone()))?;
            Ok(Value::Num(index_number(num_to_count(n))))
        } else {
            Ok(Value::Num(Num::from_u64(0)))
        }
    }

    /// `insertRule` of a style sheet.
    pub fn sheet_insert_rule(&mut self, recv: &Option<Value>, args: &Vec<Value>) -> (r: Result<Value, Stop>)
        requires
            old(self).wf(),
        ensures
            final(self).follows(*old(self)),
            run_value(r, *final(self)) == sheet_insert_rule_run(
                old(self).host(),
                old(self).pos as nat,
                opt_view(*recv),
                views(args@),
            ),
    {
        let v: Value = this_or_undefined(recv);
        if !matches!(v, Value::Ref(Kind::Sheet, _)) {
            return Ok(Value::Num(Num::from_u64(0)));
        }

        let text: String = self.display_arg(args, 0)?;
        let at: Value = self.place_arg_num(args, 1)?;
        self.ask_value(Op::InsertRule, list3(v, Value::Str(text), at))
    }

    /// `deleteRule` of a style sheet.
    pub fn sheet_delete_rule(&mut self, recv: &Option<Value>, args: &Vec<Value>) -> (r: Result<Value, Stop>)
        requires
            old(self).wf(),
        ensures
            final(self).follows(*old(self)),
            run_value(r, *final(self)) == sheet_delete_rule_run(
                old(self).host(),
                old(self).pos as nat,
                opt_view(*recv),
                views(args@),
            ),
    {
        let v: Value = this_or_undefined(recv);
        if !matches!(v, Value::Ref(Kind::Sheet, _)) {
            return Ok(Value::Undefined);
        }

        let at: Value = self.place_arg_num(args, 0)?;
        self.ask_value(Op::DeleteRule, list2(v, at))
    }

    /// `getPropertyValue` of a rule's style.
    pub fn rule_style_get(&mut self, recv: &Option<Value>, args: &Vec<Value>) -> (r: Result<Value, Stop>)
        requires
            old(self).wf(),
        ensures
            final(self).follows(*old(self)),
            run_value(r, *final(self)) == rule_style_get_run(
                old(self).host(),
                old(self).pos as nat,
                opt_view(*recv),
                views(args@),
            ),
    {
        let v: Value = this_or_undefined(recv);
        if !matches!(v, Value::Ref(Kind::RuleStyle, _)) {
            return Ok(Value::Str(no_text()));
        }

        let name: String = self.display_arg(args, 0)?;
        let s: String = self.ask_text(Op::RuleProperty, list2(v, Value::Str(name)))?;
        Ok(Value::Str(s))
    }

    /// `item` of a rule's style.
    pub fn rule_style_item(&mut self, recv: &Option<Value>, args: &Vec<Value>) -> (r: Result<Value, Stop>)
        requires
            old(self).wf(),
        ensures
            final(self).follows(*old(self)),
            run_value(r, *final(self)) == rule_style_item_run(
                old(self).host(),
                old(self).pos as nat,
                opt_view(*recv),
                views(args@),
            ),
    {
        let v: Value = this_or_undefined(recv);
        if !matches!(v, Value::Ref(Kind::RuleStyle, _)) {
            return Ok(Value::Str(no_text()));
        }

        let n: Num = if args.len() > 0 {
            self.ask_number(Op::PlainNumber, list1(args[0].clone()))?
        } else {
            index_number(0)
        };
        let key: String = decimal_text(num_to_count(n));
        self.ask_value(Op::RuleItem, list2(v, Value::Str(key)))
    }

    /// `setProperty` of a rule's style.
    pub fn rule_style_set(&mut self, recv: &Option<Value>, args: &Vec<Value>) -> (r: Result<Value, Stop>)
        requires
            old(self).wf(),
        ensures
            final(self).follows(*old(self)),
            run_value(r, *final(self)) == rule_style_set_run(
                old(self).host(),
                old(self).pos as nat,
                opt_view(*recv),
                views(args@),
            ),
    {
        let v: Value = this_or_undefined(recv);
        if !matches!(v, Value::Ref(Kind::RuleStyle, _)) {
            return Ok(Value::Undefined);
        }

        let name: String = self.display_arg(args, 0)?;
        let value: String = self.display_arg(args, 1)?;
        let u: Value = self.ask_value(
            Op::SetRuleProperty,
            list3(v, Value::Str(name), Value::Str(value)),
        )?;
        Ok(Value::Undefined)
    }

    /// `removeProperty` of a rule's style.
    pub fn rule_style_remove(&mut self, recv: &Option<Value>, args: &Vec<Value>) -> (r: Result<Value, Stop>)
        requires
            old(self).wf(),
        ensures
            final(self).follows(*old(self)),
            run_value(r, *final(self)) == rule_style_remove_run(
                old(self).host(),
                old(self).pos as nat,
                opt_view(*recv),
                views(args@),
            ),
    {
        let v: Value = this_or_undefined(recv);
        if !matches!(v, Value::Ref(Kind::RuleStyle, _)) {
            return Ok(Value::Str(no_text()));
        }

        let name: String = self.display_arg(args, 0)?;
        let before: String = self.ask_text(
            Op::RuleProperty,
            list2(v.clone(), text_value(name.as_str())),
        )?;
        let u: Value = self.ask_value(
            Op::SetRuleProperty,
            list3(v, Value::Str(name), Value::Str(no_text())),
        )?;
        Ok(Value::Str(before))
    }

    /// `setProperty` of an element's style.
    pub fn style_set_property(&mut self, recv: &Option<Value>, args: &Vec<Value>) -> (r: Result<Value, Stop>)
        requires
            old(self).wf(),
        ensures
            final(self).follows(*old(self)),
            run_value(r, *final(self)) == style_set_property_run(
                old(self).host(),
                old(self).pos as nat,
                opt_view(*recv),
                views(args@),
            ),
    {
        let v: Value = this_or_undefined(recv);
        if !matches!(v, Value::Ref(Kind::Style, _)) {
            return Ok(Value::Undefined);
        }

        let name: String = self.display_arg(args, 0)?;
        let value: String = self.display_arg(args, 1)?;
        let u: Value = self.ask_value(Op::SetStyle, list3(v, Value::Str(name), Value::Str(value)))?;
        Ok(Value::Undefined)
    }

    /// `getPropertyValue` of an element's style.
    pub fn style_get_property(&mut self, recv: &Option<Value>, args: &Vec<Value>) -> (r: Result<Value, Stop>)
        requires
            old(self).wf(),
        ensures
            final(self).follows(*old(self)),
            run_value(r, *final(self)) == style_get_property_run(
                old(self).host(),
                old(self).pos as nat,
                opt_view(*recv),
                views(args@),
            ),
    {
        let v: Value = this_or_undefined(recv);
        if !matches!(v, Value::Ref(Kind::Style, _)) {
            return Ok(Value::Str(no_text()));
        }

        let name: String = self.display_arg(args, 0)?;
        let s: String = self.ask_text(Op::StyleText, list2(v, Value::Str(name)))?;
        Ok(Value::Str(s))
    }

    /// `removeProperty` of an element's style.
    pub fn style_remove_property(&mut self, recv: &Option<Value>, args: &Vec<Value>) -> (r: Result<Value, Stop>)
        requires
            old(self).wf(),
        ensures
            final(self).follows(*old(self)),
            run_value(r, *final(self)) == style_remove_property_run(
                old(self).host(),
                old(self).pos as nat,
                opt_view(*recv),
                views(args@),
            ),
    {
        let v: Value = this_or_undefined(recv);
        if !matches!(v, Value::Ref(Kind::Style, _)) {
            return Ok(Value::Undefined);
        }

        let name: String = self.display_arg(args, 0)?;
        let u: Value = self.ask_value(Op::SetStyle, list3(v, Value::Str(name), Value::Str(no_text())))?;
        Ok(Value::Undefined)
    }

    /// `getNamedItem` of the attributes of an element.
    pub fn get_named_item(&mut self, recv: &Option<Value>, args: &Vec<Value>) -> (r: Result<Value, Stop>)
        requires
            old(self).wf(),
        ensures
            final(self).follows(*old(self)),
            run_value(r, *final(self)) == get_named_item_run(
                old(self).host(),
                old(self).pos as nat,
                opt_view(*recv),
                views(args@),
            ),
    {
        let name: String = self.display_arg(args, 0)?;
        let v: Value = this_or_undefined(recv);
        if !matches!(v, Value::Ref(Kind::Arr, _)) {
            return Ok(Value::Null);
        }
        let s: Option<Value> = self.ask_slot(Op::ArrayProperty, list2(v, Value::Str(name)))?;
        Ok(null_if_none(s))
    }

    fn socket_of(&mut self, v: &Value) -> (r: Result<Option<u64>, Stop>)
        requires
            old(self).wf(),
        ensures
            final(self).follows(*old(self)),
            run_plain(r, *final(self)) == socket_of(
                old(self).host(),
                old(self).pos as nat,
                v@,
            ),
    {
        match self.plain_slot(v, "\0sock")? {
            Some(Value::Num(n)) => {
                let i: u64 = num_to_count(n);
                if self.ask_flag(Op::HasSocket, list1(Value::Num(index_number(i))))? {
                    Ok(Some(i))
                } else {
                    Ok(None)
                }
            },
            _ => Ok(None),
        }
    }

    fn send_data(&mut self, socket: u64, data: &Value) -> (r: Result<Value, Stop>)
        requires
            old(self).wf(),
        ensures
            final(self).follows(*old(self)),
            run_value(r, *final(self)) == send_data(
                old(self).host(),
                old(self).pos as nat,
                socket,
                data@,
            ),
    {
        let at: Value = Value::Num(index_number(socket));
        match data {
            Value::Ref(Kind::Arr, _) => {
                let l: Vec<Value> = self.ask_list(Op::Elements, list1(data.clone()))?;
                let bytes: Vec<u8> = bytes_of(Some(&l));
                let u: Value = self.ask_value(Op::SendBytes, cat(list1(at), &values_of_bytes(&bytes)))?;
                Ok(Value::Undefined)
            },
            _ => {
                let s: String = self.ask_text(Op::Display, list1(data.clone()))?;
                let u: Value = self.ask_value(Op::SendText, list2(at, Value::Str(s)))?;
                Ok(Value::Undefined)
            },
        }
    }

    /// `send` of a socket.
    pub fn ws_send(&mut self, recv: &Option<Value>, args: &Vec<Value>) -> (r: Result<Value, Stop>)
        requires
            old(self).wf(),
        ensures
            final(self).follows(*old(self)),
            run_value(r, *final(self)) == ws_send_run(
                old(self).host(),
                old(self).pos as nat,
                opt_view(*recv),
                views(args@),
            ),
    {
        match self.socket_of(&this_or_undefined(recv))? {
            None => Err(fail(ErrorKind::Error, "WebSocket 이 연결돼 있지 않다")),
            Some(i) => self.send_data(i, &arg_at(args, 0)),
        }
    }

    /// `close` of a socket.
    pub fn ws_close(&mut self, recv: &Option<Value>, args: &Vec<Value>) -> (r: Result<Value, Stop>)
        requires
            old(self).wf(),
        ensures
            final(self).follows(*old(self)),
            run_value(r, *final(self)) == ws_close_run(
                old(self).host(),
                old(self).pos as nat,
                opt_view(*recv),
                views(args@),
            ),
    {
        let v: Value = this_or_undefined(recv);
        if !matches!(v, Value::Ref(Kind::Obj, _)) {
            return Ok(Value::Undefined);
        }

        match self.socket_of(&v)? {
            Some(i) => {
                let u: Value = self.ask_value(Op::CloseSocket, list1(Value::Num(index_number(i))))?;
            },
            None => {},
        }
        self.ctx_store(&v, "readyState", Value::Num(Num::from_u64(3)))?;
        Ok(Value::Undefined)
    }

    /// `scrollIntoView`.
    pub fn scroll_into_view(&mut self, recv: &Option<Value>, args: &Vec<Value>) -> (r: Result<Value, Stop>)
        requires
            old(self).wf(),
        ensures
            final(self).follows(*old(self)),
            run_value(r, *final(self)) == scroll_into_view_run(
                old(self).host(),
                old(self).pos as nat,
                opt_view(*recv),
                views(args@),
            ),
    {
        let v: Value = this_or_undefined(recv);
        if !node_value(&v) {
            return Ok(Value::Undefined);
        }
        let l: Vec<Value> = self.ask_list(Op::LayoutRect, list1(v))?;
        if l.len() >= 4 {
            assert(views(l@)[1] == l@[1]@);
            let u: Value = self.ask_value(
                Op::SetScroll,
                list3(Value::Undefined, l[1].clone(), Value::Bool(false)),
            )?;
        }
        Ok(Value::Undefined)
    }

    /// `getContext` of a canvas.
    pub fn canvas_get_context(&mut self, recv: &Option<Value>, args: &Vec<Value>) -> (r: Result<Value, Stop>)
        requires
            old(self).wf(),
        ensures
            final(self).follows(*old(self)),
            run_value(r, *final(self)) == canvas_get_context_run(
                old(self).host(),
                old(self).pos as nat,
                opt_view(*recv),
                views(args@),
            ),
    {
        let v: Value = this_or_undefined(recv);
        match &v {
            Value::Ref(Kind::Dom, id) => {
                let u: Value = self.ask_value(Op::OpenCanvas, list1(v.clone()))?;
                let ctm: Value = self.ask_value(Op::NewArray, unit_transform())?;
                let none: Vec<Value> = empty_list();
                assert(views(none@) =~= Seq::empty());
                let path: Value = self.ask_value(Op::NewArray, none)?;
                let settings: Vec<Value> = settings_of_context(
                    Value::Num(index_number(*id)),
                    v.clone(),
                    ctm,
                    path,
                );
                self.ask_value(Op::NewObject, cat(settings, &methods_of_context()))
            },
            _ => Ok(Value::Null),
        }
    }
}

fn no_text() -> (r: String)
    ensures
        r@ == Seq::<char>::empty(),
{
    let s: String = String::new();
    assert(s@ =~= Seq::<char>::empty());
    s
}

fn is_frame_key(key: &str) -> (r: bool)
    ensures
        r == frame_key(key@),
{
    same_text(key, "offset") || same_text(key, "easing") || same_text(key, "composite")
        || is_internal_key(key)
}

fn put_field(out: &mut Vec<Value>, name: &str, v: Value)
    ensures
        views(final(out)@) == views(old(out)@) + seq![Val::Str(name@), v@],
{
    let ghost before = views(out@);
    out.push(text_value(name));
    out.push(v);
    assert(views(out@) =~= before + seq![Val::Str(name@), v@]);
}

fn fields_of_animation(finished: Value) -> (r: Vec<Value>)
    ensures
        views(r@) == animation_fields(finished@),
{
    let mut out: Vec<Value> = empty_list();
    put_field(&mut out, "finished", finished.clone());
    put_field(&mut out, "ready", finished);
    put_field(&mut out, "playState", text_value("finished"));
    put_field(&mut out, "currentTime", Value::Num(Num::from_u64(0)));
    put_field(&mut out, "play", Value::Native(Native::Noop));
    put_field(&mut out, "pause", Value::Native(Native::Noop));
    put_field(&mut out, "cancel", Value::Native(Native::Noop));
    put_field(&mut out, "finish", Value::Native(Native::Noop));
    put_field(&mut out, "reverse", Value::Native(Native::Noop));
    put_field(&mut out, "addEventListener", Value::Native(Native::Noop));
    put_field(&mut out, "removeEventListener", Value::Native(Native::Noop));

    assert(views(out@) =~= animation_fields(finished@));
    out
}

fn fields_of_media(q: String, m: bool) -> (r: Vec<Value>)
    ensures
        views(r@) == media_fields(q@, m),
{
    let mut out: Vec<Value> = empty_list();
    put_field(&mut out, "matches", Value::Bool(m));
    put_field(&mut out, "media", Value::Str(q));
    put_field(&mut out, "onchange", Value::Null);
    put_field(&mut out, "addListener", Value::Native(Native::Noop));
    put_field(&mut out, "removeListener", Value::Native(Native::Noop));
    put_field(&mut out, "addEventListener", Value::Native(Native::Noop));
    put_field(&mut out, "removeEventListener", Value::Native(Native::Noop));
    put_field(&mut out, "dispatchEvent", Value::Native(Native::Noop));

    assert(views(out@) =~= media_fields(q@, m));
    out
}

fn is_opened(s: &str) -> (r: bool)
    ensures
        r == opens(s@),
{
    let cs: Vec<char> = chars_of(s);
    let mut i: usize = 0;
    assert(s@.skip(0) =~= s@);
    while i < cs.len()
        invariant
            i <= cs@.len(),
            cs@ == s@,
            opens(s@) == opens(s@.skip(i as int)),
        decreases cs@.len() - i,
    {
        assert(s@.skip(i as int)[0] == cs@[i as int]);
        assert(s@.skip(i as int).skip(1) =~= s@.skip(i + 1));
        if !is_unicode_space(cs[i]) {
            return cs[i] == '(';
        }
        i = i + 1;
    }
    false
}

pub fn values_of_bytes(b: &Vec<u8>) -> (r: Vec<Value>)
    ensures
        views(r@) == bytes_as_values(b@),
{
    let mut out: Vec<Value> = empty_list();
    let mut i: usize = 0;
    assert(views(out@) =~= bytes_as_values(b@).take(0));
    while i < b.len()
        invariant
            i <= b@.len(),
            views(out@) == bytes_as_values(b@).take(i as int),
        decreases b@.len() - i,
    {
        let ghost before = views(out@);
        out.push(Value::Num(Num::from_u64(b[i] as u64)));
        assert(views(out@) =~= before.push(bytes_as_values(b@)[i as int]));
        i = i + 1;
        assert(views(out@) =~= bytes_as_values(b@).take(i as int));
    }
    assert(bytes_as_values(b@).take(i as int) =~= bytes_as_values(b@));
    out
}

fn unit_transform() -> (r: Vec<Value>)
    ensures
        views(r@) == seq![
            int_val(1),
            int_val(0),
            int_val(0),
            int_val(1),
            int_val(0),
            int_val(0),
        ],
{
    let one: Value = Value::Num(Num::from_u64(1));
    let zero: Value = Value::Num(Num::from_u64(0));
    let front: Vec<Value> = list4(one.clone(), zero.clone(), zero.clone(), one);
    let out: Vec<Value> = cat(front, &list2(zero.clone(), zero));
    assert(views(out@) =~= seq![
        int_val(1),
        int_val(0),
        int_val(0),
        int_val(1),
        int_val(0),
        int_val(0),
    ]);
    out
}

fn settings_of_context(id: Value, node: Value, ctm: Value, path: Value) -> (r: Vec<Value>)
    ensures
        views(r@) == context_settings(id@, node@, ctm@, path@),
{
    let mut out: Vec<Value> = empty_list();
    put_field(&mut out, "\0canvas", id);
    put_field(&mut out, "fillStyle", text_value("#000000"));
    put_field(&mut out, "strokeStyle", text_value("#000000"));
    put_field(&mut out, "lineWidth", Value::Num(Num::from_u64(1)));
    put_field(&mut out, "font", text_value("10px sans-serif"));
    put_field(&mut out, "globalAlpha", Value::Num(Num::from_u64(1)));
    put_field(&mut out, "textAlign", text_value("start"));
    put_field(&mut out, "textBaseline", text_value("alphabetic"));
    put_field(&mut out, "lineCap", text_value("butt"));
    put_field(&mut out, "lineJoin", text_value("miter"));
    put_field(&mut out, "globalCompositeOperation", text_value("source-over"));
    put_field(&mut out, "shadowBlur", Value::Num(Num::from_u64(0)));
    put_field(&mut out, "shadowColor", text_value("rgba(0,0,0,0)"));
    put_field(&mut out, "shadowOffsetX", Value::Num(Num::from_u64(0)));
    put_field(&mut out, "shadowOffsetY", Value::Num(Num::from_u64(0)));
    put_field(&mut out, "miterLimit", Value::Num(Num::from_u64(10)));
    put_field(&mut out, "canvas", node);
    put_field(&mut out, "\0ctm", ctm);
    put_field(&mut out, "\0path", path);

    assert(views(out@) =~= context_settings(id@, node@, ctm@, path@));
    out
}

fn methods_of_context_1() -> (r: Vec<Value>)
    ensures
        views(r@) == context_methods_1(),
{
    let mut out: Vec<Value> = empty_list();
    put_field(&mut out, "fillRect", Value::Native(Native::Canvas(CanvasMethod::FillRect)));
    put_field(&mut out, "clearRect", Value::Native(Native::Canvas(CanvasMethod::ClearRect)));
    put_field(&mut out, "strokeRect", Value::Native(Native::Canvas(CanvasMethod::StrokeRect)));
    put_field(&mut out, "beginPath", Value::Native(Native::Canvas(CanvasMethod::BeginPath)));
    put_field(&mut out, "moveTo", Value::Native(Native::Canvas(CanvasMethod::MoveTo)));
    put_field(&mut out, "lineTo", Value::Native(Native::Canvas(CanvasMethod::LineTo)));
    put_field(&mut out, "arc", Value::Native(Native::Canvas(CanvasMethod::Arc)));
    put_field(&mut out, "rect", Value::Native(Native::Canvas(CanvasMethod::Rect)));
    put_field(&mut out, "closePath", Value::Native(Native::Canvas(CanvasMethod::ClosePath)));

    assert(views(out@) =~= context_methods_1());
    out
}

fn methods_of_context_2() -> (r: Vec<Value>)
    ensures
        views(r@) == context_methods_2(),
{
    let mut out: Vec<Value> = empty_list();
    put_field(&mut out, "fill", Value::Native(Native::Canvas(CanvasMethod::Fill)));
    put_field(&mut out, "stroke", Value::Native(Native::Canvas(CanvasMethod::Stroke)));
    put_field(&mut out, "fillText", Value::Native(Native::Canvas(CanvasMethod::FillText)));
    put_field(&mut out, "strokeText", Value::Native(Native::Canvas(CanvasMethod::FillText)));
    put_field(&mut out, "save", Value::Native(Native::Canvas(CanvasMethod::Save)));
    put_field(&mut out, "restore", Value::Native(Native::Canvas(CanvasMethod::Restore)));
    put_field(&mut out, "scale", Value::Native(Native::Canvas(CanvasMethod::Scale)));
    put_field(&mut out, "translate", Value::Native(Native::Canvas(CanvasMethod::Translate)));
    put_field(&mut out, "rotate", Value::Native(Native::Canvas(CanvasMethod::Rotate)));

    assert(views(out@) =~= context_methods_2());
    out
}

fn methods_of_context_3() -> (r: Vec<Value>)
    ensures
        views(r@) == context_methods_3(),
{
    let mut out: Vec<Value> = empty_list();
    put_field(&mut out, "transform", Value::Native(Native::Canvas(CanvasMethod::Transform)));
    put_field(&mut out, "setTransform", Value::Native(Native::Canvas(CanvasMethod::SetTransform)));
    put_field(&mut out, "resetTransform", Value::Native(Native::Canvas(CanvasMethod::ResetTransform)));
    put_field(&mut out, "measureText", Value::Native(Native::Canvas(CanvasMethod::MeasureText)));
    put_field(&mut out, "drawImage", Value::Native(Native::Canvas(CanvasMethod::DrawImage)));
    put_field(&mut out, "ellipse", Value::Native(Native::Canvas(CanvasMethod::Ellipse)));
    put_field(&mut out, "roundRect", Value::Native(Native::Canvas(CanvasMethod::RoundRect)));
    put_field(&mut out, "setLineDash", Value::Native(Native::Canvas(CanvasMethod::Noop)));
    put_field(&mut out, "clip", Value::Native(Native::Canvas(CanvasMethod::Clip)));

    assert(views(out@) =~= context_methods_3());
    out
}

fn methods_of_context_4() -> (r: Vec<Value>)
    ensures
        views(r@) == context_methods_4(),
{
    let mut out: Vec<Value> = empty_list();
    put_field(&mut out, "createLinearGradient", Value::Native(Native::Canvas(CanvasMethod::CreateLinearGradient)));
    put_field(&mut out, "createRadialGradient", Value::Native(Native::Canvas(CanvasMethod::CreateRadialGradient)));
    put_field(&mut out, "createPattern", Value::Native(Native::Canvas(CanvasMethod::CreatePattern)));
    put_field(&mut out, "bezierCurveTo", Value::Native(Native::Canvas(CanvasMethod::BezierCurveTo)));
    put_field(&mut out, "quadraticCurveTo", Value::Native(Native::Canvas(CanvasMethod::QuadraticCurveTo)));
    put_field(&mut out, "putImageData", Value::Native(Native::Canvas(CanvasMethod::PutImageData)));
    put_field(&mut out, "getImageData", Value::Native(Native::Canvas(CanvasMethod::GetImageData)));
    put_field(&mut out, "createImageData", Value::Native(Native::Canvas(CanvasMethod::CreateImageData)));

    assert(views(out@) =~= context_methods_4());
    out
}

fn methods_of_context() -> (r: Vec<Value>)
    ensures
        views(r@) == context_methods(),
{
    let mut out: Vec<Value> = methods_of_context_1();
    out = cat(out, &methods_of_context_2());
    out = cat(out, &methods_of_context_3());
    out = cat(out, &methods_of_context_4());
    out
}

/// A condition that `CSS.supports` builds is one in brackets.
pub proof fn law_condition_in_brackets(h: Host, pos: nat, args: Seq<Val>)
    requires
        args.len() > 0,
        support_condition(h, pos, args).out is Ok,
    ensures
        opens(support_condition(h, pos, args).out->Ok_0),
{
    reveal_strlit("(");
    reveal_strlit(")");
    reveal_strlit(": ");
    let d = display_arg(h, pos, args, 0);
    let a = d.out->Ok_0;
    if args.len() == 1 {
        assert(("("@ + a + ")"@)[0] == '(');
    } else {
        let b = display_arg(h, d.pos, args, 1).out->Ok_0;
        assert(("("@ + a + ": "@ + b + ")"@)[0] == '(');
    }
}

} // verus!
