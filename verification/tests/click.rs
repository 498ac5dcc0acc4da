use builtins::click::{
    checked_inputs, click_default_action, owner_form, pre_click_toggle, restore_checked, ClickAction,
};
use builtins::dom::{Dom, Element, Node, NodeKind};
use builtins::host::{Interp, Op, Reply, Stop};
use builtins::value::{Kind, Value};

fn element(tag: &str, parent: Option<usize>, children: Vec<usize>, attrs: &[(&str, &str)]) -> Node {
    let mut list = Vec::new();
    for (n, v) in attrs {
        list.push((n.to_string(), v.to_string()));
    }
    Node {
        parent,
        children,
        kind: NodeKind::Element(Element { tag: tag.to_string(), namespace: None, attrs: list }),
    }
}

// html > form > (radio a, radio a checked, radio b checked), checkbox, details > summary, a
fn page() -> Dom {
    Dom {
        nodes: vec![
            element("html", None, vec![1, 5, 6, 8, 9], &[]),
            element("form", Some(0), vec![2, 3, 4, 10], &[]),
            element("input", Some(1), vec![], &[("type", "radio"), ("name", "a")]),
            element("input", Some(1), vec![], &[("type", "RADIO"), ("name", "a"), ("checked", "")]),
            element("input", Some(1), vec![], &[("type", "radio"), ("name", "b"), ("checked", "")]),
            element("input", Some(0), vec![], &[("type", "checkbox")]),
            element("details", Some(0), vec![7], &[]),
            element("summary", Some(6), vec![], &[]),
            element("a", Some(0), vec![], &[("href", "next.html")]),
            element("a", Some(0), vec![], &[("href", "#here")]),
            element("button", Some(1), vec![], &[]),
        ],
        root: 0,
    }
}

fn checked(dom: &Dom, id: usize) -> bool {
    dom.get_attr(id, "checked").is_some()
}

#[test]
fn a_radio_click_unchecks_the_others_of_its_group() {
    let mut dom = page();
    assert!(pre_click_toggle(&mut dom, 2));
    assert!(checked(&dom, 2));
    assert!(!checked(&dom, 3));
    assert!(checked(&dom, 4));
}

#[test]
fn a_checkbox_toggles_and_toggles_back() {
    let mut dom = page();
    assert!(pre_click_toggle(&mut dom, 5));
    assert!(checked(&dom, 5));
    assert!(pre_click_toggle(&mut dom, 5));
    assert!(!checked(&dom, 5));
    assert!(!pre_click_toggle(&mut dom, 8));
}

#[test]
fn a_toggle_leaves_other_attributes() {
    let mut dom = page();
    pre_click_toggle(&mut dom, 2);
    assert_eq!(dom.get_attr(3, "type"), Some("RADIO".to_string()));
    assert_eq!(dom.get_attr(8, "href"), Some("next.html".to_string()));
}

#[test]
fn click_actions() {
    let mut dom = page();
    let r = click_default_action(&mut dom, 8);
    assert_eq!(r.len(), 1);
    assert!(matches!(&r[0], ClickAction::Navigate(s) if s == "next.html"));
    assert!(click_default_action(&mut dom, 9).is_empty());
    let r = click_default_action(&mut dom, 10);
    assert!(matches!(&r[0], ClickAction::Dispatch(1, s) if s == "submit"));
    let r = click_default_action(&mut dom, 5);
    assert!(matches!(&r[0], ClickAction::Dispatch(5, s) if s == "input"));
    assert!(matches!(&r[1], ClickAction::Dispatch(5, s) if s == "change"));
    assert_eq!(owner_form(&dom, 2), Some(1));
    assert_eq!(owner_form(&dom, 5), None);
}

#[test]
fn a_summary_opens_and_closes_its_details() {
    let mut dom = page();
    let r = click_default_action(&mut dom, 7);
    assert!(matches!(&r[0], ClickAction::Dispatch(6, s) if s == "toggle"));
    assert!(dom.get_attr(6, "open").is_some());
    click_default_action(&mut dom, 7);
    assert!(dom.get_attr(6, "open").is_none());
}

// A click on a node whose listener may cancel it: what was checked while the listener ran, and how
// often the click did something.
fn clicked(dom: &mut Dom, id: usize, cancel: bool) -> (Vec<usize>, usize) {
    let node = Value::Ref(Kind::Dom, id as u64);
    let mut seen = Vec::new();
    let mut done = 0;
    let mut replies = Vec::new();
    loop {
        let mut it = Interp::new(replies);
        match it.element_click(&Some(node.clone()), &vec![]) {
            Ok(_) => return (seen, done),
            Err(Stop::Throw(e)) => panic!("{:?}", e),
            Err(Stop::Ask(q)) => {
                replies = it.replies;
                let ids = |l: &[Value]| -> Vec<usize> {
                    l.iter().map(
                        |v| match v {
                            Value::Ref(Kind::Dom, i) => *i as usize,
                            _ => panic!("no node"),
                        },
                    ).collect()
                };
                replies.push(
                    match q.op {
                        Op::CheckedInputs => Reply::List(
                            checked_inputs(dom, id).into_iter().map(
                                |i| Value::Ref(Kind::Dom, i as u64),
                            ).collect(),
                        ),
                        Op::ToggleBeforeClick => {
                            Reply::Value(Value::Bool(pre_click_toggle(dom, id)))
                        },
                        Op::RestoreChecked => {
                            restore_checked(dom, id, &ids(&q.args[1..]));
                            Reply::Absent
                        },
                        Op::ClickDefault => {
                            done += click_default_action(dom, id).len();
                            Reply::Absent
                        },
                        Op::MakeEvent => Reply::Value(Value::Ref(Kind::Obj, 0)),
                        Op::DispatchTo => {
                            seen = all_checked(dom);
                            Reply::Absent
                        },
                        Op::OwnSlot => Reply::Value(Value::Bool(cancel)),
                        Op::StoreSlot => Reply::Absent,
                        op => panic!("not answered: {:?}", op),
                    },
                );
            },
        }
    }
}

fn all_checked(dom: &Dom) -> Vec<usize> {
    (0..dom.nodes.len()).filter(|i| checked(dom, *i)).collect()
}

#[test]
fn a_cancelled_click_leaves_what_was_checked() {
    let mut dom = page();
    assert_eq!(clicked(&mut dom, 2, true), (vec![2, 4], 0));
    assert_eq!(all_checked(&dom), [3, 4]);
    assert_eq!(clicked(&mut dom, 3, true), (vec![3, 4], 0));
    assert_eq!(all_checked(&dom), [3, 4]);
    assert_eq!(clicked(&mut dom, 5, true), (vec![3, 4, 5], 0));
    assert_eq!(all_checked(&dom), [3, 4]);
    assert_eq!(dom.get_attr(3, "name"), Some("a".to_string()));
}

#[test]
fn a_click_that_is_not_cancelled_stays() {
    let mut dom = page();
    assert_eq!(clicked(&mut dom, 2, false), (vec![2, 4], 2));
    assert_eq!(all_checked(&dom), [2, 4]);
}
