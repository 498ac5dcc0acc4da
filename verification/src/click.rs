//! What a click on an element does: radio groups and checkboxes, links, buttons of forms, and
//! `details`.
use crate::dom::{
    attr, attr_removed, attr_set, attrs_of, law_attributes, lemma_subtree_in_range, preorder,
    preorder_all, subtree, tag_is, with_attrs, Dom, NodeId, NodeV,
};
use crate::text::{ascii_lower, blank, chars_of, is_blank, same_text, to_ascii_lower};
use vstd::prelude::*;

verus! {

/// The text, or the empty one.
pub open spec fn text_or_empty(s: Option<Seq<char>>) -> Seq<char> {
    match s {
        Some(t) => t,
        None => Seq::empty(),
    }
}

fn or_empty(s: Option<String>) -> (r: String)
    ensures
        r@ == text_or_empty(crate::value::opt_text(s)),
{
    match s {
        Some(t) => t,
        None => {
            let t: String = String::new();
            assert(t@ =~= Seq::<char>::empty());
            t
        },
    }
}

/// The `type` of an element in lower case; empty where it has none.
pub open spec fn type_of(d: Seq<NodeV>, id: NodeId) -> Seq<char> {
    match attr(d, id, "type"@) {
        Some(t) => ascii_lower(t),
        None => Seq::empty(),
    }
}

/// The `name` of an element; empty where it has none.
pub open spec fn name_of(d: Seq<NodeV>, id: NodeId) -> Seq<char> {
    text_or_empty(attr(d, id, "name"@))
}

fn element_type(dom: &Dom, id: NodeId) -> (r: String)
    requires
        id < dom.tree().len(),
    ensures
        r@ == type_of(dom.tree(), id),
{
    match dom.get_attr(id, "type") {
        Some(t) => to_ascii_lower(t.as_str()),
        None => {
            let t: String = String::new();
            assert(t@ =~= Seq::<char>::empty());
            t
        },
    }
}

/// A radio button of this name.
pub open spec fn is_radio(d: Seq<NodeV>, id: NodeId, name: Seq<char>) -> bool {
    &&& tag_is(d, id, "input"@)
    &&& attr(d, id, "type"@) is Some
    &&& type_of(d, id) == "radio"@
    &&& name_of(d, id) == name
}

/// The radio buttons of this name among some nodes, in order.
pub open spec fn radios(d: Seq<NodeV>, ids: Seq<NodeId>, name: Seq<char>) -> Seq<NodeId>
    decreases ids.len(),
{
    if ids.len() == 0 {
        Seq::empty()
    } else if is_radio(d, ids.last(), name) {
        radios(d, ids.drop_last(), name).push(ids.last())
    } else {
        radios(d, ids.drop_last(), name)
    }
}

fn is_radio_named(dom: &Dom, id: NodeId, name: &str) -> (r: bool)
    requires
        id < dom.tree().len(),
    ensures
        r == is_radio(dom.tree(), id, name@),
{
    if !dom.has_tag(id, "input") {
        return false;
    }
    let radio: bool = match dom.get_attr(id, "type") {
        Some(t) => same_text(to_ascii_lower(t.as_str()).as_str(), "radio"),
        None => false,
    };
    let own: String = or_empty(dom.get_attr(id, "name"));
    radio && same_text(own.as_str(), name)
}

/// Appends the radio buttons of this name in the subtree to `out`, in document order.
pub fn collect_radio_peers(dom: &Dom, id: NodeId, name: &str, out: &mut Vec<NodeId>)
    requires
        dom.wf(),
        id < dom.tree().len(),
    ensures
        final(out)@ == old(out)@ + radios(dom.tree(), subtree(dom.tree(), id), name@),
{
    let all: Vec<NodeId> = dom.walk(id);
    let ghost before = out@;
    proof {
        lemma_subtree_in_range(dom.tree(), id);
    }
    let mut i: usize = 0;
    assert(all@.take(0) =~= Seq::<NodeId>::empty());
    assert(out@ =~= before + radios(dom.tree(), all@.take(0), name@));
    while i < all.len()
        invariant
            i <= all@.len(),
            forall|k: int| 0 <= k < all@.len() ==> #[trigger] all@[k] < dom.tree().len(),
            out@ == before + radios(dom.tree(), all@.take(i as int), name@),
        decreases all@.len() - i,
    {
        let n: NodeId = all[i];
        assert(all@.take(i + 1).drop_last() =~= all@.take(i as int));
        assert(all@[i as int] < dom.tree().len());
        if is_radio_named(dom, n, name) {
            out.push(n);
        }
        i = i + 1;
        assert(out@ =~= before + radios(dom.tree(), all@.take(i as int), name@));
    }
    assert(all@.take(i as int) =~= all@);
}

/// The nearest node with the tag among the node and those above it, at most `fuel` nodes up. The
/// number of nodes is always enough for a tree.
pub open spec fn enclosing(d: Seq<NodeV>, cur: Option<NodeId>, tag: Seq<char>, fuel: nat) -> Option<
    NodeId,
>
    decreases fuel,
{
    match cur {
        None => None,
        Some(n) => if fuel == 0 || n >= d.len() {
            None
        } else if tag_is(d, n, tag) {
            Some(n)
        } else {
            enclosing(d, d[n as int].parent, tag, (fuel - 1) as nat)
        },
    }
}

/// The form that an element is in.
pub open spec fn form_of(d: Seq<NodeV>, id: NodeId) -> Option<NodeId> {
    enclosing(d, Some(id), "form"@, d.len())
}

/// The form that an element is in.
pub fn owner_form(dom: &Dom, id: NodeId) -> (r: Option<NodeId>)
    requires
        dom.wf(),
        id < dom.tree().len(),
    ensures
        r == form_of(dom.tree(), id),
        r matches Some(f) ==> f < dom.tree().len(),
{
    let mut cur: Option<NodeId> = Some(id);
    let mut fuel: usize = dom.nodes.len();
    while fuel > 0
        invariant
            dom.wf(),
            cur matches Some(n) ==> n < dom.tree().len(),
            form_of(dom.tree(), id) == enclosing(dom.tree(), cur, "form"@, fuel as nat),
        decreases fuel,
    {
        match cur {
            None => {
                return None;
            },
            Some(n) => {
                if dom.has_tag(n, "form") {
                    return Some(n);
                }
                assert(dom.tree()[n as int] == dom.nodes@[n as int]@);
                cur = dom.nodes[n].parent;
            },
        }
        fuel = fuel - 1;
    }
    None
}

/// The document with an attribute of one element gone.
pub open spec fn without_attr(d: Seq<NodeV>, id: NodeId, name: Seq<char>) -> Seq<NodeV> {
    with_attrs(d, id, attr_removed(attrs_of(d, id), name))
}

/// The document with an attribute of one element set.
pub open spec fn with_attr(d: Seq<NodeV>, id: NodeId, name: Seq<char>, value: Seq<char>) -> Seq<
    NodeV,
> {
    with_attrs(d, id, attr_set(attrs_of(d, id), name, value))
}

/// The document with the first `n` of some radio buttons unchecked, but for `id`.
pub open spec fn unchecked(d: Seq<NodeV>, peers: Seq<NodeId>, id: NodeId, n: nat) -> Seq<NodeV>
    decreases n,
{
    if n == 0 || n > peers.len() {
        d
    } else {
        let before = unchecked(d, peers, id, (n - 1) as nat);
        if peers[n - 1] == id {
            before
        } else {
            without_attr(before, peers[n - 1], "checked"@)
        }
    }
}

/// An input that a click toggles.
pub open spec fn toggles(d: Seq<NodeV>, id: NodeId) -> bool {
    &&& tag_is(d, id, "input"@)
    &&& (type_of(d, id) == "checkbox"@ || type_of(d, id) == "radio"@)
}

/// The other radio buttons that share a group with `id`, and `id`: those of its name in its form,
/// or in the document where it is in no form.
pub open spec fn group(d: Seq<NodeV>, root: NodeId, id: NodeId) -> Seq<NodeId> {
    let scope = match form_of(d, id) {
        Some(f) => f,
        None => root,
    };
    radios(d, subtree(d, scope), name_of(d, id))
}

/// The document after a click on an input that toggles.
pub open spec fn toggled(d: Seq<NodeV>, root: NodeId, id: NodeId) -> Seq<NodeV> {
    let cleared = if type_of(d, id) == "radio"@ {
        let peers = group(d, root, id);
        unchecked(d, peers, id, peers.len())
    } else {
        d
    };
    if attr(cleared, id, "checked"@) is Some && type_of(d, id) == "checkbox"@ {
        without_attr(cleared, id, "checked"@)
    } else {
        with_attr(cleared, id, "checked"@, Seq::empty())
    }
}

/// The inputs whose state a click on `id` may change: the radio buttons of its group, and `id`.
pub open spec fn affected(d: Seq<NodeV>, root: NodeId, id: NodeId) -> Seq<NodeId> {
    if !toggles(d, id) {
        Seq::empty()
    } else if type_of(d, id) == "radio"@ {
        group(d, root, id).push(id)
    } else {
        seq![id]
    }
}

/// Those of some nodes that are checked, in order.
pub open spec fn checked_of(d: Seq<NodeV>, ids: Seq<NodeId>) -> Seq<NodeId>
    decreases ids.len(),
{
    if ids.len() == 0 {
        Seq::empty()
    } else if attr(d, ids.last(), "checked"@) is Some {
        checked_of(d, ids.drop_last()).push(ids.last())
    } else {
        checked_of(d, ids.drop_last())
    }
}

/// The document with the first `n` of some nodes unchecked.
pub open spec fn all_unchecked(d: Seq<NodeV>, ids: Seq<NodeId>, n: nat) -> Seq<NodeV>
    decreases n,
{
    if n == 0 || n > ids.len() {
        d
    } else {
        without_attr(all_unchecked(d, ids, (n - 1) as nat), ids[n - 1], "checked"@)
    }
}

/// The document with the first `n` of some nodes checked; what is no node of it is passed over.
pub open spec fn all_checked(d: Seq<NodeV>, ids: Seq<NodeId>, n: nat) -> Seq<NodeV>
    decreases n,
{
    if n == 0 || n > ids.len() {
        d
    } else {
        let before = all_checked(d, ids, (n - 1) as nat);
        if ids[n - 1] < d.len() {
            with_attr(before, ids[n - 1], "checked"@, Seq::empty())
        } else {
            before
        }
    }
}

/// The document where, of the inputs that a click on `id` may change, just `kept` are checked.
pub open spec fn restored(d: Seq<NodeV>, root: NodeId, id: NodeId, kept: Seq<NodeId>) -> Seq<NodeV> {
    let ids = affected(d, root, id);
    all_checked(all_unchecked(d, ids, ids.len()), kept, kept.len())
}

proof fn lemma_radios_in_range(d: Seq<NodeV>, ids: Seq<NodeId>, name: Seq<char>)
    ensures
        forall|k: int| 0 <= k < radios(d, ids, name).len() ==> #[trigger] radios(d, ids, name)[k]
            < d.len(),
        forall|k: int|
            0 <= k < radios(d, ids, name).len() ==> is_radio(d, #[trigger] radios(d, ids, name)[k], name),
    decreases ids.len(),
{
    if ids.len() > 0 {
        let front = radios(d, ids.drop_last(), name);
        let all = radios(d, ids, name);
        lemma_radios_in_range(d, ids.drop_last(), name);
        assert forall|k: int| 0 <= k < all.len() implies #[trigger] all[k] < d.len() && is_radio(
            d,
            all[k],
            name,
        ) by {
            if k < front.len() {
                assert(all[k] == front[k]);
            }
        }
    }
}

fn radio_group(dom: &Dom, id: NodeId) -> (r: Vec<NodeId>)
    requires
        dom.wf(),
        id < dom.tree().len(),
    ensures
        r@ == group(dom.tree(), dom.root, id),
        forall|k: int| 0 <= k < r@.len() ==> #[trigger] r@[k] < dom.tree().len(),
{
    let name: String = or_empty(dom.get_attr(id, "name"));
    let root: NodeId = match owner_form(dom, id) {
        Some(f) => f,
        None => dom.root,
    };
    let mut peers: Vec<NodeId> = Vec::new();
    collect_radio_peers(dom, root, name.as_str(), &mut peers);
    proof {
        assert(peers@ =~= group(dom.tree(), dom.root, id));
        lemma_radios_in_range(dom.tree(), subtree(dom.tree(), root), name@);
        assert forall|k: int| 0 <= k < peers@.len() implies #[trigger] peers@[k] < dom.tree().len() by {
            assert(radios(dom.tree(), subtree(dom.tree(), root), name@)[k] < dom.tree().len());
        }
    }
    peers
}

/// Toggles a checkbox, or checks a radio button and unchecks the others of its group. False where
/// the element is neither.
#[verifier::loop_isolation(false)]
pub fn pre_click_toggle(dom: &mut Dom, id: NodeId) -> (r: bool)
    requires
        old(dom).wf(),
        id < old(dom).tree().len(),
    ensures
        final(dom).wf(),
        final(dom).root == old(dom).root,
        r == toggles(old(dom).tree(), id),
        final(dom).tree() == if r {
            toggled(old(dom).tree(), old(dom).root, id)
        } else {
            old(dom).tree()
        },
{
    if !dom.has_tag(id, "input") {
        return false;
    }
    let ty: String = element_type(dom, id);
    let radio: bool = same_text(ty.as_str(), "radio");
    let checkbox: bool = same_text(ty.as_str(), "checkbox");
    if !checkbox && !radio {
        return false;
    }
    let ghost start = dom.tree();
    if radio {
        let peers: Vec<NodeId> = radio_group(dom, id);
        let mut i: usize = 0;
        while i < peers.len()
            invariant
                i <= peers@.len(),
                dom.wf(),
                dom.root == old(dom).root,
                dom.tree().len() == start.len(),
                forall|k: int| 0 <= k < peers@.len() ==> #[trigger] peers@[k] < start.len(),
                dom.tree() == unchecked(start, peers@, id, i as nat),
            decreases peers@.len() - i,
        {
            let p: NodeId = peers[i];
            if p != id {
                dom.remove_attr(p, "checked");
            }
            i = i + 1;
        }
    }
    if checkbox && dom.get_attr(id, "checked").is_some() {
        dom.remove_attr(id, "checked");
    } else {
        dom.set_attr(id, "checked", "");
        proof {
            reveal_strlit("");
            assert(""@ =~= Seq::<char>::empty());
        }
    }
    proof {
        reveal_strlit("radio");
        reveal_strlit("checkbox");
        assert("radio"@.len() != "checkbox"@.len());
    }
    true
}

fn affected_inputs(dom: &Dom, id: NodeId) -> (r: Vec<NodeId>)
    requires
        dom.wf(),
        id < dom.tree().len(),
    ensures
        r@ == affected(dom.tree(), dom.root, id),
        forall|k: int| 0 <= k < r@.len() ==> #[trigger] r@[k] < dom.tree().len(),
{
    if !dom.has_tag(id, "input") {
        return Vec::new();
    }
    let ty: String = element_type(dom, id);
    if same_text(ty.as_str(), "radio") {
        let mut out: Vec<NodeId> = radio_group(dom, id);
        out.push(id);
        return out;
    }
    let mut out: Vec<NodeId> = Vec::new();
    if same_text(ty.as_str(), "checkbox") {
        out.push(id);
        assert(out@ =~= seq![id]);
    }
    out
}

/// Those of the inputs that a click on `id` may change that are checked.
pub fn checked_inputs(dom: &Dom, id: NodeId) -> (r: Vec<NodeId>)
    requires
        dom.wf(),
        id < dom.tree().len(),
    ensures
        r@ == checked_of(dom.tree(), affected(dom.tree(), dom.root, id)),
{
    let ids: Vec<NodeId> = affected_inputs(dom, id);
    let mut out: Vec<NodeId> = Vec::new();
    let mut i: usize = 0;
    assert(ids@.take(0) =~= Seq::<NodeId>::empty());
    while i < ids.len()
        invariant
            i <= ids@.len(),
            dom.wf(),
            forall|k: int| 0 <= k < ids@.len() ==> #[trigger] ids@[k] < dom.tree().len(),
            out@ == checked_of(dom.tree(), ids@.take(i as int)),
        decreases ids@.len() - i,
    {
        assert(ids@.take(i + 1).drop_last() =~= ids@.take(i as int));
        assert(ids@.take(i + 1).last() == ids@[i as int]);
        if dom.get_attr(ids[i], "checked").is_some() {
            out.push(ids[i]);
        }
        i = i + 1;
    }
    assert(ids@.take(i as int) =~= ids@);
    out
}

/// Undoes what a cancelled click on `id` did: of the inputs that it may change, just `kept` are
/// checked.
pub fn restore_checked(dom: &mut Dom, id: NodeId, kept: &Vec<NodeId>)
    requires
        old(dom).wf(),
        id < old(dom).tree().len(),
    ensures
        final(dom).wf(),
        final(dom).root == old(dom).root,
        final(dom).tree() == restored(old(dom).tree(), old(dom).root, id, kept@),
{
    let ids: Vec<NodeId> = affected_inputs(dom, id);
    let ghost start = dom.tree();
    let mut i: usize = 0;
    while i < ids.len()
        invariant
            i <= ids@.len(),
            dom.wf(),
            dom.root == old(dom).root,
            dom.tree().len() == start.len(),
            forall|k: int| 0 <= k < ids@.len() ==> #[trigger] ids@[k] < start.len(),
            dom.tree() == all_unchecked(start, ids@, i as nat),
        decreases ids@.len() - i,
    {
        dom.remove_attr(ids[i], "checked");
        i = i + 1;
    }
    let ghost cleared = dom.tree();
    let mut j: usize = 0;
    while j < kept.len()
        invariant
            j <= kept@.len(),
            dom.wf(),
            dom.root == old(dom).root,
            dom.tree().len() == cleared.len(),
            dom.tree() == all_checked(cleared, kept@, j as nat),
        decreases kept@.len() - j,
    {
        if kept[j] < dom.nodes.len() {
            dom.set_attr(kept[j], "checked", "");
            proof {
                reveal_strlit("");
                assert(""@ =~= Seq::<char>::empty());
            }
        }
        j = j + 1;
    }
}

/// What is left for the engine to do after a click.
#[derive(Debug)]
pub enum ClickAction {
    /// Goes to this address, which may be relative to the page's.
    Navigate(String),
    /// Sends an event of this type to the node.
    Dispatch(NodeId, String),
}

/// The mathematical counterpart of `ClickAction`.
#[verifier::ext_equal]
pub enum ActionV {
    Navigate(Seq<char>),
    Dispatch(NodeId, Seq<char>),
}

impl View for ClickAction {
    type V = ActionV;

    open spec fn view(&self) -> ActionV {
        match *self {
            ClickAction::Navigate(s) => ActionV::Navigate(s@),
            ClickAction::Dispatch(n, s) => ActionV::Dispatch(n, s@),
        }
    }
}

pub open spec fn actions_view(s: Seq<ClickAction>) -> Seq<ActionV> {
    Seq::new(s.len(), |i: int| s[i]@)
}

/// A link that leads to another page.
pub open spec fn leads_away(href: Seq<char>) -> bool {
    !(href.len() > 0 && href[0] == '#') && !blank(href)
}

pub open spec fn submits(d: Seq<NodeV>, id: NodeId) -> bool {
    let ty = type_of(d, id);
    &&& tag_is(d, id, "button"@) || tag_is(d, id, "input"@)
    &&& ty == "submit"@ || ty == "image"@ || (tag_is(d, id, "button"@) && ty.len() == 0)
}

pub open spec fn resets(d: Seq<NodeV>, id: NodeId) -> bool {
    &&& tag_is(d, id, "button"@) || tag_is(d, id, "input"@)
    &&& type_of(d, id) == "reset"@
}

/// The `details` element that a `summary` opens and closes.
pub open spec fn details_of(d: Seq<NodeV>, id: NodeId) -> Option<NodeId> {
    match d[id as int].parent {
        Some(p) => if tag_is(d, p, "details"@) {
            Some(p)
        } else {
            None
        },
        None => None,
    }
}

/// An event for the form of an element, where it is in one.
pub open spec fn to_form(d: Seq<NodeV>, id: NodeId, kind: Seq<char>) -> Seq<ActionV> {
    match form_of(d, id) {
        Some(f) => seq![ActionV::Dispatch(f, kind)],
        None => Seq::empty(),
    }
}

/// What a click on an element makes the engine do.
pub open spec fn click_actions(d: Seq<NodeV>, id: NodeId) -> Seq<ActionV> {
    if tag_is(d, id, "a"@) || tag_is(d, id, "area"@) {
        match attr(d, id, "href"@) {
            Some(h) => if leads_away(h) {
                seq![ActionV::Navigate(h)]
            } else {
                Seq::empty()
            },
            None => Seq::empty(),
        }
    } else if toggles(d, id) {
        seq![ActionV::Dispatch(id, "input"@), ActionV::Dispatch(id, "change"@)]
    } else if resets(d, id) {
        to_form(d, id, "reset"@)
    } else if submits(d, id) {
        to_form(d, id, "submit"@)
    } else if tag_is(d, id, "summary"@) {
        match details_of(d, id) {
            Some(p) => seq![ActionV::Dispatch(p, "toggle"@)],
            None => Seq::empty(),
        }
    } else {
        Seq::empty()
    }
}

/// The document with `open` of an element turned round.
pub open spec fn opened(d: Seq<NodeV>, p: NodeId) -> Seq<NodeV> {
    if attr(d, p, "open"@) is Some {
        without_attr(d, p, "open"@)
    } else {
        with_attr(d, p, "open"@, Seq::empty())
    }
}

/// The document after a click on an element.
pub open spec fn clicked(d: Seq<NodeV>, id: NodeId) -> Seq<NodeV> {
    if tag_is(d, id, "summary"@) {
        match details_of(d, id) {
            Some(p) => opened(d, p),
            None => d,
        }
    } else {
        d
    }
}

fn form_event(dom: &Dom, id: NodeId, kind: &str) -> (r: Vec<ClickAction>)
    requires
        dom.wf(),
        id < dom.tree().len(),
    ensures
        actions_view(r@) == to_form(dom.tree(), id, kind@),
{
    let mut out: Vec<ClickAction> = Vec::new();
    match owner_form(dom, id) {
        Some(f) => {
            out.push(ClickAction::Dispatch(f, kind.to_owned()));
        },
        None => {},
    }
    assert(actions_view(out@) =~= to_form(dom.tree(), id, kind@));
    out
}

proof fn lemma_tags_differ()
    ensures
        "summary"@ != "a"@,
        "summary"@ != "area"@,
        "summary"@ != "input"@,
        "summary"@ != "button"@,
{
    reveal_strlit("summary");
    reveal_strlit("a");
    reveal_strlit("area");
    reveal_strlit("input");
    reveal_strlit("button");
    assert("summary"@.len() == 7);
    assert("button"@.len() == 6);
}

/// The default action of a click: what it changes in the document, and what the engine has to do
/// next, in order.
pub fn click_default_action(dom: &mut Dom, id: NodeId) -> (r: Vec<ClickAction>)
    requires
        old(dom).wf(),
        id < old(dom).tree().len(),
    ensures
        final(dom).wf(),
        final(dom).root == old(dom).root,
        final(dom).tree() == clicked(old(dom).tree(), id),
        actions_view(r@) == click_actions(old(dom).tree(), id),
{
    proof {
        lemma_tags_differ();
    }
    let mut out: Vec<ClickAction> = Vec::new();
    let ghost d = dom.tree();
    assert(actions_view(out@) =~= Seq::<ActionV>::empty());
    if dom.has_tag(id, "a") || dom.has_tag(id, "area") {
        match dom.get_attr(id, "href") {
            Some(h) => {
                let cs: Vec<char> = chars_of(h.as_str());
                let fragment: bool = cs.len() > 0 && cs[0] == '#';
                if !fragment && !is_blank(h.as_str()) {
                    out.push(ClickAction::Navigate(h));
                    assert(actions_view(out@) =~= seq![ActionV::Navigate(h@)]);
                }
            },
            None => {},
        }
        return out;
    }
    let ty: String = element_type(dom, id);
    let input: bool = dom.has_tag(id, "input");
    let button: bool = dom.has_tag(id, "button");
    if input && (same_text(ty.as_str(), "checkbox") || same_text(ty.as_str(), "radio")) {
        out.push(ClickAction::Dispatch(id, "input".to_owned()));
        out.push(ClickAction::Dispatch(id, "change".to_owned()));
        assert(actions_view(out@) =~= click_actions(d, id));
        return out;
    }
    if (button || input) && same_text(ty.as_str(), "reset") {
        return form_event(dom, id, "reset");
    }
    if button || input {
        let empty: bool = chars_of(ty.as_str()).len() == 0;
        if same_text(ty.as_str(), "submit") || same_text(ty.as_str(), "image") || (button && empty) {
            return form_event(dom, id, "submit");
        }
    }
    if dom.has_tag(id, "summary") {
        assert(dom.tree()[id as int] == dom.nodes@[id as int]@);
        match dom.nodes[id].parent {
            Some(p) => {
                if dom.has_tag(p, "details") {
                    if dom.get_attr(p, "open").is_some() {
                        dom.remove_attr(p, "open");
                    } else {
                        dom.set_attr(p, "open", "");
                        proof {
                            reveal_strlit("");
                            assert(""@ =~= Seq::<char>::empty());
                        }
                    }
                    out.push(ClickAction::Dispatch(p, "toggle".to_owned()));
                    assert(actions_view(out@) =~= click_actions(d, id));
                }
            },
            None => {},
        }
    }
    out
}

/// The two documents have the same tree and differ at most in attributes named `name`.
pub open spec fn alike(d: Seq<NodeV>, e: Seq<NodeV>, name: Seq<char>) -> bool {
    &&& d.len() == e.len()
    &&& forall|i: int|
        0 <= i < d.len() ==> {
            &&& (#[trigger] d[i]).parent == e[i].parent
            &&& d[i].children == e[i].children
        }
    &&& forall|i: NodeId, t: Seq<char>| #[trigger] tag_is(d, i, t) == tag_is(e, i, t)
    &&& forall|i: NodeId, n: Seq<char>|
        i < d.len() && n != name ==> #[trigger] attr(d, i, n) == attr(e, i, n)
}

proof fn lemma_with_attrs_alike(d: Seq<NodeV>, id: NodeId, name: Seq<char>, value: Seq<char>)
    requires
        id < d.len(),
    ensures
        alike(d, without_attr(d, id, name), name),
        alike(d, with_attr(d, id, name, value), name),
        attr(without_attr(d, id, name), id, name) is None,
        d[id as int].kind is Element ==> attr(with_attr(d, id, name, value), id, name) == Some(value),
        forall|x: NodeId, n: Seq<char>|
            x < d.len() && x != id ==> {
                &&& #[trigger] attr(without_attr(d, id, name), x, n) == attr(d, x, n)
                &&& attr(with_attr(d, id, name, value), x, n) == attr(d, x, n)
            },
{
    let attrs = attrs_of(d, id);
    let e = without_attr(d, id, name);
    let f = with_attr(d, id, name, value);
    law_attributes(attrs, name, value, name);
    assert forall|i: NodeId, n: Seq<char>| i < d.len() && n != name implies {
        &&& #[trigger] attr(d, i, n) == attr(e, i, n)
        &&& attr(d, i, n) == attr(f, i, n)
    } by {
        law_attributes(attrs, name, value, n);
    }
}

proof fn lemma_alike_trans(d: Seq<NodeV>, e: Seq<NodeV>, f: Seq<NodeV>, name: Seq<char>)
    requires
        alike(d, e, name),
        alike(e, f, name),
    ensures
        alike(d, f, name),
{
    assert forall|i: int| 0 <= i < d.len() implies {
        &&& (#[trigger] d[i]).parent == f[i].parent
        &&& d[i].children == f[i].children
    } by {
        assert(e[i].parent == f[i].parent);
    }
    assert forall|i: NodeId, t: Seq<char>| #[trigger] tag_is(d, i, t) == tag_is(f, i, t) by {
        assert(tag_is(e, i, t) == tag_is(f, i, t));
    }
    assert forall|i: NodeId, n: Seq<char>| i < d.len() && n != name implies #[trigger] attr(d, i, n)
        == attr(f, i, n) by {
        assert(attr(e, i, n) == attr(f, i, n));
    }
}

proof fn lemma_unchecked(d: Seq<NodeV>, peers: Seq<NodeId>, id: NodeId, n: nat)
    requires
        id < d.len(),
        n <= peers.len(),
        forall|k: int| 0 <= k < peers.len() ==> #[trigger] peers[k] < d.len(),
    ensures
        alike(d, unchecked(d, peers, id, n), "checked"@),
        attr(unchecked(d, peers, id, n), id, "checked"@) == attr(d, id, "checked"@),
        forall|k: int|
            0 <= k < n && peers[k] != id ==> attr(
                unchecked(d, peers, id, n),
                #[trigger] peers[k],
                "checked"@,
            ) is None,
    decreases n,
{
    if n > 0 {
        let before = unchecked(d, peers, id, (n - 1) as nat);
        let p = peers[n - 1];
        lemma_unchecked(d, peers, id, (n - 1) as nat);
        if p != id {
            lemma_with_attrs_alike(before, p, "checked"@, Seq::empty());
            lemma_alike_trans(d, before, without_attr(before, p, "checked"@), "checked"@);
            let after = unchecked(d, peers, id, n);
            assert forall|k: int| 0 <= k < n && peers[k] != id implies attr(
                after,
                #[trigger] peers[k],
                "checked"@,
            ) is None by {
                if peers[k] != p {
                    assert(k < n - 1);
                    assert(attr(before, peers[k], "checked"@) is None);
                }
            }
            assert(attr(after, id, "checked"@) == attr(before, id, "checked"@));
        }
    }
}

proof fn lemma_alike_preorder(d: Seq<NodeV>, e: Seq<NodeV>, name: Seq<char>, id: NodeId, depth: nat)
    requires
        alike(d, e, name),
    ensures
        preorder(d, id, depth) == preorder(e, id, depth),
    decreases depth, 1nat, 0nat,
{
    if depth > 0 && id < d.len() {
        assert(d[id as int].children == e[id as int].children);
        lemma_alike_preorder_all(d, e, name, d[id as int].children, 0, (depth - 1) as nat);
    }
}

proof fn lemma_alike_preorder_all(
    d: Seq<NodeV>,
    e: Seq<NodeV>,
    name: Seq<char>,
    ids: Seq<NodeId>,
    j: int,
    depth: nat,
)
    requires
        alike(d, e, name),
    ensures
        preorder_all(d, ids, j, depth) == preorder_all(e, ids, j, depth),
    decreases depth, 2nat, ids.len() - j,
{
    if 0 <= j < ids.len() {
        lemma_alike_preorder(d, e, name, ids[j], depth);
        lemma_alike_preorder_all(d, e, name, ids, j + 1, depth);
    }
}

proof fn lemma_alike_enclosing(
    d: Seq<NodeV>,
    e: Seq<NodeV>,
    name: Seq<char>,
    cur: Option<NodeId>,
    tag: Seq<char>,
    fuel: nat,
)
    requires
        alike(d, e, name),
    ensures
        enclosing(d, cur, tag, fuel) == enclosing(e, cur, tag, fuel),
    decreases fuel,
{
    match cur {
        Some(n) => {
            if fuel > 0 && n < d.len() {
                assert(tag_is(d, n, tag) == tag_is(e, n, tag));
                assert(d[n as int].parent == e[n as int].parent);
                lemma_alike_enclosing(d, e, name, d[n as int].parent, tag, (fuel - 1) as nat);
            }
        },
        None => {},
    }
}

proof fn lemma_alike_radios(d: Seq<NodeV>, e: Seq<NodeV>, ids: Seq<NodeId>, name: Seq<char>)
    requires
        alike(d, e, "checked"@),
    ensures
        radios(d, ids, name) == radios(e, ids, name),
    decreases ids.len(),
{
    if ids.len() > 0 {
        lemma_names_differ();
        lemma_alike_radios(d, e, ids.drop_last(), name);
        let x = ids.last();
        assert(tag_is(d, x, "input"@) == tag_is(e, x, "input"@));
        if x < d.len() {
            assert(attr(d, x, "type"@) == attr(e, x, "type"@));
            assert(attr(d, x, "name"@) == attr(e, x, "name"@));
        }
    }
}

proof fn lemma_names_differ()
    ensures
        "type"@ != "checked"@,
        "name"@ != "checked"@,
        "radio"@ != "checkbox"@,
{
    reveal_strlit("type");
    reveal_strlit("name");
    reveal_strlit("checked");
    reveal_strlit("radio");
    reveal_strlit("checkbox");
    assert("type"@.len() == 4);
    assert("name"@.len() == 4);
    assert("checked"@.len() == 7);
    assert("radio"@.len() == 5);
    assert("checkbox"@.len() == 8);
}

proof fn lemma_alike_group(d: Seq<NodeV>, e: Seq<NodeV>, root: NodeId, id: NodeId)
    requires
        alike(d, e, "checked"@),
        id < d.len(),
    ensures
        group(d, root, id) == group(e, root, id),
        type_of(d, id) == type_of(e, id),
        toggles(d, id) == toggles(e, id),
{
    lemma_names_differ();
    lemma_alike_enclosing(d, e, "checked"@, Some(id), "form"@, d.len());
    let scope = match form_of(d, id) {
        Some(f) => f,
        None => root,
    };
    lemma_alike_preorder(d, e, "checked"@, scope, d.len());
    assert(attr(d, id, "type"@) == attr(e, id, "type"@));
    assert(attr(d, id, "name"@) == attr(e, id, "name"@));
    assert(tag_is(d, id, "input"@) == tag_is(e, id, "input"@));
    lemma_alike_radios(d, e, subtree(d, scope), name_of(d, id));
}

proof fn lemma_cleared(d: Seq<NodeV>, root: NodeId, id: NodeId)
    requires
        id < d.len(),
    ensures
        ({
            let peers = group(d, root, id);
            let e = unchecked(d, peers, id, peers.len());
            &&& alike(d, e, "checked"@)
            &&& attr(e, id, "checked"@) == attr(d, id, "checked"@)
            &&& forall|k: int|
                0 <= k < peers.len() && peers[k] != id ==> attr(
                    e,
                    #[trigger] peers[k],
                    "checked"@,
                ) is None
        }),
{
    let peers = group(d, root, id);
    let scope = match form_of(d, id) {
        Some(f) => f,
        None => root,
    };
    lemma_radios_in_range(d, subtree(d, scope), name_of(d, id));
    assert forall|k: int| 0 <= k < peers.len() implies #[trigger] peers[k] < d.len() by {
        assert(radios(d, subtree(d, scope), name_of(d, id))[k] < d.len());
    }
    lemma_unchecked(d, peers, id, peers.len());
}

/// A click on a checkbox turns it round; a second click puts it back.
pub proof fn law_checkbox(d: Seq<NodeV>, root: NodeId, id: NodeId)
    requires
        toggles(d, id),
        type_of(d, id) == "checkbox"@,
    ensures
        attr(toggled(d, root, id), id, "checked"@) is Some <==> attr(d, id, "checked"@) is None,
        toggles(toggled(d, root, id), id),
        attr(toggled(toggled(d, root, id), root, id), id, "checked"@) is Some <==> attr(
            d,
            id,
            "checked"@,
        ) is Some,
{
    lemma_names_differ();
    let e = toggled(d, root, id);
    lemma_with_attrs_alike(d, id, "checked"@, Seq::empty());
    lemma_alike_group(d, e, root, id);
    lemma_with_attrs_alike(e, id, "checked"@, Seq::empty());
    assert(tag_is(e, id, "input"@));
}

/// After a click on a radio button it is checked, and no other of its group is.
pub proof fn law_radio_group(d: Seq<NodeV>, root: NodeId, id: NodeId)
    requires
        toggles(d, id),
        type_of(d, id) == "radio"@,
    ensures
        attr(toggled(d, root, id), id, "checked"@) is Some,
        forall|k: int|
            0 <= k < group(toggled(d, root, id), root, id).len() && #[trigger] group(
                toggled(d, root, id),
                root,
                id,
            )[k] != id ==> attr(
                toggled(d, root, id),
                group(toggled(d, root, id), root, id)[k],
                "checked"@,
            ) is None,
{
    lemma_names_differ();
    let peers = group(d, root, id);
    let c = unchecked(d, peers, id, peers.len());
    lemma_cleared(d, root, id);
    let e = toggled(d, root, id);
    assert(tag_is(c, id, "input"@) == tag_is(d, id, "input"@));
    lemma_with_attrs_alike(c, id, "checked"@, Seq::empty());
    lemma_alike_trans(d, c, e, "checked"@);
    lemma_alike_group(d, e, root, id);
    assert forall|k: int| 0 <= k < peers.len() && #[trigger] peers[k] != id implies attr(
        e,
        peers[k],
        "checked"@,
    ) is None by {
        let scope = match form_of(d, id) {
            Some(f) => f,
            None => root,
        };
        lemma_radios_in_range(d, subtree(d, scope), name_of(d, id));
        assert(radios(d, subtree(d, scope), name_of(d, id))[k] < d.len());
        assert(attr(c, peers[k], "checked"@) is None);
        assert(attr(without_attr(c, id, "checked"@), peers[k], "checked"@) == attr(
            c,
            peers[k],
            "checked"@,
        ));
    }
}

proof fn lemma_all_unchecked(d: Seq<NodeV>, ids: Seq<NodeId>, n: nat)
    requires
        n <= ids.len(),
        forall|k: int| 0 <= k < ids.len() ==> #[trigger] ids[k] < d.len(),
    ensures
        alike(d, all_unchecked(d, ids, n), "checked"@),
        forall|x: NodeId|
            x < d.len() ==> (#[trigger] attr(all_unchecked(d, ids, n), x, "checked"@) is Some <==> attr(
                d,
                x,
                "checked"@,
            ) is Some && !ids.take(n as int).contains(x)),
    decreases n,
{
    if n > 0 {
        let before = all_unchecked(d, ids, (n - 1) as nat);
        let p = ids[n - 1];
        lemma_all_unchecked(d, ids, (n - 1) as nat);
        lemma_with_attrs_alike(before, p, "checked"@, Seq::empty());
        let after = without_attr(before, p, "checked"@);
        lemma_alike_trans(d, before, after, "checked"@);
        assert forall|x: NodeId| x < d.len() implies (#[trigger] attr(after, x, "checked"@) is Some
            <==> attr(d, x, "checked"@) is Some && !ids.take(n as int).contains(x)) by {
            lemma_taken(ids, n, x);
            if x != p {
                assert(attr(after, x, "checked"@) == attr(before, x, "checked"@));
            }
        }
    }
}

proof fn lemma_taken(ids: Seq<NodeId>, n: nat, x: NodeId)
    requires
        0 < n <= ids.len(),
    ensures
        ids.take(n as int).contains(x) <==> ids.take(n - 1).contains(x) || x == ids[n - 1],
{
    if ids.take(n as int).contains(x) {
        let k = ids.take(n as int).index_of(x);
        assert(ids.take(n as int)[k] == x);
        if k < n - 1 {
            assert(ids.take(n - 1)[k] == x);
        }
    }
    if ids.take(n - 1).contains(x) {
        let k = ids.take(n - 1).index_of(x);
        assert(ids.take(n as int)[k] == ids.take(n - 1)[k]);
    }
    assert(ids.take(n as int)[n - 1] == ids[n - 1]);
}

proof fn lemma_all_checked(d: Seq<NodeV>, ids: Seq<NodeId>, n: nat)
    requires
        n <= ids.len(),
        forall|k: int|
            0 <= k < ids.len() ==> #[trigger] ids[k] < d.len() && d[ids[k] as int].kind is Element,
    ensures
        alike(d, all_checked(d, ids, n), "checked"@),
        forall|x: NodeId|
            x < d.len() ==> (d[x as int].kind is Element <==> #[trigger] all_checked(
                d,
                ids,
                n,
            )[x as int].kind is Element),
        forall|x: NodeId|
            x < d.len() ==> (#[trigger] attr(all_checked(d, ids, n), x, "checked"@) is Some <==> attr(
                d,
                x,
                "checked"@,
            ) is Some || ids.take(n as int).contains(x)),
    decreases n,
{
    if n > 0 {
        let before = all_checked(d, ids, (n - 1) as nat);
        let p = ids[n - 1];
        lemma_all_checked(d, ids, (n - 1) as nat);
        lemma_with_attrs_alike(before, p, "checked"@, Seq::empty());
        let after = with_attr(before, p, "checked"@, Seq::empty());
        assert(before[p as int].kind is Element);
        lemma_alike_trans(d, before, after, "checked"@);
        assert forall|x: NodeId| x < d.len() implies (#[trigger] attr(after, x, "checked"@) is Some
            <==> attr(d, x, "checked"@) is Some || ids.take(n as int).contains(x)) by {
            lemma_taken(ids, n, x);
            if x != p {
                assert(attr(without_attr(before, p, "checked"@), x, "checked"@) == attr(
                    before,
                    x,
                    "checked"@,
                ));
            }
        }
    }
}

proof fn lemma_checked_of(d: Seq<NodeV>, ids: Seq<NodeId>)
    ensures
        forall|x: NodeId| #[trigger] checked_of(d, ids).contains(x) <==> ids.contains(x) && attr(
            d,
            x,
            "checked"@,
        ) is Some,
    decreases ids.len(),
{
    let r = checked_of(d, ids);
    if ids.len() > 0 {
        let front = ids.drop_last();
        let before = checked_of(d, front);
        lemma_checked_of(d, front);
        assert forall|x: NodeId| #[trigger] r.contains(x) <==> ids.contains(x) && attr(
            d,
            x,
            "checked"@,
        ) is Some by {
            lemma_taken(ids, ids.len(), x);
            assert(ids.take(ids.len() as int) =~= ids);
            assert(ids.take(ids.len() - 1) =~= front);
            assert(before.contains(x) <==> front.contains(x) && attr(d, x, "checked"@) is Some);
            if attr(d, ids.last(), "checked"@) is Some {
                lemma_taken(r, r.len(), x);
                assert(r.take(r.len() as int) =~= r);
                assert(r.take(r.len() - 1) =~= before);
            }
        }
    }
}

proof fn lemma_unchecked_frame(d: Seq<NodeV>, peers: Seq<NodeId>, id: NodeId, n: nat, x: NodeId)
    requires
        n <= peers.len(),
        x < d.len(),
        !peers.contains(x),
        forall|k: int| 0 <= k < peers.len() ==> #[trigger] peers[k] < d.len(),
    ensures
        unchecked(d, peers, id, n).len() == d.len(),
        attr(unchecked(d, peers, id, n), x, "checked"@) == attr(d, x, "checked"@),
    decreases n,
{
    if n > 0 {
        let before = unchecked(d, peers, id, (n - 1) as nat);
        lemma_unchecked_frame(d, peers, id, (n - 1) as nat, x);
        lemma_with_attrs_alike(before, peers[n - 1], "checked"@, Seq::empty());
        assert(peers[n - 1] != x);
        assert(attr(without_attr(before, peers[n - 1], "checked"@), x, "checked"@) == attr(
            before,
            x,
            "checked"@,
        ));
    }
}

proof fn lemma_affected(d: Seq<NodeV>, root: NodeId, id: NodeId)
    requires
        toggles(d, id),
    ensures
        affected(d, root, id).contains(id),
        forall|k: int|
            0 <= k < affected(d, root, id).len() ==> #[trigger] affected(d, root, id)[k] < d.len()
                && d[affected(d, root, id)[k] as int].kind is Element,
        type_of(d, id) == "radio"@ ==> forall|x: NodeId|
            group(d, root, id).contains(x) ==> affected(d, root, id).contains(x),
{
    let ids = affected(d, root, id);
    let peers = group(d, root, id);
    let scope = match form_of(d, id) {
        Some(f) => f,
        None => root,
    };
    lemma_radios_in_range(d, subtree(d, scope), name_of(d, id));
    assert(ids.last() == id);
    assert(ids[ids.len() - 1] == id);
    if type_of(d, id) == "radio"@ {
        assert forall|k: int| 0 <= k < ids.len() implies #[trigger] ids[k] < d.len()
            && d[ids[k] as int].kind is Element by {
            if k < peers.len() {
                assert(is_radio(d, radios(d, subtree(d, scope), name_of(d, id))[k], name_of(d, id)));
            }
        }
        assert forall|x: NodeId| peers.contains(x) implies ids.contains(x) by {
            let k = peers.index_of(x);
            assert(ids[k] == peers[k]);
        }
    }
}

/// A click that is cancelled leaves everything as it was: putting back what was checked before the
/// toggle checks just the nodes that were checked, and nothing else has changed.
pub proof fn law_cancelled_click(d: Seq<NodeV>, root: NodeId, id: NodeId, x: NodeId)
    requires
        toggles(d, id),
        x < d.len(),
    ensures
        ({
            let kept = checked_of(d, affected(d, root, id));
            let e = restored(toggled(d, root, id), root, id, kept);
            &&& alike(d, e, "checked"@)
            &&& (attr(e, x, "checked"@) is Some <==> attr(d, x, "checked"@) is Some)
        }),
{
    lemma_names_differ();
    let ids = affected(d, root, id);
    let kept = checked_of(d, ids);
    let t = toggled(d, root, id);
    law_toggle_frame(d, root, id);
    lemma_alike_group(d, t, root, id);
    assert(affected(t, root, id) == ids);
    lemma_affected(d, root, id);
    lemma_affected(t, root, id);
    lemma_checked_of(d, ids);
    let c = all_unchecked(t, ids, ids.len());
    lemma_all_unchecked(t, ids, ids.len());
    assert(ids.take(ids.len() as int) =~= ids);
    lemma_all_unchecked_kinds(t, ids, ids.len());
    assert forall|k: int| 0 <= k < kept.len() implies #[trigger] kept[k] < c.len()
        && c[kept[k] as int].kind is Element by {
        assert(kept.contains(kept[k]));
        let j = ids.index_of(kept[k]);
        assert(ids[j] == kept[k]);
        assert(affected(t, root, id)[j] < t.len());
    }
    lemma_all_checked(c, kept, kept.len());
    assert(kept.take(kept.len() as int) =~= kept);
    let e = restored(t, root, id, kept);
    lemma_alike_trans(d, t, c, "checked"@);
    lemma_alike_trans(d, c, e, "checked"@);
    assert(attr(e, x, "checked"@) is Some <==> attr(c, x, "checked"@) is Some || kept.contains(x));
    assert(attr(c, x, "checked"@) is Some <==> attr(t, x, "checked"@) is Some && !ids.contains(x));
    assert(kept.contains(x) <==> ids.contains(x) && attr(d, x, "checked"@) is Some);
    if !ids.contains(x) {
        assert(x != id);
        let peers = group(d, root, id);
        let cleared = if type_of(d, id) == "radio"@ {
            unchecked(d, peers, id, peers.len())
        } else {
            d
        };
        if type_of(d, id) == "radio"@ {
            lemma_cleared(d, root, id);
            let scope = match form_of(d, id) {
                Some(f) => f,
                None => root,
            };
            lemma_radios_in_range(d, subtree(d, scope), name_of(d, id));
            assert forall|k: int| 0 <= k < peers.len() implies #[trigger] peers[k] < d.len() by {
                assert(radios(d, subtree(d, scope), name_of(d, id))[k] < d.len());
            }
            lemma_unchecked_frame(d, peers, id, peers.len(), x);
        }
        lemma_with_attrs_alike(cleared, id, "checked"@, Seq::empty());
        assert(attr(without_attr(cleared, id, "checked"@), x, "checked"@) == attr(
            cleared,
            x,
            "checked"@,
        ));
    }
}

proof fn lemma_all_unchecked_kinds(d: Seq<NodeV>, ids: Seq<NodeId>, n: nat)
    requires
        n <= ids.len(),
        forall|k: int| 0 <= k < ids.len() ==> #[trigger] ids[k] < d.len(),
    ensures
        all_unchecked(d, ids, n).len() == d.len(),
        forall|x: int|
            0 <= x < d.len() ==> (d[x].kind is Element <==> #[trigger] all_unchecked(
                d,
                ids,
                n,
            )[x].kind is Element),
    decreases n,
{
    if n > 0 {
        lemma_all_unchecked_kinds(d, ids, (n - 1) as nat);
    }
}

/// A click changes nothing in the document but `checked` of inputs: the tree, the tags and the
/// other attributes stay.
pub proof fn law_toggle_frame(d: Seq<NodeV>, root: NodeId, id: NodeId)
    requires
        toggles(d, id),
    ensures
        alike(d, toggled(d, root, id), "checked"@),
{
    let peers = group(d, root, id);
    let c = if type_of(d, id) == "radio"@ {
        unchecked(d, peers, id, peers.len())
    } else {
        d
    };
    lemma_cleared(d, root, id);
    lemma_with_attrs_alike(c, id, "checked"@, Seq::empty());
    lemma_alike_trans(d, c, toggled(d, root, id), "checked"@);
}

/// Two clicks on a `summary` leave its `details` as open as it was.
pub proof fn law_summary_twice(d: Seq<NodeV>, id: NodeId, p: NodeId)
    requires
        id < d.len(),
        tag_is(d, id, "summary"@),
        details_of(d, id) == Some(p),
    ensures
        attr(clicked(d, id), p, "open"@) is Some <==> attr(d, p, "open"@) is None,
        attr(clicked(clicked(d, id), id), p, "open"@) is Some <==> attr(d, p, "open"@) is Some,
{
    let e = clicked(d, id);
    lemma_with_attrs_alike(d, p, "open"@, Seq::empty());
    assert(tag_is(e, id, "summary"@) == tag_is(d, id, "summary"@));
    assert(tag_is(e, p, "details"@) == tag_is(d, p, "details"@));
    assert(d[id as int].parent == e[id as int].parent);
    lemma_with_attrs_alike(e, p, "open"@, Seq::empty());
}

} // verus!
