use builtins::dom::{
    collect_script_nodes, compare_document_position, find_body, is_fragment, preorder_index, Dom,
    Element, Node, NodeKind,
};

fn element(tag: &str, parent: Option<usize>, children: Vec<usize>) -> Node {
    Node {
        parent,
        children,
        kind: NodeKind::Element(
            Element { tag: tag.to_string(), namespace: None, attrs: Vec::new() },
        ),
    }
}

// html > (head > script), (body > (p > text), script); a fragment and a script stand apart.
fn page() -> Dom {
    Dom {
        nodes: vec![
            element("html", None, vec![1, 3]),
            element("head", Some(0), vec![2]),
            element("script", Some(1), vec![]),
            element("body", Some(0), vec![4, 6]),
            element("p", Some(3), vec![5]),
            Node { parent: Some(4), children: vec![], kind: NodeKind::Text("t".to_string()) },
            element("script", Some(3), vec![]),
            element("#document-fragment", None, vec![]),
            element("script", None, vec![]),
        ],
        root: 0,
    }
}

#[test]
fn places_in_document_order() {
    let dom = page();
    assert_eq!(dom.walk(0), vec![0, 1, 2, 3, 4, 5, 6]);
    assert_eq!(preorder_index(&dom, 0, 5), Some(5));
    assert_eq!(preorder_index(&dom, 3, 5), Some(2));
    assert_eq!(preorder_index(&dom, 0, 8), None);
}

#[test]
fn positions_of_nodes() {
    let dom = page();
    assert_eq!(compare_document_position(&dom, 2, 5), 4);
    assert_eq!(compare_document_position(&dom, 5, 2), 2);
    assert_eq!(compare_document_position(&dom, 5, 5), 0);
    assert_eq!(compare_document_position(&dom, 5, 8), 0);
}

#[test]
fn scripts_and_the_body() {
    let mut dom = page();
    assert_eq!(find_body(&dom), 3);
    let mut out = Vec::new();
    collect_script_nodes(&dom, 0, &mut out);
    assert_eq!(out, vec![2, 6]);
    assert!(is_fragment(&dom, 7) && !is_fragment(&dom, 0));
    dom.nodes[3].kind = NodeKind::Comment("body".to_string());
    assert_eq!(find_body(&dom), 0);
}

#[test]
fn attributes_are_read_back() {
    let mut dom = page();
    dom.set_attr(4, "id", "a");
    dom.set_attr(4, "id", "b");
    dom.set_attr(4, "title", "t");
    assert_eq!(dom.get_attr(4, "id"), Some("b".to_string()));
    dom.remove_attr(4, "id");
    assert_eq!(dom.get_attr(4, "id"), None);
    assert_eq!(dom.get_attr(4, "title"), Some("t".to_string()));
}
