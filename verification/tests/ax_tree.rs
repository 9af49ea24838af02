use tau_agent::accessibility::format_accessibility_tree;
use tau_agent::ax_tree::{accessibility_tree, ax_id, AxId, RawAxNode};

fn node(id: AxId, parent: bool, children: Vec<AxId>, role: &str, name: Option<&str>) -> RawAxNode {
    RawAxNode {
        node_id: Some(id),
        has_parent: parent,
        backend_dom_node_id: Some(7),
        child_ids: children,
        chrome_role: None,
        class_name: None,
        name: name.map(|s| s.to_string()),
        role: Some(role.to_string()),
    }
}

#[test]
fn ids_come_as_numbers_or_numeric_text() {
    assert_eq!(ax_id(&AxId::Int(-3)), Some(-3));
    assert_eq!(ax_id(&AxId::Text("42".to_string())), Some(42));
    assert_eq!(ax_id(&AxId::Text("-17".to_string())), Some(-17));
    assert_eq!(ax_id(&AxId::Text("+5".to_string())), Some(5));
    assert_eq!(ax_id(&AxId::Text("4x".to_string())), None);
    assert_eq!(ax_id(&AxId::Text("".to_string())), None);
    assert_eq!(ax_id(&AxId::Text("99999999999999999999".to_string())), None);
    assert_eq!(ax_id(&AxId::Other), None);
}

#[test]
fn tree_from_parentless_root() {
    let raw = vec![
        node(AxId::Text("2".to_string()), true, vec![], "button", Some("Go")),
        node(AxId::Int(1), false, vec![AxId::Int(2), AxId::Int(99), AxId::Text("3".to_string())], "RootWebArea", Some("Page")),
        node(AxId::Int(3), true, vec![], "link", Some("Docs")),
    ];
    let tree = accessibility_tree(&raw, &None);
    assert_eq!(tree.len(), 1);
    assert_eq!(tree[0].role.as_deref(), Some("RootWebArea"));
    assert_eq!(tree[0].child_nodes.len(), 2);
    assert_eq!(tree[0].child_nodes[0].name.as_deref(), Some("Go"));
    assert_eq!(tree[0].child_nodes[1].name.as_deref(), Some("Docs"));
    let text = format_accessibility_tree(&tree);
    assert!(text.contains("Go"));
}

#[test]
fn named_root_wins_and_missing_root_gives_nothing() {
    let raw = vec![
        node(AxId::Int(1), false, vec![AxId::Int(2)], "RootWebArea", None),
        node(AxId::Int(2), true, vec![], "button", Some("Go")),
    ];
    let tree = accessibility_tree(&raw, &Some(AxId::Int(2)));
    assert_eq!(tree.len(), 1);
    assert_eq!(tree[0].role.as_deref(), Some("button"));
    assert!(accessibility_tree(&raw, &Some(AxId::Int(5))).is_empty());
    assert!(accessibility_tree(&vec![], &None).is_empty());
}

#[test]
fn later_node_with_same_id_replaces_earlier() {
    let raw = vec![
        node(AxId::Int(1), false, vec![], "old", None),
        node(AxId::Int(1), false, vec![], "new", None),
    ];
    let tree = accessibility_tree(&raw, &None);
    assert_eq!(tree.len(), 1);
    assert_eq!(tree[0].role.as_deref(), Some("new"));
}

#[test]
fn cyclic_ids_stop_after_as_many_levels_as_nodes() {
    let raw = vec![
        node(AxId::Int(1), false, vec![AxId::Int(2)], "a", None),
        node(AxId::Int(2), true, vec![AxId::Int(1)], "b", None),
    ];
    let tree = accessibility_tree(&raw, &None);
    assert_eq!(tree[0].child_nodes.len(), 1);
    assert_eq!(tree[0].child_nodes[0].child_nodes.len(), 1);
    assert!(tree[0].child_nodes[0].child_nodes[0].child_nodes.is_empty());
}

#[test]
fn ax_id_parses_text_as_i64() {
    let text = |s: &str| ax_id(&AxId::Text(s.to_string()));
    assert_eq!(text("42"), Some(42));
    assert_eq!(text("+7"), Some(7));
    assert_eq!(text("-12"), Some(-12));
    assert_eq!(text("-9223372036854775808"), Some(i64::MIN));
    assert_eq!(text("9223372036854775807"), Some(i64::MAX));
    assert_eq!(text("9223372036854775808"), None);
    assert_eq!(text("-9223372036854775809"), None);
    assert_eq!(text("-"), None);
    assert_eq!(text(""), None);
    assert_eq!(text("1a"), None);
    assert_eq!(ax_id(&AxId::Int(3)), Some(3));
    assert_eq!(ax_id(&AxId::Other), None);
}
