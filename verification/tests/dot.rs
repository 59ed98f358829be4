use swaydot::dot::tree_to_dot;
use swaydot::strings::push_decimal;
use swaydot::tree::{Node, NodeLayout, NodeType};

fn node() -> Node {
    Node {
        id: 1,
        name: None,
        node_type: NodeType::Con,
        layout: NodeLayout::Tabbed,
        nodes: Vec::new(),
        floating_nodes: Vec::new(),
    }
}

fn named(id: i64, name: &str, nodes: Vec<Node>) -> Node {
    let mut node = node();
    node.id = id;
    node.name = Some(name.to_string());
    node.nodes = nodes;
    node
}

fn tree() -> Node {
    let mut grandchild = node();
    grandchild.id = 3;
    grandchild.name = Some("grandchild".to_string());
    let mut child = node();
    child.id = 2;
    child.name = Some("child".to_string());
    child.nodes = vec![grandchild];
    let mut root = node();
    root.id = 1;
    root.name = Some("root".to_string());
    root.nodes = vec![child];
    root
}

#[test]
fn translates_trees_with_one_element() {
    let mut root = node();
    root.name = Some("root".to_string());
    let dot = tree_to_dot(&root, |node| {
        format!("label: {}", node.name.clone().unwrap())
    });
    assert_eq!(dot, "digraph g {\nn1 [ label = \"label: root\" ];\n}\n");
}

#[test]
fn translates_child_nodes() {
    let root = tree();
    let dot = tree_to_dot(&root, |node| {
        format!("label: {}", node.name.clone().unwrap())
    });
    assert!(
        dot.lines()
            .any(|line| line == "n2 [ label = \"label: child\" ];"),
        "{:?}",
        dot
    );
}

#[test]
fn translates_edges() {
    let root = tree();
    let dot = tree_to_dot(&root, |node| {
        format!("label: {}", node.name.clone().unwrap())
    });
    assert!(dot.lines().any(|line| line == "n1 -> n2;"), "{:?}", dot);
}

#[test]
fn translates_nested_edges() {
    let root = tree();
    let dot = tree_to_dot(&root, |node| {
        format!("label: {}", node.name.clone().unwrap())
    });
    assert!(dot.lines().any(|line| line == "n2 -> n3;"), "{:?}", dot);
}

#[test]
fn renders_the_chain_of_three_in_full() {
    let root = tree();
    let dot = tree_to_dot(&root, |node| node.name.clone().unwrap());
    assert_eq!(
        dot,
        "digraph g {\n\
         n1 [ label = \"root\" ];\n\
         n1 -> n2;\n\
         n2 [ label = \"child\" ];\n\
         n2 -> n3;\n\
         n3 [ label = \"grandchild\" ];\n\
         }\n"
    );
    assert_eq!(dot.lines().filter(|line| line.contains(" [ label = ")).count(), 3);
}

#[test]
fn always_has_header_and_footer() {
    let single = node();
    let dot = tree_to_dot(&single, |_| String::new());
    assert!(dot.starts_with("digraph g {\n"));
    assert!(dot.ends_with("}\n"));
    let dot = tree_to_dot(&tree(), |_| "}\n".to_string());
    assert!(dot.starts_with("digraph g {\n"));
    assert!(dot.ends_with("}\n"));
}

#[test]
fn edges_follow_their_node_before_the_children_are_declared() {
    let root = named(
        10,
        "r",
        vec![
            named(20, "a", vec![named(21, "a1", vec![]), named(22, "a2", vec![])]),
            named(30, "b", vec![named(31, "b1", vec![])]),
            named(40, "c", vec![]),
        ],
    );
    let dot = tree_to_dot(&root, |node| node.name.clone().unwrap());
    assert_eq!(
        dot,
        "digraph g {\n\
         n10 [ label = \"r\" ];\n\
         n10 -> n20;\n\
         n10 -> n30;\n\
         n10 -> n40;\n\
         n20 [ label = \"a\" ];\n\
         n20 -> n21;\n\
         n20 -> n22;\n\
         n21 [ label = \"a1\" ];\n\
         n22 [ label = \"a2\" ];\n\
         n30 [ label = \"b\" ];\n\
         n30 -> n31;\n\
         n31 [ label = \"b1\" ];\n\
         n40 [ label = \"c\" ];\n\
         }\n"
    );
}

#[test]
fn floating_children_are_left_out() {
    let mut root = named(1, "root", vec![named(2, "tiled", vec![])]);
    root.floating_nodes = vec![named(3, "floating", vec![named(4, "inner", vec![])])];
    let dot = tree_to_dot(&root, |node| node.name.clone().unwrap());
    assert_eq!(
        dot,
        "digraph g {\n\
         n1 [ label = \"root\" ];\n\
         n1 -> n2;\n\
         n2 [ label = \"tiled\" ];\n\
         }\n"
    );
}

#[test]
fn labels_are_inserted_as_they_are() {
    let root = named(1, "root", vec![]);
    let dot = tree_to_dot(&root, |_| "a \"bare\" quote".to_string());
    assert_eq!(dot, "digraph g {\nn1 [ label = \"a \"bare\" quote\" ];\n}\n");
}

#[test]
fn repeated_ids_are_rendered_twice() {
    let root = named(1, "root", vec![named(1, "again", vec![])]);
    let dot = tree_to_dot(&root, |node| node.name.clone().unwrap());
    assert_eq!(
        dot,
        "digraph g {\n\
         n1 [ label = \"root\" ];\n\
         n1 -> n1;\n\
         n1 [ label = \"again\" ];\n\
         }\n"
    );
}

#[test]
fn ids_are_written_in_decimal() {
    let root = named(
        i64::MAX,
        "root",
        vec![named(0, "zero", vec![]), named(-7, "minus", vec![]), named(i64::MIN, "least", vec![])],
    );
    let dot = tree_to_dot(&root, |node| node.name.clone().unwrap());
    assert_eq!(
        dot,
        "digraph g {\n\
         n9223372036854775807 [ label = \"root\" ];\n\
         n9223372036854775807 -> n0;\n\
         n9223372036854775807 -> n-7;\n\
         n9223372036854775807 -> n-9223372036854775808;\n\
         n0 [ label = \"zero\" ];\n\
         n-7 [ label = \"minus\" ];\n\
         n-9223372036854775808 [ label = \"least\" ];\n\
         }\n"
    );
}

#[test]
fn decimal_matches_the_standard_rendering() {
    for value in [0i64, 1, 9, 10, 11, 99, 100, 101, 12345, -1, -10, -12345, i64::MAX, i64::MIN] {
        let mut out = String::from("x");
        push_decimal(&mut out, value);
        assert_eq!(out, format!("x{}", value));
    }
}
