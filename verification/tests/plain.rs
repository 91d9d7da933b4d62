use mind_tree::plain::{Node, Text, Tree, Version};

fn contents(name: &str) -> Vec<Text> {
    vec![Text {
        text: name.to_owned(),
    }]
}

// root/       expanded     line:0
//   a/        collapsed    line:1
//     x/
//     y/
//   b/        expanded     line:2
//     z/
//   c/
fn sample_tree() -> Tree {
    Tree {
        version: Version::default(),
        ty: 0,
        node: Node::new_by_expand_state(
            "root",
            true,
            vec![
                Node::new_by_expand_state(
                    "a",
                    false,
                    vec![
                        Node::new_by_expand_state("x", false, vec![]),
                        Node::new_by_expand_state("y", false, vec![]),
                    ],
                ),
                Node::new_by_expand_state(
                    "b",
                    true,
                    vec![Node::new_by_expand_state("z", false, vec![])],
                ),
                Node::new_by_expand_state("c", false, vec![]),
            ],
        ),
    }
}

#[test]
fn lib_get_node_by_line_no_child() {
    let tree = Tree {
        version: Version::default(),
        ty: 0,
        node: Node::new_by_expand_state("root", false, vec![]),
    };

    assert_eq!(
        tree.get_node_by_line_nb(0).map(|node| &node.contents),
        Some(&contents("root"))
    );
    assert_eq!(tree.get_node_by_line_nb(1), None);
    assert_eq!(tree.get_node_by_line_nb(2), None);

    let tree = Tree {
        version: Version::default(),
        ty: 0,
        node: Node::new_by_expand_state("root", true, vec![]),
    };

    assert_eq!(
        tree.get_node_by_line_nb(0).map(|node| &node.contents),
        Some(&contents("root"))
    );
    assert_eq!(tree.get_node_by_line_nb(1), None);
    assert_eq!(tree.get_node_by_line_nb(2), None);
}

#[test]
fn lib_get_node_by_line_with_children() {
    let tree = sample_tree();

    assert_eq!(
        tree.get_node_by_line_nb(0).map(|node| &node.contents),
        Some(&contents("root"))
    );
    assert_eq!(
        tree.get_node_by_line_nb(1).map(|node| &node.contents),
        Some(&contents("a"))
    );
    assert_eq!(
        tree.get_node_by_line_nb(2).map(|node| &node.contents),
        Some(&contents("b"))
    );
    assert_eq!(
        tree.get_node_by_line_nb(3).map(|node| &node.contents),
        Some(&contents("z"))
    );
    assert_eq!(
        tree.get_node_by_line_nb(4).map(|node| &node.contents),
        Some(&contents("c"))
    );
}

#[test]
fn lib_get_node_by_path_no_child() {
    let tree = Tree {
        version: Version::default(),
        ty: 0,
        node: Node::new_by_expand_state("root", false, vec![]),
    };

    assert_eq!(
        tree.get_node_by_line_nb(0).map(|node| &node.contents),
        Some(&contents("root"))
    );
    assert_eq!(tree.get_node_by_path(&["test"]), None);

    let tree = Tree {
        version: Version::default(),
        ty: 0,
        node: Node::new_by_expand_state("root", true, vec![]),
    };

    assert_eq!(
        tree.get_node_by_line_nb(0).map(|node| &node.contents),
        Some(&contents("root"))
    );
    assert_eq!(tree.get_node_by_path(&["test"]), None);
}

#[test]
fn lib_get_node_by_path_with_children() {
    let tree = sample_tree();

    assert_eq!(
        tree.get_node_by_line_nb(0).map(|node| &node.contents),
        Some(&contents("root"))
    );
    assert_eq!(
        tree.get_node_by_path(&["a"]).map(|node| &node.contents),
        Some(&contents("a"))
    );
    assert_eq!(
        tree.get_node_by_path(&["a", "x"]).map(|node| &node.contents),
        Some(&contents("x"))
    );
    assert_eq!(
        tree.get_node_by_path(&["a", "y"]).map(|node| &node.contents),
        Some(&contents("y"))
    );
    assert_eq!(
        tree.get_node_by_path(&["b"]).map(|node| &node.contents),
        Some(&contents("b"))
    );
    assert_eq!(
        tree.get_node_by_path(&["b", "z"]).map(|node| &node.contents),
        Some(&contents("z"))
    );
    assert_eq!(
        tree.get_node_by_path(&["c"]).map(|node| &node.contents),
        Some(&contents("c"))
    );
}

#[test]
fn line_past_the_last_row_of_a_collapsed_subtree() {
    let tree = sample_tree();
    assert_eq!(tree.get_node_by_line_nb(5), None);
    let (left, found) = tree.node.get_node_by_line_nb(7);
    assert_eq!(found, None);
    assert_eq!(left, 2);
}

#[test]
fn set_name_replaces_the_last_text() {
    let mut node = Node::new_by_expand_state("old", false, vec![]);
    node.contents.insert(
        0,
        Text {
            text: "first".to_owned(),
        },
    );
    let prev = node.set_name("new");
    assert_eq!(prev, "old");
    assert_eq!(node.contents.len(), 2);
    assert_eq!(node.contents[0].text, "first");
    assert_eq!(node.contents[1].text, "new");
}

#[test]
fn set_name_on_a_node_without_text() {
    let mut node = Node::new_by_expand_state("x", true, vec![]);
    node.contents.clear();
    let prev = node.set_name("named");
    assert_eq!(prev, "");
    assert_eq!(node.contents, contents("named"));
    assert!(node.is_expanded);
}

#[test]
fn path_lookup_goes_by_the_first_text() {
    let mut child = Node::new_by_expand_state("first", false, vec![]);
    child.set_name("last");
    child.contents.insert(
        0,
        Text {
            text: "first".to_owned(),
        },
    );
    let root = Node::new_by_expand_state("root", true, vec![child]);
    assert!(root.get_node_by_path(&["first"]).is_some());
    assert!(root.get_node_by_path(&["last"]).is_none());
    assert_eq!(root.get_node_by_path(&[]), Some(&root));
}
