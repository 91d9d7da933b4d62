use mind_tree::encoding;
use mind_tree::encoding::{TreeType, Version};
use mind_tree::node::{path_iter, Node, NodeData, NodeError, NodeFilter, Tree};

fn name_at_line(tree: &Tree, line: usize) -> Option<String> {
    tree.get_node_by_line(line).map(|node| node.name(&tree.nodes))
}

fn name_at_path(tree: &mut Tree, path: &[&str]) -> Option<String> {
    tree.get_node_by_path(path, false)
        .map(|node| node.name(&tree.nodes))
}

fn index_at_path(tree: &mut Tree, path: &[&str]) -> Result<usize, NodeError> {
    tree.get_node_by_path(path, false)
        .unwrap()
        .get_index_from_parent(&tree.nodes)
}

fn insert_bottom(tree: &mut Tree, parent: Node, name: &str) -> Node {
    let node = Node::new(&mut tree.nodes, name, "");
    parent.insert_bottom(&mut tree.nodes, node);
    node
}

fn insert_top(tree: &mut Tree, parent: Node, name: &str) -> Node {
    let node = Node::new(&mut tree.nodes, name, "");
    parent.insert_top(&mut tree.nodes, node);
    node
}

// root/       expanded     line:0
//   a/        collapsed    line:1
//     x/
//     y/
//   b/        expanded     line:2
//     z/
//   c/
fn sample_tree() -> Tree {
    Tree::from_encoding(encoding::Tree {
        version: Version::default(),
        ty: TreeType::Root,
        node: encoding::Node::new_by_expand_state(
            "root",
            true,
            vec![
                encoding::Node::new_by_expand_state(
                    "a",
                    false,
                    vec![
                        encoding::Node::new_by_expand_state("x", false, vec![]),
                        encoding::Node::new_by_expand_state("y", false, vec![]),
                    ],
                ),
                encoding::Node::new_by_expand_state(
                    "b",
                    true,
                    vec![encoding::Node::new_by_expand_state("z", false, vec![])],
                ),
                encoding::Node::new_by_expand_state("c", false, vec![]),
            ],
        ),
    })
}

#[test]
fn path_iter_test() {
    assert_eq!(path_iter(""), Vec::<&str>::new());
    assert_eq!(path_iter("/"), Vec::<&str>::new());
    assert_eq!(path_iter("//"), Vec::<&str>::new());
    assert_eq!(path_iter("/Foo/Bar/Zoo"), vec!["Foo", "Bar", "Zoo"]);

    assert_eq!(path_iter("/A B"), vec!["A B"]);
}

#[test]
fn node_get_node_by_line_no_child() {
    let tree = Tree::from_encoding(encoding::Tree {
        version: Version::default(),
        ty: TreeType::Root,
        node: encoding::Node::new_by_expand_state("root", false, vec![]),
    });

    assert_eq!(name_at_line(&tree, 0).as_deref(), Some("root"));
    assert_eq!(tree.get_node_by_line(1), None);
    assert_eq!(tree.get_node_by_line(2), None);

    let tree = Tree::from_encoding(encoding::Tree {
        version: Version::default(),
        ty: TreeType::Root,
        node: encoding::Node::new_by_expand_state("root", true, vec![]),
    });

    assert_eq!(name_at_line(&tree, 0).as_deref(), Some("root"));
    assert_eq!(name_at_line(&tree, 0).as_deref(), Some("root"));
    assert_eq!(tree.get_node_by_line(1), None);
    assert_eq!(tree.get_node_by_line(2), None);
}

#[test]
fn node_get_node_by_line_with_children() {
    let tree = sample_tree();

    assert_eq!(name_at_line(&tree, 0).as_deref(), Some("root"));
    assert_eq!(name_at_line(&tree, 1).as_deref(), Some("a"));
    assert_eq!(name_at_line(&tree, 2).as_deref(), Some("b"));
    assert_eq!(name_at_line(&tree, 3).as_deref(), Some("z"));
    assert_eq!(name_at_line(&tree, 4).as_deref(), Some("c"));
}

#[test]
fn node_get_node_by_path_no_child() {
    let mut tree = Tree::from_encoding(encoding::Tree {
        version: Version::default(),
        ty: TreeType::Root,
        node: encoding::Node::new_by_expand_state("root", false, vec![]),
    });

    assert_eq!(name_at_line(&tree, 0).as_deref(), Some("root"));
    assert_eq!(tree.get_node_by_path(&["test"], false), None);

    let mut tree = Tree::from_encoding(encoding::Tree {
        version: Version::default(),
        ty: TreeType::Root,
        node: encoding::Node::new_by_expand_state("root", true, vec![]),
    });

    assert_eq!(name_at_line(&tree, 0).as_deref(), Some("root"));
    assert_eq!(tree.get_node_by_path(&["test"], false), None);
}

#[test]
fn node_get_node_by_path_with_children() {
    let mut tree = sample_tree();

    assert_eq!(name_at_line(&tree, 0).as_deref(), Some("root"));
    assert_eq!(name_at_path(&mut tree, &["a"]).as_deref(), Some("a"));
    assert_eq!(name_at_path(&mut tree, &["a", "x"]).as_deref(), Some("x"));
    assert_eq!(name_at_path(&mut tree, &["a", "y"]).as_deref(), Some("y"));
    assert_eq!(name_at_path(&mut tree, &["b"]).as_deref(), Some("b"));
    assert_eq!(name_at_path(&mut tree, &["b", "z"]).as_deref(), Some("z"));
    assert_eq!(name_at_path(&mut tree, &["c"]).as_deref(), Some("c"));
}

#[test]
fn get_index_from_parent() {
    let mut tree = sample_tree();

    assert!(matches!(index_at_path(&mut tree, &["a", "x"]), Ok(0)));
    assert!(matches!(index_at_path(&mut tree, &["a", "y"]), Ok(1)));
}

#[test]
fn insert() {
    let mut tree = Tree::new("root", "");
    let node = tree.get_node_by_line(0).unwrap();

    insert_bottom(&mut tree, node, "x");
    insert_bottom(&mut tree, node, "y");
    insert_bottom(&mut tree, node, "z");
    insert_top(&mut tree, node, "c");
    insert_top(&mut tree, node, "b");
    insert_top(&mut tree, node, "a");

    let d = Node::new(&mut tree.nodes, "d", "");
    tree.get_node_by_path(&["c"], false)
        .unwrap()
        .insert_after(&mut tree.nodes, d)
        .unwrap();

    let w = Node::new(&mut tree.nodes, "w", "");
    tree.get_node_by_path(&["x"], false)
        .unwrap()
        .insert_before(&mut tree.nodes, w)
        .unwrap();

    assert!(matches!(index_at_path(&mut tree, &["a"]), Ok(0)));
    assert!(matches!(index_at_path(&mut tree, &["b"]), Ok(1)));
    assert!(matches!(index_at_path(&mut tree, &["c"]), Ok(2)));
    assert!(matches!(index_at_path(&mut tree, &["d"]), Ok(3)));
    assert!(matches!(index_at_path(&mut tree, &["w"]), Ok(4)));
    assert!(matches!(index_at_path(&mut tree, &["x"]), Ok(5)));
    assert!(matches!(index_at_path(&mut tree, &["y"]), Ok(6)));
    assert!(matches!(index_at_path(&mut tree, &["z"]), Ok(7)));
}

#[test]
fn delete() {
    let mut tree = Tree::new("root", "");
    let node = tree.get_node_by_line(0).unwrap();

    insert_bottom(&mut tree, node, "x");
    insert_bottom(&mut tree, node, "y");

    let x = tree.get_node_by_path(&["x"], false).unwrap();
    insert_bottom(&mut tree, x, "a");
    insert_bottom(&mut tree, x, "b");
    insert_bottom(&mut tree, x, "c");

    let b = tree.get_node_by_path(&["x", "b"], false).unwrap();
    x.delete(&mut tree.nodes, b).unwrap();

    assert_eq!(tree.get_node_by_path(&["x", "b"], false), None);
}

#[test]
fn select_move() {
    let mut tree = Tree::new("root", "");
    let node = tree.get_node_by_line(0).unwrap();

    insert_bottom(&mut tree, node, "x");
    insert_bottom(&mut tree, node, "y");
    insert_bottom(&mut tree, node, "z");
    insert_top(&mut tree, node, "c");
    insert_top(&mut tree, node, "b");
    insert_top(&mut tree, node, "a");

    let a = tree.get_node_by_path(&["a"], false).unwrap();
    let b = tree.get_node_by_path(&["b"], false).unwrap();
    let c = tree.get_node_by_path(&["c"], false).unwrap();
    let x = tree.get_node_by_path(&["x"], false).unwrap();
    let y = tree.get_node_by_path(&["y"], false).unwrap();
    let z = tree.get_node_by_path(&["z"], false).unwrap();

    a.move_bottom(&mut tree.nodes, x).unwrap();
    a.move_top(&mut tree.nodes, y).unwrap();
    x.move_after(&mut tree.nodes, z).unwrap();
    z.move_before(&mut tree.nodes, b).unwrap();
    node.move_bottom(&mut tree.nodes, c).unwrap();

    assert!(matches!(index_at_path(&mut tree, &["a", "y"]), Ok(0)));
    assert!(matches!(index_at_path(&mut tree, &["a", "x"]), Ok(1)));
    assert!(matches!(index_at_path(&mut tree, &["a", "b"]), Ok(2)));
    assert!(matches!(index_at_path(&mut tree, &["a", "z"]), Ok(3)));
    assert!(matches!(index_at_path(&mut tree, &["c"]), Ok(1)));
}

#[test]
fn test_paths() {
    let mut tree = Tree::new("root", "");
    let node = tree.get_node_by_line(0).unwrap();

    insert_bottom(&mut tree, node, "x");
    insert_bottom(&mut tree, node, "y");

    let x = tree.get_node_by_path(&["x"], false).unwrap();
    insert_bottom(&mut tree, x, "a");
    insert_bottom(&mut tree, x, "b");
    insert_bottom(&mut tree, x, "c");

    assert_eq!(
        node.paths(&tree.nodes, "", NodeFilter::Always),
        vec!["", "/x", "/x/a", "/x/b", "/x/c", "/y"],
    );
}

#[test]
fn data() {
    let mut tree = Tree::new("test", "");
    let node = tree.root();

    assert_eq!(node.data(&tree.nodes), None);

    assert!(matches!(
        node.set_data(&mut tree.nodes, NodeData::file("/tmp/foo.md")),
        Ok(())
    ));
    assert_eq!(node.data(&tree.nodes), Some(NodeData::file("/tmp/foo.md")));

    assert!(matches!(
        node.set_data(&mut tree.nodes, NodeData::file("/tmp/bar.rs")),
        Err(NodeError::FileDataAlreadyExists)
    ));
    assert_eq!(node.data(&tree.nodes), Some(NodeData::file("/tmp/foo.md")));

    assert!(matches!(
        node.set_data(&mut tree.nodes, NodeData::link("https://foo.bar")),
        Err(NodeError::MismatchDataType)
    ));
}
