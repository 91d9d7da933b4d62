use mind_tree::node::{Arena, Node, NodeData, NodeError, NodeFilter, Tree};

fn child(arena: &mut Arena, parent: Node, name: &str) -> Node {
    let node = Node::new(arena, name, "");
    parent.insert_bottom(arena, node);
    node
}

fn names(arena: &Arena, nodes: &[Node]) -> Vec<String> {
    nodes.iter().map(|n| n.name(arena)).collect()
}

fn child_names(arena: &Arena, parent: Node) -> Vec<String> {
    names(arena, &parent.children(arena).into_iter())
}

/// Every child points back at its parent and at its two neighbours, and no
/// child stands twice in the list.
fn assert_links(arena: &Arena, parent: Node) {
    let kids = parent.children(arena).into_iter();
    for (i, kid) in kids.iter().enumerate() {
        assert_eq!(kid.parent(arena), Ok(parent));
        assert_eq!(kids.iter().filter(|k| *k == kid).count(), 1);
        assert_eq!(kid.prev(arena), if i > 0 { Some(kids[i - 1]) } else { None });
        assert_eq!(kid.next(arena), kids.get(i + 1).copied());
        assert_eq!(kid.get_index(arena, &parent), Ok(i));
    }
}

#[test]
fn new_node_is_trimmed_collapsed_and_alone() {
    let mut arena = Arena::new();
    assert_eq!(arena.len(), 0);
    let node = Node::new(&mut arena, "  hello world \t", "  \u{f07b} ");
    assert_eq!(arena.len(), 1);
    assert!(arena.contains(node));
    assert_eq!(node.name(&arena), "hello world");
    assert_eq!(node.icon(&arena), "\u{f07b}  ");
    assert!(!node.is_expanded(&arena));
    assert_eq!(node.data(&arena), None);
    assert_eq!(node.parent(&arena), Err(NodeError::NoParent));
    assert_eq!(node.prev(&arena), None);
    assert_eq!(node.next(&arena), None);
    assert!(!node.has_children(&arena));
}

#[test]
fn empty_icon_is_shown_as_nothing() {
    let mut arena = Arena::new();
    let node = Node::new(&mut arena, "n", "   ");
    assert_eq!(node.icon(&arena), "");
    node.set_icon(&mut arena, "  x ");
    assert_eq!(node.icon(&arena), "x  ");
    node.set_icon(&mut arena, "");
    assert_eq!(node.icon(&arena), "");
}

#[test]
fn set_name_trims_and_refuses_the_empty_name() {
    let mut arena = Arena::new();
    let node = Node::new(&mut arena, "before", "");
    assert_eq!(node.set_name(&mut arena, "  after  "), Ok(()));
    assert_eq!(node.name(&arena), "after");
    assert_eq!(node.set_name(&mut arena, " \t\n "), Err(NodeError::EmptyName));
    assert_eq!(node.set_name(&mut arena, ""), Err(NodeError::EmptyName));
    assert_eq!(node.name(&arena), "after");
}

#[test]
fn a_node_may_start_with_an_empty_name() {
    let mut arena = Arena::new();
    let node = Node::new(&mut arena, "   ", "");
    assert_eq!(node.name(&arena), "");
}

#[test]
fn expansion_flag() {
    let mut arena = Arena::new();
    let node = Node::new(&mut arena, "n", "");
    node.toggle_expand(&mut arena);
    assert!(node.is_expanded(&arena));
    node.toggle_expand(&mut arena);
    assert!(!node.is_expanded(&arena));
    node.set_expanded(&mut arena, true);
    node.set_expanded(&mut arena, true);
    assert!(node.is_expanded(&arena));
}

#[test]
fn insert_top_and_bottom_keep_the_links() {
    let mut arena = Arena::new();
    let root = Node::new(&mut arena, "root", "");
    for name in ["x", "y", "z"] {
        child(&mut arena, root, name);
    }
    for name in ["c", "b", "a"] {
        let node = Node::new(&mut arena, name, "");
        root.insert_top(&mut arena, node);
    }
    assert_eq!(child_names(&arena, root), ["a", "b", "c", "x", "y", "z"]);
    assert_links(&arena, root);
    assert!(root.has_children(&arena));
}

#[test]
fn insert_before_and_after_keep_the_links() {
    let mut arena = Arena::new();
    let root = Node::new(&mut arena, "root", "");
    let a = child(&mut arena, root, "a");
    let b = child(&mut arena, root, "b");
    let first = Node::new(&mut arena, "first", "");
    assert_eq!(a.insert_before(&mut arena, first), Ok(()));
    let last = Node::new(&mut arena, "last", "");
    assert_eq!(b.insert_after(&mut arena, last), Ok(()));
    let mid = Node::new(&mut arena, "mid", "");
    assert_eq!(a.insert_after(&mut arena, mid), Ok(()));
    assert_eq!(child_names(&arena, root), ["first", "a", "mid", "b", "last"]);
    assert_links(&arena, root);
}

#[test]
fn insert_beside_a_root_has_no_parent() {
    let mut arena = Arena::new();
    let root = Node::new(&mut arena, "root", "");
    let node = Node::new(&mut arena, "n", "");
    assert_eq!(root.insert_before(&mut arena, node), Err(NodeError::NoParent));
    assert_eq!(root.insert_after(&mut arena, node), Err(NodeError::NoParent));
    assert_eq!(node.parent(&arena), Err(NodeError::NoParent));
    assert!(!root.has_children(&arena));
}

#[test]
fn delete_splices_the_siblings_and_frees_the_child() {
    let mut arena = Arena::new();
    let root = Node::new(&mut arena, "root", "");
    let a = child(&mut arena, root, "a");
    let b = child(&mut arena, root, "b");
    let c = child(&mut arena, root, "c");
    let below = child(&mut arena, b, "below");

    assert_eq!(root.delete(&mut arena, b), Ok(()));
    assert_eq!(child_names(&arena, root), ["a", "c"]);
    assert_eq!(a.next(&arena), Some(c));
    assert_eq!(c.prev(&arena), Some(a));
    assert_links(&arena, root);
    assert_eq!(b.parent(&arena), Err(NodeError::NoParent));
    assert_eq!(b.prev(&arena), None);
    assert_eq!(b.next(&arena), None);
    assert_eq!(b.get_index_from_parent(&arena), Err(NodeError::NoParent));
    assert_eq!(child_names(&arena, b), ["below"]);
    assert_eq!(below.parent(&arena), Ok(b));
}

#[test]
fn delete_twice_fails_the_second_time() {
    let mut arena = Arena::new();
    let root = Node::new(&mut arena, "root", "");
    let only = child(&mut arena, root, "only");
    assert_eq!(root.delete(&mut arena, only), Ok(()));
    assert_eq!(
        root.delete(&mut arena, only),
        Err(NodeError::NotContainedInParent)
    );
    assert!(!root.has_children(&arena));
}

#[test]
fn delete_of_a_stranger_changes_nothing() {
    let mut arena = Arena::new();
    let root = Node::new(&mut arena, "root", "");
    let a = child(&mut arena, root, "a");
    let other = Node::new(&mut arena, "other", "");
    let inner = child(&mut arena, a, "inner");
    assert_eq!(
        root.delete(&mut arena, other),
        Err(NodeError::NotContainedInParent)
    );
    assert_eq!(
        root.delete(&mut arena, inner),
        Err(NodeError::NotContainedInParent)
    );
    assert_eq!(other.get_index(&arena, &root), Err(NodeError::NotContainedInParent));
    assert_eq!(child_names(&arena, root), ["a"]);
    assert_eq!(inner.parent(&arena), Ok(a));
}

#[test]
fn scripted_moves() {
    let mut arena = Arena::new();
    let root = Node::new(&mut arena, "root", "");
    let x = child(&mut arena, root, "x");
    let y = child(&mut arena, root, "y");
    let z = child(&mut arena, root, "z");
    let mut top = Vec::new();
    for name in ["c", "b", "a"] {
        let node = Node::new(&mut arena, name, "");
        root.insert_top(&mut arena, node);
        top.push(node);
    }
    let (c, b, a) = (top[0], top[1], top[2]);
    assert_eq!(child_names(&arena, root), ["a", "b", "c", "x", "y", "z"]);

    assert_eq!(a.move_bottom(&mut arena, x), Ok(()));
    assert_eq!(a.move_top(&mut arena, y), Ok(()));
    assert_eq!(x.move_after(&mut arena, z), Ok(()));
    assert_eq!(z.move_before(&mut arena, b), Ok(()));
    assert_eq!(root.move_bottom(&mut arena, c), Ok(()));

    assert_eq!(child_names(&arena, a), ["y", "x", "b", "z"]);
    assert_eq!(child_names(&arena, root), ["a", "c"]);
    assert_eq!(c.get_index_from_parent(&arena), Ok(1));
    assert_links(&arena, a);
    assert_links(&arena, root);
}

#[test]
fn move_of_a_node_without_parent_fails() {
    let mut arena = Arena::new();
    let root = Node::new(&mut arena, "root", "");
    let a = child(&mut arena, root, "a");
    let loose = Node::new(&mut arena, "loose", "");
    assert_eq!(a.move_top(&mut arena, loose), Err(NodeError::NoParent));
    assert_eq!(a.move_bottom(&mut arena, loose), Err(NodeError::NoParent));
    assert_eq!(a.move_before(&mut arena, loose), Err(NodeError::NoParent));
    assert_eq!(a.move_after(&mut arena, loose), Err(NodeError::NoParent));
    assert_eq!(child_names(&arena, root), ["a"]);
    assert!(!a.has_children(&arena));
}

#[test]
fn move_beside_a_root_leaves_the_node_without_parent() {
    let mut arena = Arena::new();
    let root = Node::new(&mut arena, "root", "");
    let a = child(&mut arena, root, "a");
    let b = child(&mut arena, root, "b");
    assert_eq!(root.move_before(&mut arena, a), Err(NodeError::NoParent));
    assert_eq!(a.parent(&arena), Err(NodeError::NoParent));
    assert_eq!(child_names(&arena, root), ["b"]);
    assert_eq!(b.prev(&arena), None);
}

#[test]
fn move_beside_itself_leaves_the_node_without_parent() {
    let mut arena = Arena::new();
    let root = Node::new(&mut arena, "root", "");
    let a = child(&mut arena, root, "a");
    assert_eq!(a.move_after(&mut arena, a), Err(NodeError::NoParent));
    assert_eq!(a.parent(&arena), Err(NodeError::NoParent));
    assert!(!root.has_children(&arena));
}

#[test]
fn move_within_the_same_parent() {
    let mut arena = Arena::new();
    let root = Node::new(&mut arena, "root", "");
    let a = child(&mut arena, root, "a");
    let b = child(&mut arena, root, "b");
    let c = child(&mut arena, root, "c");
    assert_eq!(root.move_bottom(&mut arena, a), Ok(()));
    assert_eq!(child_names(&arena, root), ["b", "c", "a"]);
    assert_eq!(root.move_top(&mut arena, c), Ok(()));
    assert_eq!(child_names(&arena, root), ["c", "b", "a"]);
    assert_eq!(c.move_before(&mut arena, a), Ok(()));
    assert_eq!(child_names(&arena, root), ["a", "c", "b"]);
    assert_eq!(b.move_after(&mut arena, a), Ok(()));
    assert_eq!(child_names(&arena, root), ["c", "b", "a"]);
    assert_links(&arena, root);
    let _ = b;
}

#[test]
fn ancestors() {
    let mut arena = Arena::new();
    let root = Node::new(&mut arena, "root", "");
    let a = child(&mut arena, root, "a");
    let deep = child(&mut arena, a, "deep");
    let b = child(&mut arena, root, "b");
    assert!(arena.is_ancestor_or_self(root, deep));
    assert!(arena.is_ancestor_or_self(a, deep));
    assert!(arena.is_ancestor_or_self(deep, deep));
    assert!(!arena.is_ancestor_or_self(b, deep));
    assert!(!arena.is_ancestor_or_self(deep, root));
}

#[test]
fn data_rules() {
    let mut arena = Arena::new();
    let file = Node::new(&mut arena, "file", "");
    assert_eq!(
        file.set_data(&mut arena, NodeData::file("")),
        Err(NodeError::NoData)
    );
    assert_eq!(
        file.set_data(&mut arena, NodeData::link("")),
        Err(NodeError::NoData)
    );
    assert_eq!(file.data(&arena), None);
    assert_eq!(file.set_data(&mut arena, NodeData::file("/first.md")), Ok(()));
    assert_eq!(
        file.set_data(&mut arena, NodeData::link("https://u")),
        Err(NodeError::MismatchDataType)
    );
    assert_eq!(file.data(&arena), Some(NodeData::file("/first.md")));
    assert_eq!(
        file.set_data(&mut arena, NodeData::file("/second.md")),
        Err(NodeError::FileDataAlreadyExists)
    );
    assert_eq!(file.data(&arena), Some(NodeData::File("/first.md".to_owned())));

    let link = Node::new(&mut arena, "link", "");
    assert_eq!(link.set_data(&mut arena, NodeData::link("https://a")), Ok(()));
    assert_eq!(link.set_data(&mut arena, NodeData::link("https://b")), Ok(()));
    assert_eq!(link.data(&arena), Some(NodeData::link("https://b")));
    assert_eq!(link.set_data(&mut arena, NodeData::link("")), Ok(()));
    assert_eq!(link.data(&arena), Some(NodeData::Link(String::new())));
    assert_eq!(
        link.set_data(&mut arena, NodeData::file("/p")),
        Err(NodeError::MismatchDataType)
    );
}

#[test]
fn filters() {
    assert_eq!(NodeFilter::new(true, true), NodeFilter::FileOrLink);
    assert_eq!(NodeFilter::new(true, false), NodeFilter::FileOnly);
    assert_eq!(NodeFilter::new(false, true), NodeFilter::LinkOnly);
    assert_eq!(NodeFilter::new(false, false), NodeFilter::Always);
    assert_eq!(NodeFilter::default(), NodeFilter::Always);

    let mut arena = Arena::new();
    let plain = Node::new(&mut arena, "plain", "");
    let file = Node::new(&mut arena, "file", "");
    let link = Node::new(&mut arena, "link", "");
    file.set_data(&mut arena, NodeData::file("/f")).unwrap();
    link.set_data(&mut arena, NodeData::link("l")).unwrap();
    let table = [
        (NodeFilter::Always, [true, true, true]),
        (NodeFilter::FileOrLink, [false, true, true]),
        (NodeFilter::FileOnly, [false, true, false]),
        (NodeFilter::LinkOnly, [false, false, true]),
    ];
    for (filter, expected) in table {
        assert_eq!(
            [
                filter.accepts(&arena, &plain),
                filter.accepts(&arena, &file),
                filter.accepts(&arena, &link)
            ],
            expected
        );
    }
}

#[test]
fn paths_with_filters_and_prefixes() {
    let mut arena = Arena::new();
    let root = Node::new(&mut arena, "root", "");
    let x = child(&mut arena, root, "x");
    let y = child(&mut arena, root, "y");
    let a = child(&mut arena, x, "a");
    let b = child(&mut arena, x, "b");
    a.set_data(&mut arena, NodeData::file("/a.md")).unwrap();
    b.set_data(&mut arena, NodeData::link("https://b")).unwrap();
    y.set_data(&mut arena, NodeData::file("/y.md")).unwrap();

    assert_eq!(
        root.paths(&arena, "/", NodeFilter::Always),
        ["/", "/x", "/x/a", "/x/b", "/y"]
    );
    assert_eq!(
        root.paths(&arena, "/top", NodeFilter::Always),
        ["/top", "/top/x", "/top/x/a", "/top/x/b", "/top/y"]
    );
    assert_eq!(
        root.paths(&arena, "", NodeFilter::FileOnly),
        ["/x/a", "/y"]
    );
    assert_eq!(root.paths(&arena, "", NodeFilter::LinkOnly), ["/x/b"]);
    assert_eq!(
        root.paths(&arena, "", NodeFilter::FileOrLink),
        ["/x/a", "/x/b", "/y"]
    );
    assert_eq!(x.paths(&arena, "/x", NodeFilter::Always), ["/x", "/x/a", "/x/b"]);
    assert_eq!(a.paths(&arena, "here", NodeFilter::LinkOnly), Vec::<String>::new());
}

#[test]
fn write_paths_puts_one_path_on_each_line() {
    let mut arena = Arena::new();
    let root = Node::new(&mut arena, "root", "");
    let x = child(&mut arena, root, "x");
    child(&mut arena, x, "a");
    child(&mut arena, root, "y");
    let mut out = String::from("> ");
    root.write_paths(&arena, "/", NodeFilter::Always, &mut out);
    assert_eq!(out, "> /\n/x\n/x/a\n/y\n");
    let mut none = String::new();
    root.write_paths(&arena, "/", NodeFilter::FileOnly, &mut none);
    assert_eq!(none, "");
}

#[test]
fn children_views() {
    let mut arena = Arena::new();
    let root = Node::new(&mut arena, "root", "");
    let empty = root.children(&arena);
    assert_eq!(empty.first(), None);
    assert_eq!(empty.last(), None);
    assert!(empty.into_iter().is_empty());
    let a = child(&mut arena, root, "a");
    let b = child(&mut arena, root, "b");
    let c = child(&mut arena, root, "c");
    let kids = root.children(&arena);
    assert_eq!(kids.into_iter(), [a, b, c]);
    assert_eq!(kids.all_except_last(), [a, b]);
    assert_eq!(kids.first(), Some(a));
    assert_eq!(kids.last(), Some(c));
}

#[test]
fn lines_follow_the_expansion() {
    let mut tree = Tree::new("root", "");
    let root = tree.root();
    assert_eq!(tree.get_node_by_line(0), Some(root));
    let a = child(&mut tree.nodes, root, "a");
    let x = child(&mut tree.nodes, a, "x");
    let y = child(&mut tree.nodes, a, "y");
    let b = child(&mut tree.nodes, root, "b");
    let z = child(&mut tree.nodes, b, "z");
    let c = child(&mut tree.nodes, root, "c");

    // all collapsed: only the root shows
    assert_eq!(tree.get_node_by_line(0), Some(root));
    assert_eq!(tree.get_node_by_line(1), None);

    root.set_expanded(&mut tree.nodes, true);
    b.set_expanded(&mut tree.nodes, true);
    let rows: Vec<_> = (0..6).map(|line| tree.get_node_by_line(line)).collect();
    assert_eq!(rows, [Some(root), Some(a), Some(b), Some(z), Some(c), None]);

    a.set_expanded(&mut tree.nodes, true);
    let rows: Vec<_> = (0..8).map(|line| tree.get_node_by_line(line)).collect();
    assert_eq!(
        rows,
        [Some(root), Some(a), Some(x), Some(y), Some(b), Some(z), Some(c), None]
    );
    assert_eq!(a.get_node_by_line(&tree.nodes, 2), (0, Some(y)));
    assert_eq!(a.get_node_by_line(&tree.nodes, 5), (2, None));
}

#[test]
fn paths_with_and_without_creation() {
    let mut tree = Tree::new("root", "");
    let root = tree.root();
    let a = child(&mut tree.nodes, root, "a");
    let x = child(&mut tree.nodes, a, "x");
    child(&mut tree.nodes, a, "y");

    assert_eq!(tree.get_node_by_path(&[], false), Some(root));
    assert_eq!(tree.get_node_by_path(&["a", "x"], false), Some(x));
    let before = tree.nodes.len();
    assert_eq!(tree.get_node_by_path(&["missing"], false), None);
    assert_eq!(tree.get_node_by_path(&["a", "x", "deeper"], false), None);
    assert_eq!(tree.nodes.len(), before);

    let made = tree.get_node_by_path(&["missing"], true).unwrap();
    assert_eq!(tree.nodes.len(), before + 1);
    assert_eq!(made.name(&tree.nodes), "missing");
    assert_eq!(made.icon(&tree.nodes), "");
    assert_eq!(made.parent(&tree.nodes), Ok(root));
    assert_eq!(child_names(&tree.nodes, root), ["a", "missing"]);
    assert_eq!(tree.get_node_by_path(&["missing"], true), Some(made));
    assert_eq!(tree.nodes.len(), before + 1);

    let deep = tree.get_node_by_path(&["a", "n1", " n2 "], true).unwrap();
    assert_eq!(tree.nodes.len(), before + 3);
    assert_eq!(deep.name(&tree.nodes), "n2");
    let n1 = deep.parent(&tree.nodes).unwrap();
    assert_eq!(n1.name(&tree.nodes), "n1");
    assert_eq!(n1.parent(&tree.nodes), Ok(a));
    assert_eq!(child_names(&tree.nodes, a), ["x", "y", "n1"]);
    assert_links(&tree.nodes, a);
}

#[test]
fn the_first_child_of_that_name_is_found() {
    let mut arena = Arena::new();
    let root = Node::new(&mut arena, "root", "");
    let first = child(&mut arena, root, "same");
    let second = child(&mut arena, root, "same");
    assert_eq!(root.find_child(&arena, "same"), Some(first));
    assert_eq!(root.find_child(&arena, "other"), None);
    assert_eq!(
        root.get_node_by_path(&mut arena, &["same"], false),
        Some(first)
    );
    assert_ne!(first, second);
}

#[test]
fn error_messages() {
    assert_eq!(NodeError::NoParent.message(), "cannot insert; no parent");
    assert_eq!(
        NodeError::NotContainedInParent.message(),
        "the node is not contained in its supposed parent"
    );
    assert_eq!(
        NodeError::EmptyName.message(),
        "cannot set name; name cannot be empty"
    );
    assert_eq!(
        NodeError::FileDataAlreadyExists.message(),
        "cannot set data; file data already exists"
    );
    assert_eq!(
        NodeError::MismatchDataType.message(),
        "cannot set data; already exists with a different type"
    );
    assert_eq!(NodeError::NoData.message(), "no data");
    assert_eq!(
        NodeError::CannotCreateDataFile("disk full".to_owned()).message(),
        "cannot create associated data file: disk full"
    );
    assert_eq!(
        NodeError::CannotWritePaths("broken pipe".to_owned()).message(),
        "cannot write paths"
    );
}
