use mind_tree::event::{Event, Key, KeyCode};
use mind_tree::node::{Arena, Cursor, Node, NodeData, NodeError, Tree};
use mind_tree::ops::InsertMode;
use mind_tree::session::Deletion;
use mind_tree::tui_tree::{Area, RawEvent, TreeFeedback, TuiTree};

fn child(arena: &mut Arena, parent: Node, name: &str, expanded: bool) -> Node {
    let node = Node::new(arena, name, "");
    node.set_expanded(arena, expanded);
    parent.insert_bottom(arena, node);
    node
}

// root/       expanded
//   a/        collapsed
//     x/
//     y/
//   b/        expanded
//     z/
//   c/
fn sample() -> Tree {
    let mut tree = Tree::new("root", "");
    let root = tree.root();
    root.set_expanded(&mut tree.nodes, true);
    let a = child(&mut tree.nodes, root, "a", false);
    child(&mut tree.nodes, a, "x", false);
    child(&mut tree.nodes, a, "y", false);
    let b = child(&mut tree.nodes, root, "b", true);
    child(&mut tree.nodes, b, "z", false);
    child(&mut tree.nodes, root, "c", false);
    tree
}

fn rows(tree: &Tree) -> Vec<String> {
    (0..)
        .map_while(|line| tree.get_node_by_line(line))
        .map(|node| node.name(&tree.nodes))
        .collect()
}

fn key(c: char) -> RawEvent {
    RawEvent::Key(Key {
        code: KeyCode::Char(c),
        control: false,
        pressed: true,
    })
}

fn press(code: KeyCode) -> RawEvent {
    RawEvent::Key(Key {
        code,
        control: false,
        pressed: true,
    })
}

fn area(height: u16) -> Area {
    Area {
        x: 0,
        y: 0,
        width: 80,
        height,
    }
}

const QUIET: TreeFeedback = TreeFeedback {
    handled: true,
    emitted: None,
};

#[test]
fn the_cursor_follows_the_rows() {
    let mut tree = sample();
    for flip in [None, Some(1), Some(2), Some(0)] {
        if let Some(line) = flip {
            assert!(tree.toggle_row(line));
        }
        let listed: Vec<Node> = (0..)
            .map_while(|line| tree.get_node_by_line(line))
            .collect();
        for pair in listed.windows(2) {
            let mut down = Cursor::new(pair[0]);
            assert!(down.visual_next(&tree.nodes));
            assert_eq!(*down.node(), pair[1]);
            let mut up = Cursor::new(pair[1]);
            assert!(up.visual_prev(&tree.nodes));
            assert_eq!(*up.node(), pair[0]);
        }
        let mut last = Cursor::new(*listed.last().unwrap());
        assert!(!last.visual_next(&tree.nodes));
        let mut first = Cursor::new(listed[0]);
        assert!(!first.visual_prev(&tree.nodes));
    }
}

#[test]
fn rows_are_toggled() {
    let mut tree = sample();
    assert_eq!(rows(&tree), ["root", "a", "b", "z", "c"]);
    assert!(tree.toggle_row(1));
    assert_eq!(rows(&tree), ["root", "a", "x", "y", "b", "z", "c"]);
    assert!(tree.toggle_row(4));
    assert_eq!(rows(&tree), ["root", "a", "x", "y", "b", "c"]);
    assert!(!tree.toggle_row(6));
    assert!(tree.toggle_row(0));
    assert_eq!(rows(&tree), ["root"]);
}

#[test]
fn rows_are_renamed() {
    let mut tree = sample();
    assert_eq!(tree.rename_row(2, "  beta "), Ok(true));
    assert_eq!(rows(&tree), ["root", "a", "beta", "z", "c"]);
    assert_eq!(tree.rename_row(2, "   "), Err(NodeError::EmptyName));
    assert_eq!(tree.rename_row(9, "nine"), Ok(false));
    assert_eq!(rows(&tree), ["root", "a", "beta", "z", "c"]);
}

#[test]
fn rows_are_deleted() {
    let mut tree = sample();
    assert_eq!(tree.delete_row(0), Deletion::Root);
    assert_eq!(tree.delete_row(5), Deletion::NoSuchRow);
    assert_eq!(tree.delete_row(2), Deletion::Done);
    assert_eq!(rows(&tree), ["root", "a", "c"]);
    assert_eq!(tree.delete_row(1), Deletion::Done);
    assert_eq!(tree.delete_row(1), Deletion::Done);
    assert_eq!(tree.delete_row(1), Deletion::NoSuchRow);
    assert_eq!(rows(&tree), ["root"]);
}

#[test]
fn rows_get_new_nodes() {
    let mut tree = sample();
    assert_eq!(tree.insert_at_row(2, InsertMode::Before, " before b "), Ok(true));
    assert_eq!(tree.insert_at_row(3, InsertMode::After, "after b"), Ok(true));
    assert_eq!(tree.insert_at_row(3, InsertMode::InsideTop, "top"), Ok(true));
    assert_eq!(tree.insert_at_row(3, InsertMode::InsideBottom, "bottom"), Ok(true));
    assert_eq!(
        rows(&tree),
        ["root", "a", "before b", "b", "top", "z", "bottom", "after b", "c"]
    );
    let before = tree.nodes.len();
    assert_eq!(tree.insert_at_row(20, InsertMode::After, "nowhere"), Ok(false));
    assert_eq!(tree.nodes.len(), before);
    assert_eq!(
        tree.insert_at_row(0, InsertMode::After, "beside the root"),
        Err(NodeError::NoParent)
    );
    assert_eq!(
        tree.insert_at_row(0, InsertMode::Before, "beside the root"),
        Err(NodeError::NoParent)
    );
    assert_eq!(rows(&tree).len(), 9);
    assert_eq!(tree.insert_at_row(0, InsertMode::InsideTop, "first"), Ok(true));
    assert_eq!(rows(&tree)[1], "first");
}

#[test]
fn data_by_row() {
    let mut tree = sample();
    let b = tree.get_node_by_line(2).unwrap();
    b.set_data(&mut tree.nodes, NodeData::link("https://b")).unwrap();
    assert_eq!(tree.data_of_row(2), Some(Some(NodeData::link("https://b"))));
    assert_eq!(tree.data_of_row(1), Some(None));
    assert_eq!(tree.data_of_row(5), None);
}

#[test]
fn selection_stays_in_step_with_the_cursor() {
    let tree = sample();
    let mut listing = TuiTree::new(area(3), tree.root());
    assert_eq!(listing.area(), &area(3));
    assert!(listing.is_in_step(&tree.nodes));
    assert!(!listing.select_prev_node(&tree.nodes));
    let mut seen = vec![(0, 0)];
    while listing.select_next_node(&tree.nodes) {
        assert!(listing.is_in_step(&tree.nodes));
        seen.push((listing.selected_node_id(), listing.top_shift()));
    }
    // three rows are shown: the listing scrolls when the fourth is selected
    assert_eq!(seen, [(0, 0), (1, 0), (2, 0), (3, 1), (4, 2)]);
    assert_eq!(
        listing.cursor().node().name(&tree.nodes),
        "c"
    );
    let mut back = Vec::new();
    while listing.select_prev_node(&tree.nodes) {
        assert!(listing.is_in_step(&tree.nodes));
        back.push((listing.selected_node_id(), listing.top_shift()));
    }
    assert_eq!(back, [(3, 2), (2, 2), (1, 1), (0, 0)]);
    assert_eq!(listing.root_node(), tree.root());
}

#[test]
fn selection_out_of_step_is_seen() {
    let mut tree = sample();
    let mut listing = TuiTree::new(area(10), tree.root());
    assert!(listing.select_next_node(&tree.nodes));
    assert!(listing.select_next_node(&tree.nodes));
    // the selected row is b; a row comes in above it
    assert_eq!(tree.insert_at_row(1, InsertMode::Before, "new"), Ok(true));
    assert!(!listing.is_in_step(&tree.nodes));
    listing.shift_selected_node_id(1);
    assert!(listing.is_in_step(&tree.nodes));
    assert_eq!(listing.selected_node_id(), 3);
    listing.shift_selected_node_id(-2);
    assert_eq!(listing.selected_node_id(), 1);
    assert!(!listing.is_in_step(&tree.nodes));
}

#[test]
fn keys_of_the_listing() {
    let tree = sample();
    let nodes = &tree.nodes;
    let mut listing = TuiTree::new(area(2), tree.root());
    assert!(listing.can_take(key('t')));
    assert_eq!(listing.react_raw(key('t'), nodes), QUIET);
    assert_eq!(listing.react_raw(key('t'), nodes), QUIET);
    assert_eq!((listing.selected_node_id(), listing.top_shift()), (2, 1));
    assert_eq!(listing.react_raw(key('s'), nodes), QUIET);
    assert_eq!((listing.selected_node_id(), listing.top_shift()), (1, 1));
    assert_eq!(
        listing.react_raw(press(KeyCode::Tab), nodes),
        TreeFeedback {
            handled: true,
            emitted: Some(Event::ToggleNode { id: 1 })
        }
    );
    assert_eq!(
        listing.react_raw(press(KeyCode::Enter), nodes),
        TreeFeedback {
            handled: false,
            emitted: Some(Event::OpenNodeData { id: 1 })
        }
    );
    let ignored = TreeFeedback {
        handled: false,
        emitted: None,
    };
    assert_eq!(listing.react_raw(key('x'), nodes), ignored);
    assert_eq!(listing.react_raw(press(KeyCode::Esc), nodes), ignored);
    assert_eq!(listing.react_raw(RawEvent::Other, nodes), ignored);
    assert_eq!(listing.react_raw(RawEvent::Resize(40, 1), nodes), ignored);
    assert_eq!(
        listing.area(),
        &Area {
            x: 0,
            y: 0,
            width: 40,
            height: 1
        }
    );
    assert_eq!((listing.selected_node_id(), listing.top_shift()), (1, 1));
    assert_eq!(listing.react_raw(key('t'), nodes), QUIET);
    assert_eq!((listing.selected_node_id(), listing.top_shift()), (2, 2));
}

#[test]
fn prompts_of_the_listing() {
    let tree = sample();
    let nodes = &tree.nodes;
    let table = [
        ('o', "insert after:", InsertMode::After),
        ('O', "insert before:", InsertMode::Before),
        ('i', "insert in/bottom:", InsertMode::InsideBottom),
        ('I', "insert in/top:", InsertMode::InsideTop),
    ];
    for (c, title, mode) in table {
        let mut listing = TuiTree::new(area(10), tree.root());
        assert_eq!(listing.react_raw(key('t'), nodes), QUIET);
        assert_eq!(listing.react_raw(key(c), nodes), QUIET);
        let shown = listing.input_prompt().prompt().map(|p| p.title().to_owned());
        assert_eq!(shown.as_deref(), Some(title));
        // the keys now go to the prompt
        assert_eq!(listing.react_raw(key('t'), nodes), QUIET);
        assert_eq!(listing.react_raw(key('s'), nodes), QUIET);
        assert_eq!(listing.selected_node_id(), 1);
        assert_eq!(listing.react_raw(RawEvent::Resize(1, 1), nodes), QUIET);
        assert_eq!(listing.area(), &area(10));
        assert_eq!(
            listing.react_raw(press(KeyCode::Enter), nodes),
            TreeFeedback {
                handled: true,
                emitted: Some(Event::InsertNode {
                    id: 1,
                    mode,
                    name: "ts".to_owned()
                })
            }
        );
        assert!(!listing.input_prompt().is_visible());
    }
}

#[test]
fn deletion_is_confirmed() {
    let tree = sample();
    let nodes = &tree.nodes;
    let mut listing = TuiTree::new(area(10), tree.root());
    assert_eq!(listing.react_raw(key('t'), nodes), QUIET);
    for (answer, emitted) in [
        ("y", Some(Event::DeleteNode { id: 1 })),
        ("Y", Some(Event::DeleteNode { id: 1 })),
        ("n", None),
        ("", None),
    ] {
        assert_eq!(listing.react_raw(key('d'), nodes), QUIET);
        let shown = listing.input_prompt().prompt().map(|p| p.title().to_owned());
        assert_eq!(shown.as_deref(), Some("delete node (y/N):"));
        for c in answer.chars() {
            assert_eq!(listing.react_raw(key(c), nodes), QUIET);
        }
        assert_eq!(
            listing.react_raw(press(KeyCode::Enter), nodes),
            TreeFeedback {
                handled: true,
                emitted
            }
        );
    }
    // escape answers nothing
    assert_eq!(listing.react_raw(key('d'), nodes), QUIET);
    assert_eq!(listing.react_raw(press(KeyCode::Esc), nodes), QUIET);
    assert!(!listing.input_prompt().is_visible());
    assert_eq!(listing.react_raw(key('t'), nodes), QUIET);
    assert_eq!(listing.selected_node_id(), 2);
}

#[test]
fn the_listing_refuses_what_it_cannot_take() {
    let tree = sample();
    let mut listing = TuiTree::new(area(10), tree.root());
    assert!(listing.can_take(RawEvent::Other));
    listing.shift_selected_node_id(0xfffe);
    assert!(!listing.can_take(RawEvent::Other));
    assert!(!listing.can_take(key('t')));
    listing.shift_selected_node_id(-1);
    assert!(listing.can_take(key('t')));
    listing.set_area(area(4));
    assert_eq!(listing.area(), &area(4));
}
