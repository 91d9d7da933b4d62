use mind_tree::forest::Forest;
use mind_tree::node::{Node, Tree};

fn root_name(tree: &Tree) -> String {
    tree.root().name(&tree.nodes)
}

#[test]
fn a_new_forest_has_only_its_main_tree() {
    let forest = Forest::new(Tree::new("main", ""));
    assert_eq!(root_name(forest.main_tree()), "main");
    assert!(forest.cwd_trees().is_empty());
    assert!(forest.cwd_tree("/somewhere").is_none());
}

#[test]
fn trees_of_directories() {
    let mut forest = Forest::new(Tree::new("main", ""));
    forest.add_cwd_tree("/a", Tree::new("tree a", ""));
    forest.add_cwd_tree("/b", Tree::new("tree b", ""));
    assert_eq!(forest.cwd_tree("/a").map(root_name).as_deref(), Some("tree a"));
    assert_eq!(forest.cwd_tree("/b").map(root_name).as_deref(), Some("tree b"));
    assert!(forest.cwd_tree("/c").is_none());
    assert!(forest.cwd_tree("/A").is_none());

    let listed: Vec<(String, String)> = forest
        .cwd_trees()
        .into_iter()
        .map(|(dir, tree)| (dir.to_owned(), root_name(tree)))
        .collect();
    assert_eq!(
        listed,
        [
            ("/a".to_owned(), "tree a".to_owned()),
            ("/b".to_owned(), "tree b".to_owned())
        ]
    );
}

#[test]
fn a_directory_has_one_tree() {
    let mut forest = Forest::new(Tree::new("main", ""));
    forest.add_cwd_tree("/a", Tree::new("first", ""));
    forest.add_cwd_tree("/b", Tree::new("other", ""));
    forest.add_cwd_tree("/a", Tree::new("second", ""));
    assert_eq!(forest.cwd_trees().len(), 2);
    assert_eq!(forest.cwd_tree("/a").map(root_name).as_deref(), Some("second"));
    assert_eq!(forest.cwd_tree("/b").map(root_name).as_deref(), Some("other"));
}

#[test]
fn trees_are_changed_in_place() {
    let mut forest = Forest::new(Tree::new("main", ""));
    forest.add_cwd_tree("/a", Tree::new("tree a", ""));
    {
        let main = forest.main_tree_mut();
        let root = main.root();
        let kid = Node::new(&mut main.nodes, "kid", "");
        root.insert_bottom(&mut main.nodes, kid);
    }
    {
        let tree = forest.cwd_tree_mut("/a").unwrap();
        let root = tree.root();
        root.set_name(&mut tree.nodes, "renamed").unwrap();
    }
    assert!(forest.cwd_tree_mut("/nowhere").is_none());
    let main = forest.main_tree();
    assert!(main.root().has_children(&main.nodes));
    assert_eq!(forest.cwd_tree("/a").map(root_name).as_deref(), Some("renamed"));
}
