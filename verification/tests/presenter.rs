use ttt::model::{Tree, ROOT_PARENT_ID};
use ttt::presenter::{CommandError, Presenter, StorageAction};

fn presenter() -> Presenter {
    // 1: root, children [2, 3]; 2: children [4]
    let mut t = Tree::default();
    t.add_node("a".to_string(), 1);
    t.add_node("b".to_string(), 1);
    t.add_node("c".to_string(), 2);
    Presenter::new(t, None)
}

#[test]
fn a_new_presenter() {
    let p = presenter();
    assert_eq!(p.current_root(), 1);
    assert_eq!(p.storage_name(), None);
    assert!(!p.should_exit());
    assert!(!p.tree_modified());
    assert_eq!(p.top_snip_str(), None);
    assert_eq!(p.model().node(1).children, vec![2, 3]);
    assert!(!p.manual_sync());
    let named = Presenter::new(Tree::default(), Some("./notes".to_string()));
    assert_eq!(named.storage_name(), Some("./notes".to_string()));
    assert!(named.manual_sync());
}

#[test]
fn current_root_can_be_set() {
    let mut p = presenter();
    p.set_current_root(2);
    assert_eq!(p.current_root(), 2);
    assert!(!p.tree_modified());
}

#[test]
fn inserting_nodes() {
    let mut p = presenter();
    assert_eq!(p.insert_node_in_parent(2), Some(5));
    assert_eq!(p.model().node(1).children, vec![2, 5, 3]);
    assert_eq!(p.model().node(5).text, "");
    assert!(p.tree_modified());
    assert_eq!(p.insert_node_in_parent(1), None);
    assert_eq!(p.insert_node_as_child(3), 6);
    assert_eq!(p.model().node(3).children, vec![6]);
    assert_eq!(p.model().node(6).parent, 3);
}

#[test]
fn a_node_without_parent_is_not_deleted() {
    let mut p = presenter();
    assert_eq!(p.delete_node(1), None);
    assert!(p.tree_modified());
    assert_eq!(p.put_node(3, true, true), None);
    assert_eq!(p.model().node(1).children, vec![2, 3]);
}

#[test]
fn delete_and_put_back() {
    let mut p = presenter();
    assert_eq!(p.delete_node(2), Some(1));
    assert_eq!(p.model().node(1).children, vec![3]);
    assert_eq!(p.model().node(2).parent, ROOT_PARENT_ID);
    assert_eq!(p.model().node(2).children, vec![4]);
    // after node 3, under its parent
    assert_eq!(p.put_node(3, true, false), Some(2));
    assert_eq!(p.model().node(1).children, vec![3, 2]);
    assert_eq!(p.model().node(2).parent, 1);
    // the stack is empty now
    assert_eq!(p.put_node(3, true, false), None);
    assert_eq!(p.put_node(3, false, false), None);
}

#[test]
fn put_as_child() {
    let mut p = presenter();
    assert_eq!(p.delete_node(4), Some(2));
    assert_eq!(p.put_node(3, true, true), Some(4));
    assert_eq!(p.model().node(3).children, vec![4]);
    assert_eq!(p.model().node(2).children, Vec::<usize>::new());
    assert_eq!(p.delete_node(4), Some(3));
    // the root has no parent, so the node goes under it
    assert_eq!(p.put_node(1, true, false), Some(4));
    assert_eq!(p.model().node(1).children, vec![2, 3, 4]);
}

#[test]
fn copy_and_put_copies() {
    let mut p = presenter();
    p.copy_node(2);
    assert!(!p.tree_modified());
    assert_eq!(p.model().node(5).text, "a");
    assert_eq!(p.model().node(5).parent, ROOT_PARENT_ID);
    assert_eq!(p.model().node(5).children, vec![6]);
    assert_eq!(p.model().node(6).text, "c");
    // without consume a copy of the top of the stack is put, and the top stays
    assert_eq!(p.put_node(3, false, false), Some(7));
    assert_eq!(p.model().node(1).children, vec![2, 3, 7]);
    assert_eq!(p.model().node(7).children, vec![8]);
    assert_eq!(p.put_node(3, false, true), Some(9));
    assert_eq!(p.model().node(3).children, vec![9]);
    assert_eq!(p.put_node(2, true, false), Some(5));
    assert_eq!(p.model().node(1).children, vec![2, 5, 3, 7]);
    assert_eq!(p.put_node(2, true, false), None);
}

#[test]
fn swap_and_text() {
    let mut p = presenter();
    p.swap_node(2, 1);
    assert_eq!(p.model().node(1).children, vec![3, 2]);
    assert!(p.tree_modified());
    p.synced();
    assert!(!p.tree_modified());
    p.update_node_text(3, "new".to_string());
    assert_eq!(p.model().node(3).text, "new");
    assert!(p.tree_modified());
    p.toggle_strikeout(3);
    assert!(p.model().node(3).struckout);
    p.toggle_strikeout(3);
    assert!(!p.model().node(3).struckout);
}

#[test]
fn stack_of_texts() {
    let mut p = presenter();
    assert_eq!(p.pop_snip_str(), None);
    p.copy_str("one".to_string());
    p.copy_str("two".to_string());
    assert_eq!(p.top_snip_str(), Some(&"two".to_string()));
    assert_eq!(p.pop_snip_str(), Some("two".to_string()));
    assert_eq!(p.top_snip_str(), Some(&"one".to_string()));
    assert_eq!(p.pop_snip_str(), Some("one".to_string()));
    assert_eq!(p.pop_snip_str(), None);
    assert!(!p.tree_modified());
}

#[test]
fn child_becomes_sibling_of_its_parent() {
    let mut p = presenter();
    p.make_child_sibling(4);
    assert_eq!(p.model().node(1).children, vec![4, 2, 3]);
    assert_eq!(p.model().node(2).children, Vec::<usize>::new());
    assert_eq!(p.model().node(4).parent, 1);
    assert!(p.tree_modified());
    // the parent has no parent of its own
    p.make_child_sibling(4);
    assert_eq!(p.model().node(1).children, vec![4, 2, 3]);
    p.make_child_sibling(1);
    assert_eq!(p.model().node(1).children, vec![4, 2, 3]);
}

#[test]
fn command_lines() {
    let mut p = presenter();
    assert_eq!(
        p.process_command("e ./file".to_string()),
        Ok(StorageAction::Open("./file".to_string()))
    );
    assert_eq!(
        p.process_command("e file:///tmp/x more".to_string()),
        Ok(StorageAction::Open("file:///tmp/x".to_string()))
    );
    assert_eq!(
        p.process_command("e  x".to_string()),
        Ok(StorageAction::Open("".to_string()))
    );
    assert_eq!(
        p.process_command("e ".to_string()),
        Ok(StorageAction::Open("".to_string()))
    );
    assert_eq!(p.process_command("e".to_string()), Err(CommandError::MissingUrl));
    assert_eq!(p.process_command("s".to_string()), Ok(StorageAction::Sync(None)));
    assert_eq!(
        p.process_command("s ~/out".to_string()),
        Ok(StorageAction::Sync(Some("~/out".to_string())))
    );
    assert!(!p.should_exit());
    assert_eq!(
        p.process_command("quit now".to_string()),
        Err(CommandError::UnknownCommand("quit".to_string()))
    );
    assert_eq!(
        p.process_command("".to_string()),
        Err(CommandError::UnknownCommand("".to_string()))
    );
    assert_eq!(
        p.process_command(" q".to_string()),
        Err(CommandError::UnknownCommand("".to_string()))
    );
    assert_eq!(
        p.process_command("\u{e9}".to_string()),
        Err(CommandError::UnknownCommand("\u{e9}".to_string()))
    );
    assert!(!p.should_exit());
    assert_eq!(p.process_command("q".to_string()), Ok(StorageAction::Nothing));
    assert!(p.should_exit());
}

#[test]
fn storage_events() {
    let mut p = presenter();
    p.swap_node(2, 1);
    p.delete_node(4);
    p.copy_str("kept".to_string());
    p.storage_changed("./a".to_string());
    assert_eq!(p.storage_name(), Some("./a".to_string()));
    assert!(p.tree_modified());
    let mut t = Tree::default();
    t.add_node("only".to_string(), 1);
    p.storage_opened(Some(t), "./b".to_string());
    assert_eq!(p.storage_name(), Some("./b".to_string()));
    assert!(!p.tree_modified());
    assert_eq!(p.current_root(), 1);
    assert_eq!(p.model().node(1).children, vec![2]);
    assert_eq!(p.model().node(2).text, "only");
    assert_eq!(p.put_node(2, true, false), None);
    assert_eq!(p.top_snip_str(), Some(&"kept".to_string()));
    p.storage_opened(None, "./c".to_string());
    assert_eq!(p.model().nodes.len(), 1);
    assert_eq!(p.current_root(), 1);
}
