use aiterm::workspace::{SplitDirection, SplitNode};

fn s(text: &str) -> String {
    String::from(text)
}

fn leaf(id: &str) -> SplitNode {
    SplitNode::Leaf { pane_id: s(id) }
}

fn split(id: &str, direction: SplitDirection, left: SplitNode, right: SplitNode) -> SplitNode {
    SplitNode::Split {
        id: s(id),
        direction,
        ratio_millis: 500,
        children: Box::new((left, right)),
    }
}

#[test]
fn contains_and_lists_panes_left_to_right() {
    let tree = split(
        "s1",
        SplitDirection::Horizontal,
        leaf("a"),
        split("s2", SplitDirection::Vertical, leaf("b"), leaf("c")),
    );
    assert!(tree.contains_pane(&s("a")));
    assert!(tree.contains_pane(&s("c")));
    assert!(!tree.contains_pane(&s("zz")));
    assert_eq!(tree.all_pane_ids(), vec![s("a"), s("b"), s("c")]);
}

#[test]
fn splitting_a_leaf_keeps_the_target_first() {
    let tree = leaf("a");
    let new = tree.split_pane(&s("a"), &s("b"), SplitDirection::Vertical, &s("sx"));
    assert_eq!(new.all_pane_ids(), vec![s("a"), s("b")]);
    match &new {
        SplitNode::Split { id, direction, ratio_millis, .. } => {
            assert_eq!(id, "sx");
            assert!(matches!(direction, SplitDirection::Vertical));
            assert_eq!(*ratio_millis, 500);
        }
        _ => panic!("splitting the target leaf must create a split"),
    }
    // splitting a pane that is not in the tree changes nothing
    let unchanged = tree.split_pane(&s("zz"), &s("b"), SplitDirection::Vertical, &s("sx"));
    assert_eq!(unchanged.all_pane_ids(), vec![s("a")]);
}

#[test]
fn split_pane_fresh_generates_the_split_id() {
    let tree = leaf("a");
    let new = tree.split_pane_fresh(&s("a"), &s("b"), SplitDirection::Horizontal);
    match new {
        SplitNode::Split { id, .. } => assert_eq!(id.chars().count(), 36),
        _ => panic!("splitting the target leaf must create a split"),
    }
}

#[test]
fn removing_a_pane_collapses_its_split() {
    let tree = split(
        "s1",
        SplitDirection::Horizontal,
        leaf("a"),
        split("s2", SplitDirection::Vertical, leaf("b"), leaf("c")),
    );
    let after = tree.remove_pane(&s("b")).expect("panes remain");
    assert_eq!(after.all_pane_ids(), vec![s("a"), s("c")]);
    let after = after.remove_pane(&s("c")).expect("a pane remains");
    assert_eq!(after.all_pane_ids(), vec![s("a")]);
    assert!(after.remove_pane(&s("a")).is_none());
    // removing an absent pane leaves the tree alone
    let same = tree.remove_pane(&s("zz")).expect("panes remain");
    assert_eq!(same.all_pane_ids(), vec![s("a"), s("b"), s("c")]);
}

#[test]
fn set_ratio_targets_one_split() {
    let tree = split(
        "outer",
        SplitDirection::Horizontal,
        leaf("a"),
        split("inner", SplitDirection::Vertical, leaf("b"), leaf("c")),
    );
    let adjusted = tree.set_ratio(&s("inner"), 250);
    match &adjusted {
        SplitNode::Split { ratio_millis, children, .. } => {
            assert_eq!(*ratio_millis, 500);
            match &children.1 {
                SplitNode::Split { ratio_millis, .. } => assert_eq!(*ratio_millis, 250),
                _ => panic!("inner split expected"),
            }
        }
        _ => panic!("outer split expected"),
    }
}
