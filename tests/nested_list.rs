use lazy_views::nested_list::{Entry, FlatEntry, Message, ShowChildren, TreeView, TreeViewPane};

fn sample() -> TreeView {
    TreeView::with_children(vec![
        Entry::new("1"),
        Entry::with_children(
            "2",
            vec![
                Entry::new("2.1"),
                Entry::with_children("2.2", vec![Entry::new("2.2.1")]),
            ],
        ),
        Entry::new("3"),
    ])
}

#[test]
fn flatten_entry_to_flat_view() {
    let entry = Entry::with_children(
        "1",
        vec![
            Entry::with_children("1.1", vec![Entry::new("1.1.1")]),
            Entry::new("2"),
        ],
    );

    let expected = vec![
        FlatEntry::_new(0, true, true, "1"),
        FlatEntry::_new(1, true, true, "1.1"),
        FlatEntry::_new(2, true, false, "1.1.1"),
        FlatEntry::_new(1, true, false, "2"),
    ];

    let flattened = entry.to_flat_view(true, 0);

    assert_eq!(flattened, expected);
}

#[test]
fn flatten_nested_list_to_flat_view() {
    let nested_list = sample();

    let expected = vec![
        FlatEntry::_new(0, true, false, "1"),
        FlatEntry::_new(0, true, true, "2"),
        FlatEntry::_new(1, true, false, "2.1"),
        FlatEntry::_new(1, true, true, "2.2"),
        FlatEntry::_new(2, true, false, "2.2.1"),
        FlatEntry::_new(0, true, false, "3"),
    ];

    let flattened = nested_list.to_vec();

    assert_eq!(flattened, expected);
}

#[test]
fn flatten_nested_list_to_flat_view_with_collapsed_entry() {
    let nested_list = TreeView::with_children(vec![
        Entry::new("1"),
        Entry::with_children(
            "2",
            vec![
                Entry::new("2.1"),
                Entry::with_children("2.2", vec![Entry::new("2.2.1")]),
            ],
        )
        ._collapse(),
        Entry::new("3"),
    ]);

    let expected = vec![
        FlatEntry::_new(0, true, false, "1"),
        FlatEntry::_new(0, true, true, "2"),
        FlatEntry::_new(1, false, false, "2.1"),
        FlatEntry::_new(1, false, true, "2.2"),
        FlatEntry::_new(2, false, false, "2.2.1"),
        FlatEntry::_new(0, true, false, "3"),
    ];

    let flattened = nested_list.to_vec();

    assert_eq!(flattened, expected);
}

#[test]
fn nested_list_get_correct_entry() {
    let mut nested_list = sample();

    let expected = vec![
        Some("1".to_string()),
        Some("2".to_string()),
        Some("2.1".to_string()),
        Some("2.2".to_string()),
        Some("2.2.1".to_string()),
        Some("3".to_string()),
        None,
    ];

    for (id, expect) in expected.iter().enumerate() {
        let entry = nested_list.get_mut(id);
        let entry = entry.map(|x| x.text.clone());

        assert_eq!(&entry, expect);
    }
}

#[test]
fn flatten_counts_every_node() {
    let tree = sample();
    assert_eq!(tree.to_vec().len(), 6);
    let hidden = Entry::with_children(
        "a",
        vec![Entry::with_children("b", vec![Entry::new("c"), Entry::new("d")])],
    )
    ._collapse();
    let rows = hidden.to_flat_view(true, 3);
    assert_eq!(rows.len(), 4);
    assert!(rows[0].visible);
    assert_eq!(rows[0].depth, 3);
    assert!(rows[1..].iter().all(|r| !r.visible));
    let rows = hidden.to_flat_view(false, 0);
    assert!(!rows[0].visible);
}

#[test]
fn get_mut_matches_flattened_rows() {
    let mut tree = sample();
    let rows = tree.to_vec();
    let n = rows.len();
    for id in 0..n {
        let entry = tree.get_mut(id).unwrap();
        assert_eq!(entry.text, rows[id].description);
        assert_eq!(!entry.children.is_empty(), rows[id].has_children);
    }
    assert!(tree.get_mut(n).is_none());
    assert!(tree.get_mut(n + 10).is_none());
}

#[test]
fn entry_get_mut_counts_from_itself() {
    let mut entry = Entry::with_children("r", vec![Entry::with_children("a", vec![Entry::new("b")]), Entry::new("c")]);
    assert_eq!(entry.get_mut(0).unwrap().text, "r");
    assert_eq!(entry.get_mut(2).unwrap().text, "b");
    assert_eq!(entry.get_mut(3).unwrap().text, "c");
    assert!(entry.get_mut(4).is_none());
    entry.get_mut(2).unwrap().text = "changed".to_string();
    assert_eq!(entry.children[0].children[0].text, "changed");
}

#[test]
fn toggle_collapse_twice_restores_state() {
    let mut pane = TreeViewPane { internal: sample() };
    let before = pane.internal.to_vec();
    pane.update(Message::ToggleCollapse { id: 3 });
    assert_eq!(pane.internal.get_mut(3).unwrap().state, ShowChildren::Hide);
    pane.update(Message::ToggleCollapse { id: 3 });
    assert_eq!(pane.internal.get_mut(3).unwrap().state, ShowChildren::Show);
    assert_eq!(pane.internal.to_vec(), before);
}

#[test]
fn collapsing_second_entry_hides_its_descendants() {
    let mut pane = TreeViewPane { internal: sample() };
    let rows = pane.internal.to_vec();
    assert_eq!(rows.len(), 6);
    let depths: Vec<usize> = rows.iter().map(|r| r.depth).collect();
    assert_eq!(depths, vec![0, 0, 1, 1, 2, 0]);
    let has_children: Vec<bool> = rows.iter().map(|r| r.has_children).collect();
    assert_eq!(has_children, vec![false, true, false, true, false, false]);

    pane.update(Message::ToggleCollapse { id: 1 });
    let visible: Vec<bool> = pane.internal.to_vec().iter().map(|r| r.visible).collect();
    assert_eq!(visible, vec![true, true, false, false, false, true]);
}

#[test]
fn toggle_collapse_leaves_editing_entry_alone() {
    let mut pane = TreeViewPane { internal: sample() };
    pane.update(Message::AddNewEntry { id: 0 });
    assert_eq!(pane.internal.get_mut(1).unwrap().state, ShowChildren::Editing);
    pane.update(Message::ToggleCollapse { id: 1 });
    assert_eq!(pane.internal.get_mut(1).unwrap().state, ShowChildren::Editing);
}

#[test]
fn add_entry_appends_editing_child_and_clears_selection() {
    let mut pane = TreeViewPane { internal: sample() };
    pane.update(Message::ToggleSelect { id: 2 });
    pane.update(Message::ToggleSelect { id: 5 });
    assert!(pane.internal.selected.contains(&2));
    let focus = pane.update(Message::AddNewEntry { id: 3 });
    assert_eq!(focus, Some(3));
    assert!(pane.internal.selected.is_empty());
    let rows = pane.internal.to_vec();
    assert_eq!(rows.len(), 7);
    assert_eq!(rows[5], FlatEntry { depth: 2, visible: true, has_children: false, editing: true, description: String::new() });
    assert_eq!(rows[6].description, "3");
}

#[test]
fn add_entry_out_of_range_changes_nothing() {
    let mut pane = TreeViewPane { internal: sample() };
    let before = pane.internal.to_vec();
    pane.update(Message::AddNewEntry { id: 6 });
    assert_eq!(pane.internal.to_vec(), before);
}

#[test]
fn toggle_select_flips_membership() {
    let mut tree = sample();
    tree.toggle_select(4);
    assert!(tree.selected.contains(&4));
    tree.toggle_select(4);
    assert!(!tree.selected.contains(&4));
    tree.toggle_select(1);
    tree.clear_selected();
    assert!(tree.selected.is_empty());
}

#[test]
fn finish_edit_needs_text() {
    let mut pane = TreeViewPane { internal: sample() };
    pane.update(Message::AddNewEntry { id: 5 });
    pane.update(Message::FinishedEdit { id: 6 });
    assert_eq!(pane.internal.get_mut(6).unwrap().state, ShowChildren::Editing);
    pane.update(Message::DescriptionEdited { id: 6, label: "3.1".to_string() });
    pane.update(Message::FinishedEdit { id: 6 });
    let entry = pane.internal.get_mut(6).unwrap();
    assert_eq!(entry.state, ShowChildren::Show);
    assert_eq!(entry.text, "3.1");
}

#[test]
fn pane_starts_with_sample_tree() {
    let pane = TreeViewPane::new();
    let rows = pane.internal.to_vec();
    let names: Vec<&str> = rows.iter().map(|r| r.description.as_str()).collect();
    assert_eq!(names, vec!["entry 1", "entry 2", "2.1", "2.2", "2.2.1", "entry 3"]);
    assert!(!pane.internal.is_empty());
    assert!(TreeView::with_children(Vec::new()).is_empty());
}

#[test]
fn shown_rows_skip_hidden_entries() {
    let mut pane = TreeViewPane::new();
    pane.update(Message::ToggleCollapse { id: 3 });
    pane.update(Message::ToggleSelect { id: 5 });
    let shown = pane.shown_rows();
    let ids: Vec<usize> = shown.iter().map(|r| r.id).collect();
    assert_eq!(ids, vec![0, 1, 2, 3, 5]);
    assert!(shown[4].selected);
    assert!(!shown[0].selected);
    assert_eq!(shown[3].entry.description, "2.2");
}

#[test]
fn entry_len_counts_direct_children() {
    let entry = Entry::with_children("x", vec![Entry::new("a"), Entry::new_empty()]);
    assert_eq!(entry._len(), 3);
    assert_eq!(FlatEntry::_new_empty(2).description, "");
    assert!(FlatEntry::_new_empty(2).editing);
}
