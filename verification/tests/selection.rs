use loom_cli::key::{KeyCode, KeyEvent};
use loom_cli::pane::{CtrlCAction, Handled};
use loom_cli::selection::{SelectionItem, SelectionList};

/// A key press with no modifier.
fn key(code: KeyCode) -> KeyEvent {
    KeyEvent::plain(code)
}

/// A list of `n` items labelled "Item 0", "Item 1", ... with values
/// "value_0", "value_1", ...
fn make_items(n: usize) -> Vec<SelectionItem> {
    (0..n)
        .map(|i| SelectionItem::new(format!("Item {i}"), format!("value_{i}")))
        .collect()
}

#[test]
fn test_selection_item_new() {
    let item = SelectionItem::new("Label", "val");
    assert_eq!(item.label, "Label");
    assert_eq!(item.value, "val");
    assert!(item.description.is_none());
}

#[test]
fn test_selection_item_new_into_string() {
    let item = SelectionItem::new(String::from("Foo"), String::from("bar"));
    assert_eq!(item.label, "Foo");
    assert_eq!(item.value, "bar");
}

#[test]
fn test_selection_item_with_description() {
    let item =
        SelectionItem::with_description("Label", "A description", "val");
    assert_eq!(item.label, "Label");
    assert_eq!(item.description.as_deref(), Some("A description"));
    assert_eq!(item.value, "val");
}

#[test]
fn test_selection_item_clone() {
    let a = SelectionItem::with_description("L", "D", "v");
    let b = a.clone();
    assert_eq!(a.label, b.label);
    assert_eq!(a.description, b.description);
    assert_eq!(a.value, b.value);
}

#[test]
fn test_selection_item_debug() {
    let item = SelectionItem::new("X", "y");
    let debug = format!("{item:?}");
    assert!(debug.contains("X"));
    assert!(debug.contains("y"));
}

#[test]
fn test_selection_list_new_empty() {
    let list = SelectionList::new(vec![], "Title".to_string());
    assert!(list.visible_items().is_empty());
    assert!(list.result().is_none());
    // PaneView defaults
    assert!(!list.is_complete());
    assert_eq!(list.view_id(), Some("selection"));
}

#[test]
fn test_selection_list_new_with_items() {
    let items = make_items(3);
    let list = SelectionList::new(items, "Pick".to_string());
    assert_eq!(list.visible_items().len(), 3);
    assert_eq!(list.visible_items()[0].label, "Item 0");
}

#[test]
fn test_selection_list_result_none_before_confirm() {
    let mut list = SelectionList::new(make_items(2), "T".to_string());
    assert!(list.result().is_none());
    // After pressing an unrelated key, still no result
    list.handle_key_event(key(KeyCode::Char('x')));
    assert!(list.result().is_none());
}

#[test]
fn test_selection_list_visible_items_empty_filter_shows_all() {
    let items = make_items(5);
    let list = SelectionList::new(items, "T".to_string());
    assert_eq!(list.visible_items().len(), 5);
}

#[test]
fn test_selection_list_visible_items_filter_matches() {
    let mut items = make_items(5);
    items.push(SelectionItem::new("Apple", "apple"));
    items.push(SelectionItem::new("Banana", "banana"));
    items.push(SelectionItem::new("Cherry", "cherry"));
    let mut list = SelectionList::new(items, "T".to_string());

    // Type 'a' — should match Apple and Banana (case-insensitive)
    list.handle_key_event(key(KeyCode::Char('a')));
    let visible = list.visible_items();
    assert_eq!(visible.len(), 2);
    assert_eq!(visible[0].label, "Apple");
    assert_eq!(visible[1].label, "Banana");
}

#[test]
fn test_selection_list_visible_items_filter_case_insensitive() {
    let mut items = make_items(3);
    items.push(SelectionItem::new("APPLE", "a"));
    items.push(SelectionItem::new("apple", "b"));
    let mut list = SelectionList::new(items, "T".to_string());

    list.handle_key_event(key(KeyCode::Char('A')));
    assert_eq!(list.visible_items().len(), 2);
}

#[test]
fn test_selection_list_visible_items_no_match() {
    let items = vec![
        SelectionItem::new("Cat", "c"),
        SelectionItem::new("Dog", "d"),
    ];
    let mut list = SelectionList::new(items, "T".to_string());

    list.handle_key_event(key(KeyCode::Char('z')));
    assert!(list.visible_items().is_empty());
}

#[test]
fn test_selection_list_filter_backspace() {
    let mut items = make_items(3);
    items.push(SelectionItem::new("Apple", "a"));
    let mut list = SelectionList::new(items, "T".to_string());

    list.handle_key_event(key(KeyCode::Char('a')));
    assert_eq!(list.visible_items().len(), 1);

    list.handle_key_event(key(KeyCode::Backspace));
    assert_eq!(list.visible_items().len(), 4); // all items back
}

#[test]
fn test_selection_list_filter_backspace_on_empty() {
    // Backspace on empty filter should not crash
    let mut list = SelectionList::new(make_items(2), "T".to_string());
    list.handle_key_event(key(KeyCode::Backspace));
    assert_eq!(list.visible_items().len(), 2);
}

#[test]
fn test_selection_list_arrow_up() {
    let mut list = SelectionList::new(make_items(3), "T".to_string());
    // Move down first, then up
    assert_eq!(
        list.handle_key_event(key(KeyCode::Down)),
        Handled::Handled
    );
    assert_eq!(
        list.handle_key_event(key(KeyCode::Up)),
        Handled::Handled
    );
    // Enter should still select item 0
    assert_eq!(
        list.handle_key_event(key(KeyCode::Enter)),
        Handled::Handled
    );
    assert_eq!(list.result(), Some("value_0"));
}

#[test]
fn test_selection_list_arrow_up_at_top() {
    let mut list = SelectionList::new(make_items(3), "T".to_string());
    // Up at top should stay at 0
    for _ in 0..5 {
        list.handle_key_event(key(KeyCode::Up));
    }
    list.handle_key_event(key(KeyCode::Enter));
    assert_eq!(list.result(), Some("value_0"));
}

#[test]
fn test_selection_list_arrow_down() {
    let mut list = SelectionList::new(make_items(3), "T".to_string());
    list.handle_key_event(key(KeyCode::Down));
    list.handle_key_event(key(KeyCode::Enter));
    assert_eq!(list.result(), Some("value_1"));
}

#[test]
fn test_selection_list_arrow_down_at_bottom() {
    let mut list = SelectionList::new(make_items(3), "T".to_string());
    // Move down past the end
    for _ in 0..10 {
        list.handle_key_event(key(KeyCode::Down));
    }
    list.handle_key_event(key(KeyCode::Enter));
    // Should be stuck at the last item
    assert_eq!(list.result(), Some("value_2"));
}

#[test]
fn test_selection_list_arrow_down_on_empty_list() {
    let mut list = SelectionList::new(vec![], "T".to_string());
    // Down on empty list should not crash
    assert_eq!(
        list.handle_key_event(key(KeyCode::Down)),
        Handled::Handled
    );
    assert_eq!(
        list.handle_key_event(key(KeyCode::Up)),
        Handled::Handled
    );
}

#[test]
fn test_selection_list_key_navigation_variants() {
    let mut list = SelectionList::new(make_items(3), "T".to_string());
    // 'j' = down
    list.handle_key_event(key(KeyCode::Char('j')));
    list.handle_key_event(key(KeyCode::Enter));
    assert_eq!(list.result(), Some("value_1"));

    // Reset and try 'k' = up
    let mut list2 = SelectionList::new(make_items(3), "T".to_string());
    list2.handle_key_event(key(KeyCode::Down));
    list2.handle_key_event(key(KeyCode::Char('k'))); // up
    list2.handle_key_event(key(KeyCode::Enter));
    assert_eq!(list2.result(), Some("value_0"));
}

#[test]
fn test_selection_list_enter_confirms() {
    let mut list = SelectionList::new(make_items(3), "T".to_string());
    assert_eq!(
        list.handle_key_event(key(KeyCode::Enter)),
        Handled::Handled
    );
    assert!(list.is_complete());
    assert_eq!(list.result(), Some("value_0"));
}

#[test]
fn test_selection_list_enter_on_empty_list() {
    let mut list = SelectionList::new(vec![], "T".to_string());
    // Enter on empty list should not crash, and should not set result
    // or mark as complete (no item to select).
    assert_eq!(
        list.handle_key_event(key(KeyCode::Enter)),
        Handled::Handled
    );
    assert!(!list.is_complete());
    assert!(list.result().is_none());
}

#[test]
fn test_selection_list_enter_after_filter_selects_correct_item() {
    let mut items = make_items(5);
    items.push(SelectionItem::new("Apple", "apple_val"));
    items.push(SelectionItem::new("Orange", "orange_val"));
    let mut list = SelectionList::new(items, "T".to_string());

    // Filter for "apple"
    list.handle_key_event(key(KeyCode::Char('A')));
    list.handle_key_event(key(KeyCode::Enter));
    assert_eq!(list.result(), Some("apple_val"));
}

#[test]
fn test_selection_list_esc_cancels() {
    let mut list = SelectionList::new(make_items(3), "T".to_string());
    assert_eq!(
        list.handle_key_event(key(KeyCode::Esc)),
        Handled::Handled
    );
    assert!(list.is_complete());
    assert!(list.result().is_none());
}

#[test]
fn test_selection_list_is_complete_false_initially() {
    let list = SelectionList::new(make_items(2), "T".to_string());
    assert!(!list.is_complete());
}

#[test]
fn test_selection_list_is_complete_true_after_enter() {
    let mut list = SelectionList::new(make_items(2), "T".to_string());
    list.handle_key_event(key(KeyCode::Enter));
    assert!(list.is_complete());
}

#[test]
fn test_selection_list_is_complete_true_after_esc() {
    let mut list = SelectionList::new(make_items(2), "T".to_string());
    list.handle_key_event(key(KeyCode::Esc));
    assert!(list.is_complete());
}

#[test]
fn test_selection_list_filter_appends_char() {
    let mut list = SelectionList::new(make_items(3), "T".to_string());
    list.handle_key_event(key(KeyCode::Char('x')));
    // visible_items only considers items whose label contains 'x';
    // since none do, the visible list is empty.
    assert!(list.visible_items().is_empty());
}

#[test]
fn test_selection_list_filter_resets_selection_to_zero() {
    let mut items = make_items(5);
    // Add items with distinct first letters
    items.push(SelectionItem::new("Alpha", "a"));
    items.push(SelectionItem::new("Beta", "b"));
    items.push(SelectionItem::new("Gamma", "g"));
    let mut list = SelectionList::new(items, "T".to_string());

    // Move down to item 2
    list.handle_key_event(key(KeyCode::Down));
    list.handle_key_event(key(KeyCode::Down));

    // Type a character — selection resets to 0
    list.handle_key_event(key(KeyCode::Char('B')));
    // Enter should select the first visible item (Beta)
    list.handle_key_event(key(KeyCode::Enter));
    // The visible items are filtered to only "Beta"
    // So selected=0 means Beta
    assert_eq!(list.result(), Some("b"));
}

#[test]
fn test_selection_list_backspace_resets_selection_to_zero() {
    let mut items = make_items(5);
    items.push(SelectionItem::new("Alpha", "a"));
    items.push(SelectionItem::new("Beta", "b"));
    let mut list = SelectionList::new(items, "T".to_string());

    // Filter, then backspace to clear filter
    list.handle_key_event(key(KeyCode::Char('B')));
    assert_eq!(list.visible_items().len(), 1);

    list.handle_key_event(key(KeyCode::Backspace));
    // Selection should be reset to 0; all items visible again
    assert_eq!(list.visible_items().len(), 7);
    list.handle_key_event(key(KeyCode::Enter));
    assert_eq!(list.result(), Some("value_0"));
}

#[test]
fn test_selection_list_unhandled_keys() {
    let mut list = SelectionList::new(make_items(2), "T".to_string());
    assert_eq!(
        list.handle_key_event(key(KeyCode::F(1))),
        Handled::NotHandled
    );
    assert_eq!(
        list.handle_key_event(key(KeyCode::Tab)),
        Handled::NotHandled
    );
    assert_eq!(
        list.handle_key_event(key(KeyCode::Home)),
        Handled::NotHandled
    );
    assert_eq!(
        list.handle_key_event(key(KeyCode::End)),
        Handled::NotHandled
    );
    assert_eq!(
        list.handle_key_event(key(KeyCode::Insert)),
        Handled::NotHandled
    );
    // State should be unchanged
    assert!(!list.is_complete());
    assert!(list.result().is_none());
}

#[test]
fn test_selection_list_on_ctrl_c() {
    let mut list = SelectionList::new(make_items(3), "T".to_string());
    assert_eq!(list.on_ctrl_c(), CtrlCAction::Handled);
    assert!(list.is_complete());
    assert!(list.result().is_none());
}

#[test]
fn test_selection_list_view_id() {
    let list = SelectionList::new(make_items(1), "T".to_string());
    assert_eq!(list.view_id(), Some("selection"));
}

#[test]
fn test_selection_list_desired_height_empty() {
    let list = SelectionList::new(vec![], "T".to_string());
    // 0 visible items + 2 border = 2
    assert_eq!(list.desired_height(80), 2);
}

#[test]
fn test_selection_list_desired_height_with_items() {
    let list = SelectionList::new(make_items(5), "T".to_string());
    // 5 visible items + 2 border = 7
    assert_eq!(list.desired_height(80), 7);
}

#[test]
fn test_selection_list_desired_height_capped_at_15() {
    let list = SelectionList::new(make_items(100), "T".to_string());
    // 100 visible items + 2 border = 102, capped at 15
    assert_eq!(list.desired_height(80), 15);
}

#[test]
fn test_selection_list_desired_height_with_filter() {
    let mut items = make_items(10);
    items.push(SelectionItem::new("Apple", "a"));
    let mut list = SelectionList::new(items, "T".to_string());

    // After filtering to just "Apple", desired_height = 1 + 2 = 3
    list.handle_key_event(key(KeyCode::Char('A')));
    assert_eq!(list.visible_items().len(), 1);
    assert_eq!(list.desired_height(80), 3);
}

#[test]
fn test_selection_list_full_workflow_filter_navigate_confirm() {
    let mut items = make_items(10);
    items.push(SelectionItem::new("Alpha", "alpha_val"));
    items.push(SelectionItem::new("Beta", "beta_val"));
    items.push(SelectionItem::new("Gamma", "gamma_val"));
    let mut list = SelectionList::new(items, "Pick".to_string());

    // Filter for "a" — matches Alpha, Beta, Gamma (all contain 'a')
    list.handle_key_event(key(KeyCode::Char('a')));
    assert_eq!(list.visible_items().len(), 3);
    assert_eq!(list.visible_items()[0].label, "Alpha");

    // Confirm — selects first visible item (Alpha)
    list.handle_key_event(key(KeyCode::Enter));
    assert_eq!(list.result(), Some("alpha_val"));
    assert!(list.is_complete());
}

#[test]
fn test_selection_list_filter_navigate_down_then_enter() {
    let mut items = make_items(3);
    items.push(SelectionItem::new("Apple", "a"));
    items.push(SelectionItem::new("Apricot", "ap"));
    items.push(SelectionItem::new("Avocado", "av"));
    let mut list = SelectionList::new(items, "T".to_string());

    // Filter for "ap"
    list.handle_key_event(key(KeyCode::Char('a')));
    list.handle_key_event(key(KeyCode::Char('p')));
    assert_eq!(list.visible_items().len(), 2); // Apple, Apricot

    // Move down
    list.handle_key_event(key(KeyCode::Down));
    list.handle_key_event(key(KeyCode::Enter));
    // Second item: Apricot
    assert_eq!(list.result(), Some("ap"));
}

#[test]
fn test_selection_list_esc_after_filter() {
    let mut list = SelectionList::new(make_items(5), "T".to_string());
    list.handle_key_event(key(KeyCode::Char('x')));
    list.handle_key_event(key(KeyCode::Esc));
    assert!(list.is_complete());
    assert!(list.result().is_none());
}

#[test]
fn test_selection_list_enter_on_filtered_empty_list() {
    let items = vec![
        SelectionItem::new("Cat", "c"),
        SelectionItem::new("Dog", "d"),
    ];
    let mut list = SelectionList::new(items, "T".to_string());

    // Filter to nothing
    list.handle_key_event(key(KeyCode::Char('z')));
    assert!(list.visible_items().is_empty());

    // Enter on empty filtered list should not crash
    // (no confirmation since no item is selectable)
    assert_eq!(
        list.handle_key_event(key(KeyCode::Enter)),
        Handled::Handled
    );
    assert!(!list.is_complete());
    assert!(list.result().is_none());
}

#[test]
fn test_selection_list_single_item() {
    let mut list = SelectionList::new(
        vec![SelectionItem::new("Only", "only_val")],
        "T".to_string(),
    );
    assert_eq!(list.visible_items().len(), 1);
    assert_eq!(list.desired_height(80), 3); // 1 + 2

    list.handle_key_event(key(KeyCode::Down)); // stays at 0
    list.handle_key_event(key(KeyCode::Up)); // stays at 0
    list.handle_key_event(key(KeyCode::Enter));
    assert_eq!(list.result(), Some("only_val"));
}

#[test]
fn test_selection_list_many_items_desired_height_capped() {
    let list = SelectionList::new(make_items(1000), "T".to_string());
    // Capped at 15 regardless of how many items
    assert_eq!(list.desired_height(80), 15);
}

#[test]
fn test_selection_list_desired_height_zero_width() {
    let list = SelectionList::new(make_items(5), "T".to_string());
    // desired_height doesn't use width, so this should be fine
    assert_eq!(list.desired_height(0), 7);
}

#[test]
fn law_down_then_up_returns_example() {
    let mut list = SelectionList::new(make_items(4), "T".to_string());
    list.handle_key_event(key(KeyCode::Down));
    let before = list.selected();
    list.handle_key_event(key(KeyCode::Down));
    list.handle_key_event(key(KeyCode::Up));
    assert_eq!(list.selected(), before);
}

#[test]
fn law_navigation_stays_visible_example() {
    let mut list = SelectionList::new(make_items(3), "T".to_string());
    for _ in 0..10 {
        list.handle_key_event(key(KeyCode::Down));
        assert!(list.selected() < list.visible_items().len());
    }
    list.handle_key_event(key(KeyCode::Char('1')));
    assert!(list.selected() < list.visible_items().len());
}
