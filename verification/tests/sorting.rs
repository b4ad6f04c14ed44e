use codemark::sort::{sort_by, SortItem as Item, SortMethod};

fn fixture() -> Vec<Item<'static>> {
    vec![
        Item { name: "Banana", timestamp: Some("2024-01-01T00:00:00Z") },
        Item { name: "apple", timestamp: Some("2026-01-01T00:00:00Z") },
        Item { name: "cherry", timestamp: None },
        Item { name: "Avocado", timestamp: Some("2025-01-01T00:00:00Z") },
    ]
}

fn names<'a>(items: &[Item<'a>]) -> Vec<&'a str> {
    items.iter().map(|i| i.name).collect()
}

#[test]
fn cycles_through_all_four_in_order() {
    assert_eq!(SortMethod::AlphabeticalAsc.next(), SortMethod::AlphabeticalDesc);
    assert_eq!(SortMethod::AlphabeticalDesc.next(), SortMethod::DateNewest);
    assert_eq!(SortMethod::DateNewest.next(), SortMethod::DateOldest);
    assert_eq!(SortMethod::DateOldest.next(), SortMethod::AlphabeticalAsc);
    assert_eq!(SortMethod::all().len(), 4);
}

#[test]
fn alphabetical_is_case_insensitive() {
    let mut items = fixture();
    sort_by(&mut items, SortMethod::AlphabeticalAsc);
    assert_eq!(names(&items), vec!["apple", "Avocado", "Banana", "cherry"]);

    sort_by(&mut items, SortMethod::AlphabeticalDesc);
    assert_eq!(names(&items), vec!["cherry", "Banana", "Avocado", "apple"]);
}

#[test]
fn date_orders_by_timestamp_with_undated_last() {
    let mut items = fixture();
    sort_by(&mut items, SortMethod::DateNewest);
    // 2026 (apple), 2025 (Avocado), 2024 (Banana), then the undated cherry.
    assert_eq!(names(&items), vec!["apple", "Avocado", "Banana", "cherry"]);

    sort_by(&mut items, SortMethod::DateOldest);
    assert_eq!(names(&items), vec!["Banana", "Avocado", "apple", "cherry"]);
}

#[test]
fn sort_is_stable_for_equal_keys() {
    // Equal names keep insertion order (distinguished here by timestamp).
    let mut items = vec![
        Item { name: "dup", timestamp: Some("a") },
        Item { name: "dup", timestamp: Some("b") },
        Item { name: "dup", timestamp: Some("c") },
    ];
    sort_by(&mut items, SortMethod::AlphabeticalAsc);
    assert_eq!(items.iter().map(|i| i.timestamp.unwrap()).collect::<Vec<_>>(), vec!["a", "b", "c"]);
}

#[test]
fn labels_name_each_method() {
    assert_eq!(SortMethod::AlphabeticalAsc.label(), "Name A→Z");
    assert_eq!(SortMethod::AlphabeticalDesc.label(), "Name Z→A");
    assert_eq!(SortMethod::DateNewest.label(), "Newest");
    assert_eq!(SortMethod::DateOldest.label(), "Oldest");
}
