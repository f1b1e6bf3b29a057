use cs::filter::Entry;
use cs::listing::{name_le_exec, sort_by_name};

fn entry(name: &str, is_dir: bool) -> Entry {
    Entry { name: name.to_string(), is_dir }
}

#[test]
fn names_compare_by_code_point() {
    assert!(name_le_exec("Banana", "apple"));
    assert!(!name_le_exec("apple", "Banana"));
    assert!(name_le_exec("ab", "abc"));
    assert!(!name_le_exec("abc", "ab"));
    assert!(name_le_exec("same", "same"));
    assert!(name_le_exec("", ""));
    assert!(name_le_exec("z", "é"));
}

#[test]
fn sort_orders_listing_by_name() {
    let sorted = sort_by_name(vec![
        entry("grape", false),
        entry("apple", false),
        entry("Banana", true),
    ]);
    let got: Vec<(String, bool)> = sorted.iter().map(|e| (e.name.clone(), e.is_dir)).collect();
    assert_eq!(
        got,
        vec![
            ("Banana".to_string(), true),
            ("apple".to_string(), false),
            ("grape".to_string(), false)
        ]
    );
}

#[test]
fn sort_keeps_every_entry() {
    assert!(sort_by_name(vec![]).is_empty());
    let sorted = sort_by_name(vec![entry("b", false), entry("a", true), entry("b", true)]);
    assert_eq!(sorted.len(), 3);
    assert_eq!(sorted[0].name, "a");
    assert_eq!(sorted[1].name, "b");
    assert_eq!(sorted[2].name, "b");
}

#[test]
fn sorting_twice_changes_nothing() {
    let once = sort_by_name(vec![entry("c", false), entry("a", false), entry("b", false)]);
    let names: Vec<String> = once.iter().map(|e| e.name.clone()).collect();
    let twice = sort_by_name(once);
    let again: Vec<String> = twice.iter().map(|e| e.name.clone()).collect();
    assert_eq!(names, again);
}
