use sycamore_toasts::store::Toasts;
use sycamore_toasts::toast::Toast;

fn store_of(entries: &[(&str, u8)]) -> Toasts<String> {
    Toasts::from_entries(entries.iter().map(|(text, rank)| (text.to_string(), *rank)).collect())
}

fn entries_of(store: &Toasts<String>) -> Vec<(&str, u8)> {
    store.entries().iter().map(|(text, rank)| (text.as_str(), *rank)).collect()
}

#[test]
fn test_toasts() {
    let toasts: Toasts<Toast> = Toasts::default();
    assert!(toasts.is_empty());
    assert_eq!(toasts.visible(), Vec::<Toast>::new());
}

#[test]
fn new_store_is_empty() {
    let store: Toasts<String> = Toasts::new();
    assert_eq!(store.len(), 0);
    assert!(store.is_empty());
    assert!(store.entries().is_empty());
    assert!(store.visible().is_empty());
}

#[test]
fn visible_is_the_rank_zero_entries_in_order() {
    let store = store_of(&[("a", 0), ("b", 2), ("c", 0), ("d", 1), ("e", 0), ("f", 255)]);
    assert_eq!(store.visible(), vec!["a", "c", "e"]);
    assert_eq!(store.len(), 6);
}

#[test]
fn visible_follows_every_call() {
    let mut store: Toasts<String> = Toasts::new();
    assert!(store.visible().is_empty());
    store.add_toast("a".to_string());
    assert_eq!(store.visible(), vec!["a"]);
    store.add_toast("b".to_string()).with_rank(1);
    assert_eq!(store.visible(), vec!["a"]);
    store.add_toast("c".to_string());
    assert_eq!(store.visible(), vec!["a", "c"]);
    store.clear_toasts();
    assert_eq!(store.visible(), vec!["b"]);
    store.remove_by_value(&"b".to_string());
    assert!(store.visible().is_empty());
}

#[test]
fn add_toast_appends_a_visible_entry() {
    let mut store = store_of(&[("a", 0), ("b", 3)]);
    store.add_toast("c".to_string());
    assert_eq!(entries_of(&store), vec![("a", 0), ("b", 3), ("c", 0)]);
    assert_eq!(store.entries().last(), Some(&("c".to_string(), 0)));
    assert_eq!(store.visible().last(), Some(&"c".to_string()));
}

#[test]
fn add_toast_chains() {
    let mut store: Toasts<String> = Toasts::new();
    store.add_toast("a".to_string()).add_toast("b".to_string()).with_rank(4).add_toast(
        "c".to_string(),
    );
    assert_eq!(entries_of(&store), vec![("a", 0), ("b", 4), ("c", 0)]);
}

#[test]
fn hidden_toast_is_stored_but_not_shown() {
    let mut store = store_of(&[("a", 0)]);
    store.add_toast("later".to_string()).with_rank(2);
    assert!(!store.visible().contains(&"later".to_string()));
    assert!(store.entries().contains(&("later".to_string(), 2)));
    assert_eq!(store.visible(), vec!["a"]);
}

#[test]
fn with_rank_sets_the_last_entry_only() {
    let mut store = store_of(&[("a", 0), ("b", 0), ("c", 0)]);
    store.with_rank(7);
    assert_eq!(entries_of(&store), vec![("a", 0), ("b", 0), ("c", 7)]);
    store.with_rank(0);
    assert_eq!(entries_of(&store), vec![("a", 0), ("b", 0), ("c", 0)]);
    store.with_rank(255);
    assert_eq!(entries_of(&store), vec![("a", 0), ("b", 0), ("c", 255)]);
}

#[test]
fn with_rank_on_an_empty_store_does_nothing() {
    let mut store: Toasts<String> = Toasts::new();
    store.with_rank(3);
    assert!(store.is_empty());
    assert!(store.visible().is_empty());
}

#[test]
fn clear_on_an_empty_store_does_nothing() {
    let mut store: Toasts<String> = Toasts::new();
    store.clear_toasts();
    assert!(store.is_empty());
    assert!(store.visible().is_empty());
}

#[test]
fn clear_drops_rank_zero_and_lowers_the_rest() {
    let mut store = store_of(&[("a", 0), ("b", 1), ("c", 0), ("d", 255), ("e", 2)]);
    store.clear_toasts();
    assert_eq!(entries_of(&store), vec![("b", 0), ("d", 254), ("e", 1)]);
    assert_eq!(store.visible(), vec!["b"]);
}

#[test]
fn repeated_clears_lower_ranks_step_by_step() {
    let start = [("a", 0), ("b", 1), ("c", 2), ("d", 3), ("e", 1), ("f", 5)];
    let expected: [Vec<(&str, u8)>; 7] = [
        vec![("a", 0), ("b", 1), ("c", 2), ("d", 3), ("e", 1), ("f", 5)],
        vec![("b", 0), ("c", 1), ("d", 2), ("e", 0), ("f", 4)],
        vec![("c", 0), ("d", 1), ("f", 3)],
        vec![("d", 0), ("f", 2)],
        vec![("f", 1)],
        vec![("f", 0)],
        vec![],
    ];
    let mut store = store_of(&start);
    for (k, left) in expected.iter().enumerate() {
        assert_eq!(&entries_of(&store), left, "after {} clears", k);
        let by_rule: Vec<(&str, u8)> = start
            .iter()
            .filter(|(_, rank)| *rank as usize >= k)
            .map(|(text, rank)| (*text, rank - k as u8))
            .collect();
        assert_eq!(&by_rule, left);
        store.clear_toasts();
    }
    assert!(store.is_empty());
}

#[test]
fn two_visible_toasts_are_cleared_at_once() {
    let a = Toast::primary("a");
    let b = Toast::primary("b");
    let mut store: Toasts<Toast> = Toasts::new();
    store.add_toast(a).add_toast(b);
    store.clear_toasts();
    assert!(store.visible().is_empty());
    assert!(store.entries().is_empty());
}

#[test]
fn hidden_toast_shows_after_two_clears() {
    let a = Toast::primary("a");
    let b = Toast::success("b");
    let mut store: Toasts<Toast> = Toasts::new();
    store.add_toast(a).add_toast(b.clone()).with_rank(2);
    store.clear_toasts();
    assert!(store.visible().is_empty());
    assert_eq!(store.entries(), &vec![(b.clone(), 1)]);
    store.clear_toasts();
    assert_eq!(store.visible(), vec![b.clone()]);
    assert_eq!(store.entries(), &vec![(b, 0)]);
}

#[test]
fn single_primary_toast_is_visible() {
    let toast = Toast::primary("hi");
    let mut store: Toasts<Toast> = Toasts::new();
    store.add_toast(toast.clone());
    let visible = store.visible();
    assert_eq!(visible, vec![toast.clone()]);
    assert_eq!(visible[0].title(), "hi");
    assert_eq!(visible[0].toast_type(), sycamore_toasts::toast::ToastType::Primary);
    assert_eq!(store.entries(), &vec![(toast, 0)]);
}

#[test]
fn remove_by_value_removes_every_equal_payload() {
    let mut store = store_of(&[("a", 0), ("b", 1), ("a", 2), ("c", 0)]);
    store.remove_by_value(&"a".to_string());
    assert_eq!(entries_of(&store), vec![("b", 1), ("c", 0)]);
}

#[test]
fn remove_by_value_twice_is_as_once() {
    let mut store = store_of(&[("a", 0), ("b", 1), ("a", 2), ("c", 0)]);
    store.remove_by_value(&"a".to_string());
    let once = store.entries().clone();
    store.remove_by_value(&"a".to_string());
    assert_eq!(store.entries(), &once);
}

#[test]
fn remove_by_value_of_an_absent_payload_does_nothing() {
    let mut store = store_of(&[("a", 0), ("b", 1)]);
    store.remove_by_value(&"z".to_string());
    assert_eq!(entries_of(&store), vec![("a", 0), ("b", 1)]);
    let mut empty: Toasts<String> = Toasts::new();
    empty.remove_by_value(&"z".to_string());
    assert!(empty.is_empty());
}

#[test]
fn remove_by_id_removes_the_one_entry() {
    let a = Toast::primary("a");
    let b = Toast::warning("b");
    let c = Toast::danger("c");
    let mut store: Toasts<Toast> = Toasts::new();
    store.add_toast(a.clone()).add_toast(b.clone()).with_rank(1).add_toast(c.clone());
    store.remove_by_id(b.id());
    assert_eq!(store.entries(), &vec![(a.clone(), 0), (c.clone(), 0)]);
    store.remove_by_id(a.id());
    assert_eq!(store.entries(), &vec![(c, 0)]);
}

#[test]
fn remove_by_id_twice_is_as_once() {
    let a = Toast::primary("a");
    let b = Toast::warning("b");
    let mut store: Toasts<Toast> = Toasts::new();
    store.add_toast(a.clone()).add_toast(b.clone());
    store.remove_by_id(a.id());
    let once = store.entries().clone();
    store.remove_by_id(a.id());
    assert_eq!(store.entries(), &once);
    assert_eq!(once, vec![(b, 0)]);
}

#[test]
fn remove_by_id_takes_the_first_of_two() {
    let first = Toast::from_parts("first".to_string(), String::new(), sycamore_toasts::toast::ToastType::Primary, 9);
    let second = Toast::from_parts("second".to_string(), String::new(), sycamore_toasts::toast::ToastType::Primary, 9);
    let mut store: Toasts<Toast> = Toasts::new();
    store.add_toast(first).add_toast(second.clone());
    store.remove_by_id(9);
    assert_eq!(store.entries(), &vec![(second, 0)]);
    store.remove_by_id(9);
    assert!(store.is_empty());
}

#[test]
fn remove_by_id_of_an_absent_identifier_does_nothing() {
    let a = Toast::primary("a");
    let mut store: Toasts<Toast> = Toasts::new();
    store.add_toast(a.clone());
    store.remove_by_id(a.id().wrapping_add(1));
    assert_eq!(store.entries(), &vec![(a, 0)]);
}

#[test]
fn from_entries_keeps_order_and_ranks() {
    let store = store_of(&[("x", 3), ("y", 0), ("x", 3)]);
    assert_eq!(entries_of(&store), vec![("x", 3), ("y", 0), ("x", 3)]);
    assert_eq!(store.len(), 3);
    assert!(!store.is_empty());
}

#[test]
fn clone_copies_entries_and_then_goes_its_own_way() {
    let mut store = store_of(&[("a", 0), ("b", 2)]);
    let copy = store.clone();
    store.clear_toasts();
    assert_eq!(entries_of(&copy), vec![("a", 0), ("b", 2)]);
    assert_eq!(entries_of(&store), vec![("b", 1)]);
}
