use bench_list::bench::build_front;
use bench_list::list::List;

#[test]
fn mixed_pushes_show_in_order() {
    let mut l = List::new();
    l.push_back(1);
    l.push_back(2);
    l.push_front(0);
    assert_eq!(l.to_string(), "[0, 1, 2]");
}

#[test]
fn new_list_shows_empty_brackets() {
    let l: List<i32> = List::new();
    assert_eq!(l.to_string(), "[]");
    assert_eq!(l.len(), 0);
    assert!(l.is_empty());
}

#[test]
fn front_pushes_show_reversed() {
    let mut l = List::new();
    for v in [10, 20, 30, 40, 50] {
        l.push_front(v);
    }
    assert_eq!(l.to_string(), "[50, 40, 30, 20, 10]");
}

#[test]
fn back_pushes_show_in_order() {
    let mut l = List::new();
    for v in [7, -3, 12, 0] {
        l.push_back(v);
    }
    assert_eq!(l.to_string(), "[7, -3, 12, 0]");
}

#[test]
fn single_element_has_no_separator() {
    let mut l = List::new();
    l.push_back(42u64);
    assert_eq!(l.to_string(), "[42]");
    let mut m = List::new();
    m.push_front(-5i64);
    assert_eq!(m.to_string(), "[-5]");
}

#[test]
fn traverse_counts_every_push() {
    let mut l = List::new();
    assert_eq!(l.traverse(), 0);
    l.push_front(1);
    l.push_back(2);
    l.push_front(3);
    l.push_back(4);
    l.push_back(5);
    assert_eq!(l.traverse(), 5);
    assert_eq!(l.len(), 5);
    assert_eq!(l.to_string(), "[3, 1, 2, 4, 5]");
}

#[test]
fn traverse_leaves_display_unchanged() {
    let l = build_front(&vec![4, 5, 6]);
    let before = l.to_string();
    assert_eq!(l.traverse(), 3);
    assert_eq!(l.traverse(), 3);
    assert_eq!(l.to_string(), before);
    assert_eq!(before, "[6, 5, 4]");
}

#[test]
fn build_front_reverses_values() {
    let l = build_front(&vec![1, 2, 3, 4]);
    assert_eq!(l.to_string(), "[4, 3, 2, 1]");
    let e = build_front::<i32>(&vec![]);
    assert_eq!(e.to_string(), "[]");
}

#[test]
fn long_list_is_destroyed_without_deep_recursion() {
    let mut l = List::new();
    for v in 0..1_000_000i32 {
        l.push_front(v);
    }
    assert_eq!(l.traverse(), 1_000_000);
    drop(l);
}

#[test]
fn long_built_list_is_destroyed() {
    let values: Vec<i32> = (0..1_000_000).collect();
    let l = build_front(&values);
    assert_eq!(l.len(), 1_000_000);
}

#[test]
fn push_back_walks_long_chain() {
    let mut l = build_front(&(0..200_000).collect::<Vec<i32>>());
    l.push_back(-1);
    assert_eq!(l.len(), 200_001);
    assert_eq!(l.traverse(), 200_001);
}

#[test]
fn clear_empties_and_list_is_reusable() {
    let mut l = List::new();
    l.push_back(1u32);
    l.push_back(2u32);
    l.clear();
    assert!(l.is_empty());
    assert_eq!(l.to_string(), "[]");
    l.push_front(9u32);
    assert_eq!(l.to_string(), "[9]");
}

#[test]
fn extreme_values_render_exactly() {
    let mut l = List::new();
    l.push_back(i32::MIN);
    l.push_back(i32::MAX);
    l.push_back(0);
    assert_eq!(l.to_string(), "[-2147483648, 2147483647, 0]");
    let mut m = List::new();
    m.push_back(i64::MIN);
    assert_eq!(m.to_string(), "[-9223372036854775808]");
    let mut u = List::new();
    u.push_back(u128::MAX);
    u.push_back(10u128);
    assert_eq!(u.to_string(), "[340282366920938463463374607431768211455, 10]");
}
