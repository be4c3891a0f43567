use dj_event_store::listing::paginate;

#[test]
fn second_page_of_seven_by_three() {
    let items = vec![10, 11, 12, 13, 14, 15, 16];
    assert_eq!(paginate(items, 2, 3), vec![13, 14, 15]);
}

#[test]
fn page_behind_the_end_is_empty() {
    let items = vec![10, 11, 12, 13, 14, 15, 16];
    assert_eq!(paginate(items, 10, 3), Vec::<i32>::new());
}

#[test]
fn first_and_last_pages() {
    let items: Vec<u8> = (1..=7).collect();
    assert_eq!(paginate(items.clone(), 1, 3), vec![1, 2, 3]);
    assert_eq!(paginate(items.clone(), 3, 3), vec![7]);
    assert_eq!(paginate(items.clone(), 4, 3), Vec::<u8>::new());
    assert_eq!(paginate(items.clone(), 1, 7), items);
    assert_eq!(paginate(items.clone(), 1, 100), items);
}

#[test]
fn page_zero_reads_as_page_one() {
    let items: Vec<u8> = (1..=7).collect();
    assert_eq!(paginate(items, 0, 2), vec![1, 2]);
}

#[test]
fn pages_of_no_items_hold_nothing() {
    let items: Vec<String> = vec!["a".to_string(), "b".to_string()];
    assert_eq!(paginate(items.clone(), 1, 0), Vec::<String>::new());
    assert_eq!(paginate(items, 5, 0), Vec::<String>::new());
    assert_eq!(paginate(Vec::<String>::new(), 1, 3), Vec::<String>::new());
}

#[test]
fn huge_pages_do_not_overflow() {
    let items: Vec<u8> = (1..=7).collect();
    assert_eq!(paginate(items.clone(), usize::MAX, usize::MAX), Vec::<u8>::new());
    assert_eq!(paginate(items.clone(), 3, usize::MAX), Vec::<u8>::new());
    assert_eq!(paginate(items.clone(), 1, usize::MAX), items);
    assert_eq!(paginate(items, 2, usize::MAX), Vec::<u8>::new());
}

#[test]
fn pages_keep_owned_items() {
    let items = vec!["a".to_string(), "b".to_string(), "c".to_string()];
    assert_eq!(paginate(items, 2, 2), vec!["c".to_string()]);
}
