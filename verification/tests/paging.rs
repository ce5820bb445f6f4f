use dirnav::paging::{
    entries_on_page, index_on_page, max_page, next_page, next_page_wrapping, previous_page,
    PAGE_SIZE,
};

#[test]
fn max_page_is_zero_up_to_ten_entries() {
    assert_eq!(max_page(0), 0);
    assert_eq!(max_page(1), 0);
    assert_eq!(max_page(10), 0);
}

#[test]
fn max_page_counts_started_pages() {
    assert_eq!(max_page(11), 1);
    assert_eq!(max_page(20), 1);
    assert_eq!(max_page(21), 2);
    assert_eq!(max_page(25), 2);
    assert_eq!(max_page(usize::MAX), (usize::MAX - 1) / 10);
}

#[test]
fn page_size_is_ten() {
    assert_eq!(PAGE_SIZE, 10);
}

#[test]
fn page_forward_with_wrap_returns_to_first_page_from_last() {
    assert_eq!(next_page_wrapping(2, 25), 0);
    assert_eq!(next_page_wrapping(0, 25), 1);
    assert_eq!(next_page_wrapping(1, 25), 2);
    assert_eq!(next_page_wrapping(0, 10), 0);
    assert_eq!(next_page_wrapping(0, 0), 0);
    assert_eq!(next_page_wrapping(usize::MAX, 25), 0);
}

#[test]
fn page_forward_stops_at_last_page() {
    assert_eq!(next_page(0, 25), 1);
    assert_eq!(next_page(1, 25), 2);
    assert_eq!(next_page(2, 25), 2);
    assert_eq!(next_page(7, 25), 2);
    assert_eq!(next_page(0, 10), 0);
    assert_eq!(next_page(0, 0), 0);
}

#[test]
fn page_backward_stops_at_first_page() {
    assert_eq!(previous_page(2), 1);
    assert_eq!(previous_page(1), 0);
    assert_eq!(previous_page(0), 0);
}

#[test]
fn entries_on_page_is_ten_but_for_the_last_page() {
    assert_eq!(entries_on_page(25, 0), 10);
    assert_eq!(entries_on_page(25, 1), 10);
    assert_eq!(entries_on_page(25, 2), 5);
    assert_eq!(entries_on_page(25, 3), 0);
    assert_eq!(entries_on_page(20, 1), 10);
    assert_eq!(entries_on_page(20, 2), 0);
    assert_eq!(entries_on_page(0, 0), 0);
    assert_eq!(entries_on_page(3, usize::MAX), 0);
}

#[test]
fn index_on_page_adds_ten_for_each_page() {
    assert_eq!(index_on_page(25, 0, 0), Some(0));
    assert_eq!(index_on_page(25, 1, 2), Some(12));
    assert_eq!(index_on_page(25, 2, 4), Some(24));
    assert_eq!(index_on_page(25, 2, 5), None);
    assert_eq!(index_on_page(25, 3, 0), None);
    assert_eq!(index_on_page(0, 0, 0), None);
    assert_eq!(index_on_page(5, usize::MAX, usize::MAX), None);
    assert_eq!(index_on_page(5, 0, usize::MAX), None);
}
