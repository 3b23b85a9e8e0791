use herdr_npm::adapters::tui::app::{bounded_list_offset, max_list_offset};

#[test]
fn bounded_list_offset_stops_at_both_ends() {
    assert_eq!(bounded_list_offset(0, -3, 40, 19), 0);
    assert_eq!(bounded_list_offset(0, 3, 40, 19), 3);
    assert_eq!(bounded_list_offset(20, 3, 40, 19), 21);
    assert_eq!(bounded_list_offset(21, 3, 40, 19), 21);
    assert_eq!(bounded_list_offset(0, 3, 3, 19), 0);
    assert_eq!(bounded_list_offset(5, 3, 40, 0), 0);
}

#[test]
fn max_offset_leaves_a_full_page() {
    assert_eq!(max_list_offset(40, 19), 21);
    assert_eq!(max_list_offset(3, 19), 0);
    assert_eq!(max_list_offset(40, 0), 0);
}
