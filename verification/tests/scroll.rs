use ebay::scroll::{ScrollState, BOTTOM_OFFSET, PAGE_LINES};

#[test]
fn scrolling_moves_by_lines_and_pages() {
    let mut state = ScrollState::default();
    assert_eq!(state.vertical_scroll, 0);
    state.scroll_down();
    assert_eq!(state.vertical_scroll, 1);
    state.scroll_page_down();
    assert_eq!(state.vertical_scroll, 11);
    state.scroll_up();
    assert_eq!(state.vertical_scroll, 10);
    state.scroll_page_up();
    assert_eq!(state.vertical_scroll, 0);
}

#[test]
fn scrolling_up_stops_at_the_top() {
    let mut state = ScrollState { vertical_scroll: 0 };
    state.scroll_up();
    assert_eq!(state.vertical_scroll, 0);
    state.vertical_scroll = 9;
    state.scroll_page_up();
    assert_eq!(state.vertical_scroll, 0);
    state.vertical_scroll = 10;
    state.scroll_page_up();
    assert_eq!(state.vertical_scroll, 0);
    state.vertical_scroll = 11;
    state.scroll_page_up();
    assert_eq!(state.vertical_scroll, 1);
}

#[test]
fn jumps_go_to_top_and_bottom() {
    let mut state = ScrollState { vertical_scroll: 37 };
    state.scroll_to_bottom();
    assert_eq!(state.vertical_scroll, 1000);
    assert_eq!(BOTTOM_OFFSET, 1000);
    state.scroll_to_top();
    assert_eq!(state.vertical_scroll, 0);
    assert_eq!(PAGE_LINES, 10);
}
