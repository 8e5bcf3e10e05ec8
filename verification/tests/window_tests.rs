use tunik::item::{FuzzyListItem, Line};
use tunik::list::{Corner, FuzzyList};
use tunik::state::FuzzyListState;
use tunik::style::{Color, Style};

fn item_of_height(h: usize) -> FuzzyListItem {
    let mut lines = Vec::new();
    for i in 0..h {
        lines.push(Line::raw(format!("line {i}")));
    }
    FuzzyListItem::new(lines)
}

fn list_of_heights(hs: &[usize]) -> FuzzyList {
    FuzzyList::new(hs.iter().map(|&h| item_of_height(h)).collect())
}

#[test]
fn window_scrolls_down_to_selection() {
    let list = list_of_heights(&[1, 1, 1, 1, 1]);
    assert_eq!(list.get_items_bounds(Some(4), 0, 3), (2, 5));
}

#[test]
fn window_stays_when_selection_visible() {
    let list = list_of_heights(&[1, 1, 1, 1, 1]);
    assert_eq!(list.get_items_bounds(Some(1), 0, 3), (0, 3));
    assert_eq!(list.get_items_bounds(None, 0, 3), (0, 3));
}

#[test]
fn window_scrolls_up_to_selection() {
    let list = list_of_heights(&[1, 1, 1, 1, 1]);
    assert_eq!(list.get_items_bounds(Some(1), 3, 3), (1, 4));
}

#[test]
fn window_with_varying_heights() {
    let list = list_of_heights(&[2, 1, 2]);
    assert_eq!(list.get_items_bounds(Some(2), 0, 3), (1, 3));
    assert_eq!(list.get_items_bounds(Some(0), 0, 3), (0, 2));
}

#[test]
fn window_clamps_selection_past_end() {
    let list = list_of_heights(&[1, 1, 1]);
    assert_eq!(list.get_items_bounds(Some(10), 0, 2), (1, 3));
}

#[test]
fn window_clamps_offset_past_end() {
    let list = list_of_heights(&[1, 1, 1]);
    assert_eq!(list.get_items_bounds(None, 10, 2), (0, 2));
}

#[test]
fn budget_equal_to_item_height_shows_one_item() {
    let list = list_of_heights(&[1, 1, 1]);
    assert_eq!(list.get_items_bounds(Some(2), 0, 1), (2, 3));
    assert_eq!(list.get_items_bounds(Some(0), 2, 1), (0, 1));
}

#[test]
fn item_taller_than_budget_yields_empty_window() {
    let list = list_of_heights(&[2]);
    assert_eq!(list.get_items_bounds(Some(0), 0, 1), (0, 0));
}

#[test]
fn compute_window_stores_new_offset() {
    let list = list_of_heights(&[1, 1, 1, 1, 1]);
    let mut state = FuzzyListState::with_items(vec![]);
    state.select(Some(4));
    let (start, end) = state.compute_window(&list, 3);
    assert_eq!((start, end), (2, 5));
    assert_eq!(state.offset, 2);
}

#[test]
fn offset_is_monotonic_under_downward_moves() {
    let list = list_of_heights(&[1, 1, 1, 1, 1, 1, 1]);
    let mut state = FuzzyListState::with_items(vec![]);
    let mut last_start = 0usize;
    for _ in 0..7 {
        state.increment_selected();
        let (start, _end) = state.compute_window(&list, 3);
        assert!(start >= last_start);
        last_start = start;
    }
    assert_eq!(last_start, 4);
}

#[test]
fn list_builders_keep_settings() {
    let list = FuzzyList::new(vec![item_of_height(1)])
        .style(Style::default().fg(Color::Blue))
        .highlight_symbol("> ".to_string())
        .highlight_style(Style::default().bg(Color::Gray))
        .repeat_highlight_symbol(true)
        .start_corner(Corner::BottomLeft);
    assert_eq!(list.style, Style::default().fg(Color::Blue));
    assert_eq!(list.highlight_symbol.as_deref(), Some("> "));
    assert_eq!(list.highlight_style, Style::default().bg(Color::Gray));
    assert!(list.repeat_highlight_symbol);
    assert_eq!(list.start_corner, Corner::BottomLeft);
}
