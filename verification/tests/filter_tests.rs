use tunik::item::{FuzzyListItem, Line, Span};
use tunik::state::FuzzyListState;
use tunik::style::{Color, Style};

fn item(text: &str) -> FuzzyListItem {
    FuzzyListItem::new(vec![Line::raw(text.to_string())])
}

fn cities() -> Vec<FuzzyListItem> {
    vec![
        item("Paris — France"),
        item("Berlin — Germany"),
        item("Madrid — Spain"),
    ]
}

fn line_text(item: &FuzzyListItem, line: usize) -> String {
    item.lines[line]
        .spans
        .iter()
        .map(|s| s.content.as_str())
        .collect()
}

#[test]
fn filter_keeps_matching_items_in_order() {
    let mut state = FuzzyListState::with_items(cities());
    state.select(Some(1));
    state.set_filter(Some("ar"));
    let visible = state.get_items();
    assert_eq!(visible.len(), 2);
    assert_eq!(line_text(&visible[0], 0), "Paris — France");
    assert_eq!(line_text(&visible[1], 0), "Madrid — Spain");
    assert_eq!(state.selected(), None);
    assert_eq!(state.offset, 0);
    assert_eq!(state.get_filter().as_deref(), Some("ar"));
}

#[test]
fn filter_highlights_match_with_filter_style() {
    let red = Style::default().fg(Color::Red);
    let mut state = FuzzyListState::with_items(cities());
    state.set_filter(Some("ar"));
    let visible = state.get_items();

    // "Paris — France": the match starts at "ar" and splits the line in three.
    let spans: &Vec<Span> = &visible[0].lines[0].spans;
    assert_eq!(spans.len(), 3);
    assert_eq!(spans[0].content, "P");
    assert_eq!(spans[0].style, Style::default());
    assert_eq!(spans[1].content, "ar");
    assert_eq!(spans[1].style, red);
    assert_eq!(spans[2].content, "is — France");
    assert_eq!(spans[2].style, Style::default());

    // "Madrid — Spain": the reported match starts at the "a", so the two
    // characters from there carry the filter style.
    let spans: &Vec<Span> = &visible[1].lines[0].spans;
    assert_eq!(spans.len(), 3);
    assert_eq!(spans[0].content, "M");
    assert_eq!(spans[1].content, "ad");
    assert_eq!(spans[1].style, red);
    assert_eq!(spans[2].content, "rid — Spain");
}

#[test]
fn filter_round_trip_restores_full_collection() {
    let mut state = FuzzyListState::with_items(cities());
    state.set_filter(Some("ar"));
    assert_eq!(state.get_items().len(), 2);
    state.set_filter(None);
    let visible = state.get_items();
    assert_eq!(visible.len(), 3);
    assert_eq!(line_text(&visible[0], 0), "Paris — France");
    assert_eq!(line_text(&visible[1], 0), "Berlin — Germany");
    assert_eq!(line_text(&visible[2], 0), "Madrid — Spain");
    assert_eq!(state.get_filter(), None);
}

#[test]
fn repeated_filter_does_not_reset_selection() {
    let mut state = FuzzyListState::with_items(cities());
    state.set_filter(Some("ar"));
    assert_eq!(state.selected(), None);
    state.select(Some(1));
    state.set_filter(Some("ar"));
    assert_eq!(state.selected(), Some(1));
    assert_eq!(state.get_items().len(), 2);
}

#[test]
fn empty_filter_equals_no_filter() {
    let mut a = FuzzyListState::with_items(cities());
    let mut b = FuzzyListState::with_items(cities());
    a.set_filter(Some("ar"));
    b.set_filter(Some("ar"));
    a.set_filter(Some(""));
    b.set_filter(None);
    assert_eq!(a.get_filter(), None);
    assert_eq!(b.get_filter(), None);
    assert_eq!(a.get_items().len(), 3);
    assert_eq!(b.get_items().len(), 3);
    assert_eq!(a.selected(), b.selected());
}

#[test]
fn unmatched_filter_presents_full_collection() {
    let mut state = FuzzyListState::with_items(cities());
    state.set_filter(Some("zzzz"));
    assert_eq!(state.get_items().len(), 3);
    assert_eq!(state.get_filter().as_deref(), Some("zzzz"));
}

#[test]
fn filter_rescans_base_collection_on_change() {
    let mut state = FuzzyListState::with_items(cities());
    state.set_filter(Some("ar"));
    assert_eq!(state.get_items().len(), 2);
    // "erman" matches only Berlin, which the previous view did not hold.
    state.set_filter(Some("erman"));
    let visible = state.get_items();
    assert_eq!(visible.len(), 1);
    assert_eq!(line_text(&visible[0], 0), "Berlin — Germany");
}

#[test]
fn smart_case_filter_is_case_sensitive_with_upper() {
    let mut state = FuzzyListState::with_items(vec![item("alpha"), item("Alpha")]);
    state.set_filter(Some("alp"));
    assert_eq!(state.get_items().len(), 2);
    state.set_filter(Some("Alp"));
    let visible = state.get_items();
    assert_eq!(visible.len(), 1);
    assert_eq!(line_text(&visible[0], 0), "Alpha");
}

#[test]
fn match_on_any_line_keeps_item() {
    let two_lines = FuzzyListItem::new(vec![
        Line::raw("first".to_string()),
        Line::raw("second".to_string()),
    ]);
    let mut state = FuzzyListState::with_items(vec![two_lines, item("other")]);
    state.set_filter(Some("seco"));
    let visible = state.get_items();
    assert_eq!(visible.len(), 1);
    // The unmatched first line passes through unchanged.
    assert_eq!(visible[0].lines[0].spans.len(), 1);
    assert_eq!(visible[0].lines[0].spans[0].content, "first");
    assert_eq!(visible[0].lines[1].spans.len(), 2);
    assert_eq!(visible[0].lines[1].spans[0].content, "seco");
    assert_eq!(visible[0].lines[1].spans[1].content, "nd");
}

#[test]
fn match_at_end_omits_suffix() {
    let mut it = item("workshop");
    let matched = it.matches("shop");
    assert!(matched);
    let spans = &it.lines[0].spans;
    assert_eq!(spans.len(), 2);
    assert_eq!(spans[0].content, "work");
    assert_eq!(spans[1].content, "shop");
    assert_eq!(spans[1].style, Style::default().fg(Color::Red));
}

#[test]
fn match_of_whole_segment_is_single_span() {
    let mut it = item("abc");
    assert!(it.matches("abc"));
    let spans = &it.lines[0].spans;
    assert_eq!(spans.len(), 1);
    assert_eq!(spans[0].content, "abc");
    assert_eq!(spans[0].style, Style::default().fg(Color::Red));
}

#[test]
fn non_ascii_content_splits_by_characters() {
    let mut it = item("héllo wörld");
    assert!(it.matches("wö"));
    let spans = &it.lines[0].spans;
    assert_eq!(spans.len(), 3);
    assert_eq!(spans[0].content, "héllo ");
    assert_eq!(spans[1].content, "wö");
    assert_eq!(spans[2].content, "rld");
}

#[test]
fn selection_moves_saturate() {
    let mut state = FuzzyListState::with_items(cities());
    assert_eq!(state.selected(), None);
    state.decrement_selected();
    assert_eq!(state.selected(), None);
    state.increment_selected();
    assert_eq!(state.selected(), Some(0));
    state.decrement_selected();
    assert_eq!(state.selected(), Some(0));
    state.increment_selected();
    state.increment_selected();
    state.increment_selected();
    assert_eq!(state.selected(), Some(3));
}

#[test]
fn clearing_selection_resets_offset() {
    let mut state = FuzzyListState::with_items(cities());
    state.select(Some(2));
    state.offset = 2;
    state.select(None);
    assert_eq!(state.offset, 0);
    assert_eq!(state.selected(), None);
}

#[test]
fn item_without_lines_gets_one_empty_line() {
    let it = FuzzyListItem::new(vec![]);
    assert_eq!(it.height(), 1);
    assert_eq!(it.lines[0].spans[0].content, "");
}

#[test]
fn default_state_is_empty() {
    let state = FuzzyListState::default();
    assert_eq!(state.get_items().len(), 0);
    assert_eq!(state.selected(), None);
    assert_eq!(state.get_filter(), None);
}

#[test]
fn custom_filter_style_marks_match() {
    let blue = Style::default().fg(Color::Blue);
    let it = FuzzyListItem::new(vec![Line::raw("hello".to_string())])
        .style(Style::default().fg(Color::Yellow))
        .filter_style(blue);
    assert_eq!(it.style, Style::default().fg(Color::Yellow));
    let mut state = FuzzyListState::with_items(vec![it]);
    state.set_filter(Some("ell"));
    let visible = state.get_items();
    assert_eq!(visible.len(), 1);
    let spans = &visible[0].lines[0].spans;
    assert_eq!(spans.len(), 3);
    assert_eq!(spans[1].content, "ell");
    assert_eq!(spans[1].style, blue);
}
