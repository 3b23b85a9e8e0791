use herdr_npm::adapters::tui::view::{
    column_geometry, column_layout, ellipsize, format_row, highlight_name, row_zone, scroll_text,
    Rect, ICON_GUTTER_COLS,
};
use herdr_npm::domain::catalog::Script;

#[test]
fn icon_gutter_stops_before_the_script_name() {
    let inner = Rect::new(1, 1, 30, 22);
    let geo = column_geometry(inner, 1);
    let row = geo.list.y;
    let last_icon = inner.x + ICON_GUTTER_COLS - 1;
    let first_name = inner.x + ICON_GUTTER_COLS;
    assert_eq!(geo.list.y, inner.y + 1);
    assert!(geo.hits_icon_gutter(inner.x, row));
    assert!(geo.hits_icon_gutter(last_icon, row));
    assert!(!geo.hits_icon_gutter(first_name, row));
    assert_eq!(geo.script_index(first_name, row, 0, 3), Some(0), "name column is still on the first list row");
    let rendered = format_row(&Script { name: "test".into(), command: "vitest".into() }, inner.width as usize, &[], ">");
    let text: String = rendered.iter().map(|span| span.0.as_str()).collect();
    assert!(text.starts_with("> "), "formatted gutter is two cells: glyph plus spacer, got {text:?}");
}

#[test]
fn bands_fill_the_column_top_to_bottom() {
    let geo = column_layout(Rect::new(2, 3, 20, 10), 2, true, true, 2);
    assert_eq!(geo.header, Rect::new(2, 3, 20, 1));
    assert_eq!(geo.magnifier, Rect::new(20, 3, 2, 1));
    assert_eq!(geo.search, Rect::new(2, 4, 20, 1));
    assert_eq!(geo.list, Rect::new(2, 5, 20, 5));
    assert_eq!(geo.command, Rect::new(2, 10, 20, 1));
    assert_eq!(geo.status, Rect::new(2, 11, 20, 2));
    let tiny = column_layout(Rect::new(0, 0, 5, 1), 3, true, false, 1);
    assert_eq!(tiny.header.height, 1);
    assert_eq!(tiny.list.height, 0);
    assert_eq!(tiny.magnifier, Rect::new(0, 0, 0, 0));
}

#[test]
fn rectangles_stop_at_the_last_cell() {
    let r = Rect::new(65530, 0, 10, 1);
    assert_eq!(r.width, 5);
    assert!(r.contains(65534, 0));
    assert!(!r.contains(65529, 0));
}

#[test]
fn ellipsis_cuts_to_the_budget() {
    assert_eq!(ellipsize("hello", 0), "");
    assert_eq!(ellipsize("hello", 5), "hello");
    assert_eq!(ellipsize("hello", 1), "…");
    assert_eq!(ellipsize("hello", 3), "he…");
    assert_eq!(ellipsize("日本語", 4), "日…");
}

#[test]
fn footer_scroll_skips_whole_characters() {
    assert_eq!(scroll_text("abcdef", 2, 10), "cdef");
    assert_eq!(scroll_text("abcdef", 0, 3), "ab…");
    assert_eq!(scroll_text("日本語", 1, 10), "本語");
    assert_eq!(scroll_text("abc", 9, 10), "");
    assert_eq!(scroll_text("abc", 1, 0), "");
}

#[test]
fn highlighted_names_fit_their_budget() {
    let (spans, used) = highlight_name("build", &[0, 2], 10);
    assert_eq!(used, 5);
    assert_eq!(spans.len(), 5);
    assert!(spans[0].1 && !spans[1].1 && spans[2].1);
    let (spans, used) = highlight_name("build", &[], 3);
    let text: String = spans.iter().map(|s| s.0.as_str()).collect();
    assert_eq!(text, "bu…");
    assert_eq!(used, 3);
    let (spans, used) = highlight_name("build", &[], 1);
    assert_eq!(spans[0].0, "…");
    assert_eq!(used, 1);
    assert_eq!(highlight_name("x", &[], 0), (Vec::new(), 0));
}

#[test]
fn row_zones_follow_the_columns() {
    let inner = Rect::new(1, 1, 30, 10);
    assert_eq!(row_zone(inner, 1), "play icon");
    assert_eq!(row_zone(inner, 3), "script name");
    assert_eq!(row_zone(inner, 20), "command text");
    assert_eq!(row_zone(inner, 30), "trailing space");
}
