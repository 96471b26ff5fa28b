use lazy_views::lazy_scroll::{LazyScroll, Message};
use lazy_views::visibility::{visible_rows, visible_tiles, BoundedRange, RelativeOffset, Size};

fn offset(numerator: u32, denominator: u32) -> RelativeOffset {
    RelativeOffset { numerator, denominator }
}

#[test]
fn get_visible_rows_in_widget() {
    let row_height = 128;
    let n_elements = 100;
    let widget_size = Size { height: 598, width: 500 };

    let tests = vec![
        (offset(0, 1), BoundedRange { start: 0, end: 4 }),
        (offset(1, 2), BoundedRange { start: 47, end: 52 }),
        (offset(1, 1), BoundedRange { start: 95, end: 99 }),
    ];

    for (offset, expected) in tests {
        let result = visible_rows(n_elements, row_height, widget_size, offset);
        assert_eq!(expected, result);
    }
}

#[test]
fn top_and_bottom_reach_first_and_last_rows() {
    let size = Size { width: 300, height: 250 };
    for len in [1usize, 2, 3, 10, 1000] {
        assert_eq!(visible_rows(len, 100, size, RelativeOffset::start()).start, 0);
        assert_eq!(visible_rows(len, 100, size, RelativeOffset::end()).end, len - 1);
    }
}

#[test]
fn window_never_past_last_row() {
    let size = Size { width: 300, height: 250 };
    for num in 0..=10u32 {
        let r = visible_rows(20, 100, size, offset(num, 10));
        assert!(r.start <= r.end);
        assert!(r.end < 20);
        // 2.5 rows in view: at most one row beyond the rounded-up height
        assert!(r.end - r.start + 1 <= 4);
    }
}

#[test]
fn window_within_rounded_up_height_when_edges_line_up() {
    // rows of 100 pixels, 250 pixels of viewport, top edge on a row boundary
    let size = Size { width: 300, height: 250 };
    let r = visible_rows(20, 100, size, RelativeOffset::start());
    assert_eq!(r, BoundedRange { start: 0, end: 2 });
    assert!(r.end - r.start + 1 <= 3);
}

#[test]
fn content_shorter_than_viewport_shows_everything() {
    let size = Size { width: 300, height: 1000 };
    for num in 0..=4u32 {
        let r = visible_rows(3, 100, size, offset(num, 4));
        assert_eq!(r, BoundedRange { start: 0, end: 2 });
    }
}

#[test]
fn empty_viewport_at_the_bottom_shows_last_row() {
    let size = Size { width: 300, height: 0 };
    let r = visible_rows(5, 100, size, RelativeOffset::end());
    assert_eq!(r, BoundedRange { start: 4, end: 4 });
}

#[test]
fn tiles_cover_whole_rows() {
    let size = Size { width: 500, height: 598 };
    for num in 0..=20u32 {
        let r = visible_tiles(5, 100, 128, size, offset(num, 20));
        assert_eq!(r.start % 5, 0);
        assert_eq!((r.end + 1) % 5, 0);
        assert!(r.end < 100);
    }
}

#[test]
fn tiles_expand_row_range() {
    let size = Size { width: 500, height: 598 };
    let r = visible_tiles(5, 100, 128, size, offset(1, 2));
    // 20 rows: span of 15.33 rows, top at 7.66, bottom at 12.33
    assert_eq!(r, BoundedRange { start: 35, end: 64 });
}

#[test]
fn tiles_include_trailing_partial_row() {
    let size = Size { width: 500, height: 598 };
    let r = visible_tiles(5, 23, 128, size, RelativeOffset::end());
    assert_eq!(r.end, 22);
    assert_eq!(r.start % 5, 0);
    let small = visible_tiles(5, 3, 128, size, RelativeOffset::start());
    assert_eq!(small, BoundedRange { start: 0, end: 2 });
}

#[test]
fn bounded_range_contains_its_ends() {
    let r = BoundedRange { start: 3, end: 7 };
    assert!(r.contains(3));
    assert!(r.contains(7));
    assert!(r.contains(5));
    assert!(!r.contains(2));
    assert!(!r.contains(8));
}

#[test]
fn lazy_scroll_placeholders_are_numbered() {
    let scroll = LazyScroll::new();
    assert_eq!(scroll.elements.len(), 100);
    assert_eq!(scroll.elements[0], "Placeholder-0");
    assert_eq!(scroll.elements[7], "Placeholder-7");
    assert_eq!(scroll.elements[99], "Placeholder-99");
}

#[test]
fn lazy_scroll_reports_visible_tiles() {
    let mut scroll = LazyScroll::new();
    let size = Size { width: 1000, height: 500 };
    assert_eq!(LazyScroll::columns(1000), 5);
    let top = scroll.visible(size).unwrap();
    assert_eq!(top, BoundedRange { start: 0, end: 14 });
    scroll.update(Message::Scrolled(RelativeOffset::end()));
    let bottom = scroll.visible(size).unwrap();
    assert_eq!(bottom.end, 99);
    assert_eq!(bottom.start % 5, 0);
    assert_eq!(scroll.visible(Size { width: 150, height: 500 }), None);
}
