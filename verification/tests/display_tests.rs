use hidemaru::display::{line_numbers_text, ruler_text};

const FULL_RULER: &str = "....+....1....+....2....+....3....+....4....+....5....+....6....+....7....+....8....+....9....+....0....+....1....+....2....+....3....+....4....+....5....+....6....+....7....+....8";

#[test]
fn ruler_without_scroll_is_full() {
    assert_eq!(ruler_text(0), FULL_RULER);
    assert_eq!(ruler_text(7), FULL_RULER);
}

#[test]
fn ruler_starts_at_the_first_visible_column() {
    assert_eq!(ruler_text(8), &FULL_RULER[1..]);
    assert_eq!(ruler_text(80), &FULL_RULER[10..]);
    assert!(ruler_text(80).starts_with("....+....2"));
}

#[test]
fn ruler_scrolled_past_its_end_is_empty() {
    assert_eq!(ruler_text(8 * 179), "8");
    assert_eq!(ruler_text(8 * 180), "");
    assert_eq!(ruler_text(i32::MAX), "");
}

#[test]
fn ruler_with_negative_scroll() {
    assert_eq!(ruler_text(-1), FULL_RULER);
    assert_eq!(ruler_text(-7), FULL_RULER);
    assert_eq!(ruler_text(-8), "");
    assert_eq!(ruler_text(i32::MIN), "");
}

#[test]
fn line_numbers_for_small_counts() {
    assert_eq!(line_numbers_text(0), "");
    assert_eq!(line_numbers_text(1), "1");
    assert_eq!(line_numbers_text(3), "1\r\n2\r\n3");
}

#[test]
fn line_numbers_with_several_digits() {
    let text = line_numbers_text(120);
    let expected = (1..=120).map(|i| i.to_string()).collect::<Vec<_>>().join("\r\n");
    assert_eq!(text, expected);
    assert!(text.ends_with("\r\n119\r\n120"));
}
