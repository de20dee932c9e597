use hello::userin::UserIn;
use hello::width::StrExt;

const TEST_STR_1: &'static str = "Once upon a time\nA lazy person decided to...\n\n";
const TEST_STR_2: &'static str = "Once upon a time\n\n    ";
const TEST_STR_3: &'static str = "Once upon a time\n\n    x";

#[test]
fn wrapped_width() {
    let (_nl, w) = TEST_STR_1.wrapped_width(96);
    println!("{TEST_STR_1:?}");
    assert_eq!(w, 0);

    let (_nl, w) = TEST_STR_2.wrapped_width(96);
    println!("{TEST_STR_2:?}");
    assert_eq!(w, 4);

    let (_nl, w) = TEST_STR_3.wrapped_width(96);
    println!("{TEST_STR_3:?}");
    assert_eq!(w, 5);
}

#[test]
fn empty_extent_is_zero() {
    assert_eq!("".wrapped_width(1), (0, 0));
    assert_eq!("".wrapped_width(80), (0, 0));
}

#[test]
fn uniform_text_rows_are_ceiling() {
    // 25 single-width characters at width 10: ceil(25 / 10) rows, 25 mod 10
    // columns on the last row.
    let s = "abcdefghijklmnopqrstuvwxy";
    assert_eq!(s.len(), 25);
    assert_eq!(s.wrapped_width(10), (3, 5));
    // A nonzero multiple of the width fills the last row completely.
    let t = "abcdefghijklmnopqrst";
    assert_eq!(t.len(), 20);
    assert_eq!(t.wrapped_width(10), (2, 10));
}

#[test]
fn trailing_newline_empties_last_row() {
    assert_eq!("hello\n".wrapped_width(40).1, 0);
    assert_eq!("a\nb\nc\n".wrapped_width(40).1, 0);
}

#[test]
fn exact_fit_does_not_wrap() {
    // Prefix "> " plus eight characters is exactly ten columns at width 10:
    // one row, and the last row is full rather than empty.
    let s = "> abcdefgh";
    assert_eq!(s.wrapped_width(10), (1, 10));
}

#[test]
fn double_width_characters_count_two_columns() {
    // Each of these characters occupies two columns, so three of them wrap
    // once at width 4.
    let s = "\u{65e5}\u{672c}\u{8a9e}";
    assert_eq!(s.wrapped_width(4), (2, 2));
    // At a wide terminal they stay on one row of six columns; a wrapper that
    // returned one column per character would see three.
    assert_eq!(s.wrapped_width(80), (1, 6));
}

#[test]
fn newline_starts_fresh_row() {
    assert_eq!("ab\ncd".wrapped_width(10), (2, 2));
    assert_eq!("ab\n\ncd".wrapped_width(10), (3, 2));
}

#[test]
fn prompt_geometry_counts_the_prefix() {
    let mut u = UserIn::new();
    for c in "abcdefgh".chars() {
        u.insert_char(c, (10, 24));
    }
    // Prefix "> " plus eight characters fill the ten columns exactly: one
    // row, and the last row width is the full 10, not 0.
    let li = u.get_lines_info();
    assert_eq!(li.numlines, 1);
    assert_eq!(li.last_ln_width, 10);
    // One more character wraps onto a second row.
    let li = u.insert_char('i', (10, 24));
    assert_eq!(li.numlines, 2);
    assert_eq!(li.last_ln_width, 1);
    assert_eq!(u.dist_to_output, 2);
    // Deleting it merges back, but the redraw anchor never shrinks.
    let li = u.delete_last((10, 24));
    assert_eq!(li.numlines, 1);
    assert_eq!(u.dist_to_output, 2);
    // Only an explicit reset gives the reserved single row back.
    u.reset();
    assert_eq!(u.dist_to_output, 1);
}
