use vex::font::{strokes, text_segments, text_segments_into};

#[test]
fn text_produces_strokes_and_advances() {
    let segments = text_segments("HI");
    assert!(!segments.is_empty());
    // H = 3 polylines (2+2+2 pts) → 3 segments; I = 3 polylines → 3.
    assert_eq!(segments.len(), 6);
    // Second glyph starts one advance to the right.
    assert_eq!(segments[3].column, 1);
    assert!(segments[..3].iter().all(|s| s.column == 0));
}

#[test]
fn dots_are_zero_length_segments() {
    let segments = text_segments(".");
    assert_eq!(segments.len(), 1);
    assert_eq!((segments[0].x0, segments[0].y0), (segments[0].x1, segments[0].y1));
}

#[test]
fn unknown_chars_advance_silently() {
    let segments = text_segments("A#B");
    let only_ab = text_segments("AB");
    assert_eq!(segments.len(), only_ab.len());
    // B still lands in the third column.
    assert_eq!(segments.last().unwrap().column, 2);
}

#[test]
fn lowercase_renders_as_uppercase() {
    assert_eq!(text_segments("score: 42%"), text_segments("SCORE: 42%"));
}

#[test]
fn glyphs_stay_on_the_grid() {
    let mut all = Vec::new();
    text_segments_into("ABCDEFGHIJKLMNOPQRSTUVWXYZ0123456789-+.:/%", &mut all);
    assert!(all.iter().all(|s| (0..=4).contains(&s.x0) && (0..=6).contains(&s.y0)
        && (0..=4).contains(&s.x1) && (0..=6).contains(&s.y1)));
    assert_eq!(strokes('A').len(), 2);
    assert_eq!(strokes('a').len(), 0);
    assert_eq!(strokes('#').len(), 0);
}

#[test]
fn append_form_extends() {
    let mut out = text_segments("1");
    let first = out.len();
    text_segments_into("1", &mut out);
    assert_eq!(out.len(), 2 * first);
    assert_eq!(out[first].column, 0);
}
