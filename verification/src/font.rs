//! The stroke font in the vector-arcade tradition: every glyph is
//! polylines on a 4×6 grid, rendered by the same line pass as the world.
//! Zero-length segments become round dots via the renderer's capsule caps
//! (that is how `.` `:` `%` get their marks).
//!
//! Coverage: A–Z, 0–9, and a handful of HUD punctuation. Unknown characters
//! render as an empty advance. Layout here is in grid units: a segment
//! names the character column it belongs to, and the renderer scales the
//! grid to pixels and advances its pen by one column per character.

use vstd::prelude::*;

verus! {

/// The glyph of a character: its polylines of grid points (x right, y up).
pub open spec fn glyph(c: char) -> Seq<Seq<(i8, i8)>> {
    match c {
        'A' => seq![seq![(0i8, 0i8), (0, 4), (2, 6), (4, 4), (4, 0)], seq![(0i8, 3i8), (4, 3)]],
        'B' => seq![seq![(0i8, 0i8), (0, 6), (3, 6), (4, 5), (4, 4), (3, 3), (0, 3)], seq![(3i8, 3i8), (4, 2), (4, 1), (3, 0), (0, 0)]],
        'C' => seq![seq![(4i8, 1i8), (3, 0), (1, 0), (0, 1), (0, 5), (1, 6), (3, 6), (4, 5)]],
        'D' => seq![seq![(0i8, 0i8), (0, 6), (2, 6), (4, 4), (4, 2), (2, 0), (0, 0)]],
        'E' => seq![seq![(4i8, 0i8), (0, 0), (0, 6), (4, 6)], seq![(0i8, 3i8), (3, 3)]],
        'F' => seq![seq![(0i8, 0i8), (0, 6), (4, 6)], seq![(0i8, 3i8), (3, 3)]],
        'G' => seq![seq![(4i8, 5i8), (3, 6), (1, 6), (0, 5), (0, 1), (1, 0), (3, 0), (4, 1), (4, 3), (2, 3)]],
        'H' => seq![seq![(0i8, 0i8), (0, 6)], seq![(4i8, 0i8), (4, 6)], seq![(0i8, 3i8), (4, 3)]],
        'I' => seq![seq![(1i8, 0i8), (3, 0)], seq![(2i8, 0i8), (2, 6)], seq![(1i8, 6i8), (3, 6)]],
        'J' => seq![seq![(0i8, 1i8), (1, 0), (3, 0), (4, 1), (4, 6)]],
        'K' => seq![seq![(0i8, 0i8), (0, 6)], seq![(4i8, 6i8), (0, 3), (4, 0)]],
        'L' => seq![seq![(0i8, 6i8), (0, 0), (4, 0)]],
        'M' => seq![seq![(0i8, 0i8), (0, 6), (2, 3), (4, 6), (4, 0)]],
        'N' => seq![seq![(0i8, 0i8), (0, 6), (4, 0), (4, 6)]],
        'O' => seq![seq![(1i8, 0i8), (0, 1), (0, 5), (1, 6), (3, 6), (4, 5), (4, 1), (3, 0), (1, 0)]],
        'P' => seq![seq![(0i8, 0i8), (0, 6), (3, 6), (4, 5), (4, 4), (3, 3), (0, 3)]],
        'Q' => seq![seq![(1i8, 0i8), (0, 1), (0, 5), (1, 6), (3, 6), (4, 5), (4, 1), (3, 0), (1, 0)], seq![(2i8, 2i8), (4, 0)]],
        'R' => seq![seq![(0i8, 0i8), (0, 6), (3, 6), (4, 5), (4, 4), (3, 3), (0, 3)], seq![(2i8, 3i8), (4, 0)]],
        'S' => seq![seq![(4i8, 5i8), (3, 6), (1, 6), (0, 5), (0, 4), (4, 2), (4, 1), (3, 0), (1, 0), (0, 1)]],
        'T' => seq![seq![(0i8, 6i8), (4, 6)], seq![(2i8, 6i8), (2, 0)]],
        'U' => seq![seq![(0i8, 6i8), (0, 1), (1, 0), (3, 0), (4, 1), (4, 6)]],
        'V' => seq![seq![(0i8, 6i8), (2, 0), (4, 6)]],
        'W' => seq![seq![(0i8, 6i8), (1, 0), (2, 3), (3, 0), (4, 6)]],
        'X' => seq![seq![(0i8, 0i8), (4, 6)], seq![(0i8, 6i8), (4, 0)]],
        'Y' => seq![seq![(0i8, 6i8), (2, 3), (4, 6)], seq![(2i8, 3i8), (2, 0)]],
        'Z' => seq![seq![(0i8, 6i8), (4, 6), (0, 0), (4, 0)]],
        '0' => seq![seq![(1i8, 0i8), (0, 1), (0, 5), (1, 6), (3, 6), (4, 5), (4, 1), (3, 0), (1, 0)], seq![(1i8, 1i8), (3, 5)]],
        '1' => seq![seq![(1i8, 5i8), (2, 6), (2, 0)], seq![(1i8, 0i8), (3, 0)]],
        '2' => seq![seq![(0i8, 5i8), (1, 6), (3, 6), (4, 5), (4, 4), (0, 0), (4, 0)]],
        '3' => seq![seq![(0i8, 5i8), (1, 6), (3, 6), (4, 5), (4, 4), (3, 3), (4, 2), (4, 1), (3, 0), (1, 0), (0, 1)], seq![(2i8, 3i8), (3, 3)]],
        '4' => seq![seq![(3i8, 0i8), (3, 6), (0, 2), (4, 2)]],
        '5' => seq![seq![(4i8, 6i8), (0, 6), (0, 4), (3, 4), (4, 3), (4, 1), (3, 0), (1, 0), (0, 1)]],
        '6' => seq![seq![(3i8, 6i8), (1, 6), (0, 5), (0, 1), (1, 0), (3, 0), (4, 1), (4, 2), (3, 3), (0, 3)]],
        '7' => seq![seq![(0i8, 6i8), (4, 6), (1, 0)]],
        '8' => seq![seq![(1i8, 3i8), (0, 4), (0, 5), (1, 6), (3, 6), (4, 5), (4, 4), (3, 3), (4, 2), (4, 1), (3, 0), (1, 0), (0, 1), (0, 2), (1, 3)], seq![(1i8, 3i8), (3, 3)]],
        '9' => seq![seq![(1i8, 0i8), (3, 0), (4, 1), (4, 5), (3, 6), (1, 6), (0, 5), (0, 4), (1, 3), (4, 3)]],
        '-' => seq![seq![(1i8, 3i8), (3, 3)]],
        '+' => seq![seq![(0i8, 3i8), (4, 3)], seq![(2i8, 1i8), (2, 5)]],
        '.' => seq![seq![(2i8, 0i8), (2, 0)]],
        ':' => seq![seq![(2i8, 1i8), (2, 1)], seq![(2i8, 5i8), (2, 5)]],
        '/' => seq![seq![(0i8, 0i8), (4, 6)]],
        '%' => seq![seq![(0i8, 0i8), (4, 6)], seq![(1i8, 5i8), (1, 5)], seq![(3i8, 1i8), (3, 1)]],
        _ => seq![],
    }
}

/// The glyph polylines of `c` (uppercase letters, digits, `- + . : / %`).
pub fn strokes(c: char) -> (polylines: &'static [&'static [(i8, i8)]])
    ensures
        polylines@.map_values(|p: &[(i8, i8)]| p@) == glyph(c),
{
    match c {
        'A' => &[&[(0,0),(0,4),(2,6),(4,4),(4,0)], &[(0,3),(4,3)]],
        'B' => &[&[(0,0),(0,6),(3,6),(4,5),(4,4),(3,3),(0,3)], &[(3,3),(4,2),(4,1),(3,0),(0,0)]],
        'C' => &[&[(4,1),(3,0),(1,0),(0,1),(0,5),(1,6),(3,6),(4,5)]],
        'D' => &[&[(0,0),(0,6),(2,6),(4,4),(4,2),(2,0),(0,0)]],
        'E' => &[&[(4,0),(0,0),(0,6),(4,6)], &[(0,3),(3,3)]],
        'F' => &[&[(0,0),(0,6),(4,6)], &[(0,3),(3,3)]],
        'G' => &[&[(4,5),(3,6),(1,6),(0,5),(0,1),(1,0),(3,0),(4,1),(4,3),(2,3)]],
        'H' => &[&[(0,0),(0,6)], &[(4,0),(4,6)], &[(0,3),(4,3)]],
        'I' => &[&[(1,0),(3,0)], &[(2,0),(2,6)], &[(1,6),(3,6)]],
        'J' => &[&[(0,1),(1,0),(3,0),(4,1),(4,6)]],
        'K' => &[&[(0,0),(0,6)], &[(4,6),(0,3),(4,0)]],
        'L' => &[&[(0,6),(0,0),(4,0)]],
        'M' => &[&[(0,0),(0,6),(2,3),(4,6),(4,0)]],
        'N' => &[&[(0,0),(0,6),(4,0),(4,6)]],
        'O' => &[&[(1,0),(0,1),(0,5),(1,6),(3,6),(4,5),(4,1),(3,0),(1,0)]],
        'P' => &[&[(0,0),(0,6),(3,6),(4,5),(4,4),(3,3),(0,3)]],
        'Q' => &[&[(1,0),(0,1),(0,5),(1,6),(3,6),(4,5),(4,1),(3,0),(1,0)], &[(2,2),(4,0)]],
        'R' => &[&[(0,0),(0,6),(3,6),(4,5),(4,4),(3,3),(0,3)], &[(2,3),(4,0)]],
        'S' => &[&[(4,5),(3,6),(1,6),(0,5),(0,4),(4,2),(4,1),(3,0),(1,0),(0,1)]],
        'T' => &[&[(0,6),(4,6)], &[(2,6),(2,0)]],
        'U' => &[&[(0,6),(0,1),(1,0),(3,0),(4,1),(4,6)]],
        'V' => &[&[(0,6),(2,0),(4,6)]],
        'W' => &[&[(0,6),(1,0),(2,3),(3,0),(4,6)]],
        'X' => &[&[(0,0),(4,6)], &[(0,6),(4,0)]],
        'Y' => &[&[(0,6),(2,3),(4,6)], &[(2,3),(2,0)]],
        'Z' => &[&[(0,6),(4,6),(0,0),(4,0)]],
        '0' => &[&[(1,0),(0,1),(0,5),(1,6),(3,6),(4,5),(4,1),(3,0),(1,0)], &[(1,1),(3,5)]],
        '1' => &[&[(1,5),(2,6),(2,0)], &[(1,0),(3,0)]],
        '2' => &[&[(0,5),(1,6),(3,6),(4,5),(4,4),(0,0),(4,0)]],
        '3' => &[&[(0,5),(1,6),(3,6),(4,5),(4,4),(3,3),(4,2),(4,1),(3,0),(1,0),(0,1)], &[(2,3),(3,3)]],
        '4' => &[&[(3,0),(3,6),(0,2),(4,2)]],
        '5' => &[&[(4,6),(0,6),(0,4),(3,4),(4,3),(4,1),(3,0),(1,0),(0,1)]],
        '6' => &[&[(3,6),(1,6),(0,5),(0,1),(1,0),(3,0),(4,1),(4,2),(3,3),(0,3)]],
        '7' => &[&[(0,6),(4,6),(1,0)]],
        '8' => &[&[(1,3),(0,4),(0,5),(1,6),(3,6),(4,5),(4,4),(3,3),(4,2),(4,1),(3,0),(1,0),(0,1),(0,2),(1,3)], &[(1,3),(3,3)]],
        '9' => &[&[(1,0),(3,0),(4,1),(4,5),(3,6),(1,6),(0,5),(0,4),(1,3),(4,3)]],
        '-' => &[&[(1,3),(3,3)]],
        '+' => &[&[(0,3),(4,3)], &[(2,1),(2,5)]],
        '.' => &[&[(2,0),(2,0)]],
        ':' => &[&[(2,1),(2,1)], &[(2,5),(2,5)]],
        '/' => &[&[(0,0),(4,6)]],
        '%' => &[&[(0,0),(4,6)], &[(1,5),(1,5)], &[(3,1),(3,1)]],
        _ => &[],
    }
}

/// ASCII lowercase letters as uppercase; every other character unchanged.
pub open spec fn ascii_upper(c: char) -> char {
    if 'a' <= c && c <= 'z' {
        ((c as u32) - 32) as char
    } else {
        c
    }
}

pub fn to_ascii_upper(c: char) -> (u: char)
    ensures
        u == ascii_upper(c),
{
    if 'a' <= c && c <= 'z' {
        ((c as u8) - 32) as char
    } else {
        c
    }
}

/// One stroke of laid-out text, in grid units, in the glyph cell of
/// character `column`. A dot has equal endpoints.
#[derive(Debug, Clone, Copy, PartialEq, Eq, Structural)]
pub struct GridSegment {
    pub column: usize,
    pub x0: i8,
    pub y0: i8,
    pub x1: i8,
    pub y1: i8,
}

pub open spec fn grid_segment(column: nat, p: (i8, i8), q: (i8, i8)) -> GridSegment {
    GridSegment { column: column as usize, x0: p.0, y0: p.1, x1: q.0, y1: q.1 }
}

/// The segments of one polyline: each pair of consecutive points, and a
/// single point as a zero-length segment.
pub open spec fn polyline_segments(p: Seq<(i8, i8)>, column: nat) -> Seq<GridSegment> {
    if p.len() == 1 {
        seq![grid_segment(column, p[0], p[0])]
    } else if p.len() == 0 {
        Seq::empty()
    } else {
        Seq::new((p.len() - 1) as nat, |k: int| grid_segment(column, p[k], p[k + 1]))
    }
}

/// The segments of a glyph's polylines, in order.
pub open spec fn glyph_segments(g: Seq<Seq<(i8, i8)>>, column: nat) -> Seq<GridSegment>
    decreases g.len(),
{
    if g.len() == 0 {
        Seq::empty()
    } else {
        glyph_segments(g.drop_last(), column) + polyline_segments(g.last(), column)
    }
}

/// The segments of a text: each character's glyph (lowercase drawn as
/// uppercase) in its own column.
pub open spec fn text_layout(text: Seq<char>) -> Seq<GridSegment>
    decreases text.len(),
{
    if text.len() == 0 {
        Seq::empty()
    } else {
        text_layout(text.drop_last()) + glyph_segments(
            glyph(ascii_upper(text.last())),
            (text.len() - 1) as nat,
        )
    }
}

/// Lay out `text` as stroke segments in grid units.
pub fn text_segments(text: &str) -> (segments: Vec<GridSegment>)
    requires
        text@.len() <= usize::MAX,
    ensures
        segments@ == text_layout(text@),
{
    let mut segments = Vec::new();
    text_segments_into(text, &mut segments);
    segments
}

/// Append the segments of one polyline in `column`.
fn polyline_into(polyline: &[(i8, i8)], column: usize, out: &mut Vec<GridSegment>)
    ensures
        final(out)@ == old(out)@ + polyline_segments(polyline@, column as nat),
{
    let ghost start = out@;
    let n = polyline.len();
    let mut k: usize = 0;
    while k + 1 < n
        invariant
            n == polyline@.len(),
            k < n || k == 0,
            out@ == start + Seq::new(
                k as nat,
                |j: int| grid_segment(column as nat, polyline@[j], polyline@[j + 1]),
            ),
        decreases n - k,
    {
        let (x0, y0) = polyline[k];
        let (x1, y1) = polyline[k + 1];
        out.push(GridSegment { column, x0, y0, x1, y1 });
        k = k + 1;
        assert(out@ =~= start + Seq::new(
            k as nat,
            |j: int| grid_segment(column as nat, polyline@[j], polyline@[j + 1]),
        ));
    }
    if n == 1 {
        let (x, y) = polyline[0];
        out.push(GridSegment { column, x0: x, y0: y, x1: x, y1: y });
        assert(out@ =~= start + polyline_segments(polyline@, column as nat));
    } else if n == 0 {
        assert(out@ =~= start + polyline_segments(polyline@, column as nat));
    } else {
        assert(out@ =~= start + polyline_segments(polyline@, column as nat));
    }
}

/// Append the layout of `text` to `out`.
pub fn text_segments_into(text: &str, out: &mut Vec<GridSegment>)
    requires
        text@.len() <= usize::MAX,
    ensures
        final(out)@ == old(out)@ + text_layout(text@),
{
    let ghost start = out@;
    let mut column: usize = 0;
    for c in it: text.chars()
        invariant
            it.seq() == text@,
            text@.len() <= usize::MAX,
            column == it.index(),
            out@ == start + text_layout(text@.take(column as int)),
    {
        let polylines = strokes(to_ascii_upper(c));
        let ghost g = polylines@.map_values(|p: &[(i8, i8)]| p@);
        let ghost before = out@;
        let n = polylines.len();
        let mut i: usize = 0;
        while i < n
            invariant
                n == polylines@.len(),
                g == polylines@.map_values(|p: &[(i8, i8)]| p@),
                i <= n,
                out@ == before + glyph_segments(g.take(i as int), column as nat),
            decreases n - i,
        {
            polyline_into(polylines[i], column, out);
            assert(g.take(i + 1).drop_last() =~= g.take(i as int));
            assert(out@ =~= before + glyph_segments(g.take(i + 1), column as nat));
            i = i + 1;
        }
        assert(g.take(n as int) =~= g);
        assert(text@.take(column + 1).drop_last() =~= text@.take(column as int));
        assert(out@ =~= start + text_layout(text@.take(column + 1)));
        column = column + 1;
    }
    assert(text@.take(column as int) =~= text@);
}


/// Segments moved `n` columns to the right.
pub open spec fn shift_columns(s: Seq<GridSegment>, n: nat) -> Seq<GridSegment> {
    s.map_values(|g: GridSegment| GridSegment { column: (g.column + n) as usize, ..g })
}

proof fn lemma_shift_polyline(p: Seq<(i8, i8)>, column: nat, n: nat)
    requires
        column + n <= usize::MAX,
    ensures
        shift_columns(polyline_segments(p, column), n) == polyline_segments(p, column + n),
{
    assert(shift_columns(polyline_segments(p, column), n) =~= polyline_segments(p, column + n));
}

proof fn lemma_shift_glyph(g: Seq<Seq<(i8, i8)>>, column: nat, n: nat)
    requires
        column + n <= usize::MAX,
    ensures
        shift_columns(glyph_segments(g, column), n) == glyph_segments(g, column + n),
    decreases g.len(),
{
    if g.len() > 0 {
        lemma_shift_glyph(g.drop_last(), column, n);
        lemma_shift_polyline(g.last(), column, n);
        assert(shift_columns(glyph_segments(g, column), n) =~= shift_columns(
            glyph_segments(g.drop_last(), column),
            n,
        ) + shift_columns(polyline_segments(g.last(), column), n));
    } else {
        assert(shift_columns(glyph_segments(g, column), n) =~= glyph_segments(g, column + n));
    }
}

/// Text advances one column per character: the layout of `a` followed by
/// `b` is the layout of `a`, then the layout of `b` moved right by as many
/// columns as `a` has characters.
pub proof fn lemma_layout_concat(a: Seq<char>, b: Seq<char>)
    requires
        a.len() + b.len() <= usize::MAX,
    ensures
        text_layout(a + b) == text_layout(a) + shift_columns(text_layout(b), a.len()),
    decreases b.len(),
{
    if b.len() == 0 {
        assert(a + b =~= a);
        assert(shift_columns(text_layout(b), a.len()) =~= Seq::<GridSegment>::empty());
        assert(text_layout(a) + Seq::<GridSegment>::empty() =~= text_layout(a));
    } else {
        let b0 = b.drop_last();
        let c = b.last();
        assert((a + b).drop_last() =~= a + b0);
        assert((a + b).last() == c);
        lemma_layout_concat(a, b0);
        let g = glyph(ascii_upper(c));
        lemma_shift_glyph(g, b0.len(), a.len());
        assert(shift_columns(text_layout(b), a.len()) =~= shift_columns(text_layout(b0), a.len())
            + shift_columns(glyph_segments(g, b0.len()), a.len()));
        assert(text_layout(a + b) =~= text_layout(a) + shift_columns(text_layout(b), a.len()));
    }
}

/// Lowercase is rendered as uppercase: a text lays out exactly as its
/// ASCII-uppercased form.
pub proof fn lemma_layout_ignores_case(text: Seq<char>)
    ensures
        text_layout(text) == text_layout(text.map_values(|c: char| ascii_upper(c))),
    decreases text.len(),
{
    let up = text.map_values(|c: char| ascii_upper(c));
    if text.len() > 0 {
        assert(up.drop_last() =~= text.drop_last().map_values(|c: char| ascii_upper(c)));
        lemma_layout_ignores_case(text.drop_last());
        let c = text.last();
        assert(up.last() == ascii_upper(c));
        assert(ascii_upper(ascii_upper(c)) == ascii_upper(c));
    }
}

/// A character without a glyph adds no segments (it only takes up its
/// column).
pub proof fn lemma_unknown_char_draws_nothing(text: Seq<char>, c: char)
    requires
        glyph(ascii_upper(c)) == Seq::<Seq<(i8, i8)>>::empty(),
    ensures
        text_layout(text.push(c)) == text_layout(text),
{
    assert(text.push(c).drop_last() =~= text);
    assert(text_layout(text.push(c)) =~= text_layout(text) + Seq::<GridSegment>::empty());
}



/// A segment in the first column, from `(x0, y0)` to `(x1, y1)`.
pub open spec fn seg0(x0: i8, y0: i8, x1: i8, y1: i8) -> GridSegment {
    GridSegment { column: 0, x0, y0, x1, y1 }
}

/// The characters the font draws: A–Z, 0–9 and `- + . : / %`.
pub open spec fn covered(c: char) -> bool {
    c == 'A' || c == 'B' || c == 'C' || c == 'D' || c == 'E' || c == 'F' || c == 'G' || c == 'H' || c == 'I' || c == 'J' || c == 'K' || c == 'L' || c == 'M' || c == 'N' || c == 'O' || c == 'P' || c == 'Q' || c == 'R' || c == 'S' || c == 'T' || c == 'U' || c == 'V' || c == 'W' || c == 'X' || c == 'Y' || c == 'Z' || c == '0' || c == '1' || c == '2' || c == '3' || c == '4' || c == '5' || c == '6' || c == '7' || c == '8' || c == '9' || c == '-' || c == '+' || c == '.' || c == ':' || c == '/' || c == '%'
}

proof fn lemma_single_char(c: char)
    ensures
        text_layout(seq![c]) == glyph_segments(glyph(ascii_upper(c)), 0),
{
    assert(seq![c].drop_last() =~= Seq::<char>::empty());
    assert(text_layout(Seq::<char>::empty()) =~= Seq::<GridSegment>::empty());
    assert(seq![c].last() == c);
    assert(Seq::<GridSegment>::empty() + glyph_segments(glyph(ascii_upper(c)), 0) =~= glyph_segments(
        glyph(ascii_upper(c)),
        0,
    ));
}

proof fn lemma_glyph_1(p0: Seq<(i8, i8)>)
    ensures
        glyph_segments(seq![p0], 0) == polyline_segments(p0, 0),
{
    assert(seq![p0].drop_last() =~= Seq::<Seq<(i8, i8)>>::empty());
    assert(glyph_segments(Seq::<Seq<(i8, i8)>>::empty(), 0) =~= Seq::<GridSegment>::empty());
    assert(seq![p0].last() == p0);
    assert(Seq::<GridSegment>::empty() + polyline_segments(p0, 0) =~= polyline_segments(p0, 0));
}

proof fn lemma_glyph_2(p0: Seq<(i8, i8)>, p1: Seq<(i8, i8)>)
    ensures
        glyph_segments(seq![p0, p1], 0) == polyline_segments(p0, 0) + polyline_segments(p1, 0),
{
    assert(seq![p0, p1].drop_last() =~= seq![p0]);
    lemma_glyph_1(p0);
}

proof fn lemma_glyph_3(p0: Seq<(i8, i8)>, p1: Seq<(i8, i8)>, p2: Seq<(i8, i8)>)
    ensures
        glyph_segments(seq![p0, p1, p2], 0) == polyline_segments(p0, 0) + polyline_segments(p1, 0)
            + polyline_segments(p2, 0),
{
    assert(seq![p0, p1, p2].drop_last() =~= seq![p0, p1]);
    lemma_glyph_2(p0, p1);
}

proof fn lemma_drawn_a()
    ensures
        text_layout(seq!['A']) == seq![seg0(0, 0, 0, 4), seg0(0, 4, 2, 6), seg0(2, 6, 4, 4), seg0(4, 4, 4, 0), seg0(0, 3, 4, 3)],
{
    lemma_single_char('A');
    let p0 = seq![(0i8, 0i8), (0, 4), (2, 6), (4, 4), (4, 0)];
    assert(polyline_segments(p0, 0) =~= seq![seg0(0, 0, 0, 4), seg0(0, 4, 2, 6), seg0(2, 6, 4, 4), seg0(4, 4, 4, 0)]);
    let p1 = seq![(0i8, 3i8), (4, 3)];
    assert(polyline_segments(p1, 0) =~= seq![seg0(0, 3, 4, 3)]);
    assert(glyph('A') =~= seq![p0, p1]);
    lemma_glyph_2(p0, p1);
    assert(seq![seg0(0, 0, 0, 4), seg0(0, 4, 2, 6), seg0(2, 6, 4, 4), seg0(4, 4, 4, 0)] + seq![seg0(0, 3, 4, 3)] =~= seq![seg0(0, 0, 0, 4), seg0(0, 4, 2, 6), seg0(2, 6, 4, 4), seg0(4, 4, 4, 0), seg0(0, 3, 4, 3)]);
}

proof fn lemma_drawn_b()
    ensures
        text_layout(seq!['B']) == seq![seg0(0, 0, 0, 6), seg0(0, 6, 3, 6), seg0(3, 6, 4, 5), seg0(4, 5, 4, 4), seg0(4, 4, 3, 3), seg0(3, 3, 0, 3), seg0(3, 3, 4, 2), seg0(4, 2, 4, 1), seg0(4, 1, 3, 0), seg0(3, 0, 0, 0)],
{
    lemma_single_char('B');
    let p0 = seq![(0i8, 0i8), (0, 6), (3, 6), (4, 5), (4, 4), (3, 3), (0, 3)];
    assert(polyline_segments(p0, 0) =~= seq![seg0(0, 0, 0, 6), seg0(0, 6, 3, 6), seg0(3, 6, 4, 5), seg0(4, 5, 4, 4), seg0(4, 4, 3, 3), seg0(3, 3, 0, 3)]);
    let p1 = seq![(3i8, 3i8), (4, 2), (4, 1), (3, 0), (0, 0)];
    assert(polyline_segments(p1, 0) =~= seq![seg0(3, 3, 4, 2), seg0(4, 2, 4, 1), seg0(4, 1, 3, 0), seg0(3, 0, 0, 0)]);
    assert(glyph('B') =~= seq![p0, p1]);
    lemma_glyph_2(p0, p1);
    assert(seq![seg0(0, 0, 0, 6), seg0(0, 6, 3, 6), seg0(3, 6, 4, 5), seg0(4, 5, 4, 4), seg0(4, 4, 3, 3), seg0(3, 3, 0, 3)] + seq![seg0(3, 3, 4, 2), seg0(4, 2, 4, 1), seg0(4, 1, 3, 0), seg0(3, 0, 0, 0)] =~= seq![seg0(0, 0, 0, 6), seg0(0, 6, 3, 6), seg0(3, 6, 4, 5), seg0(4, 5, 4, 4), seg0(4, 4, 3, 3), seg0(3, 3, 0, 3), seg0(3, 3, 4, 2), seg0(4, 2, 4, 1), seg0(4, 1, 3, 0), seg0(3, 0, 0, 0)]);
}

proof fn lemma_drawn_c()
    ensures
        text_layout(seq!['C']) == seq![seg0(4, 1, 3, 0), seg0(3, 0, 1, 0), seg0(1, 0, 0, 1), seg0(0, 1, 0, 5), seg0(0, 5, 1, 6), seg0(1, 6, 3, 6), seg0(3, 6, 4, 5)],
{
    lemma_single_char('C');
    let p0 = seq![(4i8, 1i8), (3, 0), (1, 0), (0, 1), (0, 5), (1, 6), (3, 6), (4, 5)];
    assert(polyline_segments(p0, 0) =~= seq![seg0(4, 1, 3, 0), seg0(3, 0, 1, 0), seg0(1, 0, 0, 1), seg0(0, 1, 0, 5), seg0(0, 5, 1, 6), seg0(1, 6, 3, 6), seg0(3, 6, 4, 5)]);
    assert(glyph('C') =~= seq![p0]);
    lemma_glyph_1(p0);
    assert(seq![seg0(4, 1, 3, 0), seg0(3, 0, 1, 0), seg0(1, 0, 0, 1), seg0(0, 1, 0, 5), seg0(0, 5, 1, 6), seg0(1, 6, 3, 6), seg0(3, 6, 4, 5)] =~= seq![seg0(4, 1, 3, 0), seg0(3, 0, 1, 0), seg0(1, 0, 0, 1), seg0(0, 1, 0, 5), seg0(0, 5, 1, 6), seg0(1, 6, 3, 6), seg0(3, 6, 4, 5)]);
}

proof fn lemma_drawn_d()
    ensures
        text_layout(seq!['D']) == seq![seg0(0, 0, 0, 6), seg0(0, 6, 2, 6), seg0(2, 6, 4, 4), seg0(4, 4, 4, 2), seg0(4, 2, 2, 0), seg0(2, 0, 0, 0)],
{
    lemma_single_char('D');
    let p0 = seq![(0i8, 0i8), (0, 6), (2, 6), (4, 4), (4, 2), (2, 0), (0, 0)];
    assert(polyline_segments(p0, 0) =~= seq![seg0(0, 0, 0, 6), seg0(0, 6, 2, 6), seg0(2, 6, 4, 4), seg0(4, 4, 4, 2), seg0(4, 2, 2, 0), seg0(2, 0, 0, 0)]);
    assert(glyph('D') =~= seq![p0]);
    lemma_glyph_1(p0);
    assert(seq![seg0(0, 0, 0, 6), seg0(0, 6, 2, 6), seg0(2, 6, 4, 4), seg0(4, 4, 4, 2), seg0(4, 2, 2, 0), seg0(2, 0, 0, 0)] =~= seq![seg0(0, 0, 0, 6), seg0(0, 6, 2, 6), seg0(2, 6, 4, 4), seg0(4, 4, 4, 2), seg0(4, 2, 2, 0), seg0(2, 0, 0, 0)]);
}

proof fn lemma_drawn_e()
    ensures
        text_layout(seq!['E']) == seq![seg0(4, 0, 0, 0), seg0(0, 0, 0, 6), seg0(0, 6, 4, 6), seg0(0, 3, 3, 3)],
{
    lemma_single_char('E');
    let p0 = seq![(4i8, 0i8), (0, 0), (0, 6), (4, 6)];
    assert(polyline_segments(p0, 0) =~= seq![seg0(4, 0, 0, 0), seg0(0, 0, 0, 6), seg0(0, 6, 4, 6)]);
    let p1 = seq![(0i8, 3i8), (3, 3)];
    assert(polyline_segments(p1, 0) =~= seq![seg0(0, 3, 3, 3)]);
    assert(glyph('E') =~= seq![p0, p1]);
    lemma_glyph_2(p0, p1);
    assert(seq![seg0(4, 0, 0, 0), seg0(0, 0, 0, 6), seg0(0, 6, 4, 6)] + seq![seg0(0, 3, 3, 3)] =~= seq![seg0(4, 0, 0, 0), seg0(0, 0, 0, 6), seg0(0, 6, 4, 6), seg0(0, 3, 3, 3)]);
}

proof fn lemma_drawn_f()
    ensures
        text_layout(seq!['F']) == seq![seg0(0, 0, 0, 6), seg0(0, 6, 4, 6), seg0(0, 3, 3, 3)],
{
    lemma_single_char('F');
    let p0 = seq![(0i8, 0i8), (0, 6), (4, 6)];
    assert(polyline_segments(p0, 0) =~= seq![seg0(0, 0, 0, 6), seg0(0, 6, 4, 6)]);
    let p1 = seq![(0i8, 3i8), (3, 3)];
    assert(polyline_segments(p1, 0) =~= seq![seg0(0, 3, 3, 3)]);
    assert(glyph('F') =~= seq![p0, p1]);
    lemma_glyph_2(p0, p1);
    assert(seq![seg0(0, 0, 0, 6), seg0(0, 6, 4, 6)] + seq![seg0(0, 3, 3, 3)] =~= seq![seg0(0, 0, 0, 6), seg0(0, 6, 4, 6), seg0(0, 3, 3, 3)]);
}

proof fn lemma_drawn_g()
    ensures
        text_layout(seq!['G']) == seq![seg0(4, 5, 3, 6), seg0(3, 6, 1, 6), seg0(1, 6, 0, 5), seg0(0, 5, 0, 1), seg0(0, 1, 1, 0), seg0(1, 0, 3, 0), seg0(3, 0, 4, 1), seg0(4, 1, 4, 3), seg0(4, 3, 2, 3)],
{
    lemma_single_char('G');
    let p0 = seq![(4i8, 5i8), (3, 6), (1, 6), (0, 5), (0, 1), (1, 0), (3, 0), (4, 1), (4, 3), (2, 3)];
    assert(polyline_segments(p0, 0) =~= seq![seg0(4, 5, 3, 6), seg0(3, 6, 1, 6), seg0(1, 6, 0, 5), seg0(0, 5, 0, 1), seg0(0, 1, 1, 0), seg0(1, 0, 3, 0), seg0(3, 0, 4, 1), seg0(4, 1, 4, 3), seg0(4, 3, 2, 3)]);
    assert(glyph('G') =~= seq![p0]);
    lemma_glyph_1(p0);
    assert(seq![seg0(4, 5, 3, 6), seg0(3, 6, 1, 6), seg0(1, 6, 0, 5), seg0(0, 5, 0, 1), seg0(0, 1, 1, 0), seg0(1, 0, 3, 0), seg0(3, 0, 4, 1), seg0(4, 1, 4, 3), seg0(4, 3, 2, 3)] =~= seq![seg0(4, 5, 3, 6), seg0(3, 6, 1, 6), seg0(1, 6, 0, 5), seg0(0, 5, 0, 1), seg0(0, 1, 1, 0), seg0(1, 0, 3, 0), seg0(3, 0, 4, 1), seg0(4, 1, 4, 3), seg0(4, 3, 2, 3)]);
}

proof fn lemma_drawn_h()
    ensures
        text_layout(seq!['H']) == seq![seg0(0, 0, 0, 6), seg0(4, 0, 4, 6), seg0(0, 3, 4, 3)],
{
    lemma_single_char('H');
    let p0 = seq![(0i8, 0i8), (0, 6)];
    assert(polyline_segments(p0, 0) =~= seq![seg0(0, 0, 0, 6)]);
    let p1 = seq![(4i8, 0i8), (4, 6)];
    assert(polyline_segments(p1, 0) =~= seq![seg0(4, 0, 4, 6)]);
    let p2 = seq![(0i8, 3i8), (4, 3)];
    assert(polyline_segments(p2, 0) =~= seq![seg0(0, 3, 4, 3)]);
    assert(glyph('H') =~= seq![p0, p1, p2]);
    lemma_glyph_3(p0, p1, p2);
    assert(seq![seg0(0, 0, 0, 6)] + seq![seg0(4, 0, 4, 6)] + seq![seg0(0, 3, 4, 3)] =~= seq![seg0(0, 0, 0, 6), seg0(4, 0, 4, 6), seg0(0, 3, 4, 3)]);
}

proof fn lemma_drawn_i()
    ensures
        text_layout(seq!['I']) == seq![seg0(1, 0, 3, 0), seg0(2, 0, 2, 6), seg0(1, 6, 3, 6)],
{
    lemma_single_char('I');
    let p0 = seq![(1i8, 0i8), (3, 0)];
    assert(polyline_segments(p0, 0) =~= seq![seg0(1, 0, 3, 0)]);
    let p1 = seq![(2i8, 0i8), (2, 6)];
    assert(polyline_segments(p1, 0) =~= seq![seg0(2, 0, 2, 6)]);
    let p2 = seq![(1i8, 6i8), (3, 6)];
    assert(polyline_segments(p2, 0) =~= seq![seg0(1, 6, 3, 6)]);
    assert(glyph('I') =~= seq![p0, p1, p2]);
    lemma_glyph_3(p0, p1, p2);
    assert(seq![seg0(1, 0, 3, 0)] + seq![seg0(2, 0, 2, 6)] + seq![seg0(1, 6, 3, 6)] =~= seq![seg0(1, 0, 3, 0), seg0(2, 0, 2, 6), seg0(1, 6, 3, 6)]);
}

proof fn lemma_drawn_j()
    ensures
        text_layout(seq!['J']) == seq![seg0(0, 1, 1, 0), seg0(1, 0, 3, 0), seg0(3, 0, 4, 1), seg0(4, 1, 4, 6)],
{
    lemma_single_char('J');
    let p0 = seq![(0i8, 1i8), (1, 0), (3, 0), (4, 1), (4, 6)];
    assert(polyline_segments(p0, 0) =~= seq![seg0(0, 1, 1, 0), seg0(1, 0, 3, 0), seg0(3, 0, 4, 1), seg0(4, 1, 4, 6)]);
    assert(glyph('J') =~= seq![p0]);
    lemma_glyph_1(p0);
    assert(seq![seg0(0, 1, 1, 0), seg0(1, 0, 3, 0), seg0(3, 0, 4, 1), seg0(4, 1, 4, 6)] =~= seq![seg0(0, 1, 1, 0), seg0(1, 0, 3, 0), seg0(3, 0, 4, 1), seg0(4, 1, 4, 6)]);
}

proof fn lemma_drawn_k()
    ensures
        text_layout(seq!['K']) == seq![seg0(0, 0, 0, 6), seg0(4, 6, 0, 3), seg0(0, 3, 4, 0)],
{
    lemma_single_char('K');
    let p0 = seq![(0i8, 0i8), (0, 6)];
    assert(polyline_segments(p0, 0) =~= seq![seg0(0, 0, 0, 6)]);
    let p1 = seq![(4i8, 6i8), (0, 3), (4, 0)];
    assert(polyline_segments(p1, 0) =~= seq![seg0(4, 6, 0, 3), seg0(0, 3, 4, 0)]);
    assert(glyph('K') =~= seq![p0, p1]);
    lemma_glyph_2(p0, p1);
    assert(seq![seg0(0, 0, 0, 6)] + seq![seg0(4, 6, 0, 3), seg0(0, 3, 4, 0)] =~= seq![seg0(0, 0, 0, 6), seg0(4, 6, 0, 3), seg0(0, 3, 4, 0)]);
}

proof fn lemma_drawn_l()
    ensures
        text_layout(seq!['L']) == seq![seg0(0, 6, 0, 0), seg0(0, 0, 4, 0)],
{
    lemma_single_char('L');
    let p0 = seq![(0i8, 6i8), (0, 0), (4, 0)];
    assert(polyline_segments(p0, 0) =~= seq![seg0(0, 6, 0, 0), seg0(0, 0, 4, 0)]);
    assert(glyph('L') =~= seq![p0]);
    lemma_glyph_1(p0);
    assert(seq![seg0(0, 6, 0, 0), seg0(0, 0, 4, 0)] =~= seq![seg0(0, 6, 0, 0), seg0(0, 0, 4, 0)]);
}

proof fn lemma_drawn_m()
    ensures
        text_layout(seq!['M']) == seq![seg0(0, 0, 0, 6), seg0(0, 6, 2, 3), seg0(2, 3, 4, 6), seg0(4, 6, 4, 0)],
{
    lemma_single_char('M');
    let p0 = seq![(0i8, 0i8), (0, 6), (2, 3), (4, 6), (4, 0)];
    assert(polyline_segments(p0, 0) =~= seq![seg0(0, 0, 0, 6), seg0(0, 6, 2, 3), seg0(2, 3, 4, 6), seg0(4, 6, 4, 0)]);
    assert(glyph('M') =~= seq![p0]);
    lemma_glyph_1(p0);
    assert(seq![seg0(0, 0, 0, 6), seg0(0, 6, 2, 3), seg0(2, 3, 4, 6), seg0(4, 6, 4, 0)] =~= seq![seg0(0, 0, 0, 6), seg0(0, 6, 2, 3), seg0(2, 3, 4, 6), seg0(4, 6, 4, 0)]);
}

proof fn lemma_drawn_n()
    ensures
        text_layout(seq!['N']) == seq![seg0(0, 0, 0, 6), seg0(0, 6, 4, 0), seg0(4, 0, 4, 6)],
{
    lemma_single_char('N');
    let p0 = seq![(0i8, 0i8), (0, 6), (4, 0), (4, 6)];
    assert(polyline_segments(p0, 0) =~= seq![seg0(0, 0, 0, 6), seg0(0, 6, 4, 0), seg0(4, 0, 4, 6)]);
    assert(glyph('N') =~= seq![p0]);
    lemma_glyph_1(p0);
    assert(seq![seg0(0, 0, 0, 6), seg0(0, 6, 4, 0), seg0(4, 0, 4, 6)] =~= seq![seg0(0, 0, 0, 6), seg0(0, 6, 4, 0), seg0(4, 0, 4, 6)]);
}

proof fn lemma_drawn_o()
    ensures
        text_layout(seq!['O']) == seq![seg0(1, 0, 0, 1), seg0(0, 1, 0, 5), seg0(0, 5, 1, 6), seg0(1, 6, 3, 6), seg0(3, 6, 4, 5), seg0(4, 5, 4, 1), seg0(4, 1, 3, 0), seg0(3, 0, 1, 0)],
{
    lemma_single_char('O');
    let p0 = seq![(1i8, 0i8), (0, 1), (0, 5), (1, 6), (3, 6), (4, 5), (4, 1), (3, 0), (1, 0)];
    assert(polyline_segments(p0, 0) =~= seq![seg0(1, 0, 0, 1), seg0(0, 1, 0, 5), seg0(0, 5, 1, 6), seg0(1, 6, 3, 6), seg0(3, 6, 4, 5), seg0(4, 5, 4, 1), seg0(4, 1, 3, 0), seg0(3, 0, 1, 0)]);
    assert(glyph('O') =~= seq![p0]);
    lemma_glyph_1(p0);
    assert(seq![seg0(1, 0, 0, 1), seg0(0, 1, 0, 5), seg0(0, 5, 1, 6), seg0(1, 6, 3, 6), seg0(3, 6, 4, 5), seg0(4, 5, 4, 1), seg0(4, 1, 3, 0), seg0(3, 0, 1, 0)] =~= seq![seg0(1, 0, 0, 1), seg0(0, 1, 0, 5), seg0(0, 5, 1, 6), seg0(1, 6, 3, 6), seg0(3, 6, 4, 5), seg0(4, 5, 4, 1), seg0(4, 1, 3, 0), seg0(3, 0, 1, 0)]);
}

proof fn lemma_drawn_p()
    ensures
        text_layout(seq!['P']) == seq![seg0(0, 0, 0, 6), seg0(0, 6, 3, 6), seg0(3, 6, 4, 5), seg0(4, 5, 4, 4), seg0(4, 4, 3, 3), seg0(3, 3, 0, 3)],
{
    lemma_single_char('P');
    let p0 = seq![(0i8, 0i8), (0, 6), (3, 6), (4, 5), (4, 4), (3, 3), (0, 3)];
    assert(polyline_segments(p0, 0) =~= seq![seg0(0, 0, 0, 6), seg0(0, 6, 3, 6), seg0(3, 6, 4, 5), seg0(4, 5, 4, 4), seg0(4, 4, 3, 3), seg0(3, 3, 0, 3)]);
    assert(glyph('P') =~= seq![p0]);
    lemma_glyph_1(p0);
    assert(seq![seg0(0, 0, 0, 6), seg0(0, 6, 3, 6), seg0(3, 6, 4, 5), seg0(4, 5, 4, 4), seg0(4, 4, 3, 3), seg0(3, 3, 0, 3)] =~= seq![seg0(0, 0, 0, 6), seg0(0, 6, 3, 6), seg0(3, 6, 4, 5), seg0(4, 5, 4, 4), seg0(4, 4, 3, 3), seg0(3, 3, 0, 3)]);
}

proof fn lemma_drawn_q()
    ensures
        text_layout(seq!['Q']) == seq![seg0(1, 0, 0, 1), seg0(0, 1, 0, 5), seg0(0, 5, 1, 6), seg0(1, 6, 3, 6), seg0(3, 6, 4, 5), seg0(4, 5, 4, 1), seg0(4, 1, 3, 0), seg0(3, 0, 1, 0), seg0(2, 2, 4, 0)],
{
    lemma_single_char('Q');
    let p0 = seq![(1i8, 0i8), (0, 1), (0, 5), (1, 6), (3, 6), (4, 5), (4, 1), (3, 0), (1, 0)];
    assert(polyline_segments(p0, 0) =~= seq![seg0(1, 0, 0, 1), seg0(0, 1, 0, 5), seg0(0, 5, 1, 6), seg0(1, 6, 3, 6), seg0(3, 6, 4, 5), seg0(4, 5, 4, 1), seg0(4, 1, 3, 0), seg0(3, 0, 1, 0)]);
    let p1 = seq![(2i8, 2i8), (4, 0)];
    assert(polyline_segments(p1, 0) =~= seq![seg0(2, 2, 4, 0)]);
    assert(glyph('Q') =~= seq![p0, p1]);
    lemma_glyph_2(p0, p1);
    assert(seq![seg0(1, 0, 0, 1), seg0(0, 1, 0, 5), seg0(0, 5, 1, 6), seg0(1, 6, 3, 6), seg0(3, 6, 4, 5), seg0(4, 5, 4, 1), seg0(4, 1, 3, 0), seg0(3, 0, 1, 0)] + seq![seg0(2, 2, 4, 0)] =~= seq![seg0(1, 0, 0, 1), seg0(0, 1, 0, 5), seg0(0, 5, 1, 6), seg0(1, 6, 3, 6), seg0(3, 6, 4, 5), seg0(4, 5, 4, 1), seg0(4, 1, 3, 0), seg0(3, 0, 1, 0), seg0(2, 2, 4, 0)]);
}

proof fn lemma_drawn_r()
    ensures
        text_layout(seq!['R']) == seq![seg0(0, 0, 0, 6), seg0(0, 6, 3, 6), seg0(3, 6, 4, 5), seg0(4, 5, 4, 4), seg0(4, 4, 3, 3), seg0(3, 3, 0, 3), seg0(2, 3, 4, 0)],
{
    lemma_single_char('R');
    let p0 = seq![(0i8, 0i8), (0, 6), (3, 6), (4, 5), (4, 4), (3, 3), (0, 3)];
    assert(polyline_segments(p0, 0) =~= seq![seg0(0, 0, 0, 6), seg0(0, 6, 3, 6), seg0(3, 6, 4, 5), seg0(4, 5, 4, 4), seg0(4, 4, 3, 3), seg0(3, 3, 0, 3)]);
    let p1 = seq![(2i8, 3i8), (4, 0)];
    assert(polyline_segments(p1, 0) =~= seq![seg0(2, 3, 4, 0)]);
    assert(glyph('R') =~= seq![p0, p1]);
    lemma_glyph_2(p0, p1);
    assert(seq![seg0(0, 0, 0, 6), seg0(0, 6, 3, 6), seg0(3, 6, 4, 5), seg0(4, 5, 4, 4), seg0(4, 4, 3, 3), seg0(3, 3, 0, 3)] + seq![seg0(2, 3, 4, 0)] =~= seq![seg0(0, 0, 0, 6), seg0(0, 6, 3, 6), seg0(3, 6, 4, 5), seg0(4, 5, 4, 4), seg0(4, 4, 3, 3), seg0(3, 3, 0, 3), seg0(2, 3, 4, 0)]);
}

proof fn lemma_drawn_s()
    ensures
        text_layout(seq!['S']) == seq![seg0(4, 5, 3, 6), seg0(3, 6, 1, 6), seg0(1, 6, 0, 5), seg0(0, 5, 0, 4), seg0(0, 4, 4, 2), seg0(4, 2, 4, 1), seg0(4, 1, 3, 0), seg0(3, 0, 1, 0), seg0(1, 0, 0, 1)],
{
    lemma_single_char('S');
    let p0 = seq![(4i8, 5i8), (3, 6), (1, 6), (0, 5), (0, 4), (4, 2), (4, 1), (3, 0), (1, 0), (0, 1)];
    assert(polyline_segments(p0, 0) =~= seq![seg0(4, 5, 3, 6), seg0(3, 6, 1, 6), seg0(1, 6, 0, 5), seg0(0, 5, 0, 4), seg0(0, 4, 4, 2), seg0(4, 2, 4, 1), seg0(4, 1, 3, 0), seg0(3, 0, 1, 0), seg0(1, 0, 0, 1)]);
    assert(glyph('S') =~= seq![p0]);
    lemma_glyph_1(p0);
    assert(seq![seg0(4, 5, 3, 6), seg0(3, 6, 1, 6), seg0(1, 6, 0, 5), seg0(0, 5, 0, 4), seg0(0, 4, 4, 2), seg0(4, 2, 4, 1), seg0(4, 1, 3, 0), seg0(3, 0, 1, 0), seg0(1, 0, 0, 1)] =~= seq![seg0(4, 5, 3, 6), seg0(3, 6, 1, 6), seg0(1, 6, 0, 5), seg0(0, 5, 0, 4), seg0(0, 4, 4, 2), seg0(4, 2, 4, 1), seg0(4, 1, 3, 0), seg0(3, 0, 1, 0), seg0(1, 0, 0, 1)]);
}

proof fn lemma_drawn_t()
    ensures
        text_layout(seq!['T']) == seq![seg0(0, 6, 4, 6), seg0(2, 6, 2, 0)],
{
    lemma_single_char('T');
    let p0 = seq![(0i8, 6i8), (4, 6)];
    assert(polyline_segments(p0, 0) =~= seq![seg0(0, 6, 4, 6)]);
    let p1 = seq![(2i8, 6i8), (2, 0)];
    assert(polyline_segments(p1, 0) =~= seq![seg0(2, 6, 2, 0)]);
    assert(glyph('T') =~= seq![p0, p1]);
    lemma_glyph_2(p0, p1);
    assert(seq![seg0(0, 6, 4, 6)] + seq![seg0(2, 6, 2, 0)] =~= seq![seg0(0, 6, 4, 6), seg0(2, 6, 2, 0)]);
}

proof fn lemma_drawn_u()
    ensures
        text_layout(seq!['U']) == seq![seg0(0, 6, 0, 1), seg0(0, 1, 1, 0), seg0(1, 0, 3, 0), seg0(3, 0, 4, 1), seg0(4, 1, 4, 6)],
{
    lemma_single_char('U');
    let p0 = seq![(0i8, 6i8), (0, 1), (1, 0), (3, 0), (4, 1), (4, 6)];
    assert(polyline_segments(p0, 0) =~= seq![seg0(0, 6, 0, 1), seg0(0, 1, 1, 0), seg0(1, 0, 3, 0), seg0(3, 0, 4, 1), seg0(4, 1, 4, 6)]);
    assert(glyph('U') =~= seq![p0]);
    lemma_glyph_1(p0);
    assert(seq![seg0(0, 6, 0, 1), seg0(0, 1, 1, 0), seg0(1, 0, 3, 0), seg0(3, 0, 4, 1), seg0(4, 1, 4, 6)] =~= seq![seg0(0, 6, 0, 1), seg0(0, 1, 1, 0), seg0(1, 0, 3, 0), seg0(3, 0, 4, 1), seg0(4, 1, 4, 6)]);
}

proof fn lemma_drawn_v()
    ensures
        text_layout(seq!['V']) == seq![seg0(0, 6, 2, 0), seg0(2, 0, 4, 6)],
{
    lemma_single_char('V');
    let p0 = seq![(0i8, 6i8), (2, 0), (4, 6)];
    assert(polyline_segments(p0, 0) =~= seq![seg0(0, 6, 2, 0), seg0(2, 0, 4, 6)]);
    assert(glyph('V') =~= seq![p0]);
    lemma_glyph_1(p0);
    assert(seq![seg0(0, 6, 2, 0), seg0(2, 0, 4, 6)] =~= seq![seg0(0, 6, 2, 0), seg0(2, 0, 4, 6)]);
}

proof fn lemma_drawn_w()
    ensures
        text_layout(seq!['W']) == seq![seg0(0, 6, 1, 0), seg0(1, 0, 2, 3), seg0(2, 3, 3, 0), seg0(3, 0, 4, 6)],
{
    lemma_single_char('W');
    let p0 = seq![(0i8, 6i8), (1, 0), (2, 3), (3, 0), (4, 6)];
    assert(polyline_segments(p0, 0) =~= seq![seg0(0, 6, 1, 0), seg0(1, 0, 2, 3), seg0(2, 3, 3, 0), seg0(3, 0, 4, 6)]);
    assert(glyph('W') =~= seq![p0]);
    lemma_glyph_1(p0);
    assert(seq![seg0(0, 6, 1, 0), seg0(1, 0, 2, 3), seg0(2, 3, 3, 0), seg0(3, 0, 4, 6)] =~= seq![seg0(0, 6, 1, 0), seg0(1, 0, 2, 3), seg0(2, 3, 3, 0), seg0(3, 0, 4, 6)]);
}

proof fn lemma_drawn_x()
    ensures
        text_layout(seq!['X']) == seq![seg0(0, 0, 4, 6), seg0(0, 6, 4, 0)],
{
    lemma_single_char('X');
    let p0 = seq![(0i8, 0i8), (4, 6)];
    assert(polyline_segments(p0, 0) =~= seq![seg0(0, 0, 4, 6)]);
    let p1 = seq![(0i8, 6i8), (4, 0)];
    assert(polyline_segments(p1, 0) =~= seq![seg0(0, 6, 4, 0)]);
    assert(glyph('X') =~= seq![p0, p1]);
    lemma_glyph_2(p0, p1);
    assert(seq![seg0(0, 0, 4, 6)] + seq![seg0(0, 6, 4, 0)] =~= seq![seg0(0, 0, 4, 6), seg0(0, 6, 4, 0)]);
}

proof fn lemma_drawn_y()
    ensures
        text_layout(seq!['Y']) == seq![seg0(0, 6, 2, 3), seg0(2, 3, 4, 6), seg0(2, 3, 2, 0)],
{
    lemma_single_char('Y');
    let p0 = seq![(0i8, 6i8), (2, 3), (4, 6)];
    assert(polyline_segments(p0, 0) =~= seq![seg0(0, 6, 2, 3), seg0(2, 3, 4, 6)]);
    let p1 = seq![(2i8, 3i8), (2, 0)];
    assert(polyline_segments(p1, 0) =~= seq![seg0(2, 3, 2, 0)]);
    assert(glyph('Y') =~= seq![p0, p1]);
    lemma_glyph_2(p0, p1);
    assert(seq![seg0(0, 6, 2, 3), seg0(2, 3, 4, 6)] + seq![seg0(2, 3, 2, 0)] =~= seq![seg0(0, 6, 2, 3), seg0(2, 3, 4, 6), seg0(2, 3, 2, 0)]);
}

proof fn lemma_drawn_z()
    ensures
        text_layout(seq!['Z']) == seq![seg0(0, 6, 4, 6), seg0(4, 6, 0, 0), seg0(0, 0, 4, 0)],
{
    lemma_single_char('Z');
    let p0 = seq![(0i8, 6i8), (4, 6), (0, 0), (4, 0)];
    assert(polyline_segments(p0, 0) =~= seq![seg0(0, 6, 4, 6), seg0(4, 6, 0, 0), seg0(0, 0, 4, 0)]);
    assert(glyph('Z') =~= seq![p0]);
    lemma_glyph_1(p0);
    assert(seq![seg0(0, 6, 4, 6), seg0(4, 6, 0, 0), seg0(0, 0, 4, 0)] =~= seq![seg0(0, 6, 4, 6), seg0(4, 6, 0, 0), seg0(0, 0, 4, 0)]);
}

proof fn lemma_drawn_digit0()
    ensures
        text_layout(seq!['0']) == seq![seg0(1, 0, 0, 1), seg0(0, 1, 0, 5), seg0(0, 5, 1, 6), seg0(1, 6, 3, 6), seg0(3, 6, 4, 5), seg0(4, 5, 4, 1), seg0(4, 1, 3, 0), seg0(3, 0, 1, 0), seg0(1, 1, 3, 5)],
{
    lemma_single_char('0');
    let p0 = seq![(1i8, 0i8), (0, 1), (0, 5), (1, 6), (3, 6), (4, 5), (4, 1), (3, 0), (1, 0)];
    assert(polyline_segments(p0, 0) =~= seq![seg0(1, 0, 0, 1), seg0(0, 1, 0, 5), seg0(0, 5, 1, 6), seg0(1, 6, 3, 6), seg0(3, 6, 4, 5), seg0(4, 5, 4, 1), seg0(4, 1, 3, 0), seg0(3, 0, 1, 0)]);
    let p1 = seq![(1i8, 1i8), (3, 5)];
    assert(polyline_segments(p1, 0) =~= seq![seg0(1, 1, 3, 5)]);
    assert(glyph('0') =~= seq![p0, p1]);
    lemma_glyph_2(p0, p1);
    assert(seq![seg0(1, 0, 0, 1), seg0(0, 1, 0, 5), seg0(0, 5, 1, 6), seg0(1, 6, 3, 6), seg0(3, 6, 4, 5), seg0(4, 5, 4, 1), seg0(4, 1, 3, 0), seg0(3, 0, 1, 0)] + seq![seg0(1, 1, 3, 5)] =~= seq![seg0(1, 0, 0, 1), seg0(0, 1, 0, 5), seg0(0, 5, 1, 6), seg0(1, 6, 3, 6), seg0(3, 6, 4, 5), seg0(4, 5, 4, 1), seg0(4, 1, 3, 0), seg0(3, 0, 1, 0), seg0(1, 1, 3, 5)]);
}

proof fn lemma_drawn_digit1()
    ensures
        text_layout(seq!['1']) == seq![seg0(1, 5, 2, 6), seg0(2, 6, 2, 0), seg0(1, 0, 3, 0)],
{
    lemma_single_char('1');
    let p0 = seq![(1i8, 5i8), (2, 6), (2, 0)];
    assert(polyline_segments(p0, 0) =~= seq![seg0(1, 5, 2, 6), seg0(2, 6, 2, 0)]);
    let p1 = seq![(1i8, 0i8), (3, 0)];
    assert(polyline_segments(p1, 0) =~= seq![seg0(1, 0, 3, 0)]);
    assert(glyph('1') =~= seq![p0, p1]);
    lemma_glyph_2(p0, p1);
    assert(seq![seg0(1, 5, 2, 6), seg0(2, 6, 2, 0)] + seq![seg0(1, 0, 3, 0)] =~= seq![seg0(1, 5, 2, 6), seg0(2, 6, 2, 0), seg0(1, 0, 3, 0)]);
}

proof fn lemma_drawn_digit2()
    ensures
        text_layout(seq!['2']) == seq![seg0(0, 5, 1, 6), seg0(1, 6, 3, 6), seg0(3, 6, 4, 5), seg0(4, 5, 4, 4), seg0(4, 4, 0, 0), seg0(0, 0, 4, 0)],
{
    lemma_single_char('2');
    let p0 = seq![(0i8, 5i8), (1, 6), (3, 6), (4, 5), (4, 4), (0, 0), (4, 0)];
    assert(polyline_segments(p0, 0) =~= seq![seg0(0, 5, 1, 6), seg0(1, 6, 3, 6), seg0(3, 6, 4, 5), seg0(4, 5, 4, 4), seg0(4, 4, 0, 0), seg0(0, 0, 4, 0)]);
    assert(glyph('2') =~= seq![p0]);
    lemma_glyph_1(p0);
    assert(seq![seg0(0, 5, 1, 6), seg0(1, 6, 3, 6), seg0(3, 6, 4, 5), seg0(4, 5, 4, 4), seg0(4, 4, 0, 0), seg0(0, 0, 4, 0)] =~= seq![seg0(0, 5, 1, 6), seg0(1, 6, 3, 6), seg0(3, 6, 4, 5), seg0(4, 5, 4, 4), seg0(4, 4, 0, 0), seg0(0, 0, 4, 0)]);
}

proof fn lemma_drawn_digit3()
    ensures
        text_layout(seq!['3']) == seq![seg0(0, 5, 1, 6), seg0(1, 6, 3, 6), seg0(3, 6, 4, 5), seg0(4, 5, 4, 4), seg0(4, 4, 3, 3), seg0(3, 3, 4, 2), seg0(4, 2, 4, 1), seg0(4, 1, 3, 0), seg0(3, 0, 1, 0), seg0(1, 0, 0, 1), seg0(2, 3, 3, 3)],
{
    lemma_single_char('3');
    let p0 = seq![(0i8, 5i8), (1, 6), (3, 6), (4, 5), (4, 4), (3, 3), (4, 2), (4, 1), (3, 0), (1, 0), (0, 1)];
    assert(polyline_segments(p0, 0) =~= seq![seg0(0, 5, 1, 6), seg0(1, 6, 3, 6), seg0(3, 6, 4, 5), seg0(4, 5, 4, 4), seg0(4, 4, 3, 3), seg0(3, 3, 4, 2), seg0(4, 2, 4, 1), seg0(4, 1, 3, 0), seg0(3, 0, 1, 0), seg0(1, 0, 0, 1)]);
    let p1 = seq![(2i8, 3i8), (3, 3)];
    assert(polyline_segments(p1, 0) =~= seq![seg0(2, 3, 3, 3)]);
    assert(glyph('3') =~= seq![p0, p1]);
    lemma_glyph_2(p0, p1);
    assert(seq![seg0(0, 5, 1, 6), seg0(1, 6, 3, 6), seg0(3, 6, 4, 5), seg0(4, 5, 4, 4), seg0(4, 4, 3, 3), seg0(3, 3, 4, 2), seg0(4, 2, 4, 1), seg0(4, 1, 3, 0), seg0(3, 0, 1, 0), seg0(1, 0, 0, 1)] + seq![seg0(2, 3, 3, 3)] =~= seq![seg0(0, 5, 1, 6), seg0(1, 6, 3, 6), seg0(3, 6, 4, 5), seg0(4, 5, 4, 4), seg0(4, 4, 3, 3), seg0(3, 3, 4, 2), seg0(4, 2, 4, 1), seg0(4, 1, 3, 0), seg0(3, 0, 1, 0), seg0(1, 0, 0, 1), seg0(2, 3, 3, 3)]);
}

proof fn lemma_drawn_digit4()
    ensures
        text_layout(seq!['4']) == seq![seg0(3, 0, 3, 6), seg0(3, 6, 0, 2), seg0(0, 2, 4, 2)],
{
    lemma_single_char('4');
    let p0 = seq![(3i8, 0i8), (3, 6), (0, 2), (4, 2)];
    assert(polyline_segments(p0, 0) =~= seq![seg0(3, 0, 3, 6), seg0(3, 6, 0, 2), seg0(0, 2, 4, 2)]);
    assert(glyph('4') =~= seq![p0]);
    lemma_glyph_1(p0);
    assert(seq![seg0(3, 0, 3, 6), seg0(3, 6, 0, 2), seg0(0, 2, 4, 2)] =~= seq![seg0(3, 0, 3, 6), seg0(3, 6, 0, 2), seg0(0, 2, 4, 2)]);
}

proof fn lemma_drawn_digit5()
    ensures
        text_layout(seq!['5']) == seq![seg0(4, 6, 0, 6), seg0(0, 6, 0, 4), seg0(0, 4, 3, 4), seg0(3, 4, 4, 3), seg0(4, 3, 4, 1), seg0(4, 1, 3, 0), seg0(3, 0, 1, 0), seg0(1, 0, 0, 1)],
{
    lemma_single_char('5');
    let p0 = seq![(4i8, 6i8), (0, 6), (0, 4), (3, 4), (4, 3), (4, 1), (3, 0), (1, 0), (0, 1)];
    assert(polyline_segments(p0, 0) =~= seq![seg0(4, 6, 0, 6), seg0(0, 6, 0, 4), seg0(0, 4, 3, 4), seg0(3, 4, 4, 3), seg0(4, 3, 4, 1), seg0(4, 1, 3, 0), seg0(3, 0, 1, 0), seg0(1, 0, 0, 1)]);
    assert(glyph('5') =~= seq![p0]);
    lemma_glyph_1(p0);
    assert(seq![seg0(4, 6, 0, 6), seg0(0, 6, 0, 4), seg0(0, 4, 3, 4), seg0(3, 4, 4, 3), seg0(4, 3, 4, 1), seg0(4, 1, 3, 0), seg0(3, 0, 1, 0), seg0(1, 0, 0, 1)] =~= seq![seg0(4, 6, 0, 6), seg0(0, 6, 0, 4), seg0(0, 4, 3, 4), seg0(3, 4, 4, 3), seg0(4, 3, 4, 1), seg0(4, 1, 3, 0), seg0(3, 0, 1, 0), seg0(1, 0, 0, 1)]);
}

proof fn lemma_drawn_digit6()
    ensures
        text_layout(seq!['6']) == seq![seg0(3, 6, 1, 6), seg0(1, 6, 0, 5), seg0(0, 5, 0, 1), seg0(0, 1, 1, 0), seg0(1, 0, 3, 0), seg0(3, 0, 4, 1), seg0(4, 1, 4, 2), seg0(4, 2, 3, 3), seg0(3, 3, 0, 3)],
{
    lemma_single_char('6');
    let p0 = seq![(3i8, 6i8), (1, 6), (0, 5), (0, 1), (1, 0), (3, 0), (4, 1), (4, 2), (3, 3), (0, 3)];
    assert(polyline_segments(p0, 0) =~= seq![seg0(3, 6, 1, 6), seg0(1, 6, 0, 5), seg0(0, 5, 0, 1), seg0(0, 1, 1, 0), seg0(1, 0, 3, 0), seg0(3, 0, 4, 1), seg0(4, 1, 4, 2), seg0(4, 2, 3, 3), seg0(3, 3, 0, 3)]);
    assert(glyph('6') =~= seq![p0]);
    lemma_glyph_1(p0);
    assert(seq![seg0(3, 6, 1, 6), seg0(1, 6, 0, 5), seg0(0, 5, 0, 1), seg0(0, 1, 1, 0), seg0(1, 0, 3, 0), seg0(3, 0, 4, 1), seg0(4, 1, 4, 2), seg0(4, 2, 3, 3), seg0(3, 3, 0, 3)] =~= seq![seg0(3, 6, 1, 6), seg0(1, 6, 0, 5), seg0(0, 5, 0, 1), seg0(0, 1, 1, 0), seg0(1, 0, 3, 0), seg0(3, 0, 4, 1), seg0(4, 1, 4, 2), seg0(4, 2, 3, 3), seg0(3, 3, 0, 3)]);
}

proof fn lemma_drawn_digit7()
    ensures
        text_layout(seq!['7']) == seq![seg0(0, 6, 4, 6), seg0(4, 6, 1, 0)],
{
    lemma_single_char('7');
    let p0 = seq![(0i8, 6i8), (4, 6), (1, 0)];
    assert(polyline_segments(p0, 0) =~= seq![seg0(0, 6, 4, 6), seg0(4, 6, 1, 0)]);
    assert(glyph('7') =~= seq![p0]);
    lemma_glyph_1(p0);
    assert(seq![seg0(0, 6, 4, 6), seg0(4, 6, 1, 0)] =~= seq![seg0(0, 6, 4, 6), seg0(4, 6, 1, 0)]);
}

proof fn lemma_drawn_digit8()
    ensures
        text_layout(seq!['8']) == seq![seg0(1, 3, 0, 4), seg0(0, 4, 0, 5), seg0(0, 5, 1, 6), seg0(1, 6, 3, 6), seg0(3, 6, 4, 5), seg0(4, 5, 4, 4), seg0(4, 4, 3, 3), seg0(3, 3, 4, 2), seg0(4, 2, 4, 1), seg0(4, 1, 3, 0), seg0(3, 0, 1, 0), seg0(1, 0, 0, 1), seg0(0, 1, 0, 2), seg0(0, 2, 1, 3), seg0(1, 3, 3, 3)],
{
    lemma_single_char('8');
    let p0 = seq![(1i8, 3i8), (0, 4), (0, 5), (1, 6), (3, 6), (4, 5), (4, 4), (3, 3), (4, 2), (4, 1), (3, 0), (1, 0), (0, 1), (0, 2), (1, 3)];
    assert(polyline_segments(p0, 0) =~= seq![seg0(1, 3, 0, 4), seg0(0, 4, 0, 5), seg0(0, 5, 1, 6), seg0(1, 6, 3, 6), seg0(3, 6, 4, 5), seg0(4, 5, 4, 4), seg0(4, 4, 3, 3), seg0(3, 3, 4, 2), seg0(4, 2, 4, 1), seg0(4, 1, 3, 0), seg0(3, 0, 1, 0), seg0(1, 0, 0, 1), seg0(0, 1, 0, 2), seg0(0, 2, 1, 3)]);
    let p1 = seq![(1i8, 3i8), (3, 3)];
    assert(polyline_segments(p1, 0) =~= seq![seg0(1, 3, 3, 3)]);
    assert(glyph('8') =~= seq![p0, p1]);
    lemma_glyph_2(p0, p1);
    assert(seq![seg0(1, 3, 0, 4), seg0(0, 4, 0, 5), seg0(0, 5, 1, 6), seg0(1, 6, 3, 6), seg0(3, 6, 4, 5), seg0(4, 5, 4, 4), seg0(4, 4, 3, 3), seg0(3, 3, 4, 2), seg0(4, 2, 4, 1), seg0(4, 1, 3, 0), seg0(3, 0, 1, 0), seg0(1, 0, 0, 1), seg0(0, 1, 0, 2), seg0(0, 2, 1, 3)] + seq![seg0(1, 3, 3, 3)] =~= seq![seg0(1, 3, 0, 4), seg0(0, 4, 0, 5), seg0(0, 5, 1, 6), seg0(1, 6, 3, 6), seg0(3, 6, 4, 5), seg0(4, 5, 4, 4), seg0(4, 4, 3, 3), seg0(3, 3, 4, 2), seg0(4, 2, 4, 1), seg0(4, 1, 3, 0), seg0(3, 0, 1, 0), seg0(1, 0, 0, 1), seg0(0, 1, 0, 2), seg0(0, 2, 1, 3), seg0(1, 3, 3, 3)]);
}

proof fn lemma_drawn_digit9()
    ensures
        text_layout(seq!['9']) == seq![seg0(1, 0, 3, 0), seg0(3, 0, 4, 1), seg0(4, 1, 4, 5), seg0(4, 5, 3, 6), seg0(3, 6, 1, 6), seg0(1, 6, 0, 5), seg0(0, 5, 0, 4), seg0(0, 4, 1, 3), seg0(1, 3, 4, 3)],
{
    lemma_single_char('9');
    let p0 = seq![(1i8, 0i8), (3, 0), (4, 1), (4, 5), (3, 6), (1, 6), (0, 5), (0, 4), (1, 3), (4, 3)];
    assert(polyline_segments(p0, 0) =~= seq![seg0(1, 0, 3, 0), seg0(3, 0, 4, 1), seg0(4, 1, 4, 5), seg0(4, 5, 3, 6), seg0(3, 6, 1, 6), seg0(1, 6, 0, 5), seg0(0, 5, 0, 4), seg0(0, 4, 1, 3), seg0(1, 3, 4, 3)]);
    assert(glyph('9') =~= seq![p0]);
    lemma_glyph_1(p0);
    assert(seq![seg0(1, 0, 3, 0), seg0(3, 0, 4, 1), seg0(4, 1, 4, 5), seg0(4, 5, 3, 6), seg0(3, 6, 1, 6), seg0(1, 6, 0, 5), seg0(0, 5, 0, 4), seg0(0, 4, 1, 3), seg0(1, 3, 4, 3)] =~= seq![seg0(1, 0, 3, 0), seg0(3, 0, 4, 1), seg0(4, 1, 4, 5), seg0(4, 5, 3, 6), seg0(3, 6, 1, 6), seg0(1, 6, 0, 5), seg0(0, 5, 0, 4), seg0(0, 4, 1, 3), seg0(1, 3, 4, 3)]);
}

proof fn lemma_drawn_minus()
    ensures
        text_layout(seq!['-']) == seq![seg0(1, 3, 3, 3)],
{
    lemma_single_char('-');
    let p0 = seq![(1i8, 3i8), (3, 3)];
    assert(polyline_segments(p0, 0) =~= seq![seg0(1, 3, 3, 3)]);
    assert(glyph('-') =~= seq![p0]);
    lemma_glyph_1(p0);
    assert(seq![seg0(1, 3, 3, 3)] =~= seq![seg0(1, 3, 3, 3)]);
}

proof fn lemma_drawn_plus()
    ensures
        text_layout(seq!['+']) == seq![seg0(0, 3, 4, 3), seg0(2, 1, 2, 5)],
{
    lemma_single_char('+');
    let p0 = seq![(0i8, 3i8), (4, 3)];
    assert(polyline_segments(p0, 0) =~= seq![seg0(0, 3, 4, 3)]);
    let p1 = seq![(2i8, 1i8), (2, 5)];
    assert(polyline_segments(p1, 0) =~= seq![seg0(2, 1, 2, 5)]);
    assert(glyph('+') =~= seq![p0, p1]);
    lemma_glyph_2(p0, p1);
    assert(seq![seg0(0, 3, 4, 3)] + seq![seg0(2, 1, 2, 5)] =~= seq![seg0(0, 3, 4, 3), seg0(2, 1, 2, 5)]);
}

proof fn lemma_drawn_dot()
    ensures
        text_layout(seq!['.']) == seq![seg0(2, 0, 2, 0)],
{
    lemma_single_char('.');
    let p0 = seq![(2i8, 0i8), (2, 0)];
    assert(polyline_segments(p0, 0) =~= seq![seg0(2, 0, 2, 0)]);
    assert(glyph('.') =~= seq![p0]);
    lemma_glyph_1(p0);
    assert(seq![seg0(2, 0, 2, 0)] =~= seq![seg0(2, 0, 2, 0)]);
}

proof fn lemma_drawn_colon()
    ensures
        text_layout(seq![':']) == seq![seg0(2, 1, 2, 1), seg0(2, 5, 2, 5)],
{
    lemma_single_char(':');
    let p0 = seq![(2i8, 1i8), (2, 1)];
    assert(polyline_segments(p0, 0) =~= seq![seg0(2, 1, 2, 1)]);
    let p1 = seq![(2i8, 5i8), (2, 5)];
    assert(polyline_segments(p1, 0) =~= seq![seg0(2, 5, 2, 5)]);
    assert(glyph(':') =~= seq![p0, p1]);
    lemma_glyph_2(p0, p1);
    assert(seq![seg0(2, 1, 2, 1)] + seq![seg0(2, 5, 2, 5)] =~= seq![seg0(2, 1, 2, 1), seg0(2, 5, 2, 5)]);
}

proof fn lemma_drawn_slash()
    ensures
        text_layout(seq!['/']) == seq![seg0(0, 0, 4, 6)],
{
    lemma_single_char('/');
    let p0 = seq![(0i8, 0i8), (4, 6)];
    assert(polyline_segments(p0, 0) =~= seq![seg0(0, 0, 4, 6)]);
    assert(glyph('/') =~= seq![p0]);
    lemma_glyph_1(p0);
    assert(seq![seg0(0, 0, 4, 6)] =~= seq![seg0(0, 0, 4, 6)]);
}

proof fn lemma_drawn_percent()
    ensures
        text_layout(seq!['%']) == seq![seg0(0, 0, 4, 6), seg0(1, 5, 1, 5), seg0(3, 1, 3, 1)],
{
    lemma_single_char('%');
    let p0 = seq![(0i8, 0i8), (4, 6)];
    assert(polyline_segments(p0, 0) =~= seq![seg0(0, 0, 4, 6)]);
    let p1 = seq![(1i8, 5i8), (1, 5)];
    assert(polyline_segments(p1, 0) =~= seq![seg0(1, 5, 1, 5)]);
    let p2 = seq![(3i8, 1i8), (3, 1)];
    assert(polyline_segments(p2, 0) =~= seq![seg0(3, 1, 3, 1)]);
    assert(glyph('%') =~= seq![p0, p1, p2]);
    lemma_glyph_3(p0, p1, p2);
    assert(seq![seg0(0, 0, 4, 6)] + seq![seg0(1, 5, 1, 5)] + seq![seg0(3, 1, 3, 1)] =~= seq![seg0(0, 0, 4, 6), seg0(1, 5, 1, 5), seg0(3, 1, 3, 1)]);
}

/// The font: for every character it covers, the segments a one-character
/// text is drawn with (polylines become consecutive point pairs, a single
/// point becomes a dot).
#[verifier::rlimit(100)]
pub proof fn lemma_font_table()
    ensures
        text_layout(seq!['A']) == seq![seg0(0, 0, 0, 4), seg0(0, 4, 2, 6), seg0(2, 6, 4, 4), seg0(4, 4, 4, 0), seg0(0, 3, 4, 3)],
        text_layout(seq!['B']) == seq![seg0(0, 0, 0, 6), seg0(0, 6, 3, 6), seg0(3, 6, 4, 5), seg0(4, 5, 4, 4), seg0(4, 4, 3, 3), seg0(3, 3, 0, 3), seg0(3, 3, 4, 2), seg0(4, 2, 4, 1), seg0(4, 1, 3, 0), seg0(3, 0, 0, 0)],
        text_layout(seq!['C']) == seq![seg0(4, 1, 3, 0), seg0(3, 0, 1, 0), seg0(1, 0, 0, 1), seg0(0, 1, 0, 5), seg0(0, 5, 1, 6), seg0(1, 6, 3, 6), seg0(3, 6, 4, 5)],
        text_layout(seq!['D']) == seq![seg0(0, 0, 0, 6), seg0(0, 6, 2, 6), seg0(2, 6, 4, 4), seg0(4, 4, 4, 2), seg0(4, 2, 2, 0), seg0(2, 0, 0, 0)],
        text_layout(seq!['E']) == seq![seg0(4, 0, 0, 0), seg0(0, 0, 0, 6), seg0(0, 6, 4, 6), seg0(0, 3, 3, 3)],
        text_layout(seq!['F']) == seq![seg0(0, 0, 0, 6), seg0(0, 6, 4, 6), seg0(0, 3, 3, 3)],
        text_layout(seq!['G']) == seq![seg0(4, 5, 3, 6), seg0(3, 6, 1, 6), seg0(1, 6, 0, 5), seg0(0, 5, 0, 1), seg0(0, 1, 1, 0), seg0(1, 0, 3, 0), seg0(3, 0, 4, 1), seg0(4, 1, 4, 3), seg0(4, 3, 2, 3)],
        text_layout(seq!['H']) == seq![seg0(0, 0, 0, 6), seg0(4, 0, 4, 6), seg0(0, 3, 4, 3)],
        text_layout(seq!['I']) == seq![seg0(1, 0, 3, 0), seg0(2, 0, 2, 6), seg0(1, 6, 3, 6)],
        text_layout(seq!['J']) == seq![seg0(0, 1, 1, 0), seg0(1, 0, 3, 0), seg0(3, 0, 4, 1), seg0(4, 1, 4, 6)],
        text_layout(seq!['K']) == seq![seg0(0, 0, 0, 6), seg0(4, 6, 0, 3), seg0(0, 3, 4, 0)],
        text_layout(seq!['L']) == seq![seg0(0, 6, 0, 0), seg0(0, 0, 4, 0)],
        text_layout(seq!['M']) == seq![seg0(0, 0, 0, 6), seg0(0, 6, 2, 3), seg0(2, 3, 4, 6), seg0(4, 6, 4, 0)],
        text_layout(seq!['N']) == seq![seg0(0, 0, 0, 6), seg0(0, 6, 4, 0), seg0(4, 0, 4, 6)],
        text_layout(seq!['O']) == seq![seg0(1, 0, 0, 1), seg0(0, 1, 0, 5), seg0(0, 5, 1, 6), seg0(1, 6, 3, 6), seg0(3, 6, 4, 5), seg0(4, 5, 4, 1), seg0(4, 1, 3, 0), seg0(3, 0, 1, 0)],
        text_layout(seq!['P']) == seq![seg0(0, 0, 0, 6), seg0(0, 6, 3, 6), seg0(3, 6, 4, 5), seg0(4, 5, 4, 4), seg0(4, 4, 3, 3), seg0(3, 3, 0, 3)],
        text_layout(seq!['Q']) == seq![seg0(1, 0, 0, 1), seg0(0, 1, 0, 5), seg0(0, 5, 1, 6), seg0(1, 6, 3, 6), seg0(3, 6, 4, 5), seg0(4, 5, 4, 1), seg0(4, 1, 3, 0), seg0(3, 0, 1, 0), seg0(2, 2, 4, 0)],
        text_layout(seq!['R']) == seq![seg0(0, 0, 0, 6), seg0(0, 6, 3, 6), seg0(3, 6, 4, 5), seg0(4, 5, 4, 4), seg0(4, 4, 3, 3), seg0(3, 3, 0, 3), seg0(2, 3, 4, 0)],
        text_layout(seq!['S']) == seq![seg0(4, 5, 3, 6), seg0(3, 6, 1, 6), seg0(1, 6, 0, 5), seg0(0, 5, 0, 4), seg0(0, 4, 4, 2), seg0(4, 2, 4, 1), seg0(4, 1, 3, 0), seg0(3, 0, 1, 0), seg0(1, 0, 0, 1)],
        text_layout(seq!['T']) == seq![seg0(0, 6, 4, 6), seg0(2, 6, 2, 0)],
        text_layout(seq!['U']) == seq![seg0(0, 6, 0, 1), seg0(0, 1, 1, 0), seg0(1, 0, 3, 0), seg0(3, 0, 4, 1), seg0(4, 1, 4, 6)],
        text_layout(seq!['V']) == seq![seg0(0, 6, 2, 0), seg0(2, 0, 4, 6)],
        text_layout(seq!['W']) == seq![seg0(0, 6, 1, 0), seg0(1, 0, 2, 3), seg0(2, 3, 3, 0), seg0(3, 0, 4, 6)],
        text_layout(seq!['X']) == seq![seg0(0, 0, 4, 6), seg0(0, 6, 4, 0)],
        text_layout(seq!['Y']) == seq![seg0(0, 6, 2, 3), seg0(2, 3, 4, 6), seg0(2, 3, 2, 0)],
        text_layout(seq!['Z']) == seq![seg0(0, 6, 4, 6), seg0(4, 6, 0, 0), seg0(0, 0, 4, 0)],
        text_layout(seq!['0']) == seq![seg0(1, 0, 0, 1), seg0(0, 1, 0, 5), seg0(0, 5, 1, 6), seg0(1, 6, 3, 6), seg0(3, 6, 4, 5), seg0(4, 5, 4, 1), seg0(4, 1, 3, 0), seg0(3, 0, 1, 0), seg0(1, 1, 3, 5)],
        text_layout(seq!['1']) == seq![seg0(1, 5, 2, 6), seg0(2, 6, 2, 0), seg0(1, 0, 3, 0)],
        text_layout(seq!['2']) == seq![seg0(0, 5, 1, 6), seg0(1, 6, 3, 6), seg0(3, 6, 4, 5), seg0(4, 5, 4, 4), seg0(4, 4, 0, 0), seg0(0, 0, 4, 0)],
        text_layout(seq!['3']) == seq![seg0(0, 5, 1, 6), seg0(1, 6, 3, 6), seg0(3, 6, 4, 5), seg0(4, 5, 4, 4), seg0(4, 4, 3, 3), seg0(3, 3, 4, 2), seg0(4, 2, 4, 1), seg0(4, 1, 3, 0), seg0(3, 0, 1, 0), seg0(1, 0, 0, 1), seg0(2, 3, 3, 3)],
        text_layout(seq!['4']) == seq![seg0(3, 0, 3, 6), seg0(3, 6, 0, 2), seg0(0, 2, 4, 2)],
        text_layout(seq!['5']) == seq![seg0(4, 6, 0, 6), seg0(0, 6, 0, 4), seg0(0, 4, 3, 4), seg0(3, 4, 4, 3), seg0(4, 3, 4, 1), seg0(4, 1, 3, 0), seg0(3, 0, 1, 0), seg0(1, 0, 0, 1)],
        text_layout(seq!['6']) == seq![seg0(3, 6, 1, 6), seg0(1, 6, 0, 5), seg0(0, 5, 0, 1), seg0(0, 1, 1, 0), seg0(1, 0, 3, 0), seg0(3, 0, 4, 1), seg0(4, 1, 4, 2), seg0(4, 2, 3, 3), seg0(3, 3, 0, 3)],
        text_layout(seq!['7']) == seq![seg0(0, 6, 4, 6), seg0(4, 6, 1, 0)],
        text_layout(seq!['8']) == seq![seg0(1, 3, 0, 4), seg0(0, 4, 0, 5), seg0(0, 5, 1, 6), seg0(1, 6, 3, 6), seg0(3, 6, 4, 5), seg0(4, 5, 4, 4), seg0(4, 4, 3, 3), seg0(3, 3, 4, 2), seg0(4, 2, 4, 1), seg0(4, 1, 3, 0), seg0(3, 0, 1, 0), seg0(1, 0, 0, 1), seg0(0, 1, 0, 2), seg0(0, 2, 1, 3), seg0(1, 3, 3, 3)],
        text_layout(seq!['9']) == seq![seg0(1, 0, 3, 0), seg0(3, 0, 4, 1), seg0(4, 1, 4, 5), seg0(4, 5, 3, 6), seg0(3, 6, 1, 6), seg0(1, 6, 0, 5), seg0(0, 5, 0, 4), seg0(0, 4, 1, 3), seg0(1, 3, 4, 3)],
        text_layout(seq!['-']) == seq![seg0(1, 3, 3, 3)],
        text_layout(seq!['+']) == seq![seg0(0, 3, 4, 3), seg0(2, 1, 2, 5)],
        text_layout(seq!['.']) == seq![seg0(2, 0, 2, 0)],
        text_layout(seq![':']) == seq![seg0(2, 1, 2, 1), seg0(2, 5, 2, 5)],
        text_layout(seq!['/']) == seq![seg0(0, 0, 4, 6)],
        text_layout(seq!['%']) == seq![seg0(0, 0, 4, 6), seg0(1, 5, 1, 5), seg0(3, 1, 3, 1)],
{
    lemma_drawn_a();
    lemma_drawn_b();
    lemma_drawn_c();
    lemma_drawn_d();
    lemma_drawn_e();
    lemma_drawn_f();
    lemma_drawn_g();
    lemma_drawn_h();
    lemma_drawn_i();
    lemma_drawn_j();
    lemma_drawn_k();
    lemma_drawn_l();
    lemma_drawn_m();
    lemma_drawn_n();
    lemma_drawn_o();
    lemma_drawn_p();
    lemma_drawn_q();
    lemma_drawn_r();
    lemma_drawn_s();
    lemma_drawn_t();
    lemma_drawn_u();
    lemma_drawn_v();
    lemma_drawn_w();
    lemma_drawn_x();
    lemma_drawn_y();
    lemma_drawn_z();
    lemma_drawn_digit0();
    lemma_drawn_digit1();
    lemma_drawn_digit2();
    lemma_drawn_digit3();
    lemma_drawn_digit4();
    lemma_drawn_digit5();
    lemma_drawn_digit6();
    lemma_drawn_digit7();
    lemma_drawn_digit8();
    lemma_drawn_digit9();
    lemma_drawn_minus();
    lemma_drawn_plus();
    lemma_drawn_dot();
    lemma_drawn_colon();
    lemma_drawn_slash();
    lemma_drawn_percent();
}

/// Characters the font does not cover (lowercase letters are covered
/// through their uppercase) draw nothing: they only advance the pen.
pub proof fn lemma_uncovered_draw_nothing(c: char)
    requires
        !covered(ascii_upper(c)),
    ensures
        text_layout(seq![c]) == Seq::<GridSegment>::empty(),
{
    lemma_single_char(c);
    assert(glyph(ascii_upper(c)) == Seq::<Seq<(i8, i8)>>::empty());
}

} // verus!
