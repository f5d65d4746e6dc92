use raster3d::fixed::FX_ONE;
use raster3d::polygons::Tri;
use raster3d::raster::{bresenham_line, scanline_fill, Span};

const FX: i64 = FX_ONE;

#[test]
fn test_bresenham_horizontal() {
    let line = bresenham_line(0, 0, 4, 0);
    assert_eq!(line, vec![(0, 0), (1, 0), (2, 0), (3, 0), (4, 0)]);
}

#[test]
fn test_bresenham_vertical() {
    let line = bresenham_line(0, 0, 0, 4);
    assert_eq!(line, vec![(0, 0), (0, 1), (0, 2), (0, 3), (0, 4)]);
}

#[test]
fn test_bresenham_diagonal() {
    let line = bresenham_line(0, 0, 4, 4);
    assert_eq!(line, vec![(0, 0), (1, 1), (2, 2), (3, 3), (4, 4)]);
}

#[test]
fn test_bresenham_staircase() {
    // Shallow slope: the error rule steps y on every other column.
    let line = bresenham_line(0, 0, 4, 2);
    assert_eq!(line, vec![(0, 0), (1, 0), (2, 1), (3, 1), (4, 2)]);
}

#[test]
fn test_bresenham_reverse_octant() {
    let line = bresenham_line(4, 2, 0, 0);
    assert_eq!(line.first(), Some(&(4, 2)));
    assert_eq!(line.last(), Some(&(0, 0)));
    assert_eq!(line.len(), 5);
}

#[test]
fn test_bresenham_single_point() {
    assert_eq!(bresenham_line(3, -7, 3, -7), vec![(3, -7)]);
}

#[test]
fn test_scanline_fill_rows() {
    // Rows 0..=2 populated, with known extremes per row.
    let outline = vec![(0, 0), (4, 0), (1, 1), (3, 1), (2, 2), (2, 0)];
    let spans = scanline_fill(&outline);
    assert_eq!(
        spans,
        vec![
            Span { y: 0, x0: 0, x1: 4 },
            Span { y: 1, x0: 1, x1: 3 },
            Span { y: 2, x0: 2, x1: 2 },
        ]
    );
}

#[test]
fn test_scanline_fill_skips_empty_rows() {
    // Nothing on rows 1 and 2: no span is drawn for them.
    let outline = vec![(0, 0), (5, 0), (0, 3), (5, 3)];
    let spans = scanline_fill(&outline);
    assert_eq!(
        spans,
        vec![Span { y: 0, x0: 0, x1: 5 }, Span { y: 3, x0: 0, x1: 5 }]
    );
}

#[test]
fn test_scanline_fill_empty() {
    assert_eq!(scanline_fill(&Vec::new()), Vec::new());
}

#[test]
fn test_draw_outline_edges() {
    // A screen-space right triangle: its outline is the three traced edges.
    let t = Tri::from_coords(0, 0, 0, 4 * FX, 0, 0, 0, 4 * FX, 0);
    let pixels = t.draw_outline();
    let mut expected = bresenham_line(0, 0, 4, 0);
    expected.extend(bresenham_line(4, 0, 0, 4));
    expected.extend(bresenham_line(0, 4, 0, 0));
    assert_eq!(pixels, expected);
}

#[test]
fn test_draw_fills_triangle() {
    let t = Tri::from_coords(0, 0, 0, 4 * FX, 0, 0, 0, 4 * FX, 0);
    let spans = t.draw();
    // One span per row 0..=4, each starting at x = 0 on the left edge.
    assert_eq!(spans.len(), 5);
    for (i, span) in spans.iter().enumerate() {
        assert_eq!(span.y, i as i32);
        assert_eq!(span.x0, 0);
    }
    assert_eq!(spans[0].x1, 4);
    assert_eq!(spans[4].x1, 0);
}

#[test]
fn test_draw_truncates_fixed_coordinates() {
    // Coordinates with fractional parts land on the truncated pixel.
    let t = Tri::from_coords(FX / 2, FX / 2, 0, 2 * FX + 100, 0, 0, 0, 2 * FX + 1, 0);
    let pixels = t.draw_outline();
    assert_eq!(pixels[0], (0, 0));
    assert!(pixels.contains(&(2, 0)));
    assert!(pixels.contains(&(0, 2)));
}
