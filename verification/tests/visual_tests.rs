use perceptron::canvas::Color;
use perceptron::grid::Grid;
use perceptron::visual::{
    blend_fraction, extremes, find_minmax, fractions, label_layout, paint, Fraction, LabelLayout,
};

fn grid_of(rows: &[&[i64]]) -> Grid {
    let mut grid = Grid::zeros(rows.len(), rows[0].len());
    for (r, row) in rows.iter().enumerate() {
        for (c, value) in row.iter().enumerate() {
            grid.set(r, c, *value);
        }
    }
    grid
}

#[test]
fn minmax_of_a_layer() {
    let weights = grid_of(&[&[3, -4, 0], &[9, 2, -1]]);
    assert_eq!(find_minmax(&weights, 2, 3), (-4, 9));
    assert_eq!(find_minmax(&weights, 1, 3), (-4, 3));
    assert_eq!(find_minmax(&weights, 2, 1), (3, 9));
    assert_eq!(extremes(&weights, 2, 2), (-4, 9));
}

#[test]
fn minmax_of_nothing() {
    let weights = grid_of(&[&[3, -4, 0], &[9, 2, -1]]);
    assert_eq!(find_minmax(&weights, 0, 3), (i64::MAX, i64::MIN));
    assert_eq!(find_minmax(&weights, 2, 0), (i64::MAX, i64::MIN));
}

#[test]
fn minmax_of_equal_weights() {
    let weights = Grid::zeros(4, 4);
    assert_eq!(find_minmax(&weights, 4, 4), (0, 0));
    let high = grid_of(&[&[i64::MAX, i64::MAX]]);
    assert_eq!(find_minmax(&high, 1, 2), (i64::MAX, i64::MAX));
    let low = grid_of(&[&[i64::MIN, i64::MIN]]);
    assert_eq!(find_minmax(&low, 1, 2), (i64::MIN, i64::MIN));
}

#[test]
fn fraction_between_the_extremes() {
    assert_eq!(blend_fraction(3, -2, 6), Fraction { numerator: 5, denominator: 8 });
    assert_eq!(blend_fraction(-2, -2, 6), Fraction { numerator: 0, denominator: 8 });
    assert_eq!(blend_fraction(6, -2, 6), Fraction { numerator: 8, denominator: 8 });
}

#[test]
fn fraction_above_a_positive_minimum() {
    assert_eq!(blend_fraction(4, 2, 6), Fraction { numerator: 6, denominator: 8 });
    assert_eq!(blend_fraction(2, 2, 6), Fraction { numerator: 4, denominator: 8 });
}

#[test]
fn fraction_of_equal_weights() {
    assert_eq!(blend_fraction(0, 0, 0), Fraction { numerator: 0, denominator: 0 });
    assert_eq!(blend_fraction(-3, -3, -3), Fraction { numerator: 0, denominator: 0 });
    assert_eq!(blend_fraction(3, 3, 3), Fraction { numerator: 6, denominator: 6 });
}

#[test]
fn fraction_at_the_ends_of_the_range() {
    assert_eq!(
        blend_fraction(i64::MAX, i64::MIN, i64::MAX),
        Fraction { numerator: u64::MAX, denominator: u64::MAX }
    );
    assert_eq!(
        blend_fraction(i64::MIN, i64::MIN, i64::MAX),
        Fraction { numerator: 0, denominator: u64::MAX }
    );
}

#[test]
fn fractions_of_a_layer() {
    let weights = grid_of(&[&[3, -4, 0], &[9, 2, -1]]);
    let table = fractions(&weights, 2, 3);
    let f = |n: u64| Fraction { numerator: n, denominator: 13 };
    assert_eq!(table, vec![vec![f(7), f(0), f(4)], vec![f(13), f(6), f(3)]]);
    let part = fractions(&weights, 1, 2);
    let g = |n: u64| Fraction { numerator: n, denominator: 7 };
    assert_eq!(part, vec![vec![g(7), g(0)]]);
    assert!(fractions(&weights, 0, 3).is_empty());
}

fn colors() -> Vec<Vec<Color>> {
    vec![
        vec![(255, 0, 0), (0, 255, 0), (0, 0, 255)],
        vec![(1, 2, 3), (4, 5, 6), (7, 8, 9)],
    ]
}

#[test]
fn paint_one_pixel_a_cell() {
    let canvas = paint(&colors(), 2, 3, 1);
    assert_eq!(canvas.width(), 3);
    assert_eq!(canvas.height(), 2);
    for y in 0..2u32 {
        for x in 0..3u32 {
            assert_eq!(canvas.pixel(x, y), colors()[y as usize][x as usize]);
        }
    }
}

#[test]
fn paint_a_square_a_cell() {
    let canvas = paint(&colors(), 2, 3, 4);
    assert_eq!(canvas.width(), 12);
    assert_eq!(canvas.height(), 8);
    for y in 0..8u32 {
        for x in 0..12u32 {
            assert_eq!(canvas.pixel(x, y), colors()[(y / 4) as usize][(x / 4) as usize]);
        }
    }
}

#[test]
fn paint_nothing() {
    let canvas = paint(&Vec::new(), 0, 5, 3);
    assert_eq!(canvas.width(), 15);
    assert_eq!(canvas.height(), 0);
    assert!(canvas.into_raw().is_empty());
}

#[test]
fn raw_bytes_run_row_by_row() {
    let canvas = paint(&colors(), 2, 3, 1);
    assert_eq!(
        canvas.into_raw(),
        vec![255, 0, 0, 0, 255, 0, 0, 0, 255, 1, 2, 3, 4, 5, 6, 7, 8, 9]
    );
    let canvas = paint(&colors(), 2, 3, 2);
    let bytes = canvas.into_raw();
    assert_eq!(bytes.len(), 3 * 6 * 4);
    assert_eq!(&bytes[0..9], &[255, 0, 0, 255, 0, 0, 0, 255, 0]);
    assert_eq!(&bytes[18..27], &[255, 0, 0, 255, 0, 0, 0, 255, 0]);
    assert_eq!(&bytes[36..45], &[1, 2, 3, 1, 2, 3, 4, 5, 6]);
}

#[test]
fn label_sits_at_the_bottom_left() {
    assert_eq!(label_layout(64, 32), LabelLayout { x: 0, y: 64 * 32 - 256, size: 256 });
    assert_eq!(label_layout(8, 1), LabelLayout { x: 0, y: 0, size: 8 });
    assert_eq!(label_layout(4, 2), LabelLayout { x: 0, y: -8, size: 16 });
}
