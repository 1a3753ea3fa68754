//! Laying a weight grid out as an image.

use crate::canvas::{blank, canvas_fits, fill_square, plain, put, Canvas, Color};
use crate::cells::{magnitude, Rows};
use crate::grid::Grid;
use vstd::prelude::*;

verus! {

/// Whether `min` and `max` are the least and the greatest cell among the
/// first `height` rows and `width` columns: each is reached by a cell and
/// passed by none. With no cell to look at, `min` is the greatest `i64`
/// and `max` the least.
pub open spec fn is_minmax(rows: Rows, height: nat, width: nat, min: i64, max: i64) -> bool {
    if height == 0 || width == 0 {
        min == i64::MAX && max == i64::MIN
    } else {
        &&& forall|r: int, c: int|
            0 <= r < height && 0 <= c < width ==> min <= #[trigger] rows[r][c] <= max
        &&& exists|r: int, c: int| 0 <= r < height && 0 <= c < width && #[trigger] rows[r][c] == min
        &&& exists|r: int, c: int| 0 <= r < height && 0 <= c < width && #[trigger] rows[r][c] == max
    }
}

/// The least and the greatest cell among the first `height` rows and
/// `width` columns of `weights`.
pub fn extremes(weights: &Grid, height: usize, width: usize) -> (minmax: (i64, i64))
    requires
        weights.wf(),
        height <= weights.rows(),
        width <= weights.columns(),
    ensures
        is_minmax(weights@, height as nat, width as nat, minmax.0, minmax.1),
{
    let mut min_value: i64 = i64::MAX;
    let mut max_value: i64 = i64::MIN;
    let ghost mut low: (int, int) = (0, 0);
    let ghost mut high: (int, int) = (0, 0);
    let mut y: usize = 0;
    while y < height
        invariant
            weights.wf(),
            height <= weights.rows(),
            width <= weights.columns(),
            y <= height,
            forall|r: int, c: int|
                0 <= r < y && 0 <= c < width ==> min_value <= #[trigger] weights@[r][c] <= max_value,
            y == 0 || width == 0 ==> min_value == i64::MAX && max_value == i64::MIN,
            y > 0 && width > 0 ==> 0 <= low.0 < y && 0 <= low.1 < width && weights@[low.0][low.1]
                == min_value,
            y > 0 && width > 0 ==> 0 <= high.0 < y && 0 <= high.1 < width
                && weights@[high.0][high.1] == max_value,
        decreases height - y,
    {
        let mut x: usize = 0;
        while x < width
            invariant
                weights.wf(),
                height <= weights.rows(),
                width <= weights.columns(),
                y < height,
                x <= width,
                forall|r: int, c: int|
                    0 <= r < y && 0 <= c < width ==> min_value <= #[trigger] weights@[r][c]
                        <= max_value,
                forall|c: int| 0 <= c < x ==> min_value <= #[trigger] weights@[y as int][c] <= max_value,
                (y == 0 || width == 0) && x == 0 ==> min_value == i64::MAX && max_value == i64::MIN,
                (y > 0 && width > 0) || x > 0 ==> 0 <= low.0 <= y && 0 <= low.1 < width
                    && weights@[low.0][low.1] == min_value,
                (y > 0 && width > 0) || x > 0 ==> 0 <= high.0 <= y && 0 <= high.1 < width
                    && weights@[high.0][high.1] == max_value,
            decreases width - x,
        {
            let val: i64 = weights.get(y, x);
            if val < min_value {
                min_value = val;
            }
            if val > max_value {
                max_value = val;
            }
            proof {
                if val == min_value {
                    low = (y as int, x as int);
                }
                if val == max_value {
                    high = (y as int, x as int);
                }
            }
            x = x + 1;
        }
        y = y + 1;
    }
    (min_value, max_value)
}

/// The least and the greatest weight of a layer of `layer_height` rows
/// and `layer_width` columns.
pub fn find_minmax(weights: &Grid, layer_height: u32, layer_width: u32) -> (minmax: (i64, i64))
    requires
        weights.wf(),
        layer_height <= weights.rows(),
        layer_width <= weights.columns(),
    ensures
        is_minmax(weights@, layer_height as nat, layer_width as nat, minmax.0, minmax.1),
{
    extremes(weights, layer_height as usize, layer_width as usize)
}

/// How far a weight lies from the least weight towards the greatest, as
/// a fraction that is not reduced.
#[derive(Clone, Copy, Debug, PartialEq, Eq, Structural)]
pub struct Fraction {
    pub numerator: u64,
    pub denominator: u64,
}

/// The fraction for `value` among weights from `min` to `max`: `value`
/// plus the magnitude of `min`, over `max` plus the magnitude of `min`.
/// It is never above one. The denominator is zero just where `min` and
/// `max` are the same and not positive; the numerator is then zero too.
pub fn blend_fraction(value: i64, min: i64, max: i64) -> (fraction: Fraction)
    requires
        min <= value <= max,
    ensures
        fraction.numerator == value + magnitude(min as int),
        fraction.denominator == max + magnitude(min as int),
        fraction.numerator <= fraction.denominator,
        fraction.denominator == 0 <==> min == max && max <= 0,
{
    let floor: i128 = if min < 0 {
        -(min as i128)
    } else {
        min as i128
    };
    let numerator: i128 = value as i128 + floor;
    let denominator: i128 = max as i128 + floor;
    Fraction { numerator: numerator as u64, denominator: denominator as u64 }
}

/// Whether `fractions` holds, row by row, the fraction of each weight of
/// the first `height` rows and `width` columns between `min` and `max`.
pub open spec fn fractions_of(
    fractions: Seq<Vec<Fraction>>,
    rows: Rows,
    height: nat,
    width: nat,
    min: i64,
    max: i64,
) -> bool {
    &&& fractions.len() == height
    &&& forall|r: int| 0 <= r < height ==> (#[trigger] fractions[r])@.len() == width
    &&& forall|r: int, c: int|
        0 <= r < height && 0 <= c < width ==> {
            &&& (#[trigger] fractions[r]@[c]).numerator == rows[r][c] + magnitude(min as int)
            &&& fractions[r]@[c].denominator == max + magnitude(min as int)
            &&& fractions[r]@[c].numerator <= fractions[r]@[c].denominator
        }
}

/// The fraction of each weight of a layer between the least and the
/// greatest weight of that layer, row by row.
pub fn fractions(weights: &Grid, layer_height: u32, layer_width: u32) -> (table: Vec<Vec<Fraction>>)
    requires
        weights.wf(),
        layer_height <= weights.rows(),
        layer_width <= weights.columns(),
    ensures
        exists|min: i64, max: i64|
            is_minmax(weights@, layer_height as nat, layer_width as nat, min, max) && fractions_of(
                table@,
                weights@,
                layer_height as nat,
                layer_width as nat,
                min,
                max,
            ),
{
    let minmax: (i64, i64) = find_minmax(weights, layer_height, layer_width);
    let min: i64 = minmax.0;
    let max: i64 = minmax.1;
    let mut table: Vec<Vec<Fraction>> = Vec::new();
    let mut y: u32 = 0;
    while y < layer_height
        invariant
            weights.wf(),
            layer_height <= weights.rows(),
            layer_width <= weights.columns(),
            y <= layer_height,
            is_minmax(weights@, layer_height as nat, layer_width as nat, min, max),
            fractions_of(table@, weights@, y as nat, layer_width as nat, min, max),
        decreases layer_height - y,
    {
        let mut row: Vec<Fraction> = Vec::new();
        let mut x: u32 = 0;
        while x < layer_width
            invariant
                weights.wf(),
                layer_height <= weights.rows(),
                layer_width <= weights.columns(),
                y < layer_height,
                x <= layer_width,
                is_minmax(weights@, layer_height as nat, layer_width as nat, min, max),
                row@.len() == x,
                forall|c: int|
                    0 <= c < x ==> {
                        &&& (#[trigger] row@[c]).numerator == weights@[y as int][c] + magnitude(
                            min as int,
                        )
                        &&& row@[c].denominator == max + magnitude(min as int)
                        &&& row@[c].numerator <= row@[c].denominator
                    },
            decreases layer_width - x,
        {
            let value: i64 = weights.get(y as usize, x as usize);
            assert(min <= weights@[y as int][x as int] <= max);
            row.push(blend_fraction(value, min, max));
            x = x + 1;
        }
        table.push(row);
        y = y + 1;
    }
    table
}

/// Cell `k` of a row or column of cells of `scale` pixels holds just the
/// pixels from `k * scale` up to `k * scale + scale`.
pub proof fn lemma_cell_of_pixel(p: int, k: int, scale: int)
    requires
        scale > 0,
        p >= 0,
        k >= 0,
    ensures
        p / scale == k <==> k * scale <= p < k * scale + scale,
{
    assert(p / scale == k <==> k * scale <= p < k * scale + scale) by (nonlinear_arith)
        requires
            scale > 0,
            p >= 0,
            k >= 0,
    ;
}

/// Whether `pixels` shows the cells at or before row `y`, column `x` of
/// `colors`, each as a square of `scale` pixels: the rows above `y` in
/// full, and of row `y` the cells left of `x`.
pub open spec fn shows(pixels: Seq<Seq<Color>>, colors: Seq<Vec<Color>>, scale: nat, y: int, x: int) -> bool {
    forall|py: int, px: int|
        0 <= py < pixels.len() && 0 <= px < pixels[py].len() && (py / (scale as int) < y || (py / (
        scale as int) == y && px / (scale as int) < x)) ==> #[trigger] pixels[py][px]
            == colors[py / (scale as int)]@[px / (scale as int)]
}

/// The image of a table of colours, each cell a square of `scale` by
/// `scale` pixels.
pub fn paint(colors: &Vec<Vec<Color>>, layer_height: u32, layer_width: u32, scale: u32) -> (canvas:
    Canvas)
    requires
        colors@.len() == layer_height,
        forall|r: int| 0 <= r < layer_height ==> (#[trigger] colors@[r])@.len() == layer_width,
        scale >= 1,
        layer_width * scale <= i32::MAX,
        layer_height * scale <= i32::MAX,
        3 * (layer_width * scale) * (layer_height * scale) <= isize::MAX,
    ensures
        canvas.wf(),
        canvas.columns() == layer_width * scale,
        canvas.rows() == layer_height * scale,
        forall|py: int, px: int|
            0 <= py < layer_height * scale && 0 <= px < layer_width * scale ==> #[trigger] canvas@[py][px]
                == colors@[py / (scale as int)]@[px / (scale as int)],
{
    let width: u32 = layer_width * scale;
    let height: u32 = layer_height * scale;
    let mut canvas: Canvas = blank(width, height);
    let mut y: u32 = 0;
    while y < layer_height
        invariant
            colors@.len() == layer_height,
            forall|r: int| 0 <= r < layer_height ==> (#[trigger] colors@[r])@.len() == layer_width,
            scale >= 1,
            width == layer_width * scale,
            height == layer_height * scale,
            width <= i32::MAX,
            height <= i32::MAX,
            y <= layer_height,
            canvas.wf(),
            canvas.columns() == width,
            canvas.rows() == height,
            shows(canvas@, colors@, scale as nat, y as int, 0),
        decreases layer_height - y,
    {
        let mut x: u32 = 0;
        while x < layer_width
            invariant
                colors@.len() == layer_height,
                forall|r: int|
                    0 <= r < layer_height ==> (#[trigger] colors@[r])@.len() == layer_width,
                scale >= 1,
                width == layer_width * scale,
                height == layer_height * scale,
                width <= i32::MAX,
                height <= i32::MAX,
                y < layer_height,
                x <= layer_width,
                canvas.wf(),
                canvas.columns() == width,
                canvas.rows() == height,
                shows(canvas@, colors@, scale as nat, y as int, x as int),
            decreases layer_width - x,
        {
            let color: Color = colors[y as usize][x as usize];
            proof {
                assert(x * scale + scale <= layer_width * scale) by (nonlinear_arith)
                    requires
                        x < layer_width,
                ;
                assert(y * scale + scale <= layer_height * scale) by (nonlinear_arith)
                    requires
                        y < layer_height,
                ;
            }
            let ghost before = canvas@;
            if scale == 1 {
                put(&mut canvas, x, y, color);
            } else {
                fill_square(&mut canvas, (x * scale) as i32, (y * scale) as i32, scale, color);
            }
            proof {
                let s = scale as int;
                assert forall|py: int, px: int|
                    0 <= py < canvas@.len() && 0 <= px < canvas@[py].len() && (py / s < y || (py / s
                        == y && px / s < x + 1)) implies #[trigger] canvas@[py][px] == colors@[py
                    / s]@[px / s] by {
                    lemma_cell_of_pixel(py, y as int, s);
                    lemma_cell_of_pixel(px, x as int, s);
                    if py / s == y && px / s == x {
                        assert(canvas@[py][px] == color);
                    } else {
                        assert(canvas@[py][px] == before[py][px]);
                    }
                }
            }
            x = x + 1;
        }
        proof {
            let s = scale as int;
            assert forall|py: int, px: int|
                0 <= py < canvas@.len() && 0 <= px < canvas@[py].len() && (py / s < y + 1 || (py / s
                    == y + 1 && px / s < 0)) implies #[trigger] canvas@[py][px] == colors@[py / s]@[px
                / s] by {
                lemma_cell_of_pixel(px, px / s, s);
                assert(px / s < layer_width) by (nonlinear_arith)
                    requires
                        0 <= px < layer_width * s,
                        s > 0,
                        (px / s) * s <= px,
                ;
            }
        }
        y = y + 1;
    }
    proof {
        let s = scale as int;
        assert forall|py: int, px: int|
            0 <= py < layer_height * scale && 0 <= px < layer_width * scale implies #[trigger] canvas@[py][px]
            == colors@[py / s]@[px / s] by {
            lemma_cell_of_pixel(py, py / s, s);
            assert(py / s < layer_height) by (nonlinear_arith)
                requires
                    0 <= py < layer_height * s,
                    s > 0,
                    (py / s) * s <= py,
            ;
        }
    }
    canvas
}

/// Where a label goes and how large it is drawn.
#[derive(Clone, Copy, Debug, PartialEq, Eq, Structural)]
pub struct LabelLayout {
    /// Column of the left edge of the text.
    pub x: i32,
    /// Row of the top edge of the text; above the image where the layer
    /// has fewer than eight rows.
    pub y: i32,
    /// Height of the text in pixels.
    pub size: u32,
}

/// The place of the label of an image: eight cells high, at the left of
/// the bottom edge.
pub fn label_layout(layer_height: u32, scale: u32) -> (layout: LabelLayout)
    requires
        layer_height * scale <= i32::MAX,
        8 * scale <= i32::MAX,
    ensures
        layout.x == 0,
        layout.y == layer_height * scale - 8 * scale,
        layout.size == 8 * scale,
{
    let bottom: i32 = (layer_height * scale) as i32;
    let size: u32 = 8 * scale;
    LabelLayout { x: 0, y: bottom - size as i32, size }
}

} // verus!
