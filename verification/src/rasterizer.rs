//! Shapes placed by a stream of draws, and their rasters.

use crate::cells::{
    binary, lemma_span_sum_interval, lemma_table_sum_band, rectangular, row_of, span_sum, total, Rows,
};
use crate::grid::{grid_fits, lemma_raster_binary, raster, Grid};
use crate::shapes::{law_triangle_within_box, Shape, COORDINATE_LIMIT};
use crate::stream::{draw_rest, draw_value, seeded_state, Stream};
use vstd::prelude::*;

verus! {

/// The kinds of shape that can be drawn.
#[derive(Clone, Copy, Debug, PartialEq, Eq, Structural)]
pub enum ShapeKind {
    Rect,
    Circle,
    Triangle,
}

/// Why no shape was made.
#[derive(Clone, Copy, Debug, PartialEq, Eq, Structural)]
pub enum ShapeError {
    /// The name is that of no kind of shape.
    UnknownShapeKind,
}

/// The kind that a name stands for, if any.
pub open spec fn kind_named(name: Seq<char>) -> Option<ShapeKind> {
    if name == "RECT"@ {
        Some(ShapeKind::Rect)
    } else if name == "CIRCLE"@ {
        Some(ShapeKind::Circle)
    } else if name == "TRIANGLE"@ {
        Some(ShapeKind::Triangle)
    } else {
        None
    }
}

impl ShapeKind {
    /// The kind called `name`: `RECT`, `CIRCLE` or `TRIANGLE`.
    pub fn from_name(name: &str) -> (kind: Option<ShapeKind>)
        ensures
            kind == kind_named(name@),
    {
        let given: String = name.to_owned();
        if given == "RECT".to_owned() {
            Some(ShapeKind::Rect)
        } else if given == "CIRCLE".to_owned() {
            Some(ShapeKind::Circle)
        } else if given == "TRIANGLE".to_owned() {
            Some(ShapeKind::Triangle)
        } else {
            None
        }
    }

    /// Whether a raster of this size leaves every draw for this kind a
    /// number to pick.
    pub open spec fn fits(self, max_width: usize, max_height: usize) -> bool {
        match self {
            ShapeKind::Rect => max_width >= 3 && max_height >= 3,
            ShapeKind::Circle => max_width >= 2 && max_height >= 1,
            ShapeKind::Triangle => max_width >= 5 && max_height >= 5,
        }
    }

    /// Computes `fits`.
    pub fn can_fit(self, max_width: usize, max_height: usize) -> (fits: bool)
        ensures
            fits == self.fits(max_width, max_height),
    {
        match self {
            ShapeKind::Rect => max_width >= 3 && max_height >= 3,
            ShapeKind::Circle => max_width >= 2 && max_height >= 1,
            ShapeKind::Triangle => max_width >= 5 && max_height >= 5,
        }
    }
}

/// The rectangle that a stream in `state` places, and the state it is
/// left in: width, height, column and row are drawn in that order.
pub open spec fn rect_drawn(state: Seq<u8>, max_width: usize, max_height: usize) -> (Shape, Seq<u8>) {
    let width = draw_value(state, 1, (max_width - 1) as usize);
    let s1 = draw_rest(state, 1, (max_width - 1) as usize);
    let height = draw_value(s1, 1, (max_height - 1) as usize);
    let s2 = draw_rest(s1, 1, (max_height - 1) as usize);
    let x = draw_value(s2, 0, (max_width - width) as usize);
    let s3 = draw_rest(s2, 0, (max_width - width) as usize);
    let y = draw_value(s3, 0, (max_height - height) as usize);
    let s4 = draw_rest(s3, 0, (max_height - height) as usize);
    (Shape::Rect { x, y, width, height }, s4)
}

/// The circle that a stream in `state` places, and the state it is left
/// in: radius, column and row are drawn in that order.
pub open spec fn circle_drawn(state: Seq<u8>, max_width: usize, max_height: usize) -> (Shape, Seq<u8>) {
    let radius = draw_value(state, 1, max_width);
    let s1 = draw_rest(state, 1, max_width);
    let x = draw_value(s1, 0, max_width);
    let s2 = draw_rest(s1, 0, max_width);
    let y = draw_value(s2, 0, max_height);
    let s3 = draw_rest(s2, 0, max_height);
    (Shape::Circle { x, y, radius }, s3)
}

/// The triangle that a stream in `state` places, and the state it is left
/// in: width, height, column and row are drawn in that order.
pub open spec fn triangle_drawn(state: Seq<u8>, max_width: usize, max_height: usize) -> (
    Shape,
    Seq<u8>,
) {
    let width = draw_value(state, 4, max_width);
    let s1 = draw_rest(state, 4, max_width);
    let height = draw_value(s1, 4, max_height);
    let s2 = draw_rest(s1, 4, max_height);
    let x = draw_value(s2, 0, (max_width - width) as usize);
    let s3 = draw_rest(s2, 0, (max_width - width) as usize);
    let y = draw_value(s3, 0, (max_height - height) as usize);
    let s4 = draw_rest(s3, 0, (max_height - height) as usize);
    (Shape::Triangle { x, y, width, height }, s4)
}

/// The shape of `kind` that a stream in `state` places, and the state it
/// is left in.
pub open spec fn shape_drawn(kind: ShapeKind, state: Seq<u8>, max_width: usize, max_height: usize) -> (
    Shape,
    Seq<u8>,
) {
    match kind {
        ShapeKind::Rect => rect_drawn(state, max_width, max_height),
        ShapeKind::Circle => circle_drawn(state, max_width, max_height),
        ShapeKind::Triangle => triangle_drawn(state, max_width, max_height),
    }
}

/// The raster of that shape.
pub open spec fn sample_drawn(kind: ShapeKind, state: Seq<u8>, max_width: usize, max_height: usize) -> Rows {
    raster(shape_drawn(kind, state, max_width, max_height).0, max_height as nat, max_width as nat)
}

/// Whether `shape` is one that the draws for its kind can give on a raster
/// of this size: sizes within their ranges and, but for a circle, the
/// whole shape on the raster.
pub open spec fn placed(shape: Shape, max_width: usize, max_height: usize) -> bool {
    match shape {
        Shape::Rect { x, y, width, height } => {
            &&& 1 <= width <= max_width - 2
            &&& 1 <= height <= max_height - 2
            &&& x + width < max_width
            &&& y + height < max_height
        },
        Shape::Circle { x, y, radius } => {
            &&& 1 <= radius <= max_width - 1
            &&& x < max_width
            &&& y < max_height
        },
        Shape::Triangle { x, y, width, height } => {
            &&& 4 <= width <= max_width - 1
            &&& 4 <= height <= max_height - 1
            &&& x + width < max_width
            &&& y + height < max_height
        },
    }
}

/// The kind of a shape.
pub open spec fn kind_of(shape: Shape) -> ShapeKind {
    match shape {
        Shape::Rect { .. } => ShapeKind::Rect,
        Shape::Circle { .. } => ShapeKind::Circle,
        Shape::Triangle { .. } => ShapeKind::Triangle,
    }
}

/// Draws a rectangle: width in `1..max_width - 1`, height in
/// `1..max_height - 1`, then column and row so that it lies on the raster.
pub fn random_rect(stream: &mut Stream, max_width: usize, max_height: usize) -> (shape: Shape)
    requires
        max_width >= 3,
        max_height >= 3,
    ensures
        shape == rect_drawn(old(stream)@, max_width, max_height).0,
        final(stream)@ == rect_drawn(old(stream)@, max_width, max_height).1,
        shape is Rect,
        placed(shape, max_width, max_height),
{
    let width: usize = stream.next_uniform_int(1, max_width - 1);
    let height: usize = stream.next_uniform_int(1, max_height - 1);
    let x: usize = stream.next_uniform_int(0, max_width - width);
    let y: usize = stream.next_uniform_int(0, max_height - height);
    Shape::Rect { x, y, width, height }
}

/// Draws a circle: radius in `1..max_width`, then the column and the row
/// of its centre anywhere on the raster.
pub fn random_circle(stream: &mut Stream, max_width: usize, max_height: usize) -> (shape: Shape)
    requires
        max_width >= 2,
        max_height >= 1,
    ensures
        shape == circle_drawn(old(stream)@, max_width, max_height).0,
        final(stream)@ == circle_drawn(old(stream)@, max_width, max_height).1,
        shape is Circle,
        placed(shape, max_width, max_height),
{
    let radius: usize = stream.next_uniform_int(1, max_width);
    let x: usize = stream.next_uniform_int(0, max_width);
    let y: usize = stream.next_uniform_int(0, max_height);
    Shape::Circle { x, y, radius }
}

/// Draws a triangle: width in `4..max_width`, height in `4..max_height`,
/// then column and row so that it lies on the raster.
pub fn random_triangle(stream: &mut Stream, max_width: usize, max_height: usize) -> (shape: Shape)
    requires
        max_width >= 5,
        max_height >= 5,
    ensures
        shape == triangle_drawn(old(stream)@, max_width, max_height).0,
        final(stream)@ == triangle_drawn(old(stream)@, max_width, max_height).1,
        shape is Triangle,
        placed(shape, max_width, max_height),
{
    let width: usize = stream.next_uniform_int(4, max_width);
    let height: usize = stream.next_uniform_int(4, max_height);
    let x: usize = stream.next_uniform_int(0, max_width - width);
    let y: usize = stream.next_uniform_int(0, max_height - height);
    Shape::Triangle { x, y, width, height }
}

/// Draws a shape of `kind`.
pub fn random_shape(kind: ShapeKind, stream: &mut Stream, max_width: usize, max_height: usize) -> (shape:
    Shape)
    requires
        kind.fits(max_width, max_height),
    ensures
        shape == shape_drawn(kind, old(stream)@, max_width, max_height).0,
        final(stream)@ == shape_drawn(kind, old(stream)@, max_width, max_height).1,
        kind_of(shape) == kind,
        placed(shape, max_width, max_height),
{
    match kind {
        ShapeKind::Rect => random_rect(stream, max_width, max_height),
        ShapeKind::Circle => random_circle(stream, max_width, max_height),
        ShapeKind::Triangle => random_triangle(stream, max_width, max_height),
    }
}

/// A shape that lies on a raster that can be allocated is within the
/// coordinate limit.
pub proof fn lemma_placed_in_limit(shape: Shape, max_width: usize, max_height: usize)
    requires
        placed(shape, max_width, max_height),
        grid_fits(max_height, max_width),
    ensures
        shape.in_limit(),
        max_width <= COORDINATE_LIMIT,
        max_height <= COORDINATE_LIMIT,
{
    assert(max_width * 8 <= max_height * max_width * 8) by (nonlinear_arith)
        requires
            max_height >= 1,
    ;
    assert(max_height * 8 <= max_height * max_width * 8) by (nonlinear_arith)
        requires
            max_width >= 1,
    ;
    assert(isize::MAX <= 0x7fff_ffff_ffff_ffff);
}

/// Draws a shape of `kind` and rasterizes it.
pub fn sample(kind: ShapeKind, stream: &mut Stream, max_width: usize, max_height: usize) -> (grid: Grid)
    requires
        kind.fits(max_width, max_height),
        grid_fits(max_height, max_width),
    ensures
        grid.wf(),
        grid.columns() == max_width,
        grid@ == sample_drawn(kind, old(stream)@, max_width, max_height),
        final(stream)@ == shape_drawn(kind, old(stream)@, max_width, max_height).1,
        placed(shape_drawn(kind, old(stream)@, max_width, max_height).0, max_width, max_height),
{
    let shape: Shape = random_shape(kind, stream, max_width, max_height);
    proof {
        lemma_placed_in_limit(shape, max_width, max_height);
    }
    Grid::rasterize(&shape, max_width, max_height)
}

/// The raster of a rectangle placed by the stream.
pub fn make_random_rect(stream: &mut Stream, max_width: usize, max_height: usize) -> (grid: Grid)
    requires
        max_width >= 3,
        max_height >= 3,
        grid_fits(max_height, max_width),
    ensures
        grid.wf(),
        grid.columns() == max_width,
        grid@ == raster(
            rect_drawn(old(stream)@, max_width, max_height).0,
            max_height as nat,
            max_width as nat,
        ),
        final(stream)@ == rect_drawn(old(stream)@, max_width, max_height).1,
        placed(rect_drawn(old(stream)@, max_width, max_height).0, max_width, max_height),
{
    sample(ShapeKind::Rect, stream, max_width, max_height)
}

/// The raster of a triangle placed by the stream.
pub fn make_random_triangle(stream: &mut Stream, max_width: usize, max_height: usize) -> (grid: Grid)
    requires
        max_width >= 5,
        max_height >= 5,
        grid_fits(max_height, max_width),
    ensures
        grid.wf(),
        grid.columns() == max_width,
        grid@ == raster(
            triangle_drawn(old(stream)@, max_width, max_height).0,
            max_height as nat,
            max_width as nat,
        ),
        final(stream)@ == triangle_drawn(old(stream)@, max_width, max_height).1,
        placed(triangle_drawn(old(stream)@, max_width, max_height).0, max_width, max_height),
{
    sample(ShapeKind::Triangle, stream, max_width, max_height)
}

/// The raster of a circle placed by the stream.
pub fn make_random_circle(stream: &mut Stream, max_width: usize, max_height: usize) -> (grid: Grid)
    requires
        max_width >= 2,
        max_height >= 1,
        grid_fits(max_height, max_width),
    ensures
        grid.wf(),
        grid.columns() == max_width,
        grid@ == raster(
            circle_drawn(old(stream)@, max_width, max_height).0,
            max_height as nat,
            max_width as nat,
        ),
        final(stream)@ == circle_drawn(old(stream)@, max_width, max_height).1,
        placed(circle_drawn(old(stream)@, max_width, max_height).0, max_width, max_height),
{
    sample(ShapeKind::Circle, stream, max_width, max_height)
}

/// The raster of a shape of the kind called `name`, or an error where the
/// name is that of no kind; the stream is then left as it was.
pub fn make_shape(name: &str, stream: &mut Stream, max_width: usize, max_height: usize) -> (made: Result<
    Grid,
    ShapeError,
>)
    requires
        grid_fits(max_height, max_width),
        kind_named(name@) matches Some(kind) ==> kind.fits(max_width, max_height),
    ensures
        match kind_named(name@) {
            Some(kind) => {
                &&& made matches Ok(grid)
                &&& grid.wf()
                &&& grid.columns() == max_width
                &&& grid@ == sample_drawn(kind, old(stream)@, max_width, max_height)
                &&& final(stream)@ == shape_drawn(kind, old(stream)@, max_width, max_height).1
                &&& placed(
                    shape_drawn(kind, old(stream)@, max_width, max_height).0,
                    max_width,
                    max_height,
                )
            },
            None => made == Err::<Grid, ShapeError>(ShapeError::UnknownShapeKind) && final(stream)@ == old(
                stream,
            )@,
        },
{
    match ShapeKind::from_name(name) {
        Some(kind) => Ok(sample(kind, stream, max_width, max_height)),
        None => Err(ShapeError::UnknownShapeKind),
    }
}

/// The state of a stream after it placed `count` shapes of `kind`.
pub open spec fn state_after_shapes(
    kind: ShapeKind,
    state: Seq<u8>,
    max_width: usize,
    max_height: usize,
    count: nat,
) -> Seq<u8>
    decreases count,
{
    if count == 0 {
        state
    } else {
        shape_drawn(
            kind,
            state_after_shapes(kind, state, max_width, max_height, (count - 1) as nat),
            max_width,
            max_height,
        ).1
    }
}

/// Whether `grids` holds the rasters of the first shapes of `kind` that a
/// stream places from `state`, in order.
pub open spec fn samples_of(
    grids: Seq<Grid>,
    kind: ShapeKind,
    state: Seq<u8>,
    max_width: usize,
    max_height: usize,
) -> bool {
    forall|i: int|
        0 <= i < grids.len() ==> {
            &&& (#[trigger] grids[i]).wf()
            &&& grids[i].columns() == max_width
            &&& grids[i]@ == sample_drawn(
                kind,
                state_after_shapes(kind, state, max_width, max_height, i as nat),
                max_width,
                max_height,
            )
        }
}

/// The rasters of the first `count` shapes of the kind called `shape`
/// that a stream places from `seed`, or an error where the name is that
/// of no kind.
pub fn create_sample_images(
    shape: &str,
    seed: u64,
    count: usize,
    max_width: usize,
    max_height: usize,
) -> (made: Result<Vec<Grid>, ShapeError>)
    requires
        grid_fits(max_height, max_width),
        kind_named(shape@) matches Some(kind) ==> kind.fits(max_width, max_height),
    ensures
        match kind_named(shape@) {
            Some(kind) => {
                &&& made matches Ok(grids)
                &&& grids@.len() == count
                &&& samples_of(grids@, kind, seeded_state(seed), max_width, max_height)
            },
            None => made matches Err(ShapeError::UnknownShapeKind),
        },
{
    match ShapeKind::from_name(shape) {
        Some(kind) => {
            let mut stream: Stream = Stream::new(seed);
            let mut grids: Vec<Grid> = Vec::new();
            let mut made: usize = 0;
            while made < count
                invariant
                    grid_fits(max_height, max_width),
                    kind.fits(max_width, max_height),
                    made <= count,
                    grids@.len() == made,
                    stream@ == state_after_shapes(
                        kind,
                        seeded_state(seed),
                        max_width,
                        max_height,
                        made as nat,
                    ),
                    samples_of(grids@, kind, seeded_state(seed), max_width, max_height),
                decreases count - made,
            {
                let grid: Grid = sample(kind, &mut stream, max_width, max_height);
                grids.push(grid);
                made = made + 1;
            }
            Ok(grids)
        },
        None => Err(ShapeError::UnknownShapeKind),
    }
}

/// Two streams in the same state place the same shape of a kind, give
/// the same raster of it and are left in the same state.
pub proof fn law_state_fixes_shape(
    kind: ShapeKind,
    a: Stream,
    b: Stream,
    max_width: usize,
    max_height: usize,
)
    requires
        a@ == b@,
    ensures
        shape_drawn(kind, a@, max_width, max_height) == shape_drawn(kind, b@, max_width, max_height),
        sample_drawn(kind, a@, max_width, max_height) == sample_drawn(
            kind,
            b@,
            max_width,
            max_height,
        ),
{
}

/// A raster has `max_height` rows of `max_width` cells, each 0 or 1, and
/// holds 1 in just the cells that the shape covers.
pub proof fn law_raster_marks_covered(shape: Shape, max_width: usize, max_height: usize)
    ensures
        raster(shape, max_height as nat, max_width as nat).len() == max_height,
        rectangular(raster(shape, max_height as nat, max_width as nat), max_width as nat),
        binary(raster(shape, max_height as nat, max_width as nat), max_width as nat),
        forall|r: int, c: int|
            0 <= r < max_height && 0 <= c < max_width ==> (#[trigger] raster(
                shape,
                max_height as nat,
                max_width as nat,
            )[r][c] == 1 <==> shape.covers(c, r)),
{
    lemma_raster_binary(shape, max_height as nat, max_width as nat);
}

/// A rectangle or a triangle that was placed on a raster covers no cell
/// off the raster: the raster shows all of it.
pub proof fn law_placed_on_raster(shape: Shape, max_width: usize, max_height: usize, cx: int, cy: int)
    requires
        placed(shape, max_width, max_height),
        !(shape is Circle),
        shape.covers(cx, cy),
    ensures
        0 <= cx < max_width,
        0 <= cy < max_height,
{
    match shape {
        Shape::Triangle { x, y, width, height } => {
            law_triangle_within_box(x, y, width, height, cx, cy);
        },
        _ => {},
    }
}

/// The raster of a rectangle that was placed with `width` and `height`
/// holds 1 in `(width + 1) * (height + 1)` cells.
pub proof fn law_rect_cell_count(
    x: usize,
    y: usize,
    width: usize,
    height: usize,
    max_width: usize,
    max_height: usize,
)
    requires
        placed(Shape::Rect { x, y, width, height }, max_width, max_height),
    ensures
        total(
            raster(Shape::Rect { x, y, width, height }, max_height as nat, max_width as nat),
            max_width as nat,
        ) == (width + 1) * (height + 1),
{
    let shape = Shape::Rect { x, y, width, height };
    let rows = raster(shape, max_height as nat, max_width as nat);
    let f = |r: int, c: int| rows[r][c] as int;
    assert forall|r: int| 0 <= r < max_height implies span_sum(
        #[trigger] row_of(f, r),
        max_width as nat,
    ) == if y <= r <= y + height {
        width + 1
    } else {
        0
    } by {
        let row = row_of(f, r);
        if y <= r <= y + height {
            assert forall|c: int| 0 <= c < max_width implies #[trigger] row(c) == if x <= c <= x
                + width {
                1int
            } else {
                0int
            } by {
                assert(rows[r][c] == shape.cell_value(c, r));
            }
            lemma_span_sum_interval(row, max_width as nat, x as int, x + width);
        } else {
            assert forall|c: int| 0 <= c < max_width implies #[trigger] row(c) == if max_width <= c
                <= max_width {
                1int
            } else {
                0int
            } by {
                assert(rows[r][c] == shape.cell_value(c, r));
            }
            lemma_span_sum_interval(row, max_width as nat, max_width as int, max_width as int);
        }
    }
    lemma_table_sum_band(f, max_height as nat, max_width as nat, y as int, y + height, width + 1);
}

} // verus!
