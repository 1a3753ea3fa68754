use perceptron::grid::Grid;
use perceptron::rasterizer::{
    create_sample_images, make_random_circle, make_random_rect, make_random_triangle, make_shape,
    random_circle, random_rect, random_shape, random_triangle, sample, ShapeError, ShapeKind,
};
use perceptron::shapes::{point_in_triangle, Shape};
use perceptron::stream::Stream;

fn cells(grid: &Grid) -> Vec<Vec<i64>> {
    let mut rows = Vec::new();
    for r in 0..grid.height() {
        let mut row = Vec::new();
        for c in 0..grid.width() {
            row.push(grid.get(r, c));
        }
        rows.push(row);
    }
    rows
}

fn ones(grid: &Grid) -> usize {
    cells(grid).iter().flatten().filter(|v| **v == 1).count()
}

#[test]
fn triangle_holds_its_corners() {
    let (a, b, c) = ((2, 9), (5, 1), (8, 9));
    assert!(point_in_triangle(a, a, b, c));
    assert!(point_in_triangle(b, a, b, c));
    assert!(point_in_triangle(c, a, b, c));
}

#[test]
fn triangle_holds_its_edges_and_inside() {
    let (a, b, c) = ((0, 8), (4, 0), (8, 8));
    assert!(point_in_triangle((4, 8), a, b, c));
    assert!(point_in_triangle((2, 4), a, b, c));
    assert!(point_in_triangle((6, 4), a, b, c));
    assert!(point_in_triangle((4, 4), a, b, c));
}

#[test]
fn triangle_refuses_points_outside() {
    let (a, b, c) = ((0, 8), (4, 0), (8, 8));
    assert!(!point_in_triangle((1, 4), a, b, c));
    assert!(!point_in_triangle((7, 4), a, b, c));
    assert!(!point_in_triangle((4, 9), a, b, c));
    assert!(!point_in_triangle((1000, 1000), a, b, c));
    assert!(!point_in_triangle((-1000, -1000), a, b, c));
    assert!(!point_in_triangle((4, -1), a, b, c));
}

#[test]
fn triangle_of_either_orientation() {
    let (a, b, c) = ((0, 8), (4, 0), (8, 8));
    assert!(point_in_triangle((4, 4), c, b, a));
    assert!(!point_in_triangle((0, 0), c, b, a));
}

#[test]
fn flat_triangle_takes_points_on_its_line() {
    let (a, b, c) = ((0, 0), (2, 2), (4, 4));
    assert!(point_in_triangle((9, 9), a, b, c));
    assert!(!point_in_triangle((9, 8), a, b, c));
}

#[test]
fn rect_cells_include_both_ends() {
    let shape = Shape::Rect { x: 2, y: 1, width: 3, height: 2 };
    assert_eq!(shape.cell(2, 1), 1);
    assert_eq!(shape.cell(5, 3), 1);
    assert_eq!(shape.cell(1, 1), 0);
    assert_eq!(shape.cell(6, 3), 0);
    assert_eq!(shape.cell(2, 0), 0);
    assert_eq!(shape.cell(5, 4), 0);
}

#[test]
fn rect_raster_counts_width_plus_one_by_height_plus_one() {
    let shape = Shape::Rect { x: 2, y: 1, width: 3, height: 2 };
    let grid = Grid::rasterize(&shape, 8, 6);
    assert_eq!(grid.width(), 8);
    assert_eq!(grid.height(), 6);
    assert_eq!(ones(&grid), 12);
    assert_eq!(
        cells(&grid),
        vec![
            vec![0, 0, 0, 0, 0, 0, 0, 0],
            vec![0, 0, 1, 1, 1, 1, 0, 0],
            vec![0, 0, 1, 1, 1, 1, 0, 0],
            vec![0, 0, 1, 1, 1, 1, 0, 0],
            vec![0, 0, 0, 0, 0, 0, 0, 0],
            vec![0, 0, 0, 0, 0, 0, 0, 0],
        ]
    );
}

#[test]
fn circle_holds_its_centre_and_not_its_rim() {
    let shape = Shape::Circle { x: 10, y: 10, radius: 5 };
    assert_eq!(shape.cell(10, 10), 1);
    assert_eq!(shape.cell(14, 10), 1);
    assert_eq!(shape.cell(15, 10), 0);
    assert_eq!(shape.cell(13, 14), 0);
    assert_eq!(shape.cell(13, 13), 1);
    assert_eq!(shape.cell(5, 10), 0);
    assert_eq!(shape.cell(6, 10), 1);
    let dot = Shape::Circle { x: 3, y: 3, radius: 1 };
    assert_eq!(dot.cell(3, 3), 1);
    assert_eq!(dot.cell(4, 3), 0);
    assert_eq!(dot.cell(3, 2), 0);
}

#[test]
fn circle_raster_is_clipped_at_the_edge() {
    let shape = Shape::Circle { x: 0, y: 0, radius: 2 };
    let grid = Grid::rasterize(&shape, 4, 3);
    assert_eq!(
        cells(&grid),
        vec![vec![1, 1, 0, 0], vec![1, 1, 0, 0], vec![0, 0, 0, 0]]
    );
}

#[test]
fn triangle_raster_is_exact() {
    let shape = Shape::Triangle { x: 1, y: 0, width: 4, height: 4 };
    let grid = Grid::rasterize(&shape, 7, 6);
    assert_eq!(
        cells(&grid),
        vec![
            vec![0, 0, 0, 1, 0, 0, 0],
            vec![0, 0, 0, 1, 0, 0, 0],
            vec![0, 0, 1, 1, 1, 0, 0],
            vec![0, 0, 1, 1, 1, 0, 0],
            vec![0, 1, 1, 1, 1, 1, 0],
            vec![0, 0, 0, 0, 0, 0, 0],
        ]
    );
}

#[test]
fn triangle_apex_uses_half_the_width_rounded_down() {
    let shape = Shape::Triangle { x: 0, y: 0, width: 5, height: 4 };
    assert_eq!(shape.cell(2, 0), 1);
    assert_eq!(shape.cell(3, 0), 0);
    assert_eq!(shape.cell(0, 4), 1);
    assert_eq!(shape.cell(5, 4), 1);
    assert_eq!(shape.cell(6, 4), 0);
}

#[test]
fn drawn_rects_lie_on_the_raster() {
    let mut stream = Stream::new(999);
    for _ in 0..200 {
        match random_rect(&mut stream, 16, 12) {
            Shape::Rect { x, y, width, height } => {
                assert!(1 <= width && width <= 14);
                assert!(1 <= height && height <= 10);
                assert!(x + width < 16);
                assert!(y + height < 12);
                let grid = Grid::rasterize(&Shape::Rect { x, y, width, height }, 16, 12);
                assert_eq!(ones(&grid), (width + 1) * (height + 1));
            }
            other => panic!("not a rectangle: {:?}", other),
        }
    }
}

#[test]
fn drawn_triangles_lie_on_the_raster() {
    let mut stream = Stream::new(64);
    for _ in 0..200 {
        match random_triangle(&mut stream, 16, 12) {
            Shape::Triangle { x, y, width, height } => {
                assert!(4 <= width && width <= 15);
                assert!(4 <= height && height <= 11);
                assert!(x + width < 16);
                assert!(y + height < 12);
                let shape = Shape::Triangle { x, y, width, height };
                assert_eq!(shape.cell(x + width / 2, y), 1);
                assert_eq!(shape.cell(x, y + height), 1);
                assert_eq!(shape.cell(x + width, y + height), 1);
                let grid = Grid::rasterize(&shape, 16, 12);
                for (r, row) in cells(&grid).iter().enumerate() {
                    for (c, value) in row.iter().enumerate() {
                        if *value == 1 {
                            assert!(x <= c && c <= x + width && y <= r && r <= y + height);
                        }
                    }
                }
            }
            other => panic!("not a triangle: {:?}", other),
        }
    }
}

#[test]
fn drawn_circles_have_their_centre_on_the_raster() {
    let mut stream = Stream::new(3);
    for _ in 0..200 {
        match random_circle(&mut stream, 16, 12) {
            Shape::Circle { x, y, radius } => {
                assert!(1 <= radius && radius <= 15);
                assert!(x < 16);
                assert!(y < 12);
                let grid = Grid::rasterize(&Shape::Circle { x, y, radius }, 16, 12);
                assert_eq!(grid.get(y, x), 1);
            }
            other => panic!("not a circle: {:?}", other),
        }
    }
}

#[test]
fn rect_draw_order_is_width_height_column_row() {
    let mut stream = Stream::new(999);
    let mut replay = Stream::new(999);
    let shape = random_rect(&mut stream, 64, 48);
    let width = replay.next_uniform_int(1, 63);
    let height = replay.next_uniform_int(1, 47);
    let x = replay.next_uniform_int(0, 64 - width);
    let y = replay.next_uniform_int(0, 48 - height);
    assert_eq!(shape, Shape::Rect { x, y, width, height });
    assert_eq!(stream.next_uniform_int(0, 1000), replay.next_uniform_int(0, 1000));
}

#[test]
fn circle_draw_order_is_radius_column_row() {
    let mut stream = Stream::new(999);
    let mut replay = Stream::new(999);
    let shape = random_circle(&mut stream, 64, 48);
    let radius = replay.next_uniform_int(1, 64);
    let x = replay.next_uniform_int(0, 64);
    let y = replay.next_uniform_int(0, 48);
    assert_eq!(shape, Shape::Circle { x, y, radius });
    assert_eq!(stream.next_uniform_int(0, 1000), replay.next_uniform_int(0, 1000));
}

#[test]
fn triangle_draw_order_is_width_height_column_row() {
    let mut stream = Stream::new(999);
    let mut replay = Stream::new(999);
    let shape = random_triangle(&mut stream, 64, 48);
    let width = replay.next_uniform_int(4, 64);
    let height = replay.next_uniform_int(4, 48);
    let x = replay.next_uniform_int(0, 64 - width);
    let y = replay.next_uniform_int(0, 48 - height);
    assert_eq!(shape, Shape::Triangle { x, y, width, height });
    assert_eq!(stream.next_uniform_int(0, 1000), replay.next_uniform_int(0, 1000));
}

#[test]
fn smallest_rasters_leave_little_choice() {
    let mut stream = Stream::new(1);
    for _ in 0..20 {
        match random_rect(&mut stream, 3, 3) {
            Shape::Rect { x, y, width, height } => {
                assert_eq!((width, height), (1, 1));
                assert!(x <= 1 && y <= 1);
            }
            other => panic!("not a rectangle: {:?}", other),
        }
        assert_eq!(
            random_triangle(&mut stream, 5, 5),
            Shape::Triangle { x: 0, y: 0, width: 4, height: 4 }
        );
        match random_circle(&mut stream, 2, 1) {
            Shape::Circle { x, y, radius } => {
                assert_eq!((y, radius), (0, 1));
                assert!(x <= 1);
            }
            other => panic!("not a circle: {:?}", other),
        }
    }
}

#[test]
fn generators_rasterize_what_they_draw() {
    let mut a = Stream::new(42);
    let mut b = Stream::new(42);
    let rect = make_random_rect(&mut a, 20, 10);
    let shape = random_rect(&mut b, 20, 10);
    assert_eq!(cells(&rect), cells(&Grid::rasterize(&shape, 20, 10)));
    let triangle = make_random_triangle(&mut a, 20, 10);
    let shape = random_triangle(&mut b, 20, 10);
    assert_eq!(cells(&triangle), cells(&Grid::rasterize(&shape, 20, 10)));
    let circle = make_random_circle(&mut a, 20, 10);
    let shape = random_circle(&mut b, 20, 10);
    assert_eq!(cells(&circle), cells(&Grid::rasterize(&shape, 20, 10)));
    assert_eq!(circle.width(), 20);
    assert_eq!(circle.height(), 10);
}

#[test]
fn generators_repeat_for_a_seed() {
    let mut a = Stream::new(999);
    let mut b = Stream::new(999);
    for _ in 0..20 {
        assert_eq!(cells(&make_random_rect(&mut a, 12, 9)), cells(&make_random_rect(&mut b, 12, 9)));
        assert_eq!(
            cells(&make_random_circle(&mut a, 12, 9)),
            cells(&make_random_circle(&mut b, 12, 9))
        );
        assert_eq!(
            cells(&make_random_triangle(&mut a, 12, 9)),
            cells(&make_random_triangle(&mut b, 12, 9))
        );
    }
}

#[test]
fn rasters_hold_only_zeros_and_ones() {
    let mut stream = Stream::new(11);
    for kind in [ShapeKind::Rect, ShapeKind::Circle, ShapeKind::Triangle] {
        for _ in 0..30 {
            let grid = sample(kind, &mut stream, 9, 7);
            assert_eq!(grid.width(), 9);
            assert_eq!(grid.height(), 7);
            assert!(cells(&grid).iter().flatten().all(|v| *v == 0 || *v == 1));
        }
    }
}

#[test]
fn kinds_have_names() {
    assert_eq!(ShapeKind::from_name("RECT"), Some(ShapeKind::Rect));
    assert_eq!(ShapeKind::from_name("CIRCLE"), Some(ShapeKind::Circle));
    assert_eq!(ShapeKind::from_name("TRIANGLE"), Some(ShapeKind::Triangle));
    assert_eq!(ShapeKind::from_name("rect"), None);
    assert_eq!(ShapeKind::from_name(""), None);
    assert_eq!(ShapeKind::from_name("SQUARE"), None);
}

#[test]
fn kinds_need_room() {
    assert!(ShapeKind::Rect.can_fit(3, 3));
    assert!(!ShapeKind::Rect.can_fit(2, 3));
    assert!(!ShapeKind::Rect.can_fit(3, 2));
    assert!(ShapeKind::Circle.can_fit(2, 1));
    assert!(!ShapeKind::Circle.can_fit(1, 1));
    assert!(!ShapeKind::Circle.can_fit(2, 0));
    assert!(ShapeKind::Triangle.can_fit(5, 5));
    assert!(!ShapeKind::Triangle.can_fit(4, 5));
    assert!(!ShapeKind::Triangle.can_fit(5, 4));
}

#[test]
fn make_shape_goes_by_name() {
    let mut a = Stream::new(5);
    let mut b = Stream::new(5);
    let named = make_shape("TRIANGLE", &mut a, 10, 10);
    let direct = make_random_triangle(&mut b, 10, 10);
    match named {
        Ok(grid) => assert_eq!(cells(&grid), cells(&direct)),
        Err(_) => panic!("a triangle was asked for"),
    }
    let named = make_shape("RECT", &mut a, 10, 10);
    let direct = make_random_rect(&mut b, 10, 10);
    match named {
        Ok(grid) => assert_eq!(cells(&grid), cells(&direct)),
        Err(_) => panic!("a rectangle was asked for"),
    }
    let named = make_shape("CIRCLE", &mut a, 10, 10);
    let direct = random_shape(ShapeKind::Circle, &mut b, 10, 10);
    match named {
        Ok(grid) => assert_eq!(cells(&grid), cells(&Grid::rasterize(&direct, 10, 10))),
        Err(_) => panic!("a circle was asked for"),
    }
}

#[test]
fn make_shape_refuses_an_unknown_kind() {
    let mut stream = Stream::new(5);
    let mut fresh = Stream::new(5);
    match make_shape("HEXAGON", &mut stream, 10, 10) {
        Err(e) => assert_eq!(e, ShapeError::UnknownShapeKind),
        Ok(_) => panic!("no such kind"),
    }
    assert_eq!(stream.next_uniform_int(0, 1000), fresh.next_uniform_int(0, 1000));
}

#[test]
fn sample_images_follow_one_stream() {
    let made = create_sample_images("RECT", 999, 5, 12, 12);
    let mut stream = Stream::new(999);
    match made {
        Ok(grids) => {
            assert_eq!(grids.len(), 5);
            for grid in grids.iter() {
                assert_eq!(cells(grid), cells(&make_random_rect(&mut stream, 12, 12)));
            }
        }
        Err(_) => panic!("rectangles were asked for"),
    }
    match create_sample_images("TRIANGLE", 1, 0, 12, 12) {
        Ok(grids) => assert!(grids.is_empty()),
        Err(_) => panic!("triangles were asked for"),
    }
    assert!(matches!(
        create_sample_images("BLOB", 1, 3, 12, 12),
        Err(ShapeError::UnknownShapeKind)
    ));
}

#[test]
fn shapes_of_a_seed_are_pinned() {
    let mut stream = Stream::new(999);
    let drawn = vec![
        random_rect(&mut stream, 64, 64),
        random_triangle(&mut stream, 64, 64),
        random_circle(&mut stream, 64, 64),
        random_rect(&mut stream, 8, 8),
        random_triangle(&mut stream, 8, 8),
        random_circle(&mut stream, 8, 8),
    ];
    assert_eq!(
        drawn,
        vec![
            Shape::Rect { x: 10, y: 0, width: 33, height: 45 },
            Shape::Triangle { x: 6, y: 1, width: 47, height: 62 },
            Shape::Circle { x: 12, y: 4, radius: 23 },
            Shape::Rect { x: 0, y: 6, width: 4, height: 1 },
            Shape::Triangle { x: 2, y: 3, width: 5, height: 4 },
            Shape::Circle { x: 4, y: 7, radius: 3 },
        ]
    );
}
