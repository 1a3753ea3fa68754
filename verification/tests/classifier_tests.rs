use perceptron::classifier::{activation, correct_negative, correct_positive, predict};
use perceptron::grid::Grid;
use perceptron::shapes::Shape;

fn grid_of(rows: &[&[i64]]) -> Grid {
    let mut grid = Grid::zeros(rows.len(), rows[0].len());
    for (r, row) in rows.iter().enumerate() {
        for (c, value) in row.iter().enumerate() {
            grid.set(r, c, *value);
        }
    }
    grid
}

fn rows_of(grid: &Grid) -> Vec<Vec<i64>> {
    let mut rows = Vec::new();
    for r in 0..grid.height() {
        let mut row = Vec::new();
        for c in 0..grid.width() {
            row.push(grid.get(r, c));
        }
        rows.push(row);
    }
    rows
}

#[test]
fn zero_grid_is_all_zeros() {
    let grid = Grid::zeros(3, 4);
    assert_eq!(grid.height(), 3);
    assert_eq!(grid.width(), 4);
    assert_eq!(rows_of(&grid), vec![vec![0; 4]; 3]);
}

#[test]
fn set_changes_one_cell() {
    let mut grid = Grid::zeros(2, 3);
    grid.set(1, 2, -7);
    assert_eq!(rows_of(&grid), vec![vec![0, 0, 0], vec![0, 0, -7]]);
    assert_eq!(grid.get(1, 2), -7);
}

#[test]
fn duplicate_is_a_copy_of_its_own() {
    let mut grid = grid_of(&[&[1, 2], &[3, 4]]);
    let copy = grid.duplicate();
    grid.set(0, 0, 9);
    assert_eq!(rows_of(&copy), vec![vec![1, 2], vec![3, 4]]);
    assert_eq!(rows_of(&grid), vec![vec![9, 2], vec![3, 4]]);
}

#[test]
fn activation_is_the_dot_product() {
    let weights = grid_of(&[&[1, -2, 3], &[4, 5, -6]]);
    let inputs = grid_of(&[&[1, 1, 0], &[0, 1, 1]]);
    assert_eq!(activation(&weights, &inputs), 1 - 2 + 5 - 6);
    let other = grid_of(&[&[2, 0, -1], &[3, 3, 3]]);
    assert_eq!(activation(&weights, &other), 2 - 3 + 12 + 15 - 18);
    assert_eq!(activation(&Grid::zeros(2, 3), &inputs), 0);
}

#[test]
fn predict_compares_with_the_cutoff() {
    let weights = grid_of(&[&[1, -2, 3], &[4, 5, -6]]);
    let inputs = grid_of(&[&[1, 1, 0], &[0, 1, 1]]);
    assert!(predict(&weights, &inputs, -2));
    assert!(predict(&weights, &inputs, -3));
    assert!(!predict(&weights, &inputs, -1));
    assert!(predict(&weights, &inputs, i64::MIN));
    assert!(!predict(&weights, &inputs, i64::MAX));
}

#[test]
fn refused_positive_sample_leaves_the_weights() {
    let mut weights = grid_of(&[&[1, -2, 3], &[4, 5, -6]]);
    let sample = grid_of(&[&[1, 1, 0], &[0, 1, 1]]);
    assert!(!predict(&weights, &sample, 0));
    assert!(!correct_positive(&mut weights, &sample, 0));
    assert_eq!(rows_of(&weights), vec![vec![1, -2, 3], vec![4, 5, -6]]);
}

#[test]
fn accepted_positive_sample_is_subtracted() {
    let mut weights = grid_of(&[&[1, -2, 3], &[4, 5, -6]]);
    let sample = grid_of(&[&[1, 1, 0], &[0, 1, 1]]);
    assert!(correct_positive(&mut weights, &sample, -2));
    assert_eq!(rows_of(&weights), vec![vec![0, -3, 3], vec![4, 4, -7]]);
}

#[test]
fn accepted_negative_sample_leaves_the_weights() {
    let mut weights = grid_of(&[&[1, -2, 3], &[4, 5, -6]]);
    let sample = grid_of(&[&[1, 1, 0], &[0, 1, 1]]);
    assert!(!correct_negative(&mut weights, &sample, -2));
    assert_eq!(rows_of(&weights), vec![vec![1, -2, 3], vec![4, 5, -6]]);
}

#[test]
fn refused_negative_sample_is_added() {
    let mut weights = grid_of(&[&[1, -2, 3], &[4, 5, -6]]);
    let sample = grid_of(&[&[1, 1, 0], &[0, 1, 1]]);
    assert!(correct_negative(&mut weights, &sample, -1));
    assert_eq!(rows_of(&weights), vec![vec![2, -1, 3], vec![4, 6, -5]]);
}

#[test]
fn raising_weights_under_a_shape_never_lowers_its_activation() {
    let shape = Grid::rasterize(&Shape::Circle { x: 3, y: 2, radius: 3 }, 8, 6);
    let mut weights = Grid::zeros(6, 8);
    for r in 0..6 {
        for c in 0..8 {
            weights.set(r, c, (r as i64) * 5 - (c as i64) * 3);
        }
    }
    let before = activation(&weights, &shape);
    let mut covered: i64 = 0;
    for r in 0..6 {
        for c in 0..8 {
            if shape.get(r, c) == 1 {
                let value = weights.get(r, c);
                weights.set(r, c, value + 4);
                covered += 1;
            } else {
                weights.set(r, c, -1000);
            }
        }
    }
    let after = activation(&weights, &shape);
    assert!(after >= before);
    assert_eq!(after, before + 4 * covered);
}
