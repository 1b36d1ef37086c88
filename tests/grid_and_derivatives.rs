use numerical_differentiation::grid::{Grid, GridFunction};
use numerical_differentiation::numerical_differentiation_algorithms::{
    central_difference_derivative, forward_difference_derivative,
};

fn uniform_grid(start_point: f64, end_point: f64, num_points: usize) -> Grid<f64> {
    Grid::new_uniform_grid(
        start_point,
        end_point,
        num_points,
        |a: f64, b: f64| a >= b,
        |s: f64, e: f64, n: usize, i: usize| s + (i as f64) * ((e - s) / (n as f64 - 1.0)),
    )
}

fn secant_slope(x0: f64, v0: f64, x1: f64, v1: f64) -> f64 {
    (v1 - v0) / (x1 - x0)
}

fn values_grid_function(values: Vec<f64>) -> GridFunction<f64> {
    let points: Vec<f64> = (0..values.len()).map(|i| i as f64).collect();
    GridFunction { grid: Grid { grid_points: points }, function_values: values }
}

fn close(a: f64, b: f64) -> bool {
    (a - b).abs() < 1e-12
}

#[test]
fn uniform_grid_has_requested_points_and_bounds() {
    let grid = uniform_grid(0.0, 0.1, 11);
    assert_eq!(grid.grid_points.len(), 11);
    assert_eq!(grid.grid_points[0], 0.0);
    assert!(close(grid.grid_points[10], 0.1));
    for i in 1..11 {
        let step = grid.grid_points[i] - grid.grid_points[i - 1];
        assert!(close(step, 0.01));
    }
}

#[test]
fn uniform_grid_two_points_is_the_bounds() {
    let grid = uniform_grid(-1.0, 3.0, 2);
    assert_eq!(grid.grid_points, vec![-1.0, 3.0]);
}

#[test]
fn uniform_grid_with_one_point_collapses_to_start() {
    assert_eq!(uniform_grid(2.0, 5.0, 1).grid_points, vec![2.0]);
    assert_eq!(uniform_grid(2.0, 5.0, 0).grid_points, vec![2.0]);
}

#[test]
fn uniform_grid_with_reversed_bounds_collapses_to_start() {
    assert_eq!(uniform_grid(5.0, 2.0, 10).grid_points, vec![5.0]);
    assert_eq!(uniform_grid(3.0, 3.0, 4).grid_points, vec![3.0]);
}

#[test]
fn grid_function_samples_each_point() {
    let grid = uniform_grid(0.0, 1.0, 5);
    let gf = GridFunction::new_grid_function(&grid, |x: f64| x * x + 1.0);
    assert_eq!(gf.grid.grid_points, grid.grid_points);
    assert_eq!(gf.function_values.len(), 5);
    for i in 0..5 {
        let x = grid.grid_points[i];
        assert_eq!(gf.function_values[i], x * x + 1.0);
    }
    assert_eq!(gf.function_values, vec![1.0, 1.0625, 1.25, 1.5625, 2.0]);
}

#[test]
fn constant_grid_function_has_scalar_everywhere() {
    let grid = uniform_grid(0.0, 1.0, 4);
    let gf = GridFunction::new_constant_grid_function(&grid, 1.0);
    assert_eq!(gf.grid.grid_points, grid.grid_points);
    assert_eq!(gf.function_values, vec![1.0, 1.0, 1.0, 1.0]);
}

#[test]
fn arithmetic_of_equal_lengths_is_element_wise() {
    let a = values_grid_function(vec![1.0, 2.0, 3.0]);
    let b = GridFunction {
        grid: Grid { grid_points: vec![7.0, 8.0, 9.0] },
        function_values: vec![4.0, 5.0, 8.0],
    };
    let sum = GridFunction::grid_function_combination(&a, &b, 0.0, |x: f64, y: f64| x + y);
    let difference = GridFunction::grid_function_combination(&a, &b, 0.0, |x: f64, y: f64| x - y);
    let product = GridFunction::grid_function_combination(&a, &b, 0.0, |x: f64, y: f64| x * y);
    let quotient = GridFunction::grid_function_combination(&a, &b, 0.0, |x: f64, y: f64| x / y);
    assert_eq!(sum.function_values, vec![5.0, 7.0, 11.0]);
    assert_eq!(difference.function_values, vec![-3.0, -3.0, -5.0]);
    assert_eq!(product.function_values, vec![4.0, 10.0, 24.0]);
    assert_eq!(quotient.function_values, vec![0.25, 0.4, 0.375]);
    for r in [&sum, &difference, &product, &quotient] {
        assert_eq!(r.grid.grid_points, vec![0.0, 1.0, 2.0]);
    }
}

#[test]
fn adding_a_shorter_function_pads_with_zeros() {
    let a = values_grid_function(vec![1.0, 2.0, 3.0, 4.0, 5.0]);
    let b = values_grid_function(vec![10.0, 20.0, 30.0]);
    let sum = GridFunction::grid_function_combination(&a, &b, 0.0, |x: f64, y: f64| x + y);
    assert_eq!(sum.function_values, vec![11.0, 22.0, 33.0, 4.0, 5.0]);
    assert_eq!(sum.grid.grid_points, a.grid.grid_points);
}

#[test]
fn multiplying_by_a_shorter_function_gives_zeros_past_its_end() {
    let a = values_grid_function(vec![1.0, 2.0, 3.0, 4.0]);
    let b = values_grid_function(vec![2.0, 2.0]);
    let product = GridFunction::grid_function_combination(&a, &b, 0.0, |x: f64, y: f64| x * y);
    assert_eq!(product.function_values, vec![2.0, 4.0, 0.0, 0.0]);
}

#[test]
fn combining_with_a_longer_function_keeps_the_first_length() {
    let a = values_grid_function(vec![1.0, 2.0]);
    let b = values_grid_function(vec![10.0, 20.0, 30.0, 40.0]);
    let difference = GridFunction::grid_function_combination(&a, &b, 0.0, |x: f64, y: f64| x - y);
    assert_eq!(difference.function_values, vec![-9.0, -18.0]);
    assert_eq!(difference.grid.grid_points, vec![0.0, 1.0]);
}

#[test]
fn division_by_zero_gives_infinity_and_nan() {
    let a = values_grid_function(vec![1.0, 0.0, -2.0]);
    let b = values_grid_function(vec![0.0, 0.0]);
    let quotient = GridFunction::grid_function_combination(&a, &b, 0.0, |x: f64, y: f64| x / y);
    assert_eq!(quotient.function_values[0], f64::INFINITY);
    assert!(quotient.function_values[1].is_nan());
    assert_eq!(quotient.function_values[2], f64::NEG_INFINITY);
}

#[test]
fn scalar_multiplication_by_two() {
    let a = values_grid_function(vec![0.0, 1.0, 2.0]);
    let doubled = GridFunction::grid_function_map(&a, |x: f64| 2.0 * x);
    assert_eq!(doubled.function_values, vec![0.0, 2.0, 4.0]);
    assert_eq!(doubled.grid.grid_points, a.grid.grid_points);
}

#[test]
fn derivatives_of_quadratic_on_eleven_points() {
    let grid = uniform_grid(0.0, 0.1, 11);
    let gf = GridFunction::new_grid_function(&grid, |x: f64| x * x);
    let forward = forward_difference_derivative(&gf, secant_slope);
    let central = central_difference_derivative(&gf, secant_slope);
    let x = &grid.grid_points;
    assert_eq!(forward.function_values.len(), 11);
    assert_eq!(central.function_values.len(), 11);
    assert_eq!(forward.grid.grid_points, grid.grid_points);
    assert_eq!(central.grid.grid_points, grid.grid_points);
    for i in 0..10 {
        let expected = (x[i + 1] * x[i + 1] - x[i] * x[i]) / (x[i + 1] - x[i]);
        assert_eq!(forward.function_values[i], expected);
    }
    let backward = (x[10] * x[10] - x[9] * x[9]) / (x[10] - x[9]);
    assert_eq!(forward.function_values[10], backward);
    assert_eq!(central.function_values[10], backward);
    assert_eq!(central.function_values[0], forward.function_values[0]);
    for i in 1..10 {
        let expected = (x[i + 1] * x[i + 1] - x[i - 1] * x[i - 1]) / (x[i + 1] - x[i - 1]);
        assert_eq!(central.function_values[i], expected);
        let exact = 2.0 * x[i];
        let central_error = (central.function_values[i] - exact).abs();
        let forward_error = (forward.function_values[i] - exact).abs();
        assert!(central_error < forward_error);
        assert!(close(forward.function_values[i], 2.0 * x[i] + 0.01));
        assert!(close(central.function_values[i], exact));
    }
}

#[test]
fn derivatives_of_linear_are_one() {
    let grids = [uniform_grid(0.0, 0.1, 11), uniform_grid(-3.0, 5.0, 7), uniform_grid(0.0, 1.0, 2)];
    for grid in grids.iter() {
        let gf = GridFunction::new_grid_function(grid, |x: f64| x);
        let forward = forward_difference_derivative(&gf, secant_slope);
        let central = central_difference_derivative(&gf, secant_slope);
        assert_eq!(forward.function_values.len(), grid.grid_points.len());
        assert_eq!(central.function_values.len(), grid.grid_points.len());
        for v in forward.function_values.iter().chain(central.function_values.iter()) {
            assert!(close(*v, 1.0));
        }
    }
}

#[test]
fn derivatives_of_two_points() {
    let gf = GridFunction {
        grid: Grid { grid_points: vec![1.0, 3.0] },
        function_values: vec![2.0, 8.0],
    };
    let forward = forward_difference_derivative(&gf, secant_slope);
    let central = central_difference_derivative(&gf, secant_slope);
    assert_eq!(forward.function_values, vec![3.0, 3.0]);
    assert_eq!(central.function_values, vec![3.0, 3.0]);
}

#[test]
fn derivatives_use_the_stated_neighbours() {
    let gf = GridFunction {
        grid: Grid { grid_points: vec![0.0, 1.0, 3.0, 6.0] },
        function_values: vec![0.0, 1.0, 9.0, 36.0],
    };
    let forward = forward_difference_derivative(&gf, secant_slope);
    let central = central_difference_derivative(&gf, secant_slope);
    assert_eq!(forward.function_values, vec![1.0, 4.0, 9.0, 9.0]);
    assert_eq!(central.function_values, vec![1.0, 3.0, 7.0, 9.0]);
}

#[test]
fn repeated_operations_give_identical_results() {
    let grid = uniform_grid(0.0, 0.1, 11);
    let gf = GridFunction::new_grid_function(&grid, |x: f64| x * x);
    let other = GridFunction::new_grid_function(&grid, |x: f64| 3.0 - x);
    let again = GridFunction::new_grid_function(&grid, |x: f64| x * x);
    assert_eq!(gf.function_values, again.function_values);
    let ops: [fn(f64, f64) -> f64; 4] = [|x, y| x + y, |x, y| x - y, |x, y| x * y, |x, y| x / y];
    for op in ops.iter() {
        let r1 = GridFunction::grid_function_combination(&gf, &other, 0.0, op);
        let r2 = GridFunction::grid_function_combination(&gf, &other, 0.0, op);
        let b1: Vec<u64> = r1.function_values.iter().map(|v| v.to_bits()).collect();
        let b2: Vec<u64> = r2.function_values.iter().map(|v| v.to_bits()).collect();
        assert_eq!(b1, b2);
    }
    let s1 = GridFunction::grid_function_map(&gf, |x: f64| 2.5 * x);
    let s2 = GridFunction::grid_function_map(&gf, |x: f64| 2.5 * x);
    assert_eq!(s1.function_values, s2.function_values);
    let f1 = forward_difference_derivative(&gf, secant_slope);
    let f2 = forward_difference_derivative(&gf, secant_slope);
    assert_eq!(f1.function_values, f2.function_values);
    let c1 = central_difference_derivative(&gf, secant_slope);
    let c2 = central_difference_derivative(&gf, secant_slope);
    assert_eq!(c1.function_values, c2.function_values);
    assert_eq!(uniform_grid(0.0, 0.1, 11).grid_points, grid.grid_points);
}

#[test]
fn copied_grid_is_equal_and_separate() {
    let grid = uniform_grid(1.0, 2.0, 3);
    let mut copy = grid.copy_grid();
    assert_eq!(copy.grid_points, grid.grid_points);
    copy.grid_points[0] = 9.0;
    assert_eq!(grid.grid_points[0], 1.0);
}
