use vstd::prelude::*;
use crate::grid::GridFunction;

verus! {

/// The two points, `(lo, hi)`, whose secant gives the forward-difference
/// derivative at point `i` of `n`: the point and its right neighbour, except
/// at the last point, which takes its left neighbour (a backward difference).
pub open spec fn forward_stencil(n: int, i: int) -> (int, int) {
    if i == n - 1 {
        (n - 2, n - 1)
    } else {
        (i, i + 1)
    }
}

/// The two points, `(lo, hi)`, whose secant gives the central-difference
/// derivative at point `i` of `n`: both neighbours at an interior point, a
/// forward difference at the first point and a backward difference at the
/// last.
pub open spec fn central_stencil(n: int, i: int) -> (int, int) {
    if i == 0 {
        (0, 1)
    } else if i == n - 1 {
        (n - 2, n - 1)
    } else {
        (i - 1, i + 1)
    }
}

/// `slope` applied to the points `lo` and `hi` of the sampled function with
/// coordinates `xs` and values `vs`.
pub open spec fn secant<T, F: Fn(T, T, T, T) -> T>(
    slope: F,
    xs: Seq<T>,
    vs: Seq<T>,
    lo: int,
    hi: int,
    r: T,
) -> bool {
    slope.ensures((xs[lo], vs[lo], xs[hi], vs[hi]), r)
}

/// `ds` is the forward-difference derivative of the samples `vs` at the
/// coordinates `xs`, with `slope` as the difference quotient.
pub open spec fn is_forward_difference<T, F: Fn(T, T, T, T) -> T>(
    slope: F,
    xs: Seq<T>,
    vs: Seq<T>,
    ds: Seq<T>,
) -> bool {
    &&& ds.len() == xs.len()
    &&& forall|i: int|
        0 <= i < xs.len() ==> secant(
            slope,
            xs,
            vs,
            forward_stencil(xs.len() as int, i).0,
            forward_stencil(xs.len() as int, i).1,
            #[trigger] ds[i],
        )
}

/// `ds` is the central-difference derivative of the samples `vs` at the
/// coordinates `xs`, with `slope` as the difference quotient.
pub open spec fn is_central_difference<T, F: Fn(T, T, T, T) -> T>(
    slope: F,
    xs: Seq<T>,
    vs: Seq<T>,
    ds: Seq<T>,
) -> bool {
    &&& ds.len() == xs.len()
    &&& forall|i: int|
        0 <= i < xs.len() ==> secant(
            slope,
            xs,
            vs,
            central_stencil(xs.len() as int, i).0,
            central_stencil(xs.len() as int, i).1,
            #[trigger] ds[i],
        )
}

/// `slope` gives at most one result for each four arguments, as a pure
/// function does.
pub open spec fn deterministic_slope<T, F: Fn(T, T, T, T) -> T>(slope: F) -> bool {
    forall|x0: T, v0: T, x1: T, v1: T, r1: T, r2: T|
        #[trigger] slope.ensures((x0, v0, x1, v1), r1) && #[trigger] slope.ensures((x0, v0, x1, v1), r2)
            ==> r1 == r2
}

/// Differentiating the same samples twice by forward differences, with a
/// pure difference quotient, gives identical results.
pub proof fn lemma_forward_difference_deterministic<T, F: Fn(T, T, T, T) -> T>(
    slope: F,
    xs: Seq<T>,
    vs: Seq<T>,
    ds1: Seq<T>,
    ds2: Seq<T>,
)
    requires
        deterministic_slope(slope),
        is_forward_difference(slope, xs, vs, ds1),
        is_forward_difference(slope, xs, vs, ds2),
    ensures
        ds1 == ds2,
{
    assert forall|i: int| 0 <= i < ds1.len() implies ds1[i] == ds2[i] by {
        let (lo, hi) = forward_stencil(xs.len() as int, i);
        assert(secant(slope, xs, vs, lo, hi, ds1[i]));
        assert(secant(slope, xs, vs, lo, hi, ds2[i]));
    }
    assert(ds1 =~= ds2);
}

/// Differentiating the same samples twice by central differences, with a
/// pure difference quotient, gives identical results.
pub proof fn lemma_central_difference_deterministic<T, F: Fn(T, T, T, T) -> T>(
    slope: F,
    xs: Seq<T>,
    vs: Seq<T>,
    ds1: Seq<T>,
    ds2: Seq<T>,
)
    requires
        deterministic_slope(slope),
        is_central_difference(slope, xs, vs, ds1),
        is_central_difference(slope, xs, vs, ds2),
    ensures
        ds1 == ds2,
{
    assert forall|i: int| 0 <= i < ds1.len() implies ds1[i] == ds2[i] by {
        let (lo, hi) = central_stencil(xs.len() as int, i);
        assert(secant(slope, xs, vs, lo, hi, ds1[i]));
        assert(secant(slope, xs, vs, lo, hi, ds2[i]));
    }
    assert(ds1 =~= ds2);
}

/// With a pure difference quotient, the forward and central schemes give the
/// same value at the first point and at the last: both are one-sided there.
pub proof fn lemma_schemes_agree_at_boundaries<T, F: Fn(T, T, T, T) -> T>(
    slope: F,
    xs: Seq<T>,
    vs: Seq<T>,
    forward: Seq<T>,
    central: Seq<T>,
)
    requires
        xs.len() >= 2,
        deterministic_slope(slope),
        is_forward_difference(slope, xs, vs, forward),
        is_central_difference(slope, xs, vs, central),
    ensures
        forward[0] == central[0],
        forward[xs.len() - 1] == central[xs.len() - 1],
{
    let n = xs.len() as int;
    assert(secant(slope, xs, vs, forward_stencil(n, 0).0, forward_stencil(n, 0).1, forward[0]));
    assert(secant(slope, xs, vs, central_stencil(n, 0).0, central_stencil(n, 0).1, central[0]));
    assert(secant(slope, xs, vs, forward_stencil(n, n - 1).0, forward_stencil(n, n - 1).1, forward[n - 1]));
    assert(secant(slope, xs, vs, central_stencil(n, n - 1).0, central_stencil(n, n - 1).1, central[n - 1]));
}

/// What a derivative operator asks of its argument: at least two grid points,
/// and a value for each of them.
pub open spec fn differentiable<T>(grid_function: &GridFunction<T>) -> bool {
    &&& grid_function.grid@.len() >= 2
    &&& grid_function.function_values@.len() >= grid_function.grid@.len()
}

/// `slope` can be applied to any two points of the grid function.
pub open spec fn slope_defined<T, F: Fn(T, T, T, T) -> T>(
    slope: F,
    grid_function: &GridFunction<T>,
) -> bool {
    forall|lo: int, hi: int|
        0 <= lo < grid_function.grid@.len() && 0 <= hi < grid_function.grid@.len()
            ==> #[trigger] slope.requires(
            (
                grid_function.grid@[lo],
                grid_function.function_values@[lo],
                grid_function.grid@[hi],
                grid_function.function_values@[hi],
            ),
        )
}

/// The secant slope through the points `lo` and `hi`.
fn secant_at<T: Copy, F: Fn(T, T, T, T) -> T>(
    grid_function: &GridFunction<T>,
    slope: &F,
    lo: usize,
    hi: usize,
) -> (r: T)
    requires
        differentiable(grid_function),
        slope_defined(*slope, grid_function),
        lo < grid_function.grid@.len(),
        hi < grid_function.grid@.len(),
    ensures
        secant(
            *slope,
            grid_function.grid@,
            grid_function.function_values@,
            lo as int,
            hi as int,
            r,
        ),
{
    let xs = &grid_function.grid.grid_points;
    let vs = &grid_function.function_values;
    assert(slope.requires((xs@[lo as int], vs@[lo as int], xs@[hi as int], vs@[hi as int])));
    slope(xs[lo], vs[lo], xs[hi], vs[hi])
}

/// The derivative of `grid_function` by forward differences: at each point
/// but the last, the slope of the secant to its right neighbour; at the last
/// point, the slope of the secant to its left neighbour. `slope(x0, v0, x1,
/// v1)` is the difference quotient of the points `(x0, v0)` and `(x1, v1)`.
/// The result is sampled on a copy of the same grid.
pub fn forward_difference_derivative<T: Copy, F: Fn(T, T, T, T) -> T>(
    grid_function: &GridFunction<T>,
    slope: F,
) -> (r: GridFunction<T>)
    requires
        differentiable(grid_function),
        slope_defined(slope, grid_function),
    ensures
        r.grid@ == grid_function.grid@,
        is_forward_difference(slope, grid_function.grid@, grid_function.function_values@, r.function_values@),
{
    let num_points = grid_function.grid.grid_points.len();
    let ghost xs = grid_function.grid@;
    let ghost vs = grid_function.function_values@;
    let mut first_derivative_values: Vec<T> = Vec::with_capacity(num_points);
    let mut i: usize = 0;
    while i < num_points - 1
        invariant
            differentiable(grid_function),
            slope_defined(slope, grid_function),
            num_points == xs.len(),
            xs == grid_function.grid@,
            vs == grid_function.function_values@,
            i <= num_points - 1,
            first_derivative_values@.len() == i,
            forall|j: int|
                0 <= j < i ==> #[trigger] secant(
                    slope,
                    xs,
                    vs,
                    forward_stencil(num_points as int, j).0,
                    forward_stencil(num_points as int, j).1,
                    first_derivative_values@[j],
                ),
        decreases num_points - 1 - i,
    {
        let d = secant_at(grid_function, &slope, i, i + 1);
        first_derivative_values.push(d);
        i += 1;
    }
    let d = secant_at(grid_function, &slope, num_points - 2, num_points - 1);
    first_derivative_values.push(d);
    assert forall|j: int| 0 <= j < num_points implies #[trigger] secant(
        slope,
        xs,
        vs,
        forward_stencil(num_points as int, j).0,
        forward_stencil(num_points as int, j).1,
        first_derivative_values@[j],
    ) by {
        if j < num_points - 1 {
            assert(first_derivative_values@[j] == first_derivative_values@.drop_last()[j]);
        }
    }
    GridFunction { grid: grid_function.grid.copy_grid(), function_values: first_derivative_values }
}

/// The derivative of `grid_function` by central differences: at an interior
/// point, the slope of the secant between its two neighbours; at the first
/// point, the slope of the secant to its right neighbour (a forward
/// difference); at the last point, the slope of the secant to its left
/// neighbour (a backward difference). `slope` is as for
/// `forward_difference_derivative`. The result is sampled on a copy of the
/// same grid.
pub fn central_difference_derivative<T: Copy, F: Fn(T, T, T, T) -> T>(
    grid_function: &GridFunction<T>,
    slope: F,
) -> (r: GridFunction<T>)
    requires
        differentiable(grid_function),
        slope_defined(slope, grid_function),
    ensures
        r.grid@ == grid_function.grid@,
        is_central_difference(slope, grid_function.grid@, grid_function.function_values@, r.function_values@),
{
    let num_points = grid_function.grid.grid_points.len();
    let ghost xs = grid_function.grid@;
    let ghost vs = grid_function.function_values@;
    let mut first_derivative_values: Vec<T> = Vec::with_capacity(num_points);
    let d = secant_at(grid_function, &slope, 0, 1);
    first_derivative_values.push(d);
    let mut i: usize = 1;
    while i < num_points - 1
        invariant
            differentiable(grid_function),
            slope_defined(slope, grid_function),
            num_points == xs.len(),
            xs == grid_function.grid@,
            vs == grid_function.function_values@,
            1 <= i <= num_points - 1,
            first_derivative_values@.len() == i,
            forall|j: int|
                0 <= j < i ==> #[trigger] secant(
                    slope,
                    xs,
                    vs,
                    central_stencil(num_points as int, j).0,
                    central_stencil(num_points as int, j).1,
                    first_derivative_values@[j],
                ),
        decreases num_points - 1 - i,
    {
        let d = secant_at(grid_function, &slope, i - 1, i + 1);
        first_derivative_values.push(d);
        i += 1;
    }
    let d = secant_at(grid_function, &slope, num_points - 2, num_points - 1);
    first_derivative_values.push(d);
    assert forall|j: int| 0 <= j < num_points implies #[trigger] secant(
        slope,
        xs,
        vs,
        central_stencil(num_points as int, j).0,
        central_stencil(num_points as int, j).1,
        first_derivative_values@[j],
    ) by {
        if j < num_points - 1 {
            assert(first_derivative_values@[j] == first_derivative_values@.drop_last()[j]);
        }
    }
    GridFunction { grid: grid_function.grid.copy_grid(), function_values: first_derivative_values }
}

} // verus!
