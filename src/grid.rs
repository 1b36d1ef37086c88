use vstd::prelude::*;

verus! {

/// A grid of points in one dimension: the coordinate of each point is an
/// element of `grid_points`, in order.
#[derive(Debug)]
pub struct Grid<T> {
    pub grid_points: Vec<T>,
}

impl<T> View for Grid<T> {
    type V = Seq<T>;

    open spec fn view(&self) -> Seq<T> {
        self.grid_points@
    }
}

/// A function sampled on a grid: `function_values[i]` is its value at the
/// grid's point `i`.
#[derive(Debug)]
pub struct GridFunction<T> {
    pub grid: Grid<T>,
    pub function_values: Vec<T>,
}

/// The samples `ys` brought to length `n`: cut to their first `n` where there
/// are more, extended with trailing `zero`s where there are fewer.
pub open spec fn padded<T>(ys: Seq<T>, n: nat, zero: T) -> Seq<T> {
    Seq::new(n, |i: int| if i < ys.len() { ys[i] } else { zero })
}

/// `rs` combines `xs` with `ys` element-wise by `op`: one result for each
/// element of `xs`, paired with the element of `ys` at the same index, or with
/// `zero` where `ys` is shorter.
pub open spec fn is_combination<T, F: Fn(T, T) -> T>(
    op: F,
    xs: Seq<T>,
    ys: Seq<T>,
    zero: T,
    rs: Seq<T>,
) -> bool {
    &&& rs.len() == xs.len()
    &&& forall|i: int|
        0 <= i < xs.len() ==> op.ensures((xs[i], padded(ys, xs.len(), zero)[i]), #[trigger] rs[i])
}

/// `rs` is `f` applied to each element of `xs`.
pub open spec fn is_image<T, F: Fn(T) -> T>(f: F, xs: Seq<T>, rs: Seq<T>) -> bool {
    &&& rs.len() == xs.len()
    &&& forall|i: int| 0 <= i < xs.len() ==> f.ensures((xs[i],), #[trigger] rs[i])
}

/// `f` can be applied to each element of `xs`.
pub open spec fn defined_on<T, F: Fn(T) -> T>(f: F, xs: Seq<T>) -> bool {
    forall|i: int| 0 <= i < xs.len() ==> #[trigger] f.requires((xs[i],))
}

/// A uniform grid from `start_point` to `end_point` collapses to its start
/// when fewer than two points are asked for or when the bounds are not in
/// increasing order.
pub open spec fn collapses(num_points: nat, bounds_reversed: bool) -> bool {
    num_points <= 1 || bounds_reversed
}

/// `points` is the uniform grid with `num_points` points from `start_point`
/// to `end_point`, where `reversed` tells whether the bounds are out of order
/// and `point(start_point, end_point, num_points, i)` is the coordinate of
/// point `i`.
pub open spec fn is_uniform_grid<T, R: Fn(T, T) -> bool, P: Fn(T, T, usize, usize) -> T>(
    reversed: R,
    point: P,
    start_point: T,
    end_point: T,
    num_points: usize,
    points: Seq<T>,
) -> bool {
    exists|rev: bool|
        #[trigger] reversed.ensures((start_point, end_point), rev) && if collapses(
            num_points as nat,
            rev,
        ) {
            points == seq![start_point]
        } else {
            &&& points.len() == num_points
            &&& forall|i: int|
                0 <= i < num_points ==> point.ensures(
                    (start_point, end_point, num_points, i as usize),
                    #[trigger] points[i],
                )
        }
}

/// `op` gives at most one result for each pair of arguments, as a pure
/// function does.
pub open spec fn deterministic_binary<T, F: Fn(T, T) -> T>(op: F) -> bool {
    forall|x: T, y: T, r1: T, r2: T|
        #[trigger] op.ensures((x, y), r1) && #[trigger] op.ensures((x, y), r2) ==> r1 == r2
}

/// `f` gives at most one result for each argument, as a pure function does.
pub open spec fn deterministic_unary<T, F: Fn(T) -> T>(f: F) -> bool {
    forall|x: T, r1: T, r2: T| #[trigger] f.ensures((x,), r1) && #[trigger] f.ensures((x,), r2) ==> r1 == r2
}

/// Two grid functions of the same length are combined index by index: each
/// value of the result is `op` of the two values at its index.
pub proof fn lemma_combination_of_equal_lengths<T, F: Fn(T, T) -> T>(
    op: F,
    xs: Seq<T>,
    ys: Seq<T>,
    zero: T,
    rs: Seq<T>,
)
    requires
        xs.len() == ys.len(),
        is_combination(op, xs, ys, zero, rs),
    ensures
        rs.len() == xs.len(),
        forall|i: int| 0 <= i < xs.len() ==> #[trigger] op.ensures((xs[i], ys[i]), rs[i]),
{
    assert forall|i: int| 0 <= i < xs.len() implies #[trigger] op.ensures((xs[i], ys[i]), rs[i]) by {
        assert(padded(ys, xs.len(), zero)[i] == ys[i]);
    }
}

/// Where the second grid function is the shorter, each value of the result
/// past its end is `op` of the first function's value and `zero`.
pub proof fn lemma_combination_pads_with_zero<T, F: Fn(T, T) -> T>(
    op: F,
    xs: Seq<T>,
    ys: Seq<T>,
    zero: T,
    rs: Seq<T>,
)
    requires
        is_combination(op, xs, ys, zero, rs),
    ensures
        forall|i: int| ys.len() <= i < xs.len() ==> #[trigger] op.ensures((xs[i], zero), rs[i]),
{
    assert forall|i: int| ys.len() <= i < xs.len() implies #[trigger] op.ensures((xs[i], zero), rs[i]) by {
        assert(padded(ys, xs.len(), zero)[i] == zero);
    }
}

/// Combining the same values twice with a pure operation gives identical
/// results.
pub proof fn lemma_combination_deterministic<T, F: Fn(T, T) -> T>(
    op: F,
    xs: Seq<T>,
    ys: Seq<T>,
    zero: T,
    rs1: Seq<T>,
    rs2: Seq<T>,
)
    requires
        deterministic_binary(op),
        is_combination(op, xs, ys, zero, rs1),
        is_combination(op, xs, ys, zero, rs2),
    ensures
        rs1 == rs2,
{
    assert forall|i: int| 0 <= i < rs1.len() implies rs1[i] == rs2[i] by {
        assert(op.ensures((xs[i], padded(ys, xs.len(), zero)[i]), rs1[i]));
        assert(op.ensures((xs[i], padded(ys, xs.len(), zero)[i]), rs2[i]));
    }
    assert(rs1 =~= rs2);
}

/// Sampling the same points twice with a pure function, or mapping the same
/// values twice, gives identical results.
pub proof fn lemma_image_deterministic<T, F: Fn(T) -> T>(f: F, xs: Seq<T>, rs1: Seq<T>, rs2: Seq<T>)
    requires
        deterministic_unary(f),
        is_image(f, xs, rs1),
        is_image(f, xs, rs2),
    ensures
        rs1 == rs2,
{
    assert forall|i: int| 0 <= i < rs1.len() implies rs1[i] == rs2[i] by {
        assert(f.ensures((xs[i],), rs1[i]));
        assert(f.ensures((xs[i],), rs2[i]));
    }
    assert(rs1 =~= rs2);
}

/// Building a uniform grid twice from the same bounds and count, with a pure
/// order test and a pure coordinate formula, gives identical grids.
pub proof fn lemma_uniform_grid_deterministic<T, R: Fn(T, T) -> bool, P: Fn(T, T, usize, usize) -> T>(
    reversed: R,
    point: P,
    start_point: T,
    end_point: T,
    num_points: usize,
    points1: Seq<T>,
    points2: Seq<T>,
)
    requires
        forall|x: T, y: T, b1: bool, b2: bool|
            #[trigger] reversed.ensures((x, y), b1) && #[trigger] reversed.ensures((x, y), b2) ==> b1 == b2,
        forall|x: T, y: T, n: usize, i: usize, r1: T, r2: T|
            #[trigger] point.ensures((x, y, n, i), r1) && #[trigger] point.ensures((x, y, n, i), r2) ==> r1 == r2,
        is_uniform_grid(reversed, point, start_point, end_point, num_points, points1),
        is_uniform_grid(reversed, point, start_point, end_point, num_points, points2),
    ensures
        points1 == points2,
{
    let rev1 = choose|rev: bool|
        #[trigger] reversed.ensures((start_point, end_point), rev) && if collapses(num_points as nat, rev) {
            points1 == seq![start_point]
        } else {
            &&& points1.len() == num_points
            &&& forall|i: int|
                0 <= i < num_points ==> point.ensures(
                    (start_point, end_point, num_points, i as usize),
                    #[trigger] points1[i],
                )
        };
    let rev2 = choose|rev: bool|
        #[trigger] reversed.ensures((start_point, end_point), rev) && if collapses(num_points as nat, rev) {
            points2 == seq![start_point]
        } else {
            &&& points2.len() == num_points
            &&& forall|i: int|
                0 <= i < num_points ==> point.ensures(
                    (start_point, end_point, num_points, i as usize),
                    #[trigger] points2[i],
                )
        };
    assert(rev1 == rev2);
    if !collapses(num_points as nat, rev1) {
        assert forall|i: int| 0 <= i < points1.len() implies points1[i] == points2[i] by {
            assert(point.ensures((start_point, end_point, num_points, i as usize), points1[i]));
            assert(point.ensures((start_point, end_point, num_points, i as usize), points2[i]));
        }
        assert(points1 =~= points2);
    }
}

/// An element-wise copy of a vector of samples.
fn copy_samples<T: Copy>(v: &Vec<T>) -> (r: Vec<T>)
    ensures
        r@ == v@,
{
    let mut r: Vec<T> = Vec::with_capacity(v.len());
    let mut i: usize = 0;
    while i < v.len()
        invariant
            i <= v@.len(),
            r@ == v@.subrange(0, i as int),
        decreases v@.len() - i,
    {
        r.push(v[i]);
        i += 1;
    }
    assert(r@ =~= v@);
    r
}

/// `f` applied to each element of `xs`, in order.
fn map_samples<T: Copy, F: Fn(T) -> T>(xs: &Vec<T>, f: &F) -> (r: Vec<T>)
    requires
        defined_on(*f, xs@),
    ensures
        is_image(*f, xs@, r@),
{
    let mut r: Vec<T> = Vec::with_capacity(xs.len());
    let mut i: usize = 0;
    while i < xs.len()
        invariant
            i <= xs@.len(),
            defined_on(*f, xs@),
            r@.len() == i,
            forall|j: int| 0 <= j < i ==> #[trigger] f.ensures((xs@[j],), r@[j]),
        decreases xs@.len() - i,
    {
        let v = f(xs[i]);
        r.push(v);
        i += 1;
    }
    r
}

impl<T: Copy> Grid<T> {
    /// The uniform grid of `num_points` points from `start_point` to
    /// `end_point`, both included. `reversed(start_point, end_point)` tells
    /// whether the bounds are out of order; `point(start_point, end_point,
    /// num_points, i)` gives the coordinate of point `i`. Where fewer than two
    /// points are asked for, or the bounds are out of order, the grid is the
    /// single point `start_point`.
    pub fn new_uniform_grid<R: Fn(T, T) -> bool, P: Fn(T, T, usize, usize) -> T>(
        start_point: T,
        end_point: T,
        num_points: usize,
        reversed: R,
        point: P,
    ) -> (r: Grid<T>)
        requires
            reversed.requires((start_point, end_point)),
            forall|i: usize| i < num_points ==> #[trigger] point.requires((start_point, end_point, num_points, i)),
        ensures
            is_uniform_grid(reversed, point, start_point, end_point, num_points, r@),
    {
        let rev = reversed(start_point, end_point);
        if rev || num_points <= 1 {
            let mut grid_points: Vec<T> = Vec::new();
            grid_points.push(start_point);
            assert(grid_points@ =~= seq![start_point]);
            return Grid { grid_points };
        }
        let mut grid_points: Vec<T> = Vec::with_capacity(num_points);
        let mut i: usize = 0;
        while i < num_points
            invariant
                i <= num_points,
                forall|k: usize| k < num_points ==> #[trigger] point.requires((start_point, end_point, num_points, k)),
                grid_points@.len() == i,
                forall|j: int|
                    0 <= j < i ==> #[trigger] point.ensures(
                        (start_point, end_point, num_points, j as usize),
                        grid_points@[j],
                    ),
            decreases num_points - i,
        {
            let x = point(start_point, end_point, num_points, i);
            grid_points.push(x);
            i += 1;
        }
        assert(reversed.ensures((start_point, end_point), rev));
        Grid { grid_points }
    }

    /// A grid with the same points as this one, owned separately.
    pub fn copy_grid(&self) -> (r: Grid<T>)
        ensures
            r@ == self@,
    {
        Grid { grid_points: copy_samples(&self.grid_points) }
    }
}

impl<T: Copy> GridFunction<T> {
    /// The function `func` sampled at each point of a copy of `grid`, in
    /// order.
    pub fn new_grid_function<F: Fn(T) -> T>(grid: &Grid<T>, func: F) -> (r: GridFunction<T>)
        requires
            defined_on(func, grid@),
        ensures
            r.grid@ == grid@,
            is_image(func, grid@, r.function_values@),
    {
        let grid = grid.copy_grid();
        let function_values = map_samples(&grid.grid_points, &func);
        GridFunction { grid, function_values }
    }

    /// `f` applied to each value of `grid_function`, on a copy of its grid:
    /// with `f(x) = s * x`, the product of the function with the scalar `s`.
    pub fn grid_function_map<F: Fn(T) -> T>(grid_function: &GridFunction<T>, f: F) -> (r: GridFunction<T>)
        requires
            defined_on(f, grid_function.function_values@),
        ensures
            r.grid@ == grid_function.grid@,
            is_image(f, grid_function.function_values@, r.function_values@),
    {
        let grid = grid_function.grid.copy_grid();
        let function_values = map_samples(&grid_function.function_values, &f);
        GridFunction { grid, function_values }
    }

    /// The element-wise combination of two grid functions by `op`, on a copy
    /// of the first one's grid. The result has one value for each value of
    /// the first function. Where the second has fewer values it is taken as
    /// extended with trailing `zero`s; where it has more, those past the
    /// first function's length are not used. With `op` the sum, difference,
    /// product or quotient of two samples, this is the sum, difference,
    /// product or quotient of the two grid functions.
    pub fn grid_function_combination<F: Fn(T, T) -> T>(
        grid_function_1: &GridFunction<T>,
        grid_function_2: &GridFunction<T>,
        zero: T,
        op: F,
    ) -> (r: GridFunction<T>)
        requires
            forall|x: T, y: T| #[trigger] op.requires((x, y)),
        ensures
            r.grid@ == grid_function_1.grid@,
            is_combination(
                op,
                grid_function_1.function_values@,
                grid_function_2.function_values@,
                zero,
                r.function_values@,
            ),
    {
        let grid = grid_function_1.grid.copy_grid();
        let xs = &grid_function_1.function_values;
        let ys = &grid_function_2.function_values;
        let n = xs.len();
        let ghost padded_ys = padded(ys@, n as nat, zero);
        let mut function_values: Vec<T> = Vec::with_capacity(n);
        let mut i: usize = 0;
        while i < n
            invariant
                n == xs@.len(),
                i <= n,
                padded_ys == padded(ys@, n as nat, zero),
                forall|x: T, y: T| #[trigger] op.requires((x, y)),
                function_values@.len() == i,
                forall|j: int|
                    0 <= j < i ==> #[trigger] op.ensures((xs@[j], padded_ys[j]), function_values@[j]),
            decreases n - i,
        {
            // Past the end of the second function's values, it counts as zero.
            let y = if i < ys.len() {
                ys[i]
            } else {
                zero
            };
            assert(y == padded_ys[i as int]);
            let v = op(xs[i], y);
            function_values.push(v);
            i += 1;
        }
        GridFunction { grid, function_values }
    }

    /// The constant function with value `scalar` on a copy of `grid`.
    pub fn new_constant_grid_function(grid: &Grid<T>, scalar: T) -> (r: GridFunction<T>)
        ensures
            r.grid@ == grid@,
            r.function_values@ == Seq::new(grid@.len(), |i: int| scalar),
    {
        let grid = grid.copy_grid();
        let mut function_values: Vec<T> = Vec::with_capacity(grid.grid_points.len());
        let mut i: usize = 0;
        while i < grid.grid_points.len()
            invariant
                i <= grid@.len(),
                function_values@ == Seq::new(i as nat, |j: int| scalar),
            decreases grid@.len() - i,
        {
            function_values.push(scalar);
            i += 1;
            assert(function_values@ =~= Seq::new(i as nat, |j: int| scalar));
        }
        GridFunction { grid, function_values }
    }
}

} // verus!
