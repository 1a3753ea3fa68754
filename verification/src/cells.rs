//! The mathematics of a grid: rows of whole numbers, their sums and bounds.

use vstd::prelude::*;

verus! {

/// The rows of a grid, top row first.
pub type Rows = Seq<Seq<i64>>;

/// Whether every row has `width` cells.
pub open spec fn rectangular(rows: Rows, width: nat) -> bool {
    forall|r: int| 0 <= r < rows.len() ==> (#[trigger] rows[r]).len() == width
}

/// Whether two grids have as many rows, and row by row as many cells.
pub open spec fn same_shape(a: Rows, b: Rows) -> bool {
    &&& a.len() == b.len()
    &&& forall|r: int| 0 <= r < a.len() ==> (#[trigger] a[r]).len() == b[r].len()
}

/// `height` rows of `width` cells that all hold `value`.
pub open spec fn constant_rows(height: nat, width: nat, value: i64) -> Rows {
    Seq::new(height, |r: int| Seq::new(width, |c: int| value))
}

/// Whether a cell-by-cell operation on `a` and `b` stays within `i64`:
/// `sign` is 1 for the sum and -1 for the difference.
pub open spec fn combines(a: Rows, b: Rows, sign: int) -> bool {
    forall|r: int, c: int|
        0 <= r < a.len() && 0 <= c < a[r].len() ==> i64::MIN <= #[trigger] a[r][c] + sign * b[r][c]
            <= i64::MAX
}

/// The grid that holds `a[r][c] + sign * b[r][c]` in each cell.
pub open spec fn combined(a: Rows, b: Rows, sign: int) -> Rows {
    Seq::new(a.len(), |r: int| Seq::new(a[r].len(), |c: int| (a[r][c] + sign * b[r][c]) as i64))
}

/// Whether every cell-by-cell product of `a` and `b` stays within `i64`.
pub open spec fn multiplies(a: Rows, b: Rows) -> bool {
    forall|r: int, c: int|
        0 <= r < a.len() && 0 <= c < a[r].len() ==> i64::MIN <= #[trigger] a[r][c] * b[r][c]
            <= i64::MAX
}

/// The grid that holds `a[r][c] * b[r][c]` in each cell.
pub open spec fn product(a: Rows, b: Rows) -> Rows {
    Seq::new(a.len(), |r: int| Seq::new(a[r].len(), |c: int| (a[r][c] * b[r][c]) as i64))
}

/// The sum of `f(0)`, ..., `f(n - 1)`.
pub open spec fn span_sum(f: spec_fn(int) -> int, n: nat) -> int
    decreases n,
{
    if n == 0 {
        0
    } else {
        span_sum(f, (n - 1) as nat) + f(n - 1)
    }
}

/// Row `r` of the table `f`, as a function of the column.
pub open spec fn row_of(f: spec_fn(int, int) -> int, r: int) -> spec_fn(int) -> int {
    |c: int| f(r, c)
}

/// The sum of `f(r, c)` over the rows below `height` and the columns
/// below `width`.
pub open spec fn table_sum(f: spec_fn(int, int) -> int, height: nat, width: nat) -> int
    decreases height,
{
    if height == 0 {
        0
    } else {
        table_sum(f, (height - 1) as nat, width) + span_sum(row_of(f, height - 1), width)
    }
}

/// The distance of `v` from zero.
pub open spec fn magnitude(v: int) -> int {
    if v < 0 {
        -v
    } else {
        v
    }
}

/// The sum of all cells of a grid with `width` columns.
pub open spec fn total(rows: Rows, width: nat) -> int {
    table_sum(|r: int, c: int| rows[r][c] as int, rows.len(), width)
}

/// The sum of the magnitudes of all cells. No sum of some of the cells,
/// taken in any order, is further from zero.
pub open spec fn weight(rows: Rows, width: nat) -> int {
    table_sum(|r: int, c: int| magnitude(rows[r][c] as int), rows.len(), width)
}

/// The sum over all cells of the product of the cell of `a` and the cell
/// of `b`.
pub open spec fn dot(a: Rows, b: Rows, width: nat) -> int {
    table_sum(|r: int, c: int| a[r][c] * b[r][c], a.len(), width)
}

/// The sum over all cells of the magnitude of that product.
pub open spec fn load(a: Rows, b: Rows, width: nat) -> int {
    table_sum(|r: int, c: int| magnitude(a[r][c] * b[r][c]), a.len(), width)
}

/// Whether no cell is further than `limit` from zero.
pub open spec fn bounded(rows: Rows, width: nat, limit: int) -> bool {
    forall|r: int, c: int|
        0 <= r < rows.len() && 0 <= c < width ==> -limit <= #[trigger] rows[r][c] <= limit
}

/// Whether every cell holds 0 or 1.
pub open spec fn binary(rows: Rows, width: nat) -> bool {
    forall|r: int, c: int|
        0 <= r < rows.len() && 0 <= c < width ==> 0 <= #[trigger] rows[r][c] <= 1
}

/// A sum grows with its terms.
pub proof fn lemma_span_sum_le(f: spec_fn(int) -> int, g: spec_fn(int) -> int, n: nat)
    requires
        forall|i: int| 0 <= i < n ==> #[trigger] f(i) <= g(i),
    ensures
        span_sum(f, n) <= span_sum(g, n),
    decreases n,
{
    if n > 0 {
        lemma_span_sum_le(f, g, (n - 1) as nat);
    }
}

/// A sum over a table grows with its terms.
pub proof fn lemma_table_sum_le(
    f: spec_fn(int, int) -> int,
    g: spec_fn(int, int) -> int,
    height: nat,
    width: nat,
)
    requires
        forall|r: int, c: int| 0 <= r < height && 0 <= c < width ==> #[trigger] f(r, c) <= g(r, c),
    ensures
        table_sum(f, height, width) <= table_sum(g, height, width),
    decreases height,
{
    if height > 0 {
        lemma_table_sum_le(f, g, (height - 1) as nat, width);
        let fr = row_of(f, height - 1);
        let gr = row_of(g, height - 1);
        assert forall|i: int| 0 <= i < width implies #[trigger] fr(i) <= gr(i) by {
            assert(f(height - 1, i) <= g(height - 1, i));
        }
        lemma_span_sum_le(fr, gr, width);
    }
}

/// Tables that agree term by term have the same sum.
pub proof fn lemma_table_sum_eq(
    f: spec_fn(int, int) -> int,
    g: spec_fn(int, int) -> int,
    height: nat,
    width: nat,
)
    requires
        forall|r: int, c: int| 0 <= r < height && 0 <= c < width ==> #[trigger] f(r, c) == g(r, c),
    ensures
        table_sum(f, height, width) == table_sum(g, height, width),
{
    assert forall|r: int, c: int| 0 <= r < height && 0 <= c < width implies #[trigger] g(r, c)
        <= f(r, c) by {
        assert(f(r, c) == g(r, c));
    }
    lemma_table_sum_le(f, g, height, width);
    lemma_table_sum_le(g, f, height, width);
}

/// A sum of `n` terms, none above `limit`, is at most `n * limit`.
pub proof fn lemma_span_sum_bound(f: spec_fn(int) -> int, n: nat, limit: int)
    requires
        forall|i: int| 0 <= i < n ==> #[trigger] f(i) <= limit,
    ensures
        span_sum(f, n) <= n * limit,
    decreases n,
{
    if n > 0 {
        lemma_span_sum_bound(f, (n - 1) as nat, limit);
        assert((n - 1) * limit + limit == n * limit) by (nonlinear_arith);
    } else {
        assert(n * limit == 0) by (nonlinear_arith)
            requires
                n == 0,
        ;
    }
}

/// A sum over a table, no term above `limit`, is at most
/// `height * width * limit`.
pub proof fn lemma_table_sum_bound(f: spec_fn(int, int) -> int, height: nat, width: nat, limit: int)
    requires
        forall|r: int, c: int| 0 <= r < height && 0 <= c < width ==> #[trigger] f(r, c) <= limit,
    ensures
        table_sum(f, height, width) <= height * width * limit,
    decreases height,
{
    if height > 0 {
        lemma_table_sum_bound(f, (height - 1) as nat, width, limit);
        let fr = row_of(f, height - 1);
        assert forall|i: int| 0 <= i < width implies #[trigger] fr(i) <= limit by {
            assert(f(height - 1, i) <= limit);
        }
        lemma_span_sum_bound(fr, width, limit);
        assert((height - 1) * width * limit + width * limit == height * width * limit)
            by (nonlinear_arith);
    } else {
        assert(height * width * limit == 0) by (nonlinear_arith)
            requires
                height == 0,
        ;
    }
}

/// In a sum of terms that are not negative, no term is above the sum.
pub proof fn lemma_span_sum_member(f: spec_fn(int) -> int, n: nat, i: int)
    requires
        forall|j: int| 0 <= j < n ==> 0 <= #[trigger] f(j),
        0 <= i < n,
    ensures
        0 <= f(i) <= span_sum(f, n),
    decreases n,
{
    lemma_span_sum_nonnegative(f, (n - 1) as nat);
    if i < n - 1 {
        lemma_span_sum_member(f, (n - 1) as nat, i);
    }
}

/// A sum of terms that are not negative is not negative.
pub proof fn lemma_span_sum_nonnegative(f: spec_fn(int) -> int, n: nat)
    requires
        forall|j: int| 0 <= j < n ==> 0 <= #[trigger] f(j),
    ensures
        0 <= span_sum(f, n),
    decreases n,
{
    if n > 0 {
        lemma_span_sum_nonnegative(f, (n - 1) as nat);
    }
}

/// A sum over a table of terms that are not negative is not negative.
pub proof fn lemma_table_sum_nonnegative(f: spec_fn(int, int) -> int, height: nat, width: nat)
    requires
        forall|r: int, c: int| 0 <= r < height && 0 <= c < width ==> 0 <= #[trigger] f(r, c),
    ensures
        0 <= table_sum(f, height, width),
    decreases height,
{
    if height > 0 {
        lemma_table_sum_nonnegative(f, (height - 1) as nat, width);
        let fr = row_of(f, height - 1);
        assert forall|j: int| 0 <= j < width implies 0 <= #[trigger] fr(j) by {
            assert(0 <= f(height - 1, j));
        }
        lemma_span_sum_nonnegative(fr, width);
    }
}

/// In a sum over a table of terms that are not negative, no term is above
/// the sum.
pub proof fn lemma_table_sum_member(
    f: spec_fn(int, int) -> int,
    height: nat,
    width: nat,
    r: int,
    c: int,
)
    requires
        forall|i: int, j: int| 0 <= i < height && 0 <= j < width ==> 0 <= #[trigger] f(i, j),
        0 <= r < height,
        0 <= c < width,
    ensures
        0 <= f(r, c) <= table_sum(f, height, width),
    decreases height,
{
    lemma_table_sum_nonnegative(f, (height - 1) as nat, width);
    let fr = row_of(f, height - 1);
    assert forall|j: int| 0 <= j < width implies 0 <= #[trigger] fr(j) by {
        assert(0 <= f(height - 1, j));
    }
    lemma_span_sum_nonnegative(fr, width);
    if r < height - 1 {
        lemma_table_sum_member(f, (height - 1) as nat, width, r, c);
    } else {
        lemma_span_sum_member(fr, width, c);
    }
}

/// Where the magnitudes of the products add up within `i64`, each product
/// is within `i64`, the grid of products weighs what the two grids load,
/// and its cells add up to their dot product.
pub proof fn lemma_product_sums(a: Rows, b: Rows, width: nat)
    requires
        rectangular(a, width),
        rectangular(b, width),
        a.len() == b.len(),
        load(a, b, width) <= i64::MAX,
    ensures
        multiplies(a, b),
        weight(product(a, b), width) == load(a, b, width),
        total(product(a, b), width) == dot(a, b, width),
{
    let terms = |r: int, c: int| magnitude(a[r][c] * b[r][c]);
    assert forall|r: int, c: int| 0 <= r < a.len() && 0 <= c < a[r].len() implies i64::MIN
        <= #[trigger] a[r][c] * b[r][c] <= i64::MAX by {
        lemma_table_sum_member(terms, a.len(), width, r, c);
        assert(terms(r, c) == magnitude(a[r][c] * b[r][c]));
    }
    let p = product(a, b);
    assert forall|r: int, c: int| 0 <= r < a.len() && 0 <= c < width implies #[trigger] p[r][c]
        == a[r][c] * b[r][c] by {
        assert(i64::MIN <= a[r][c] * b[r][c] <= i64::MAX);
    }
    lemma_table_sum_eq(
        |r: int, c: int| magnitude(p[r][c] as int),
        terms,
        a.len(),
        width,
    );
    lemma_table_sum_eq(
        |r: int, c: int| p[r][c] as int,
        |r: int, c: int| a[r][c] * b[r][c],
        a.len(),
        width,
    );
}

/// A grid within `limit` loads a grid of zeros and ones with at most
/// `limit` for each cell.
pub proof fn lemma_load_bound(a: Rows, b: Rows, width: nat, limit: int)
    requires
        bounded(a, width, limit),
        binary(b, width),
        a.len() == b.len(),
    ensures
        load(a, b, width) <= a.len() * width * limit,
{
    let terms = |r: int, c: int| magnitude(a[r][c] * b[r][c]);
    assert forall|r: int, c: int| 0 <= r < a.len() && 0 <= c < width implies #[trigger] terms(r, c)
        <= limit by {
        let x = a[r][c];
        let y = b[r][c];
        assert(-limit <= x <= limit);
        assert(0 <= y <= 1);
        assert(x * y == 0 || x * y == x) by (nonlinear_arith)
            requires
                0 <= y <= 1,
        ;
    }
    lemma_table_sum_bound(terms, a.len(), width, limit);
}

/// Adding or taking a grid of zeros and ones moves no cell by more than
/// one.
pub proof fn lemma_combined_bounded(a: Rows, b: Rows, width: nat, sign: int, limit: int)
    requires
        rectangular(a, width),
        rectangular(b, width),
        a.len() == b.len(),
        bounded(a, width, limit),
        binary(b, width),
        sign == 1 || sign == -1,
        limit < i64::MAX,
    ensures
        combines(a, b, sign),
        combined(a, b, sign).len() == a.len(),
        rectangular(combined(a, b, sign), width),
        bounded(combined(a, b, sign), width, limit + 1),
{
    assert forall|r: int, c: int| 0 <= r < a.len() && 0 <= c < a[r].len() implies i64::MIN
        <= #[trigger] a[r][c] + sign * b[r][c] <= i64::MAX by {
        assert(-limit <= a[r][c] <= limit);
        assert(0 <= b[r][c] <= 1);
    }
    let sum = combined(a, b, sign);
    assert forall|r: int, c: int| 0 <= r < sum.len() && 0 <= c < width implies -(limit + 1)
        <= #[trigger] sum[r][c] <= limit + 1 by {
        assert(-limit <= a[r][c] <= limit);
        assert(0 <= b[r][c] <= 1);
        assert(i64::MIN <= a[r][c] + sign * b[r][c] <= i64::MAX);
    }
}

/// Whether no cell of `b` is further than `distance` from its counterpart
/// in `a`, the two having the same shape.
pub open spec fn drift(a: Rows, b: Rows, width: nat, distance: int) -> bool {
    &&& a.len() == b.len()
    &&& forall|r: int, c: int|
        0 <= r < a.len() && 0 <= c < width ==> -distance <= #[trigger] b[r][c] - a[r][c] <= distance
}

/// Drifts add up.
pub proof fn lemma_drift_chain(a: Rows, b: Rows, c: Rows, width: nat, first: int, second: int)
    requires
        drift(a, b, width, first),
        drift(b, c, width, second),
    ensures
        drift(a, c, width, first + second),
{
    assert forall|r: int, k: int| 0 <= r < a.len() && 0 <= k < width implies -(first + second)
        <= #[trigger] c[r][k] - a[r][k] <= first + second by {
        assert(-first <= b[r][k] - a[r][k] <= first);
        assert(-second <= c[r][k] - b[r][k] <= second);
    }
}

/// A grid that has drifted from one within `limit` is within `limit` and
/// the drift.
pub proof fn lemma_drift_bounded(a: Rows, b: Rows, width: nat, limit: int, distance: int)
    requires
        bounded(a, width, limit),
        drift(a, b, width, distance),
    ensures
        bounded(b, width, limit + distance),
{
    assert forall|r: int, c: int| 0 <= r < b.len() && 0 <= c < width implies -(limit + distance)
        <= #[trigger] b[r][c] <= limit + distance by {
        assert(-limit <= a[r][c] <= limit);
        assert(-distance <= b[r][c] - a[r][c] <= distance);
    }
}

/// Adding or taking a grid of zeros and ones is a drift of one.
pub proof fn lemma_combined_drift(a: Rows, b: Rows, width: nat, sign: int)
    requires
        rectangular(a, width),
        rectangular(b, width),
        a.len() == b.len(),
        binary(b, width),
        sign == 1 || sign == -1,
        combines(a, b, sign),
    ensures
        drift(a, combined(a, b, sign), width, 1),
{
    let sum = combined(a, b, sign);
    assert forall|r: int, c: int| 0 <= r < a.len() && 0 <= c < width implies -1 <= #[trigger] sum[r][c]
        - a[r][c] <= 1 by {
        assert(0 <= b[r][c] <= 1);
        assert(i64::MIN <= a[r][c] + sign * b[r][c] <= i64::MAX);
    }
}

/// A sum of ones on the terms from `lo` to `hi` and zeros elsewhere
/// counts the terms of that interval that it has reached.
pub proof fn lemma_span_sum_interval(f: spec_fn(int) -> int, n: nat, lo: int, hi: int)
    requires
        0 <= lo <= hi,
        forall|i: int|
            0 <= i < n ==> #[trigger] f(i) == if lo <= i <= hi {
                1int
            } else {
                0int
            },
    ensures
        span_sum(f, n) == if n <= lo {
            0
        } else if n > hi {
            hi - lo + 1
        } else {
            n - lo
        },
    decreases n,
{
    if n > 0 {
        lemma_span_sum_interval(f, (n - 1) as nat, lo, hi);
    }
}

/// A sum over a table whose rows from `lo` to `hi` each add up to `each`,
/// and the others to zero, is `each` for every row of that band that it
/// has reached.
pub proof fn lemma_table_sum_band(
    f: spec_fn(int, int) -> int,
    height: nat,
    width: nat,
    lo: int,
    hi: int,
    each: int,
)
    requires
        0 <= lo <= hi,
        forall|r: int|
            0 <= r < height ==> span_sum(#[trigger] row_of(f, r), width) == if lo <= r <= hi {
                each
            } else {
                0
            },
    ensures
        table_sum(f, height, width) == if height <= lo {
            0
        } else if height > hi {
            each * (hi - lo + 1)
        } else {
            each * (height - lo)
        },
    decreases height,
{
    if height > 0 {
        lemma_table_sum_band(f, (height - 1) as nat, width, lo, hi, each);
        let row = row_of(f, height - 1);
        assert(span_sum(row, width) == if lo <= height - 1 <= hi {
            each
        } else {
            0
        });
        if lo <= height - 1 <= hi {
            assert(each * (height - 1 - lo) + each == each * (height - lo)) by (nonlinear_arith);
        }
        if height - 1 == lo {
            assert(each * (height - 1 - lo) == 0) by (nonlinear_arith)
                requires
                    height - 1 - lo == 0,
            ;
        }
    }
}

} // verus!
