//! Rectangles and their subdivision into a grid of cells.
//!
//! All coordinates are `i32`; the model computes with unbounded integers, and each function
//! requires that the coordinates it returns fit.

use crate::text::{decimal, natural_digits, push_decimal, push_natural};
use vstd::prelude::*;

verus! {

/// A rectangle defined by integer coordinates.
#[derive(Clone, Copy, Debug, PartialEq, Eq, Structural)]
pub struct Rect {
    pub x: i32,
    pub y: i32,
    pub width: i32,
    pub height: i32,
}

/// A grid cell selection (row and column, both counted from zero).
#[derive(Clone, Copy, Debug, PartialEq, Eq, Structural)]
pub struct CellIndex {
    pub row: usize,
    pub col: usize,
}

/// Whether `v` is an `i32`.
pub open spec fn fits(v: int) -> bool {
    i32::MIN <= v <= i32::MAX
}

/// `n`, but at least one.
pub open spec fn at_least_one(n: int) -> int {
    if n < 1 {
        1
    } else {
        n
    }
}

/// The index `i`, or the last index below `n` if `i` lies past it.
pub open spec fn clip_index(i: int, n: int) -> int {
    if i < n {
        i
    } else {
        n - 1
    }
}

/// The quotient of `a` by a positive `b`, rounded toward zero.
pub open spec fn quot(a: int, b: int) -> int {
    if a >= 0 {
        a / b
    } else {
        -((-a) / b)
    }
}

/// Length of segment `i` when `total` is split into `parts` segments: the quotient, and one more
/// for each of the first `total % parts` segments. A negative total has no remainder to hand out.
pub open spec fn segment_len(total: int, parts: int, i: int) -> int {
    quot(total, parts) + if total >= 0 && i < total % parts {
        1int
    } else {
        0
    }
}

/// Where segment `k` starts, measured from the start of segment zero.
pub open spec fn segment_start(total: int, parts: int, k: int) -> int {
    k * quot(total, parts) + if total < 0 {
        0
    } else if k < total % parts {
        k
    } else {
        total % parts
    }
}

/// Whether a vector of `parts` lengths of four bytes each can be allocated at all.
pub open spec fn allocatable(parts: int) -> bool {
    parts * 4 <= isize::MAX
}

/// Sum of a sequence of lengths.
pub open spec fn sum(s: Seq<i32>) -> int
    decreases s.len(),
{
    if s.len() == 0 {
        0
    } else {
        sum(s.drop_last()) + s.last()
    }
}

impl Rect {
    /// The point `(px, py)` lies in this rectangle (right and bottom edges excluded).
    pub open spec fn contains(self, px: int, py: int) -> bool {
        &&& self.x <= px < self.x + self.width
        &&& self.y <= py < self.y + self.height
    }

    /// Neither side is negative.
    pub open spec fn is_proper(self) -> bool {
        self.width >= 0 && self.height >= 0
    }

    /// The corner opposite to `(x, y)` has `i32` coordinates.
    pub open spec fn in_range(self) -> bool {
        fits(self.x + self.width) && fits(self.y + self.height)
    }

    /// This rectangle lies in `outer`.
    pub open spec fn within(self, outer: Rect) -> bool {
        &&& outer.x <= self.x
        &&& outer.y <= self.y
        &&& self.x + self.width <= outer.x + outer.width
        &&& self.y + self.height <= outer.y + outer.height
    }

    /// The center has `i32` coordinates.
    pub open spec fn center_fits(self) -> bool {
        fits(self.x + quot(self.width as int, 2)) && fits(self.y + quot(self.height as int, 2))
    }

    /// The point halfway along both sides, rounded toward the corner `(x, y)`.
    pub open spec fn center_point(self) -> (i32, i32) {
        (
            (self.x + quot(self.width as int, 2)) as i32,
            (self.y + quot(self.height as int, 2)) as i32,
        )
    }

    /// Left edge of column `col` of `cols`.
    pub open spec fn col_x(self, cols: int, col: int) -> int {
        self.x + segment_start(self.width as int, cols, col)
    }

    /// Top edge of row `row` of `rows`.
    pub open spec fn row_y(self, rows: int, row: int) -> int {
        self.y + segment_start(self.height as int, rows, row)
    }

    /// The cell at `(row, col)` of a grid of `rows` by `cols` over this rectangle. A grid has at
    /// least one row and column, and an index past the last one selects the last one.
    pub open spec fn cell(self, rows: int, cols: int, row: int, col: int) -> Rect {
        let rows = at_least_one(rows);
        let cols = at_least_one(cols);
        let row = clip_index(row, rows);
        let col = clip_index(col, cols);
        Rect {
            x: self.col_x(cols, col) as i32,
            y: self.row_y(rows, row) as i32,
            width: segment_len(self.width as int, cols, col) as i32,
            height: segment_len(self.height as int, rows, row) as i32,
        }
    }

    /// The cell at `(row, col)` can be computed: its corner has `i32` coordinates, as it has
    /// wherever the far corner of this rectangle has.
    pub open spec fn cell_fits(self, rows: int, cols: int, row: int, col: int) -> bool {
        self.in_range() || self.corner_fits(rows, cols, row, col)
    }

    /// The corner of the cell at `(row, col)` has `i32` coordinates.
    pub open spec fn corner_fits(self, rows: int, cols: int, row: int, col: int) -> bool {
        let rows = at_least_one(rows);
        let cols = at_least_one(cols);
        let row = clip_index(row, rows);
        let col = clip_index(col, cols);
        fits(self.col_x(cols, col)) && fits(self.row_y(rows, row))
    }

    /// Create a new rectangle.
    pub fn new(x: i32, y: i32, width: i32, height: i32) -> (r: Self)
        ensures
            r == (Rect { x, y, width, height }),
    {
        Rect { x, y, width, height }
    }

    /// Get the center point of this rectangle.
    pub fn center(&self) -> (r: (i32, i32))
        requires
            self.center_fits(),
        ensures
            r == self.center_point(),
    {
        (self.x + self.width / 2, self.y + self.height / 2)
    }

    /// Get a sub-rectangle by row and column in a grid.
    pub fn cell_rect(&self, rows: usize, cols: usize, row: usize, col: usize) -> (r: Rect)
        requires
            allocatable(rows as int),
            allocatable(cols as int),
            self.cell_fits(rows as int, cols as int, row as int, col as int),
        ensures
            r == self.cell(rows as int, cols as int, row as int, col as int),
    {
        proof {
            if self.in_range() {
                law_cell_in_range(*self, rows, cols, row, col);
            }
        }
        let rows: usize = if rows < 1 { 1 } else { rows };
        let cols: usize = if cols < 1 { 1 } else { cols };
        let row: usize = if row < rows { row } else { rows - 1 };
        let col: usize = if col < cols { col } else { cols - 1 };

        let row_heights = split_lengths(self.height, rows);
        let col_widths = split_lengths(self.width, cols);

        let y: i32 = self.y + sum_of_first(&row_heights, row, self.height);
        let x: i32 = self.x + sum_of_first(&col_widths, col, self.width);
        Rect::new(x, y, col_widths[col], row_heights[row])
    }

    /// The rectangle as text.
    pub fn to_string(&self) -> (r: String)
        ensures
            r@ == "Rect(x="@ + decimal(self.x as int) + ", y="@ + decimal(self.y as int) + ", w="@
                + decimal(self.width as int) + ", h="@ + decimal(self.height as int) + ")"@,
    {
        let mut r = "Rect(x=".to_owned();
        push_decimal(&mut r, self.x);
        r.append(", y=");
        push_decimal(&mut r, self.y);
        r.append(", w=");
        push_decimal(&mut r, self.width);
        r.append(", h=");
        push_decimal(&mut r, self.height);
        r.append(")");
        r
    }
}

impl CellIndex {
    /// The cell index as text.
    pub fn to_string(&self) -> (r: String)
        ensures
            r@ == "Cell("@ + natural_digits(self.row as int) + ", "@ + natural_digits(
                self.col as int,
            ) + ")"@,
    {
        let mut r = "Cell(".to_owned();
        push_natural(&mut r, self.row as u64);
        r.append(", ");
        push_natural(&mut r, self.col as u64);
        r.append(")");
        r
    }
}

/// A segment extends from its own start to the start of the next one, and the first segment
/// starts at zero.
pub proof fn lemma_segment_step(total: int, parts: int, k: int)
    requires
        parts >= 1,
        k >= 0,
    ensures
        segment_start(total, parts, 0) == 0,
        segment_start(total, parts, k + 1) == segment_start(total, parts, k) + segment_len(
            total,
            parts,
            k,
        ),
{
    let q = quot(total, parts);
    assert((k + 1) * q == k * q + q) by (nonlinear_arith);
    assert(0 * q == 0);
    if total >= 0 {
        assert(0 <= total % parts < parts) by (nonlinear_arith)
            requires
                parts >= 1,
        ;
    }
}

/// No segment start lies outside of what is split.
pub proof fn lemma_segment_start_bounds(total: int, parts: int, k: int)
    requires
        parts >= 1,
        0 <= k <= parts,
    ensures
        total >= 0 ==> 0 <= segment_start(total, parts, k) <= total,
        total <= 0 ==> total <= segment_start(total, parts, k) <= 0,
        total >= 0 ==> segment_start(total, parts, parts) == total,
{
    let q = quot(total, parts);
    if total >= 0 {
        let r = total % parts;
        assert(total == parts * q + r && 0 <= r < parts && q >= 0) by (nonlinear_arith)
            requires
                parts >= 1,
                total >= 0,
                q == total / parts,
                r == total % parts,
        ;
        assert(0 <= k * q <= parts * q) by (nonlinear_arith)
            requires
                0 <= k <= parts,
                q >= 0,
        ;
    } else {
        let p = (-total) / parts;
        assert(0 <= p && parts * p <= -total) by (nonlinear_arith)
            requires
                parts >= 1,
                total < 0,
                p == (-total) / parts,
        ;
        assert(0 <= k * p <= parts * p) by (nonlinear_arith)
            requires
                0 <= k <= parts,
                p >= 0,
        ;
        assert(k * q == -(k * p)) by (nonlinear_arith)
            requires
                q == -p,
        ;
    }
}

/// A segment is no longer than what is split, and has its sign.
pub proof fn lemma_segment_len_bounds(total: int, parts: int, i: int)
    requires
        parts >= 1,
        0 <= i < parts,
    ensures
        total >= 0 ==> 0 <= segment_len(total, parts, i) <= total,
        total <= 0 ==> total <= segment_len(total, parts, i) <= 0,
{
    lemma_segment_step(total, parts, i);
    lemma_segment_start_bounds(total, parts, i);
    lemma_segment_start_bounds(total, parts, i + 1);
    if total >= 0 {
        assert(total / parts >= 0) by (nonlinear_arith)
            requires
                parts >= 1,
                total >= 0,
        ;
    } else {
        assert((-total) / parts >= 0) by (nonlinear_arith)
            requires
                parts >= 1,
                total < 0,
        ;
    }
}

/// Split a length into `parts` segments with remainders distributed to the front.
pub fn split_lengths(total: i32, parts: usize) -> (v: Vec<i32>)
    requires
        allocatable(parts as int),
    ensures
        v@.len() == at_least_one(parts as int),
        forall|i: int|
            0 <= i < v@.len() ==> #[trigger] v@[i] == segment_len(
                total as int,
                at_least_one(parts as int),
                i,
            ),
{
    let parts: usize = if parts < 1 { 1 } else { parts };
    let base: i128 = total as i128 / parts as i128;
    let rem: i128 = total as i128 % parts as i128;
    let mut v: Vec<i32> = Vec::with_capacity(parts);
    let mut i: usize = 0;
    while i < parts
        invariant
            i <= parts,
            parts >= 1,
            v@.len() == i,
            base == quot(total as int, parts as int),
            total >= 0 ==> rem == total as int % parts as int,
            total < 0 ==> rem <= 0,
            forall|j: int|
                0 <= j < i ==> #[trigger] v@[j] == segment_len(total as int, parts as int, j),
        decreases parts - i,
    {
        proof {
            lemma_segment_len_bounds(total as int, parts as int, i as int);
        }
        let extra: i128 = if (i as i128) < rem { 1 } else { 0 };
        v.push((base + extra) as i32);
        i += 1;
    }
    v
}

/// Sum of the first `n` lengths of a split of `total`.
fn sum_of_first(lengths: &Vec<i32>, n: usize, total: i32) -> (s: i32)
    requires
        n < lengths@.len(),
        forall|i: int|
            0 <= i < lengths@.len() ==> #[trigger] lengths@[i] == segment_len(
                total as int,
                lengths@.len() as int,
                i,
            ),
    ensures
        s == segment_start(total as int, lengths@.len() as int, n as int),
{
    let mut s: i32 = 0;
    let mut i: usize = 0;
    proof {
        lemma_segment_step(total as int, lengths@.len() as int, 0);
    }
    while i < n
        invariant
            i <= n < lengths@.len(),
            s == segment_start(total as int, lengths@.len() as int, i as int),
            forall|i: int|
                0 <= i < lengths@.len() ==> #[trigger] lengths@[i] == segment_len(
                    total as int,
                    lengths@.len() as int,
                    i,
                ),
        decreases n - i,
    {
        proof {
            lemma_segment_step(total as int, lengths@.len() as int, i as int);
            lemma_segment_start_bounds(total as int, lengths@.len() as int, i + 1);
        }
        s = s + lengths[i];
        i += 1;
    }
    s
}

// ---------------------------------------------------------------------------------------------
// Laws of splitting
// ---------------------------------------------------------------------------------------------

/// The segments of a split add up to what was split: `lengths` is any sequence that
/// `split_lengths(total, parts)` may return.
pub proof fn law_split_preserves_total(total: i32, parts: usize, lengths: Seq<i32>)
    requires
        total >= 0,
        lengths.len() == at_least_one(parts as int),
        forall|i: int|
            0 <= i < lengths.len() ==> #[trigger] lengths[i] == segment_len(
                total as int,
                at_least_one(parts as int),
                i,
            ),
    ensures
        sum(lengths) == total,
{
    let n = at_least_one(parts as int);
    lemma_sum_is_start(total as int, n, lengths, n);
    assert(lengths.take(n) =~= lengths);
    lemma_segment_start_bounds(total as int, n, n);
}

proof fn lemma_sum_is_start(total: int, parts: int, lengths: Seq<i32>, k: int)
    requires
        parts >= 1,
        lengths.len() == parts,
        0 <= k <= parts,
        forall|i: int|
            0 <= i < lengths.len() ==> #[trigger] lengths[i] == segment_len(total, parts, i),
    ensures
        sum(lengths.take(k)) == segment_start(total, parts, k),
    decreases k,
{
    if k == 0 {
        lemma_segment_step(total, parts, 0);
    } else {
        lemma_sum_is_start(total, parts, lengths, k - 1);
        lemma_segment_step(total, parts, k - 1);
        assert(lengths.take(k).drop_last() =~= lengths.take(k - 1));
    }
}

/// Remainders go to the front: no segment is longer than an earlier one, none is shorter than an
/// earlier one by more than one, and no segment of a length is negative.
pub proof fn law_split_is_fair(total: i32, parts: usize, i: int, j: int)
    requires
        parts >= 1,
        0 <= i <= j < parts,
    ensures
        segment_len(total as int, parts as int, j) <= segment_len(total as int, parts as int, i),
        segment_len(total as int, parts as int, i) <= segment_len(total as int, parts as int, j)
            + 1,
        total >= 0 ==> segment_len(total as int, parts as int, j) >= 0,
{
    lemma_segment_len_bounds(total as int, parts as int, j);
}

// ---------------------------------------------------------------------------------------------
// Laws of the grid
// ---------------------------------------------------------------------------------------------

proof fn lemma_segment_start_monotone(total: int, parts: int, i: int, j: int)
    requires
        total >= 0,
        parts >= 1,
        0 <= i <= j <= parts,
    ensures
        segment_start(total, parts, i) <= segment_start(total, parts, j),
    decreases j - i,
{
    if i < j {
        lemma_segment_start_monotone(total, parts, i, j - 1);
        lemma_segment_step(total, parts, j - 1);
        lemma_segment_len_bounds(total, parts, j - 1);
    }
}

/// Every offset below `total` falls into some segment.
proof fn lemma_segment_covers(total: int, parts: int, d: int, n: int) -> (k: int)
    requires
        total >= 0,
        parts >= 1,
        0 <= n <= parts,
        0 <= d < segment_start(total, parts, n),
    ensures
        0 <= k < n,
        segment_start(total, parts, k) <= d < segment_start(total, parts, k) + segment_len(
            total,
            parts,
            k,
        ),
    decreases n,
{
    if n == 0 {
        lemma_segment_step(total, parts, 0);
        0
    } else if d < segment_start(total, parts, n - 1) {
        lemma_segment_covers(total, parts, d, n - 1)
    } else {
        lemma_segment_step(total, parts, n - 1);
        n - 1
    }
}

/// If the corner opposite to `(x, y)` has `i32` coordinates then so have both corners of every
/// cell, and both centers.
pub proof fn law_cell_in_range(r: Rect, rows: usize, cols: usize, row: usize, col: usize)
    requires
        r.in_range(),
    ensures
        r.corner_fits(rows as int, cols as int, row as int, col as int),
        r.cell(rows as int, cols as int, row as int, col as int).in_range(),
        r.center_fits(),
        r.cell(rows as int, cols as int, row as int, col as int).center_fits(),
{
    let n = at_least_one(rows as int);
    let m = at_least_one(cols as int);
    let i = clip_index(row as int, n);
    let j = clip_index(col as int, m);
    lemma_segment_step(r.width as int, m, j);
    lemma_segment_step(r.height as int, n, i);
    lemma_segment_start_bounds(r.width as int, m, j);
    lemma_segment_start_bounds(r.width as int, m, j + 1);
    lemma_segment_start_bounds(r.height as int, n, i);
    lemma_segment_start_bounds(r.height as int, n, i + 1);
    lemma_segment_len_bounds(r.width as int, m, j);
    lemma_segment_len_bounds(r.height as int, n, i);
}

/// A cell of a proper rectangle is proper and lies in it.
pub proof fn law_cell_within(r: Rect, rows: usize, cols: usize, row: usize, col: usize)
    requires
        r.is_proper(),
        r.in_range(),
    ensures
        r.cell(rows as int, cols as int, row as int, col as int).is_proper(),
        r.cell(rows as int, cols as int, row as int, col as int).within(r),
{
    law_cell_in_range(r, rows, cols, row, col);
    let n = at_least_one(rows as int);
    let m = at_least_one(cols as int);
    let i = clip_index(row as int, n);
    let j = clip_index(col as int, m);
    lemma_segment_step(r.width as int, m, j);
    lemma_segment_step(r.height as int, n, i);
    lemma_segment_start_bounds(r.width as int, m, j);
    lemma_segment_start_bounds(r.width as int, m, j + 1);
    lemma_segment_start_bounds(r.height as int, n, i);
    lemma_segment_start_bounds(r.height as int, n, i + 1);
    lemma_segment_len_bounds(r.width as int, m, j);
    lemma_segment_len_bounds(r.height as int, n, i);
}

/// Neighbouring cells share an edge, and the outer cells share the edges of the rectangle (the far
/// ones only where the side is not negative).
pub proof fn law_cells_adjoin(r: Rect, rows: usize, cols: usize, row: usize, col: usize)
    requires
        row < rows,
        col < cols,
        r.in_range() || {
            &&& r.corner_fits(rows as int, cols as int, row as int, col as int)
            &&& r.corner_fits(rows as int, cols as int, row as int, col + 1)
            &&& r.corner_fits(rows as int, cols as int, row + 1, col as int)
        },
    ensures
        ({
            let cell = r.cell(rows as int, cols as int, row as int, col as int);
            let right = r.cell(rows as int, cols as int, row as int, col + 1);
            let below = r.cell(rows as int, cols as int, row + 1, col as int);
            &&& col == 0 ==> cell.x == r.x
            &&& row == 0 ==> cell.y == r.y
            &&& col + 1 < cols ==> cell.x + cell.width == right.x
            &&& row + 1 < rows ==> cell.y + cell.height == below.y
            &&& col + 1 == cols && r.width >= 0 ==> cell.x + cell.width == r.x + r.width
            &&& row + 1 == rows && r.height >= 0 ==> cell.y + cell.height == r.y + r.height
        }),
{
    if r.in_range() {
        law_cell_in_range(r, rows, cols, row, col);
        if col + 1 < cols {
            law_cell_in_range(r, rows, cols, row, (col + 1) as usize);
        }
        if row + 1 < rows {
            law_cell_in_range(r, rows, cols, (row + 1) as usize, col);
        }
    }
    lemma_segment_step(r.width as int, cols as int, col as int);
    lemma_segment_step(r.height as int, rows as int, row as int);
    lemma_segment_start_bounds(r.width as int, cols as int, col + 1);
    lemma_segment_start_bounds(r.height as int, rows as int, row + 1);
    lemma_segment_len_bounds(r.width as int, cols as int, col as int);
    lemma_segment_len_bounds(r.height as int, rows as int, row as int);
}

/// The cells of a column have the same horizontal extent, and those of a row the same vertical
/// one.
pub proof fn law_cells_align(
    r: Rect,
    rows: usize,
    cols: usize,
    a: CellIndex,
    b: CellIndex,
)
    requires
        a.row < rows,
        a.col < cols,
        b.row < rows,
        b.col < cols,
    ensures
        ({
            let p = r.cell(rows as int, cols as int, a.row as int, a.col as int);
            let q = r.cell(rows as int, cols as int, b.row as int, b.col as int);
            &&& a.col == b.col ==> p.x == q.x && p.width == q.width
            &&& a.row == b.row ==> p.y == q.y && p.height == q.height
        }),
{
}

/// The sides of the cells differ by at most one, and the longer ones come first; the cells of a
/// negative side are all alike.
pub proof fn law_cell_sides(r: Rect, rows: usize, cols: usize, a: CellIndex, b: CellIndex)
    requires
        a.row <= b.row < rows,
        a.col <= b.col < cols,
    ensures
        ({
            let p = r.cell(rows as int, cols as int, a.row as int, a.col as int);
            let q = r.cell(rows as int, cols as int, b.row as int, b.col as int);
            &&& q.width <= p.width <= q.width + 1
            &&& q.height <= p.height <= q.height + 1
            &&& r.width < 0 ==> p.width == q.width
            &&& r.height < 0 ==> p.height == q.height
        }),
{
    lemma_segment_len_bounds(r.width as int, cols as int, a.col as int);
    lemma_segment_len_bounds(r.width as int, cols as int, b.col as int);
    lemma_segment_len_bounds(r.height as int, rows as int, a.row as int);
    lemma_segment_len_bounds(r.height as int, rows as int, b.row as int);
}

/// An index past the last row or column selects the last one, and a grid without rows or columns
/// has one.
pub proof fn law_cell_index_clips(r: Rect, rows: usize, cols: usize, row: usize, col: usize)
    ensures
        rows >= 1 && row >= rows ==> r.cell(rows as int, cols as int, row as int, col as int)
            == r.cell(rows as int, cols as int, rows - 1, col as int),
        cols >= 1 && col >= cols ==> r.cell(rows as int, cols as int, row as int, col as int)
            == r.cell(rows as int, cols as int, row as int, cols - 1),
        r.cell(0, cols as int, row as int, col as int) == r.cell(
            1,
            cols as int,
            row as int,
            col as int,
        ),
        r.cell(rows as int, 0, row as int, col as int) == r.cell(
            rows as int,
            1,
            row as int,
            col as int,
        ),
{
}

/// The cells cover the rectangle: every point of it lies in a cell, whose index is returned.
pub proof fn law_cells_cover(r: Rect, rows: usize, cols: usize, px: int, py: int) -> (at: (
    int,
    int,
))
    requires
        r.is_proper(),
        r.in_range(),
        rows >= 1,
        cols >= 1,
        r.contains(px, py),
    ensures
        0 <= at.0 < rows,
        0 <= at.1 < cols,
        r.cell(rows as int, cols as int, at.0, at.1).contains(px, py),
{
    lemma_segment_start_bounds(r.width as int, cols as int, cols as int);
    lemma_segment_start_bounds(r.height as int, rows as int, rows as int);
    let col = lemma_segment_covers(r.width as int, cols as int, px - r.x, cols as int);
    let row = lemma_segment_covers(r.height as int, rows as int, py - r.y, rows as int);
    law_cell_in_range(r, rows, cols, row as usize, col as usize);
    lemma_segment_len_bounds(r.width as int, cols as int, col);
    lemma_segment_len_bounds(r.height as int, rows as int, row);
    (row, col)
}

/// The cells do not overlap: a point lies in at most one of them.
pub proof fn law_cells_disjoint(
    r: Rect,
    rows: usize,
    cols: usize,
    a: CellIndex,
    b: CellIndex,
    px: int,
    py: int,
)
    requires
        r.is_proper(),
        r.in_range(),
        a.row < rows,
        a.col < cols,
        b.row < rows,
        b.col < cols,
        r.cell(rows as int, cols as int, a.row as int, a.col as int).contains(px, py),
        r.cell(rows as int, cols as int, b.row as int, b.col as int).contains(px, py),
    ensures
        a == b,
{
    law_cell_in_range(r, rows, cols, a.row, a.col);
    law_cell_in_range(r, rows, cols, b.row, b.col);
    lemma_segments_disjoint(r.width as int, cols as int, a.col as int, b.col as int, px - r.x);
    lemma_segments_disjoint(r.height as int, rows as int, a.row as int, b.row as int, py - r.y);
}

proof fn lemma_segments_disjoint(total: int, parts: int, i: int, j: int, d: int)
    requires
        0 <= total <= i32::MAX,
        parts >= 1,
        0 <= i < parts,
        0 <= j < parts,
        segment_start(total, parts, i) <= d < segment_start(total, parts, i) + (segment_len(
            total,
            parts,
            i,
        ) as i32),
        segment_start(total, parts, j) <= d < segment_start(total, parts, j) + (segment_len(
            total,
            parts,
            j,
        ) as i32),
    ensures
        i == j,
{
    lemma_segment_step(total, parts, i);
    lemma_segment_step(total, parts, j);
    lemma_segment_len_bounds(total, parts, i);
    lemma_segment_len_bounds(total, parts, j);
    if i < j {
        lemma_segment_start_monotone(total, parts, i + 1, j);
    } else if j < i {
        lemma_segment_start_monotone(total, parts, j + 1, i);
    }
}

/// A grid of at least two columns and rows narrows every side that is longer than one.
pub proof fn law_cell_shrinks(r: Rect, rows: usize, cols: usize, row: usize, col: usize)
    requires
        r.is_proper(),
        rows >= 2,
        cols >= 2,
    ensures
        r.width >= 2 ==> r.cell(rows as int, cols as int, row as int, col as int).width < r.width,
        r.height >= 2 ==> r.cell(rows as int, cols as int, row as int, col as int).height
            < r.height,
        r.width <= 1 ==> r.cell(rows as int, cols as int, row as int, col as int).width
            <= r.width,
        r.height <= 1 ==> r.cell(rows as int, cols as int, row as int, col as int).height
            <= r.height,
{
    lemma_segment_shrinks(r.width as int, cols as int, clip_index(col as int, cols as int));
    lemma_segment_shrinks(r.height as int, rows as int, clip_index(row as int, rows as int));
}

proof fn lemma_segment_shrinks(total: int, parts: int, i: int)
    requires
        0 <= total <= i32::MAX,
        parts >= 2,
        0 <= i < parts,
    ensures
        0 <= segment_len(total, parts, i) <= total,
        total >= 2 ==> segment_len(total, parts, i) < total,
{
    lemma_segment_len_bounds(total, parts, i);
    assert(total >= 2 ==> total / parts + 1 <= total) by (nonlinear_arith)
        requires
            total >= 0,
            parts >= 2,
    ;
    assert(total >= 2 && total / parts + 1 == total ==> total % parts == 0) by (nonlinear_arith)
        requires
            total >= 0,
            parts >= 2,
    ;
}

/// A grid of a single cell is the rectangle itself.
pub proof fn law_single_cell(r: Rect, row: usize, col: usize)
    ensures
        r.cell(1, 1, row as int, col as int) == r,
{
    lemma_segment_step(r.width as int, 1, 0);
    lemma_segment_step(r.height as int, 1, 0);
}

/// The center of a rectangle that is not empty lies in it.
pub proof fn law_center_inside(r: Rect)
    requires
        r.width > 0,
        r.height > 0,
        r.in_range(),
    ensures
        r.contains(r.center_point().0 as int, r.center_point().1 as int),
{
}

/// The center is halfway along both sides: what lies behind it is as long as what lies before it,
/// or longer by one. (Along a negative side the two exchange their places.)
pub proof fn law_center_is_halfway(r: Rect)
    requires
        r.in_range() || r.center_fits(),
    ensures
        ({
            let (cx, cy) = r.center_point();
            let across = (r.x + r.width - cx) - (cx - r.x);
            let down = (r.y + r.height - cy) - (cy - r.y);
            &&& r.width >= 0 ==> 0 <= across <= 1
            &&& r.width <= 0 ==> -1 <= across <= 0
            &&& r.height >= 0 ==> 0 <= down <= 1
            &&& r.height <= 0 ==> -1 <= down <= 0
        }),
{
}

/// The segments of a negative total are all alike, and the remainder, which none of them gets, is
/// smaller than their number.
pub proof fn law_split_of_negative_total(total: i32, parts: usize, i: int, j: int)
    requires
        total < 0,
        parts >= 1,
        0 <= i < parts,
        0 <= j < parts,
    ensures
        segment_len(total as int, parts as int, i) == segment_len(total as int, parts as int, j),
        -parts < total - parts * segment_len(total as int, parts as int, i) <= 0,
{
    let p = (-total) / (parts as int);
    assert(parts * p <= -total < parts * p + parts) by (nonlinear_arith)
        requires
            parts >= 1,
            total < 0,
            p == (-total) / (parts as int),
    ;
    assert(parts * (-p) == -(parts * p)) by (nonlinear_arith);
}

} // verus!
