//! The grid navigation state machine: pure logic, without any display.

use crate::geometry::{
    law_cell_in_range, law_cell_sides, law_cell_within, law_cells_adjoin, law_cells_align,
    CellIndex, Rect,
};
use std::collections::VecDeque;
use vstd::prelude::*;

verus! {

/// The largest number of rows, and of columns.
pub const MAX_GRID: usize = 10;

/// `n` moved into the range of grid sizes.
pub open spec fn grid_size(n: int) -> int {
    if n < 1 {
        1
    } else if n > MAX_GRID {
        MAX_GRID as int
    } else {
        n
    }
}

/// Move `n` into the range of grid sizes, from one to ten.
pub fn clamp_grid_size(n: usize) -> (r: usize)
    ensures
        r == grid_size(n as int),
        1 <= r <= MAX_GRID,
{
    if n < 1 {
        1
    } else if n > MAX_GRID {
        MAX_GRID
    } else {
        n
    }
}

/// The mathematical state of the navigator: the current rectangle, the rectangles that were left
/// behind on the way to it (outermost first), and the size of the grid.
#[verifier::ext_equal]
pub struct GridView {
    pub current: Rect,
    pub history: Seq<Rect>,
    pub rows: int,
    pub cols: int,
}

impl GridView {
    /// The grid has from one to ten rows and columns.
    pub open spec fn wf(self) -> bool {
        1 <= self.rows <= MAX_GRID && 1 <= self.cols <= MAX_GRID
    }

    /// A navigator that has not gone anywhere yet.
    pub open spec fn init(root: Rect, rows: int, cols: int) -> GridView {
        GridView {
            current: root,
            history: Seq::empty(),
            rows: grid_size(rows),
            cols: grid_size(cols),
        }
    }

    /// The outermost rectangle.
    pub open spec fn root(self) -> Rect {
        if self.history.len() == 0 {
            self.current
        } else {
            self.history[0]
        }
    }

    /// The rectangle of a cell of the current subdivision.
    pub open spec fn cell(self, cell: CellIndex) -> Rect {
        self.current.cell(self.rows, self.cols, cell.row as int, cell.col as int)
    }

    /// The cell can be computed without overflow.
    pub open spec fn cell_fits(self, cell: CellIndex) -> bool {
        self.current.cell_fits(self.rows, self.cols, cell.row as int, cell.col as int)
    }

    /// The state one level down, in `cell`.
    pub open spec fn descend(self, cell: CellIndex) -> GridView {
        GridView { current: self.cell(cell), history: self.history.push(self.current), ..self }
    }

    /// The state one level up; at the root, the same state.
    pub open spec fn ascend(self) -> GridView {
        if self.history.len() == 0 {
            self
        } else {
            GridView { current: self.history.last(), history: self.history.drop_last(), ..self }
        }
    }

    /// The state after descending into all of `path` in turn.
    pub open spec fn descend_all(self, path: Seq<CellIndex>) -> GridView
        decreases path.len(),
    {
        if path.len() == 0 {
            self
        } else {
            self.descend_all(path.drop_last()).descend(path.last())
        }
    }

    /// The state after ascending `n` times.
    pub open spec fn ascend_times(self, n: nat) -> GridView
        decreases n,
    {
        if n == 0 {
            self
        } else {
            self.ascend().ascend_times((n - 1) as nat)
        }
    }

    /// No rectangle on the way from the root to the current one reaches past the `i32` range.
    pub open spec fn in_range(self) -> bool {
        &&& self.current.in_range()
        &&& forall|i: int| 0 <= i < self.history.len() ==> (#[trigger] self.history[i]).in_range()
    }

    /// Every rectangle on the way is proper and lies in the one before it, and so in the root.
    pub open spec fn nested(self) -> bool {
        &&& self.in_range()
        &&& self.current.is_proper()
        &&& forall|i: int|
            0 <= i < self.history.len() ==> (#[trigger] self.history[i]).is_proper()
        &&& forall|i: int, j: int|
            0 <= i <= j < self.history.len() ==> (#[trigger] self.history[j]).within(
                #[trigger] self.history[i],
            )
        &&& forall|i: int|
            0 <= i < self.history.len() ==> self.current.within(#[trigger] self.history[i])
    }
}

/// The state of the grid navigator.
///
/// Tracks the current rectangle and the rectangles above it, up to the root.
#[derive(Clone, Debug)]
pub struct GridState {
    /// The current active rectangle.
    current: Rect,
    /// History stack for backtracking (the rectangle at each level above).
    history: VecDeque<Rect>,
    /// Grid rows and columns.
    rows: usize,
    cols: usize,
}

impl View for GridState {
    type V = GridView;

    closed spec fn view(&self) -> GridView {
        GridView {
            current: self.current,
            history: self.history@,
            rows: self.rows as int,
            cols: self.cols as int,
        }
    }
}

impl GridState {
    /// Create a new grid state; the grid size is moved into the range from one to ten.
    pub fn new_with_grid(root: Rect, rows: usize, cols: usize) -> (g: Self)
        ensures
            g@ == GridView::init(root, rows as int, cols as int),
            g@.wf(),
    {
        GridState {
            current: root,
            history: VecDeque::new(),
            rows: clamp_grid_size(rows),
            cols: clamp_grid_size(cols),
        }
    }

    /// Get the current rectangle.
    pub fn current_rect(&self) -> (r: Rect)
        ensures
            r == self@.current,
    {
        self.current
    }

    /// Get the center of the current rectangle.
    pub fn current_center(&self) -> (r: (i32, i32))
        requires
            self@.current.center_fits(),
        ensures
            r == self@.current.center_point(),
    {
        self.current.center()
    }

    /// Descend into a cell of the current subdivision.
    ///
    /// The previous rectangle is pushed onto the history stack.
    pub fn descend(&mut self, cell: CellIndex)
        requires
            old(self)@.wf(),
            old(self)@.cell_fits(cell),
        ensures
            final(self)@ == old(self)@.descend(cell),
            final(self)@.wf(),
    {
        self.history.push_back(self.current);
        self.current = self.current.cell_rect(self.rows, self.cols, cell.row, cell.col);
    }

    /// Ascend one level (pop from history).
    ///
    /// Returns true if ascent was successful, false if already at root.
    pub fn ascend(&mut self) -> (moved: bool)
        ensures
            final(self)@ == old(self)@.ascend(),
            moved == (old(self)@.history.len() > 0),
    {
        match self.history.pop_back() {
            Some(prev) => {
                self.current = prev;
                true
            },
            None => false,
        }
    }
}

/// Ascending undoes a descent: the state is the one before it.
pub proof fn law_ascend_undoes_descend(g: GridView, cell: CellIndex)
    ensures
        g.descend(cell).ascend() == g,
        g.descend(cell).history.len() > 0,
{
    assert(g.history.push(g.current).drop_last() =~= g.history);
}

/// As many ascents as there were descents lead back to where they began, whatever the path.
pub proof fn law_ascents_undo_descents(g: GridView, path: Seq<CellIndex>)
    ensures
        g.descend_all(path).ascend_times(path.len()) == g,
    decreases path.len(),
{
    if path.len() > 0 {
        law_ascend_undoes_descend(g.descend_all(path.drop_last()), path.last());
        law_ascents_undo_descents(g, path.drop_last());
    }
}

/// No step changes the root or the size of the grid.
pub proof fn law_root_is_kept(g: GridView, cell: CellIndex)
    ensures
        g.descend(cell).root() == g.root(),
        g.descend(cell).rows == g.rows,
        g.descend(cell).cols == g.cols,
        g.ascend().root() == g.root(),
        g.ascend().rows == g.rows,
        g.ascend().cols == g.cols,
{
}

/// A navigator over an in-range root stays in range, and each of its cells can be computed.
pub proof fn law_steps_stay_in_range(g: GridView, cell: CellIndex)
    requires
        g.wf(),
        g.in_range(),
    ensures
        g.cell_fits(cell),
        g.current.center_fits(),
        g.descend(cell).in_range(),
        g.ascend().in_range(),
{
    law_cell_in_range(g.current, g.rows as usize, g.cols as usize, cell.row, cell.col);
}

/// A navigator over a proper root stays nested: wherever it goes, it stays in the root and in
/// every rectangle that it came through.
pub proof fn law_steps_stay_nested(g: GridView, cell: CellIndex)
    requires
        g.wf(),
        g.nested(),
    ensures
        g.descend(cell).nested(),
        g.ascend().nested(),
        g.current.within(g.root()),
{
    law_steps_stay_in_range(g, cell);
    law_cell_within(g.current, g.rows as usize, g.cols as usize, cell.row, cell.col);
}

/// A new navigator is well formed, in range if its root is, and nested if its root is proper.
pub proof fn law_new_is_nested(root: Rect, rows: usize, cols: usize)
    requires
        root.in_range(),
    ensures
        GridView::init(root, rows as int, cols as int).wf(),
        GridView::init(root, rows as int, cols as int).in_range(),
        GridView::init(root, rows as int, cols as int).root() == root,
        root.is_proper() ==> GridView::init(root, rows as int, cols as int).nested(),
{
}

/// A grid size is moved to the nearest number from one to ten: `m` is any other one.
pub proof fn law_grid_size_is_nearest(n: int, m: int)
    requires
        1 <= m <= 10,
    ensures
        1 <= grid_size(n) <= 10,
        n <= m ==> grid_size(n) - n <= m - n,
        n >= m ==> n - grid_size(n) <= n - m,
        1 <= n <= 10 ==> grid_size(n) == n,
{
}

/// A new navigator stands at its root, has come through nothing, and has the rows and columns that
/// were asked for, from one to ten.
pub proof fn law_new_navigator(root: Rect, rows: usize, cols: usize)
    ensures
        GridView::init(root, rows as int, cols as int).current == root,
        GridView::init(root, rows as int, cols as int).history.len() == 0,
        1 <= rows <= 10 ==> GridView::init(root, rows as int, cols as int).rows == rows,
        1 <= cols <= 10 ==> GridView::init(root, rows as int, cols as int).cols == cols,
        rows == 0 ==> GridView::init(root, rows as int, cols as int).rows == 1,
        cols == 0 ==> GridView::init(root, rows as int, cols as int).cols == 1,
        rows > 10 ==> GridView::init(root, rows as int, cols as int).rows == 10,
        cols > 10 ==> GridView::init(root, rows as int, cols as int).cols == 10,
{
}

/// At the root, ascending changes nothing; anywhere else it leads to the rectangle that was left
/// last.
pub proof fn law_ascend(g: GridView)
    ensures
        g.history.len() == 0 ==> g.ascend() == g,
        g.history.len() > 0 ==> g.ascend().current == g.history[g.history.len() - 1],
        g.history.len() > 0 ==> g.ascend().history.len() == g.history.len() - 1,
{
}

/// Descending leads to a tile of the current rectangle, and remembers that rectangle: the tiles of
/// a row follow one another from its left edge to its right one, those of a column from the top
/// edge to the bottom one, and both are of even size, the longer ones first.
pub proof fn law_descents_tile(g: GridView, row: usize, col: usize)
    requires
        1 <= g.rows <= 10,
        1 <= g.cols <= 10,
        g.current.in_range(),
        g.current.is_proper(),
        row < g.rows,
        col < g.cols,
    ensures
        ({
            let here = g.descend(CellIndex { row, col });
            let right = g.descend(CellIndex { row, col: (col + 1) as usize }).current;
            let below = g.descend(CellIndex { row: (row + 1) as usize, col }).current;
            let t = here.current;
            let c = g.current;
            &&& here.history == g.history.push(c)
            &&& col == 0 ==> t.x == c.x
            &&& row == 0 ==> t.y == c.y
            &&& col + 1 < g.cols ==> t.x + t.width == right.x && right.width <= t.width
                <= right.width + 1 && right.y == t.y && right.height == t.height
            &&& row + 1 < g.rows ==> t.y + t.height == below.y && below.height <= t.height
                <= below.height + 1 && below.x == t.x && below.width == t.width
            &&& col + 1 == g.cols ==> t.x + t.width == c.x + c.width
            &&& row + 1 == g.rows ==> t.y + t.height == c.y + c.height
        }),
{
    let rows = g.rows as usize;
    let cols = g.cols as usize;
    let at = CellIndex { row, col };
    law_cells_adjoin(g.current, rows, cols, row, col);
    if col + 1 < cols {
        let next = CellIndex { row, col: (col + 1) as usize };
        law_cell_sides(g.current, rows, cols, at, next);
        law_cells_align(g.current, rows, cols, at, next);
    }
    if row + 1 < rows {
        let next = CellIndex { row: (row + 1) as usize, col };
        law_cell_sides(g.current, rows, cols, at, next);
        law_cells_align(g.current, rows, cols, at, next);
    }
}

/// The cell that is entered is the one that the current rectangle has at this place.
pub proof fn law_descend_enters_cell(g: GridView, cell: CellIndex)
    ensures
        g.descend(cell).current == g.current.cell(
            g.rows,
            g.cols,
            cell.row as int,
            cell.col as int,
        ),
{
}

} // verus!
