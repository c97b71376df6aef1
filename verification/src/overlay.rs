//! What the overlay shows: the grid over the current rectangle, and the labels of its cells.
//!
//! Coordinates are those of the screen rectangle; scaling to the surface is left to the drawing.

use crate::geometry::{
    allocatable, at_least_one, fits, law_cell_in_range, lemma_segment_start_bounds,
    lemma_segment_step, segment_len, segment_start, split_lengths, Rect,
};
use crate::grid::GridView;
use crate::labels::cell_at;
use vstd::prelude::*;

verus! {

/// The visual state of the overlay.
#[derive(Clone, Debug)]
pub struct OverlayState {
    /// The root rectangle (screen bounds).
    pub root: Rect,
    /// Current target rectangle.
    pub current: Rect,
    /// Grid size.
    pub rows: usize,
    pub cols: usize,
    /// Labels for cells (row by row).
    pub labels: Vec<String>,
}

/// The positions where `total`, laid out from `start` on, is divided into `parts` segments.
pub open spec fn dividers(start: int, total: int, parts: int) -> Seq<int> {
    Seq::new(
        (at_least_one(parts) - 1) as nat,
        |i: int| start + segment_start(total, parts, i + 1),
    )
}

/// All dividers are `i32`s, as they are wherever the end of the last segment is one.
pub open spec fn dividers_fit(start: int, total: int, parts: int) -> bool {
    fits(start + total) || forall|i: int|
        0 <= i < dividers(start, total, parts).len() ==> fits(
            #[trigger] dividers(start, total, parts)[i],
        )
}

impl OverlayState {
    /// The cell that comes `i`-th, counted row by row.
    pub open spec fn shown_cell(self, i: int) -> Rect {
        self.current.cell(
            self.rows as int,
            self.cols as int,
            i / self.cols as int,
            i % self.cols as int,
        )
    }

    /// The text shown in cell `i`; none where there is no label.
    pub open spec fn shown_label(self, i: int) -> Seq<char> {
        if 0 <= i < self.labels@.len() {
            self.labels@[i]@
        } else {
            Seq::empty()
        }
    }

    /// The labels shown in the first `n` cells: those that are not empty, each by its index and
    /// with the rectangle of its cell.
    pub open spec fn shown_labels(self, n: nat) -> Seq<(usize, Rect)>
        decreases n,
    {
        if n == 0 {
            Seq::empty()
        } else if self.shown_label(n - 1).len() == 0 {
            self.shown_labels((n - 1) as nat)
        } else {
            self.shown_labels((n - 1) as nat).push(((n - 1) as usize, self.shown_cell(n - 1)))
        }
    }

    /// Every cell with a label that is not empty can be computed.
    pub open spec fn labels_fit(self) -> bool {
        self.current.in_range() || forall|i: int|
            0 <= i < self.rows * self.cols && (#[trigger] self.shown_label(i)).len() > 0
                ==> self.current.cell_fits(
                self.rows as int,
                self.cols as int,
                i / self.cols as int,
                i % self.cols as int,
            )
    }

    /// Create a new overlay state.
    pub fn new(root: Rect, rows: usize, cols: usize, labels: Vec<String>) -> (r: Self)
        ensures
            r.root == root,
            r.current == root,
            r.rows == rows,
            r.cols == cols,
            r.labels == labels,
    {
        OverlayState { root, current: root, rows, cols, labels }
    }

    /// Update the overlay state based on navigation.
    pub fn update(&mut self, current: Rect)
        ensures
            *final(self) == (OverlayState { current, ..*old(self) }),
    {
        self.current = current;
    }

    /// The horizontal positions of the lines between the columns.
    pub fn column_lines(&self) -> (r: Vec<i32>)
        requires
            allocatable(self.cols as int),
            dividers_fit(self.current.x as int, self.current.width as int, self.cols as int),
        ensures
            r@.map_values(|v: i32| v as int) == dividers(
                self.current.x as int,
                self.current.width as int,
                self.cols as int,
            ),
    {
        divide(self.current.x, self.current.width, self.cols)
    }

    /// The vertical positions of the lines between the rows.
    pub fn row_lines(&self) -> (r: Vec<i32>)
        requires
            allocatable(self.rows as int),
            dividers_fit(self.current.y as int, self.current.height as int, self.rows as int),
        ensures
            r@.map_values(|v: i32| v as int) == dividers(
                self.current.y as int,
                self.current.height as int,
                self.rows as int,
            ),
    {
        divide(self.current.y, self.current.height, self.rows)
    }

    /// The labels to show, by their indices, each with the rectangle of its cell.
    pub fn label_cells(&self) -> (r: Vec<(usize, Rect)>)
        requires
            allocatable(self.rows as int),
            allocatable(self.cols as int),
            self.rows * self.cols <= usize::MAX,
            self.labels_fit(),
        ensures
            r@ == self.shown_labels((self.rows * self.cols) as nat),
    {
        let mut r: Vec<(usize, Rect)> = Vec::new();
        let mut i: usize = 0;
        while i < self.rows * self.cols
            invariant
                allocatable(self.rows as int),
                allocatable(self.cols as int),
                self.rows * self.cols <= usize::MAX,
                self.labels_fit(),
                i <= self.rows * self.cols,
                r@ == self.shown_labels(i as nat),
            decreases self.rows * self.cols - i,
        {
            assert(self.cols > 0) by (nonlinear_arith)
                requires
                    i < self.rows * self.cols,
                    self.cols >= 0,
                    i >= 0,
            ;
            if i < self.labels.len() && !self.labels[i].as_str().is_empty() {
                assert(self.shown_label(i as int).len() > 0);
                let cell = self.current.cell_rect(
                    self.rows,
                    self.cols,
                    i / self.cols,
                    i % self.cols,
                );
                r.push((i, cell));
            }
            i += 1;
        }
        r
    }
}

/// Divide `total`, laid out from `start` on, into `parts` segments.
fn divide(start: i32, total: i32, parts: usize) -> (r: Vec<i32>)
    requires
        allocatable(parts as int),
        dividers_fit(start as int, total as int, parts as int),
    ensures
        r@.map_values(|v: i32| v as int) == dividers(start as int, total as int, parts as int),
{
    let lengths = split_lengths(total, parts);
    let ghost want = dividers(start as int, total as int, parts as int);
    let mut r: Vec<i32> = Vec::new();
    let mut cursor: i32 = start;
    let mut i: usize = 0;
    proof {
        lemma_segment_step(total as int, at_least_one(parts as int), 0);
    }
    while i + 1 < parts
        invariant
            i < lengths@.len() == at_least_one(parts as int),
            i == 0 || i < parts,
            forall|k: int|
                0 <= k < lengths@.len() ==> #[trigger] lengths@[k] == segment_len(
                    total as int,
                    at_least_one(parts as int),
                    k,
                ),
            want == dividers(start as int, total as int, parts as int),
            dividers_fit(start as int, total as int, parts as int),
            cursor == start + segment_start(total as int, at_least_one(parts as int), i as int),
            r@.len() == i,
            forall|k: int| 0 <= k < i ==> #[trigger] r@[k] == want[k],
        decreases parts - i,
    {
        proof {
            lemma_segment_step(total as int, parts as int, i as int);
            lemma_segment_start_bounds(total as int, parts as int, i + 1);
            assert(fits(want[i as int]));
        }
        cursor = cursor + lengths[i];
        r.push(cursor);
        i += 1;
    }
    assert(r@.map_values(|v: i32| v as int) =~= want);
    r
}

// ---------------------------------------------------------------------------------------------
// Laws
// ---------------------------------------------------------------------------------------------

/// The lines are drawn where the cells meet: the line behind a column is the left edge of the
/// next one, and the line below a row is the top edge of the next one.
pub proof fn law_lines_are_cell_edges(o: OverlayState, row: usize, col: usize)
    requires
        o.current.in_range(),
        row < o.rows,
        col < o.cols,
    ensures
        col > 0 ==> dividers(o.current.x as int, o.current.width as int, o.cols as int)[col - 1]
            == o.current.cell(o.rows as int, o.cols as int, row as int, col as int).x,
        row > 0 ==> dividers(o.current.y as int, o.current.height as int, o.rows as int)[row - 1]
            == o.current.cell(o.rows as int, o.cols as int, row as int, col as int).y,
{
    law_cell_in_range(o.current, o.rows, o.cols, row, col);
}

/// A label is shown in the rectangle that selecting its cell leads to.
pub proof fn law_shown_cell_is_entered(o: OverlayState, g: GridView, i: int)
    requires
        g.wf(),
        o.current == g.current,
        o.rows == g.rows,
        o.cols == g.cols,
        0 <= i < g.rows * g.cols,
    ensures
        o.shown_cell(i) == g.descend(cell_at(i, g.cols)).current,
{
    assert(0 <= i / g.cols < g.rows && 0 <= i % g.cols < g.cols) by (nonlinear_arith)
        requires
            0 <= i < g.rows * g.cols,
            g.cols >= 1,
    ;
}

/// Exactly the labels that are not empty are shown, each once.
pub proof fn law_labels_shown(o: OverlayState, n: nat, i: int)
    requires
        n <= o.rows * o.cols <= usize::MAX,
        0 <= i < n,
    ensures
        o.shown_label(i).len() > 0 <==> o.shown_labels(n).contains((i as usize, o.shown_cell(i))),
        forall|k: int|
            0 <= k < o.shown_labels(n).len() ==> (#[trigger] o.shown_labels(n)[k]).0 < n
                && o.shown_labels(n)[k].1 == o.shown_cell(o.shown_labels(n)[k].0 as int)
                && o.shown_label(o.shown_labels(n)[k].0 as int).len() > 0,
        forall|k: int, l: int|
            0 <= k < l < o.shown_labels(n).len() ==> (#[trigger] o.shown_labels(n)[k]).0 < (
            #[trigger] o.shown_labels(n)[l]).0,
{
    lemma_shown_labels_ordered(o, n);
    lemma_label_shown(o, n, i);
}

proof fn lemma_shown_labels_ordered(o: OverlayState, n: nat)
    requires
        n <= usize::MAX,
    ensures
        forall|k: int|
            0 <= k < o.shown_labels(n).len() ==> (#[trigger] o.shown_labels(n)[k]).0 < n
                && o.shown_labels(n)[k].1 == o.shown_cell(o.shown_labels(n)[k].0 as int)
                && o.shown_label(o.shown_labels(n)[k].0 as int).len() > 0,
        forall|k: int, l: int|
            0 <= k < l < o.shown_labels(n).len() ==> (#[trigger] o.shown_labels(n)[k]).0 < (
            #[trigger] o.shown_labels(n)[l]).0,
    decreases n,
{
    if n > 0 {
        lemma_shown_labels_ordered(o, (n - 1) as nat);
        let front = o.shown_labels((n - 1) as nat);
        let all = o.shown_labels(n);
        assert forall|k: int| 0 <= k < all.len() implies (#[trigger] all[k]).0 < n && all[k].1
            == o.shown_cell(all[k].0 as int) && o.shown_label(all[k].0 as int).len() > 0 by {
            assert(k < front.len() ==> all[k] == front[k]);
        }
        assert forall|k: int, l: int| 0 <= k < l < all.len() implies (#[trigger] all[k]).0 < (
        #[trigger] all[l]).0 by {
            assert(all[k] == front[k]);
            assert(l < front.len() ==> all[l] == front[l]);
        }
    }
}

proof fn lemma_label_shown(o: OverlayState, n: nat, i: int)
    requires
        n <= usize::MAX,
        0 <= i < n,
    ensures
        o.shown_label(i).len() > 0 <==> o.shown_labels(n).contains((i as usize, o.shown_cell(i))),
    decreases n,
{
    let front = o.shown_labels((n - 1) as nat);
    let all = o.shown_labels(n);
    let at = (i as usize, o.shown_cell(i));
    lemma_shown_labels_ordered(o, (n - 1) as nat);
    if i < n - 1 {
        lemma_label_shown(o, (n - 1) as nat, i);
        if front.contains(at) {
            let k = choose|k: int| 0 <= k < front.len() && front[k] == at;
            assert(all[k] == at);
        }
        if all.contains(at) {
            let k = choose|k: int| 0 <= k < all.len() && all[k] == at;
            assert(k < front.len() ==> front[k] == at);
        }
    } else {
        if o.shown_label(i).len() > 0 {
            assert(all[front.len() as int] == at);
        }
    }
}

/// There is a line between any two neighbouring columns, and between any two neighbouring rows.
pub proof fn law_line_count(start: i32, total: i32, parts: usize)
    ensures
        parts >= 1 ==> dividers(start as int, total as int, parts as int).len() == parts - 1,
        parts == 0 ==> dividers(start as int, total as int, parts as int).len() == 0,
{
}

/// The label of a cell is the one at its place, and a cell without one shows none.
pub proof fn law_shown_label(o: OverlayState, i: int)
    ensures
        0 <= i < o.labels@.len() ==> o.shown_label(i) == o.labels@[i]@,
        i >= o.labels@.len() ==> o.shown_label(i).len() == 0,
{
}

/// A label is shown in the cell at its row and column.
pub proof fn law_label_is_shown_at(o: OverlayState, row: int, col: int)
    requires
        0 <= row < o.rows,
        0 <= col < o.cols,
    ensures
        o.shown_cell(row * o.cols + col) == o.current.cell(
            o.rows as int,
            o.cols as int,
            row,
            col,
        ),
{
    vstd::arithmetic::div_mod::lemma_fundamental_div_mod_converse(
        row * o.cols + col,
        o.cols as int,
        row,
        col,
    );
}

/// The first line is behind the first segment, each next one a segment further.
pub proof fn law_line_distances(start: i32, total: i32, parts: usize, i: int)
    requires
        0 <= i < parts - 1,
    ensures
        ({
            let lines = dividers(start as int, total as int, parts as int);
            &&& i == 0 ==> lines[i] - start == segment_len(total as int, parts as int, 0)
            &&& i > 0 ==> lines[i] - lines[i - 1] == segment_len(total as int, parts as int, i)
        }),
{
    lemma_segment_step(total as int, parts as int, i);
}

} // verus!
