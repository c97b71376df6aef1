//! A navigation session: what the events of the overlay do to the grid, and what comes out.

use crate::config::{Config, Keybindings};
use crate::events::OverlayEvent;
use crate::geometry::{law_center_inside, law_center_is_halfway, CellIndex};
use crate::grid::{
    law_ascents_undo_descents, law_root_is_kept, law_steps_stay_in_range, law_steps_stay_nested,
    GridState, GridView,
};
use crate::input::{law_key_selects_its_cell, press_event};
use crate::keys::{law_letters_have_codes, letter_keycode, ActionKeys, Keymap};
use crate::labels::{
    cell_at, cell_map, found_at, label_keycode, label_keycodes, label_keysym, label_keysyms,
    label_texts, law_configured_cells_label_the_grid, law_label_keycode,
};
use crate::overlay::{law_shown_cell_is_entered, OverlayState};
use crate::text::{decimal, law_text_case, push_decimal, upper};
use vstd::prelude::*;

verus! {

/// What became of the session.
#[derive(Clone, Copy, Debug, PartialEq, Eq, Structural)]
pub enum Outcome {
    /// Navigation goes on.
    Continue,
    /// The user cancelled.
    Cancelled,
    /// The user confirmed; the target is the center of the current rectangle.
    Confirmed(i32, i32),
}

/// The state after one event, and what becomes of the session.
pub open spec fn step(g: GridView, event: OverlayEvent) -> (GridView, Outcome) {
    match event {
        OverlayEvent::SelectCell(cell) => (g.descend(cell), Outcome::Continue),
        OverlayEvent::Ascend => (g.ascend(), Outcome::Continue),
        OverlayEvent::Cancel => (g, Outcome::Cancelled),
        OverlayEvent::Confirm => {
            let (x, y) = g.current.center_point();
            (g, Outcome::Confirmed(x, y))
        },
    }
}

/// The coordinates that the event needs are `i32`s.
pub open spec fn step_fits(g: GridView, event: OverlayEvent) -> bool {
    match event {
        OverlayEvent::SelectCell(cell) => g.cell_fits(cell),
        OverlayEvent::Ascend => true,
        OverlayEvent::Cancel => true,
        OverlayEvent::Confirm => g.current.center_fits(),
    }
}

/// The state after a sequence of events, of which those behind the first `Cancel` or `Confirm`
/// are dropped.
pub open spec fn run(g: GridView, events: Seq<OverlayEvent>) -> (GridView, Outcome)
    decreases events.len(),
{
    if events.len() == 0 {
        (g, Outcome::Continue)
    } else {
        let (next, outcome) = step(g, events[0]);
        if outcome == Outcome::Continue {
            run(next, events.drop_first())
        } else {
            (next, outcome)
        }
    }
}

/// All coordinates that the run needs are `i32`s, as they are wherever no rectangle that the
/// navigator has come through reaches past the `i32` range.
pub open spec fn run_fits(g: GridView, events: Seq<OverlayEvent>) -> bool {
    g.in_range() || steps_fit(g, events)
}

/// All coordinates that the run needs are `i32`s.
pub open spec fn steps_fit(g: GridView, events: Seq<OverlayEvent>) -> bool
    decreases events.len(),
{
    events.len() > 0 ==> {
        let (next, outcome) = step(g, events[0]);
        &&& step_fits(g, events[0])
        &&& outcome == Outcome::Continue ==> steps_fit(next, events.drop_first())
    }
}

/// Apply one event to the grid.
pub fn process_event(grid: &mut GridState, event: OverlayEvent) -> (r: Outcome)
    requires
        old(grid)@.wf(),
        step_fits(old(grid)@, event),
    ensures
        (final(grid)@, r) == step(old(grid)@, event),
        final(grid)@.wf(),
{
    match event {
        OverlayEvent::SelectCell(cell) => {
            grid.descend(cell);
            Outcome::Continue
        },
        OverlayEvent::Ascend => {
            let _moved = grid.ascend();
            Outcome::Continue
        },
        OverlayEvent::Cancel => Outcome::Cancelled,
        OverlayEvent::Confirm => {
            let (x, y) = grid.current_center();
            Outcome::Confirmed(x, y)
        },
    }
}

/// Apply events in order until one of them ends the session.
pub fn process_events(grid: &mut GridState, events: &Vec<OverlayEvent>) -> (r: Outcome)
    requires
        old(grid)@.wf(),
        run_fits(old(grid)@, events@),
    ensures
        (final(grid)@, r) == run(old(grid)@, events@),
        final(grid)@.wf(),
{
    let mut i: usize = 0;
    proof {
        if grid@.in_range() {
            law_runs_fit(grid@, events@);
        }
        assert(events@.skip(0) =~= events@);
    }
    while i < events.len()
        invariant
            i <= events@.len(),
            grid@.wf(),
            steps_fit(grid@, events@.skip(i as int)),
            run(grid@, events@.skip(i as int)) == run(old(grid)@, events@),
        decreases events@.len() - i,
    {
        assert(events@.skip(i as int).drop_first() =~= events@.skip(i + 1));
        let outcome = process_event(grid, events[i]);
        if outcome != Outcome::Continue {
            return outcome;
        }
        i += 1;
    }
    Outcome::Continue
}

/// The line that reports a target: its two coordinates.
pub fn target_line(x: i32, y: i32) -> (r: String)
    ensures
        r@ == decimal(x as int).push(' ') + decimal(y as int),
{
    let mut r = String::new();
    push_decimal(&mut r, x);
    r.push(' ');
    push_decimal(&mut r, y);
    r
}

/// Over a root whose far corner has `i32` coordinates, no sequence of events needs a coordinate
/// that is not one.
pub proof fn law_runs_fit(g: GridView, events: Seq<OverlayEvent>)
    requires
        g.wf(),
        g.in_range(),
    ensures
        steps_fit(g, events),
        run(g, events).0.in_range(),
        run(g, events).0.wf(),
    decreases events.len(),
{
    if events.len() > 0 {
        let cell = match events[0] {
            OverlayEvent::SelectCell(cell) => cell,
            _ => CellIndex { row: 0, col: 0 },
        };
        law_steps_stay_in_range(g, cell);
        let (next, outcome) = step(g, events[0]);
        if outcome == Outcome::Continue {
            law_runs_fit(next, events.drop_first());
        }
    }
}

/// A run keeps the root, and over a proper root it stays in it.
pub proof fn law_runs_stay_in_root(g: GridView, events: Seq<OverlayEvent>)
    requires
        g.wf(),
        g.nested(),
    ensures
        run(g, events).0.nested(),
        run(g, events).0.root() == g.root(),
        run(g, events).0.current.within(g.root()),
    decreases events.len(),
{
    let cell = if events.len() > 0 {
        match events[0] {
            OverlayEvent::SelectCell(cell) => cell,
            _ => CellIndex { row: 0, col: 0 },
        }
    } else {
        CellIndex { row: 0, col: 0 }
    };
    law_steps_stay_nested(g, cell);
    law_root_is_kept(g, cell);
    if events.len() > 0 {
        let (next, outcome) = step(g, events[0]);
        if outcome == Outcome::Continue {
            law_runs_stay_in_root(next, events.drop_first());
        }
    }
}

/// What is confirmed is the center of the current rectangle, halfway along both sides. Over a proper root it is a point of
/// the root (its far edges included), and a point inside of it where the current rectangle is
/// not empty.
pub proof fn law_confirmed_target(g: GridView, events: Seq<OverlayEvent>, x: i32, y: i32)
    requires
        g.wf(),
        g.nested(),
        run(g, events).1 == Outcome::Confirmed(x, y),
    ensures
        (x, y) == run(g, events).0.current.center_point(),
        g.root().x <= x <= g.root().x + g.root().width,
        g.root().y <= y <= g.root().y + g.root().height,
        ({
            let current = run(g, events).0.current;
            &&& 0 <= (current.x + current.width - x) - (x - current.x) <= 1
            &&& 0 <= (current.y + current.height - y) - (y - current.y) <= 1
        }),
        ({
            let current = run(g, events).0.current;
            current.width > 0 && current.height > 0 ==> {
                &&& current.contains(x as int, y as int)
                &&& g.root().contains(x as int, y as int)
            }
        }),
{
    law_runs_stay_in_root(g, events);
    lemma_confirmed_is_center(g, events, x, y);
    let current = run(g, events).0.current;
    law_center_is_halfway(current);
    if current.width > 0 && current.height > 0 {
        law_center_inside(current);
    }
}

proof fn lemma_confirmed_is_center(g: GridView, events: Seq<OverlayEvent>, x: i32, y: i32)
    requires
        run(g, events).1 == Outcome::Confirmed(x, y),
    ensures
        (x, y) == run(g, events).0.current.center_point(),
    decreases events.len(),
{
    if events.len() > 0 {
        let (next, outcome) = step(g, events[0]);
        if outcome == Outcome::Continue {
            lemma_confirmed_is_center(next, events.drop_first(), x, y);
        }
    }
}

/// Events may be handed over in batches: a run of two batches is the run of the second from
/// where the first arrived, unless the first ended the session, which the second cannot change.
pub proof fn law_runs_in_batches(g: GridView, first: Seq<OverlayEvent>, second: Seq<OverlayEvent>)
    ensures
        run(g, first).1 == Outcome::Continue ==> run(g, first + second) == run(
            run(g, first).0,
            second,
        ),
        run(g, first).1 != Outcome::Continue ==> run(g, first + second) == run(g, first),
    decreases first.len(),
{
    if first.len() == 0 {
        assert(first + second =~= second);
    } else {
        let (next, outcome) = step(g, first[0]);
        assert((first + second).drop_first() =~= first.drop_first() + second);
        if outcome == Outcome::Continue {
            law_runs_in_batches(next, first.drop_first(), second);
        }
    }
}

/// Without a keyboard layout, pressing the key of a label enters the rectangle in which the label
/// is shown. (Of several cells with the same key it is the first one; navigation keys come first.)
pub proof fn law_label_code_enters_its_cell(
    g: GridView,
    o: OverlayState,
    labels: Seq<Seq<char>>,
    i: int,
    code: u32,
    action_keys: ActionKeys,
    cell_keysyms: Seq<(u32, CellIndex)>,
    keymap: Keymap,
)
    requires
        g.wf(),
        o.current == g.current,
        o.rows == g.rows,
        o.cols == g.cols,
        labels.len() == g.rows * g.cols,
        0 <= i < labels.len(),
        label_keycode(labels[i]) == Some(code),
        forall|j: int| 0 <= j < i ==> label_keycode(#[trigger] labels[j]) != Some(code),
        code != keymap.backspace && code != keymap.esc && code != keymap.enter,
    ensures
        ({
            let event = OverlayEvent::SelectCell(cell_at(i, g.cols));
            let codes = cell_map(label_keycodes(labels), g.cols);
            &&& press_event(None, code, action_keys, cell_keysyms, keymap, codes) == Some(event)
            &&& step(g, event).1 == Outcome::Continue
            &&& step(g, event).0.current == o.shown_cell(i)
        }),
{
    let keys = label_keycodes(labels);
    assert forall|j: int| 0 <= j < i implies #[trigger] keys[j] != Some(code) by {
        assert(keys[j] == label_keycode(labels[j]));
    }
    law_key_selects_its_cell(keys, g.cols, i, code);
    law_shown_cell_is_entered(o, g, i);
}

/// With a keyboard layout, pressing the key that the layout gives the keysym of a label enters
/// the rectangle in which the label is shown. (Of several cells with the same keysym it is the
/// first one; navigation keys come first.)
pub proof fn law_label_keysym_enters_its_cell(
    g: GridView,
    o: OverlayState,
    labels: Seq<Seq<char>>,
    found: Seq<u32>,
    i: int,
    sym: u32,
    code: u32,
    action_keys: ActionKeys,
    keymap: Keymap,
    cell_keycodes: Seq<(u32, CellIndex)>,
)
    requires
        g.wf(),
        o.current == g.current,
        o.rows == g.rows,
        o.cols == g.cols,
        labels.len() == g.rows * g.cols,
        0 <= i < labels.len(),
        label_keysym(labels[i], found_at(found, i)) == Some(sym),
        forall|j: int|
            0 <= j < i ==> label_keysym(#[trigger] labels[j], found_at(found, j)) != Some(sym),
        sym != action_keys.backspace && sym != action_keys.esc && sym != action_keys.enter,
    ensures
        ({
            let event = OverlayEvent::SelectCell(cell_at(i, g.cols));
            let syms = cell_map(label_keysyms(labels, found), g.cols);
            &&& press_event(Some(sym), code, action_keys, syms, keymap, cell_keycodes) == Some(
                event,
            )
            &&& step(g, event).1 == Outcome::Continue
            &&& step(g, event).0.current == o.shown_cell(i)
        }),
{
    let keys = label_keysyms(labels, found);
    assert forall|j: int| 0 <= j < i implies #[trigger] keys[j] != Some(sym) by {
        assert(keys[j] == label_keysym(labels[j], found_at(found, j)));
    }
    law_key_selects_its_cell(keys, g.cols, i, sym);
    law_shown_cell_is_entered(o, g, i);
}

/// The events that select the cells of a path in turn.
pub open spec fn selects(path: Seq<CellIndex>) -> Seq<OverlayEvent> {
    Seq::new(path.len(), |i: int| OverlayEvent::SelectCell(path[i]))
}

/// As many events for going up.
pub open spec fn ascents(n: nat) -> Seq<OverlayEvent> {
    Seq::new(n, |i: int| OverlayEvent::Ascend)
}

/// A single event moves one level down or up, or ends the session where it stands.
pub proof fn law_single_events(g: GridView, cell: CellIndex)
    ensures
        run(g, Seq::empty()) == (g, Outcome::Continue),
        run(g, seq![OverlayEvent::SelectCell(cell)]) == (g.descend(cell), Outcome::Continue),
        run(g, seq![OverlayEvent::Ascend]) == (g.ascend(), Outcome::Continue),
        run(g, seq![OverlayEvent::Cancel]) == (g, Outcome::Cancelled),
        run(g, seq![OverlayEvent::Confirm]).0 == g,
        run(g, seq![OverlayEvent::Confirm]).1 == Outcome::Confirmed(
            g.current.center_point().0,
            g.current.center_point().1,
        ),
{
    reveal_with_fuel(run, 2);
    assert(seq![OverlayEvent::SelectCell(cell)].drop_first() =~= Seq::empty());
    assert(seq![OverlayEvent::Ascend].drop_first() =~= Seq::empty());
}

/// Selecting cells leads down their path, level by level.
pub proof fn law_selects_descend(g: GridView, path: Seq<CellIndex>)
    ensures
        run(g, selects(path)) == (g.descend_all(path), Outcome::Continue),
    decreases path.len(),
{
    if path.len() == 0 {
        assert(selects(path) =~= Seq::empty());
    } else {
        let front = path.drop_last();
        law_selects_descend(g, front);
        let last = seq![OverlayEvent::SelectCell(path.last())];
        assert(selects(path) =~= selects(front) + last);
        law_runs_in_batches(g, selects(front), last);
        law_single_events(g.descend_all(front), path.last());
    }
}

proof fn lemma_ascents_ascend(g: GridView, n: nat)
    ensures
        run(g, ascents(n)) == (g.ascend_times(n), Outcome::Continue),
    decreases n,
{
    if n == 0 {
        assert(ascents(n) =~= Seq::empty());
    } else {
        assert(ascents(n).drop_first() =~= ascents((n - 1) as nat));
        lemma_ascents_ascend(g.ascend(), (n - 1) as nat);
    }
}

/// Selecting cells and going up as often as cells were selected leads back, whatever the path and
/// wherever it began, and confirming then gives the center of where it began.
pub proof fn law_there_and_back(g: GridView, path: Seq<CellIndex>)
    ensures
        run(g, selects(path) + ascents(path.len())) == (g, Outcome::Continue),
        run(g, selects(path) + ascents(path.len()) + seq![OverlayEvent::Confirm]) == run(
            g,
            seq![OverlayEvent::Confirm],
        ),
{
    law_selects_descend(g, path);
    law_runs_in_batches(g, selects(path), ascents(path.len()));
    lemma_ascents_ascend(g.descend_all(path), path.len());
    law_ascents_undo_descents(g, path);
    law_runs_in_batches(g, selects(path) + ascents(path.len()), seq![OverlayEvent::Confirm]);
}

/// Whatever moves come before and whatever events come behind: a cancelled session gives no
/// target, and a confirmed one the point halfway along both sides of where the moves led.
pub proof fn law_sessions_end(g: GridView, moves: Seq<OverlayEvent>, rest: Seq<OverlayEvent>)
    requires
        g.wf(),
        g.in_range(),
        forall|i: int|
            0 <= i < moves.len() ==> (#[trigger] moves[i]) != OverlayEvent::Cancel && moves[i]
                != OverlayEvent::Confirm,
    ensures
        run(g, moves).1 == Outcome::Continue,
        run(g, moves + seq![OverlayEvent::Cancel] + rest) == (
            run(g, moves).0,
            Outcome::Cancelled,
        ),
        run(g, moves + seq![OverlayEvent::Confirm] + rest).0 == run(g, moves).0,
        ({
            let c = run(g, moves).0.current;
            &&& run(g, moves + seq![OverlayEvent::Confirm] + rest).1 matches Outcome::Confirmed(
                x,
                y,
            )
            &&& c.width >= 0 ==> 0 <= (c.x + c.width - x) - (x - c.x) <= 1
            &&& c.height >= 0 ==> 0 <= (c.y + c.height - y) - (y - c.y) <= 1
        }),
{
    lemma_moves_continue(g, moves);
    let there = run(g, moves).0;
    let any = CellIndex { row: 0, col: 0 };
    law_single_events(there, any);
    law_runs_fit(g, moves);
    law_center_is_halfway(there.current);
    let cancel = seq![OverlayEvent::Cancel];
    let confirm = seq![OverlayEvent::Confirm];
    law_runs_in_batches(g, moves, cancel);
    law_runs_in_batches(g, moves + cancel, rest);
    law_runs_in_batches(g, moves, confirm);
    law_runs_in_batches(g, moves + confirm, rest);
}

proof fn lemma_moves_continue(g: GridView, moves: Seq<OverlayEvent>)
    requires
        forall|i: int|
            0 <= i < moves.len() ==> (#[trigger] moves[i]) != OverlayEvent::Cancel && moves[i]
                != OverlayEvent::Confirm,
    ensures
        run(g, moves).1 == Outcome::Continue,
    decreases moves.len(),
{
    if moves.len() > 0 {
        let rest = moves.drop_first();
        assert forall|i: int| 0 <= i < rest.len() implies (#[trigger] rest[i])
            != OverlayEvent::Cancel && rest[i] != OverlayEvent::Confirm by {
            assert(rest[i] == moves[i + 1]);
        }
        lemma_moves_continue(step(g, moves[0]).0, rest);
    }
}

/// A letter that the configuration puts at `(row, col)` selects the cell at `(row, col)`, if no
/// cell before it has the same letter and it is no navigation key.
pub proof fn law_configured_letter_selects_its_cell(
    rows: usize,
    cols: usize,
    cfg: Config,
    kb: Keybindings,
    cells: Vec<Vec<String>>,
    row: int,
    col: int,
    c: char,
    code: u32,
    action_keys: ActionKeys,
    cell_keysyms: Seq<(u32, CellIndex)>,
    keymap: Keymap,
)
    requires
        1 <= rows <= 10,
        1 <= cols <= 10,
        cfg.keybindings == Some(kb),
        kb.cells == Some(cells),
        cells@.len() == rows,
        forall|r: int| 0 <= r < rows ==> (#[trigger] cells@[r])@.len() == cols,
        0 <= row < rows,
        0 <= col < cols,
        cells@[row]@[col]@ == seq![c],
        letter_keycode(c) == Some(code),
        forall|j: int|
            0 <= j < row * cols + col ==> label_keycode(
                #[trigger] label_texts(rows as int, cols as int, cfg, None)[j],
            ) != Some(code),
        code != keymap.backspace && code != keymap.esc && code != keymap.enter,
    ensures
        press_event(
            None,
            code,
            action_keys,
            cell_keysyms,
            keymap,
            cell_map(
                label_keycodes(label_texts(rows as int, cols as int, cfg, None)),
                cols as int,
            ),
        ) == Some(
            OverlayEvent::SelectCell(CellIndex { row: row as usize, col: col as usize }),
        ),
{
    let labels = label_texts(rows as int, cols as int, cfg, None);
    let at = row * cols + col;
    law_configured_cells_label_the_grid(rows, cols, cfg, kb, cells, None, row, col);
    law_text_case(cells@[row]@[col]@, 0);
    assert(labels[at] =~= seq![upper(c)]);
    law_letters_have_codes(c);
    law_label_keycode(labels[at], upper(c));
    let keys = label_keycodes(labels);
    assert forall|j: int| 0 <= j < at implies #[trigger] keys[j] != Some(code) by {
        assert(keys[j] == label_keycode(labels[j]));
    }
    law_key_selects_its_cell(keys, cols as int, at, code);
}

} // verus!
