//! Labels of the grid cells, and the keys that select the cells.

use crate::config::{Config, Keybindings};
use crate::geometry::CellIndex;
use crate::grid::{clamp_grid_size, grid_size, MAX_GRID};
use crate::keys::{
    action_keysym, is_navigation_name, keycode_for_char, keysym_from_name, keysym_lookup,
    law_letter_codes_distinct, law_name_keysyms, letter_keycode, name_keysym, KEY_NO_SYMBOL,
};
use crate::text::{
    chars_of, is_white_space, string_of_char, to_upper, trimmed, upper, upper_char, uppered,
    white_space,
};
use vstd::prelude::*;

verus! {

// ---------------------------------------------------------------------------------------------
// Labels
// ---------------------------------------------------------------------------------------------

/// The characters of each of some strings.
pub open spec fn texts(v: Seq<String>) -> Seq<Seq<char>> {
    Seq::new(v.len(), |i: int| v[i]@)
}

/// The keys that label cells by default, in this order.
pub open spec fn default_keys() -> Seq<char> {
    "asdfghjkl;qwertyuiopzxcvbnm,./1234567890[]'`-=\\"@
}

/// Default labels for `count` cells: one key each, as far as there are keys, and empty behind.
pub open spec fn default_labels(count: int) -> Seq<Seq<char>> {
    Seq::new(
        count as nat,
        |i: int|
            if i < default_keys().len() {
                seq![upper(default_keys()[i])]
            } else {
                Seq::empty()
            },
    )
}

/// Labels that the configuration gives, row by row, if it gives one for every cell.
pub open spec fn configured_labels(cfg: Config, rows: int, cols: int) -> Option<Seq<Seq<char>>> {
    match cfg.keybindings {
        Some(kb) => match kb.cells {
            Some(cells) => if cells@.len() == rows && forall|r: int|
                0 <= r < rows ==> (#[trigger] cells@[r])@.len() == cols {
                Some(
                    Seq::new(
                        (rows * cols) as nat,
                        |i: int| uppered(cells@[i / cols]@[i % cols]@),
                    ),
                )
            } else {
                None
            },
            None => None,
        },
        None => None,
    }
}

/// Labels that the text of `HYPRRGN_KEYS` gives: its characters other than white space, if there
/// are enough of them.
pub open spec fn listed_labels(keys: Seq<char>, count: int) -> Option<Seq<Seq<char>>> {
    let listed = keys.filter(|c: char| !white_space(c));
    if listed.len() >= count {
        Some(Seq::new(count as nat, |i: int| seq![upper(listed[i])]))
    } else {
        None
    }
}

/// The labels of all cells, row by row: those of `HYPRRGN_KEYS`, or else those of the
/// configuration, or else U, I, J and K for a grid of two by two, or else the default ones.
pub open spec fn label_texts(rows: int, cols: int, cfg: Config, keys: Option<Seq<char>>) -> Seq<
    Seq<char>,
> {
    let rows = grid_size(rows);
    let cols = grid_size(cols);
    let listed = match keys {
        Some(text) => listed_labels(text, rows * cols),
        None => None,
    };
    match listed {
        Some(labels) => labels,
        None => match configured_labels(cfg, rows, cols) {
            Some(labels) => labels,
            None => if rows == 2 && cols == 2 {
                seq![seq!['U'], seq!['I'], seq!['J'], seq!['K']]
            } else {
                default_labels(rows * cols)
            },
        },
    }
}

/// The first `count` default labels, or all of them if there are fewer.
pub fn default_cell_labels(count: usize) -> (r: Vec<String>)
    ensures
        r@.len() == if count < default_keys().len() {
            count as nat
        } else {
            default_keys().len()
        },
        forall|i: int| 0 <= i < r@.len() ==> (#[trigger] r@[i])@ == seq![upper(default_keys()[i])],
{
    let chars = chars_of("asdfghjkl;qwertyuiopzxcvbnm,./1234567890[]'`-=\\");
    let mut r: Vec<String> = Vec::new();
    let mut i: usize = 0;
    while i < count && i < chars.len()
        invariant
            i <= count,
            i <= chars@.len(),
            chars@ == default_keys(),
            r@.len() == i,
            forall|j: int|
                0 <= j < i ==> (#[trigger] r@[j])@ == seq![upper(default_keys()[j])],
        decreases count - i,
    {
        r.push(string_of_char(upper_char(chars[i])));
        i += 1;
    }
    r
}

/// The characters other than white space.
fn without_white_space(s: &str) -> (r: Vec<char>)
    ensures
        r@ == s@.filter(|c: char| !white_space(c)),
{
    let chars = chars_of(s);
    let ghost visible = |c: char| !white_space(c);
    let mut r: Vec<char> = Vec::new();
    let mut i: usize = 0;
    proof {
        reveal(Seq::filter);
    }
    while i < chars.len()
        invariant
            i <= chars@.len(),
            visible == (|c: char| !white_space(c)),
            r@ == chars@.take(i as int).filter(visible),
        decreases chars@.len() - i,
    {
        proof {
            reveal(Seq::filter);
            assert(chars@.take(i + 1).drop_last() =~= chars@.take(i as int));
        }
        if !is_white_space(chars[i]) {
            r.push(chars[i]);
        }
        i += 1;
    }
    assert(chars@.take(i as int) =~= chars@);
    r
}

/// Labels from the configuration, row by row, if it has one for every cell of the grid.
fn labels_from_config(cfg: &Config, rows: usize, cols: usize) -> (r: Option<Vec<String>>)
    requires
        1 <= rows <= MAX_GRID,
        1 <= cols <= MAX_GRID,
    ensures
        match configured_labels(*cfg, rows as int, cols as int) {
            Some(labels) => r matches Some(v) && texts(v@) == labels,
            None => r is None,
        },
{
    let kb = match &cfg.keybindings {
        Some(kb) => kb,
        None => return None,
    };
    let cells = match &kb.cells {
        Some(cells) => cells,
        None => return None,
    };
    if cells.len() != rows {
        return None;
    }
    let mut i: usize = 0;
    while i < rows
        invariant
            i <= rows,
            cells@.len() == rows,
            cfg.keybindings is Some,
            cfg.keybindings->0.cells == Some(*cells),
            forall|j: int| 0 <= j < i ==> (#[trigger] cells@[j])@.len() == cols,
        decreases rows - i,
    {
        if cells[i].len() != cols {
            assert(cells@[i as int]@.len() != cols);
            return None;
        }
        i += 1;
    }
    let mut labels: Vec<String> = Vec::new();
    let ghost want = configured_labels(*cfg, rows as int, cols as int)->0;
    let mut k: usize = 0;
    assert(rows * cols <= MAX_GRID * MAX_GRID) by (nonlinear_arith)
        requires
            rows <= MAX_GRID,
            cols <= MAX_GRID,
    ;
    while k < rows * cols
        invariant
            1 <= rows <= MAX_GRID,
            1 <= cols <= MAX_GRID,
            rows * cols <= MAX_GRID * MAX_GRID,
            k <= rows * cols,
            cells@.len() == rows,
            forall|j: int| 0 <= j < rows ==> (#[trigger] cells@[j])@.len() == cols,
            labels@.len() == k,
            want.len() == rows * cols,
            forall|j: int|
                0 <= j < rows * cols ==> #[trigger] want[j] == uppered(
                    cells@[j / cols as int]@[j % cols as int]@,
                ),
            forall|j: int| 0 <= j < k ==> (#[trigger] labels@[j])@ == want[j],
        decreases rows * cols - k,
    {
        proof {
            lemma_cell_of_index(k as int, rows as int, cols as int);
        }
        let row = &cells[k / cols];
        labels.push(to_upper(row[k % cols].as_str()));
        k += 1;
    }
    assert(texts(labels@) =~= want);
    Some(labels)
}

/// The row and column of a cell that is counted row by row.
proof fn lemma_cell_of_index(i: int, rows: int, cols: int)
    requires
        0 <= i < rows * cols,
        1 <= cols,
    ensures
        0 <= i / cols < rows,
        0 <= i % cols < cols,
        (i / cols) * cols + i % cols == i,
{
    assert(0 <= i / cols < rows && 0 <= i % cols < cols && (i / cols) * cols + i % cols == i)
        by (nonlinear_arith)
        requires
            0 <= i < rows * cols,
            1 <= cols,
    ;
}

/// Labels from the text of `HYPRRGN_KEYS`, if it has enough keys.
fn labels_from_text(keys: &str, count: usize) -> (r: Option<Vec<String>>)
    ensures
        match listed_labels(keys@, count as int) {
            Some(labels) => r matches Some(v) && texts(v@) == labels,
            None => r is None,
        },
{
    let listed = without_white_space(keys);
    if listed.len() < count {
        return None;
    }
    let mut labels: Vec<String> = Vec::new();
    let mut i: usize = 0;
    while i < count
        invariant
            i <= count <= listed@.len(),
            labels@.len() == i,
            forall|j: int| 0 <= j < i ==> (#[trigger] labels@[j])@ == seq![upper(listed@[j])],
        decreases count - i,
    {
        labels.push(string_of_char(upper_char(listed[i])));
        i += 1;
    }
    assert(texts(labels@) =~= listed_labels(keys@, count as int)->0);
    Some(labels)
}

/// The labels of all cells, row by row. `keys` is the value of `HYPRRGN_KEYS`.
pub fn cell_labels(rows: usize, cols: usize, cfg: &Config, keys: Option<&str>) -> (r: Vec<String>)
    ensures
        texts(r@) == label_texts(
            rows as int,
            cols as int,
            *cfg,
            match keys {
                Some(text) => Some(text@),
                None => None,
            },
        ),
        r@.len() == grid_size(rows as int) * grid_size(cols as int),
{
    let rows = clamp_grid_size(rows);
    let cols = clamp_grid_size(cols);
    assert(1 <= rows * cols <= MAX_GRID * MAX_GRID) by (nonlinear_arith)
        requires
            1 <= rows <= MAX_GRID,
            1 <= cols <= MAX_GRID,
    ;
    let count: usize = rows * cols;
    if let Some(text) = keys {
        if let Some(labels) = labels_from_text(text, count) {
            assert(texts(labels@).len() == count);
            return labels;
        }
    }
    if let Some(labels) = labels_from_config(cfg, rows, cols) {
        assert(texts(labels@).len() == count);
        return labels;
    }
    if rows == 2 && cols == 2 {
        let mut labels: Vec<String> = Vec::new();
        labels.push(string_of_char('U'));
        labels.push(string_of_char('I'));
        labels.push(string_of_char('J'));
        labels.push(string_of_char('K'));
        assert(texts(labels@) =~= seq![seq!['U'], seq!['I'], seq!['J'], seq!['K']]);
        assert(rows * cols == 4) by (nonlinear_arith)
            requires
                rows == 2,
                cols == 2,
        ;
        return labels;
    }
    let mut labels = default_cell_labels(count);
    while labels.len() < count
        invariant
            labels@.len() <= count,
            labels@.len() >= default_keys().len() || labels@.len() == count,
            forall|i: int|
                0 <= i < labels@.len() ==> (#[trigger] labels@[i])@ == default_labels(
                    count as int,
                )[i],
        decreases count - labels@.len(),
    {
        labels.push(String::new());
    }
    assert(texts(labels@) =~= default_labels(count as int));
    labels
}

// ---------------------------------------------------------------------------------------------
// Maps from keys to cells
// ---------------------------------------------------------------------------------------------

/// The cell that comes `i`-th, counted row by row.
pub open spec fn cell_at(i: int, cols: int) -> CellIndex {
    CellIndex { row: (i / cols) as usize, col: (i % cols) as usize }
}

/// The key code of a label: that of the letter it consists of.
pub open spec fn label_keycode(label: Seq<char>) -> Option<u32> {
    if label.len() == 1 {
        letter_keycode(label[0])
    } else {
        None
    }
}

/// The keysym of a label, where looking it up gives `found`; an empty label has none.
pub open spec fn label_keysym(label: Seq<char>, found: u32) -> Option<u32> {
    if label.len() == 0 {
        None
    } else {
        name_keysym(label, found)
    }
}

/// The keysym found for label `i`; where none is given, no symbol.
pub open spec fn found_at(found: Seq<u32>, i: int) -> u32 {
    if 0 <= i < found.len() {
        found[i]
    } else {
        KEY_NO_SYMBOL
    }
}

/// The entry of cell `i` in a map: its key, if it has one.
pub open spec fn entry(key: Option<u32>, i: int, cols: int) -> Seq<(u32, CellIndex)> {
    match key {
        Some(k) => seq![(k, cell_at(i, cols))],
        None => Seq::empty(),
    }
}

/// The map from keys to cells, where `keys` gives the key of each cell that has one, row by row.
pub open spec fn cell_map(keys: Seq<Option<u32>>, cols: int) -> Seq<(u32, CellIndex)>
    decreases keys.len(),
{
    if keys.len() == 0 {
        Seq::empty()
    } else {
        cell_map(keys.drop_last(), cols) + entry(keys.last(), keys.len() - 1, cols)
    }
}

/// The key code of each label.
pub open spec fn label_keycodes(labels: Seq<Seq<char>>) -> Seq<Option<u32>> {
    Seq::new(labels.len(), |i: int| label_keycode(labels[i]))
}

/// The keysym of each label.
pub open spec fn label_keysyms(labels: Seq<Seq<char>>, found: Seq<u32>) -> Seq<Option<u32>> {
    Seq::new(labels.len(), |i: int| label_keysym(labels[i], found_at(found, i)))
}

/// For each label, in order, the name to look up before `build_cell_maps` is called; none for an
/// empty label and for the name of a navigation key.
pub fn cell_lookups(labels: &Vec<String>) -> (r: Vec<Option<String>>)
    ensures
        r@.len() == labels@.len(),
        forall|i: int|
            0 <= i < r@.len() ==> if labels@[i]@.len() == 0 || action_keysym(labels@[i]@) is Some {
                (#[trigger] r@[i]) is None
            } else {
                r@[i] is Some && r@[i]->0@ == trimmed(labels@[i]@)
            },
{
    let mut r: Vec<Option<String>> = Vec::new();
    let mut i: usize = 0;
    while i < labels.len()
        invariant
            i <= labels@.len(),
            r@.len() == i,
            forall|i: int|
                0 <= i < r@.len() ==> if labels@[i]@.len() == 0 || action_keysym(
                    labels@[i]@,
                ) is Some {
                    (#[trigger] r@[i]) is None
                } else {
                    r@[i] is Some && r@[i]->0@ == trimmed(labels@[i]@)
                },
        decreases labels@.len() - i,
    {
        let label = labels[i].as_str();
        if label.is_empty() {
            r.push(None);
        } else {
            r.push(keysym_lookup(label));
        }
        i += 1;
    }
    r
}

/// Build the map from keysyms to cells, the map from key codes to cells, and the labels of all
/// cells, each row by row.
///
/// `keys` is the value of `HYPRRGN_KEYS`. `found` holds, for each of the labels, the keysym that
/// looking up its name in `cell_lookups` gave, or `KEY_NO_SYMBOL`.
pub fn build_cell_maps(
    rows: usize,
    cols: usize,
    cfg: &Config,
    keys: Option<&str>,
    found: &Vec<u32>,
) -> (r: (Vec<(u32, CellIndex)>, Vec<(u32, CellIndex)>, Vec<String>))
    ensures
        ({
            let labels = label_texts(
                rows as int,
                cols as int,
                *cfg,
                match keys {
                    Some(text) => Some(text@),
                    None => None,
                },
            );
            &&& r.0@ == cell_map(label_keysyms(labels, found@), grid_size(cols as int))
            &&& r.1@ == cell_map(label_keycodes(labels), grid_size(cols as int))
            &&& texts(r.2@) == labels
            &&& labels.len() == grid_size(rows as int) * grid_size(cols as int)
        }),
{
    let labels = cell_labels(rows, cols, cfg, keys);
    let cols = clamp_grid_size(cols);
    let ghost shown = texts(labels@);
    let ghost syms = label_keysyms(shown, found@);
    let ghost codes = label_keycodes(shown);
    let mut keysyms: Vec<(u32, CellIndex)> = Vec::new();
    let mut keycodes: Vec<(u32, CellIndex)> = Vec::new();
    let mut i: usize = 0;
    while i < labels.len()
        invariant
            i <= labels@.len(),
            1 <= cols,
            shown == texts(labels@),
            syms == label_keysyms(shown, found@),
            codes == label_keycodes(shown),
            keysyms@ == cell_map(syms.take(i as int), cols as int),
            keycodes@ == cell_map(codes.take(i as int), cols as int),
        decreases labels@.len() - i,
    {
        let label = labels[i].as_str();
        let cell = CellIndex { row: i / cols, col: i % cols };
        assert(cell == cell_at(i as int, cols as int));
        assert(shown[i as int] == label@);
        assert(syms.take(i + 1).drop_last() =~= syms.take(i as int));
        assert(codes.take(i + 1).drop_last() =~= codes.take(i as int));
        if !label.is_empty() {
            let number: u32 = if i < found.len() { found[i] } else { KEY_NO_SYMBOL };
            if let Some(sym) = keysym_from_name(label, number) {
                keysyms.push((sym, cell));
            }
            let chars = chars_of(label);
            if chars.len() == 1 {
                if let Some(code) = keycode_for_char(chars[0]) {
                    keycodes.push((code, cell));
                }
            }
        }
        i += 1;
    }
    assert(syms.take(i as int) =~= syms);
    assert(codes.take(i as int) =~= codes);
    (keysyms, keycodes, labels)
}

// ---------------------------------------------------------------------------------------------
// Laws
// ---------------------------------------------------------------------------------------------

/// Counting row by row, each cell of the grid comes at its own place.
pub proof fn law_cell_at_is_row_major(rows: int, cols: int, row: int, col: int)
    requires
        1 <= rows <= MAX_GRID,
        1 <= cols <= MAX_GRID,
        0 <= row < rows,
        0 <= col < cols,
    ensures
        0 <= row * cols + col < rows * cols,
        cell_at(row * cols + col, cols) == (CellIndex { row: row as usize, col: col as usize }),
{
    assert(0 <= row * cols + col < rows * cols) by (nonlinear_arith)
        requires
            0 <= row < rows,
            0 <= col < cols,
    ;
    vstd::arithmetic::div_mod::lemma_fundamental_div_mod_converse(
        row * cols + col,
        cols,
        row,
        col,
    );
}

/// Every cell that a key is mapped to is a cell of the grid, and the key is that of its label.
pub proof fn law_mapped_cells_are_in_grid(keys: Seq<Option<u32>>, rows: int, cols: int, k: int)
    requires
        1 <= rows <= MAX_GRID,
        1 <= cols <= MAX_GRID,
        keys.len() == rows * cols,
        0 <= k < cell_map(keys, cols).len(),
    ensures
        ({
            let (key, cell) = cell_map(keys, cols)[k];
            &&& cell.row < rows
            &&& cell.col < cols
            &&& keys[cell.row * cols + cell.col] == Some(key)
        }),
{
    let i = lemma_map_entry(keys, cols, k);
    lemma_cell_of_index(i, rows, cols);
}

/// The place of the cell of entry `k`.
proof fn lemma_map_entry(keys: Seq<Option<u32>>, cols: int, k: int) -> (i: int)
    requires
        0 <= k < cell_map(keys, cols).len(),
    ensures
        0 <= i < keys.len(),
        keys[i] == Some(cell_map(keys, cols)[k].0),
        cell_map(keys, cols)[k].1 == cell_at(i, cols),
    decreases keys.len(),
{
    let front = keys.drop_last();
    if k < cell_map(front, cols).len() {
        lemma_map_entry(front, cols, k)
    } else {
        keys.len() - 1
    }
}

/// `c` is none of the first `n` characters of `s`.
spec fn absent(s: Seq<char>, c: char, n: int) -> bool
    decreases n,
{
    n <= 0 || (s[n - 1] != c && absent(s, c, n - 1))
}

/// None of the first `n` characters of `s` occurs twice.
spec fn distinct(s: Seq<char>, n: int) -> bool
    decreases n,
{
    n <= 0 || (absent(s, s[n - 1], n - 1) && distinct(s, n - 1))
}

proof fn lemma_absent(s: Seq<char>, c: char, n: int, i: int)
    requires
        absent(s, c, n),
        0 <= i < n,
    ensures
        s[i] != c,
    decreases n,
{
    if i < n - 1 {
        lemma_absent(s, c, n - 1, i);
    }
}

proof fn lemma_distinct(s: Seq<char>, n: int, i: int, j: int)
    requires
        distinct(s, n),
        0 <= i < j < n,
    ensures
        s[i] != s[j],
    decreases n,
{
    if j < n - 1 {
        lemma_distinct(s, n - 1, i, j);
    } else {
        lemma_absent(s, s[j], j, i);
    }
}

proof fn lemma_default_keys_distinct()
    ensures
        default_keys().len() == 47,
        distinct(uppered(default_keys()), 47),
{
    reveal_strlit("asdfghjkl;qwertyuiopzxcvbnm,./1234567890[]'`-=\\");
    reveal_with_fuel(distinct, 48);
    reveal_with_fuel(absent, 48);
}

/// No two cells have the same default label, unless it is empty; there are 47 of them.
pub proof fn law_default_labels_distinct(count: int, i: int, j: int)
    requires
        0 <= i < j < count,
    ensures
        i < 47 <==> default_labels(count)[i].len() == 1,
        i >= 47 <==> default_labels(count)[i].len() == 0,
        i < 47 ==> default_labels(count)[i] != default_labels(count)[j],
{
    lemma_default_keys_distinct();
    if j < 47 {
        lemma_distinct(uppered(default_keys()), 47, i, j);
        assert(default_labels(count)[i][0] != default_labels(count)[j][0]);
    } else if i < 47 {
        assert(default_labels(count)[i].len() != default_labels(count)[j].len());
    }
}

/// Where neither the configuration nor `HYPRRGN_KEYS` says which keys select cells, no two cells
/// have the same key code, and none has that of a default navigation key.
pub proof fn law_generated_codes_distinct(rows: usize, cols: usize, cfg: Config, i: int, j: int)
    requires
        cfg.keybindings matches Some(kb) ==> kb.cells is None,
        0 <= i < j < grid_size(rows as int) * grid_size(cols as int),
    ensures
        ({
            let labels = label_texts(rows as int, cols as int, cfg, None);
            let code = label_keycode(labels[i]);
            &&& code is Some ==> code != label_keycode(labels[j])
            &&& code != Some(14u32)
            &&& code != Some(1u32)
            &&& code != Some(28u32)
        }),
{
    let labels = label_texts(rows as int, cols as int, cfg, None);
    lemma_default_keys_distinct();
    let n = grid_size(rows as int);
    let m = grid_size(cols as int);
    if n == 2 && m == 2 {
        assert(n * m == 4) by (nonlinear_arith)
            requires
                n == 2,
                m == 2,
        ;
    } else {
        law_default_labels_distinct(n * m, i, j);
    }
    if label_keycode(labels[i]) is Some {
        let a = labels[i][0];
        let b = labels[j][0];
        law_letter_codes_distinct(a, b);
        assert(labels[i] =~= seq![a]);
        if labels[j].len() == 1 {
            assert(labels[j] =~= seq![b]);
        }
    }
}

/// There is a label for every cell; a grid without rows or columns has one, and none has more than
/// ten.
pub proof fn law_label_count(rows: usize, cols: usize, cfg: Config, keys: Option<Seq<char>>)
    ensures
        1 <= rows <= 10 && 1 <= cols <= 10 ==> label_texts(
            rows as int,
            cols as int,
            cfg,
            keys,
        ).len() == rows * cols,
        rows > 10 ==> label_texts(rows as int, cols as int, cfg, keys) == label_texts(
            10,
            cols as int,
            cfg,
            keys,
        ),
        cols > 10 ==> label_texts(rows as int, cols as int, cfg, keys) == label_texts(
            rows as int,
            10,
            cfg,
            keys,
        ),
        rows == 0 ==> label_texts(rows as int, cols as int, cfg, keys) == label_texts(
            1,
            cols as int,
            cfg,
            keys,
        ),
        cols == 0 ==> label_texts(rows as int, cols as int, cfg, keys) == label_texts(
            rows as int,
            1,
            cfg,
            keys,
        ),
{
    let n = grid_size(rows as int);
    let m = grid_size(cols as int);
    assert(n * m >= 1) by (nonlinear_arith)
        requires
            n >= 1,
            m >= 1,
    ;
    assert(n == 2 && m == 2 ==> n * m == 4) by (nonlinear_arith);
}

/// Configured cells label the cells at their own places: the text at `(row, col)` of the
/// configuration, in capitals, labels the cell at `(row, col)` of the grid. `HYPRRGN_KEYS` is
/// missing or has too few keys.
pub proof fn law_configured_cells_label_the_grid(
    rows: usize,
    cols: usize,
    cfg: Config,
    kb: Keybindings,
    cells: Vec<Vec<String>>,
    keys: Option<Seq<char>>,
    row: int,
    col: int,
)
    requires
        1 <= rows <= 10,
        1 <= cols <= 10,
        cfg.keybindings == Some(kb),
        kb.cells == Some(cells),
        cells@.len() == rows,
        forall|r: int| 0 <= r < rows ==> (#[trigger] cells@[r])@.len() == cols,
        keys matches Some(text) ==> text.filter(|c: char| !white_space(c)).len() < rows * cols,
        0 <= row < rows,
        0 <= col < cols,
    ensures
        ({
            let labels = label_texts(rows as int, cols as int, cfg, keys);
            let at = row * cols + col;
            &&& labels.len() == rows * cols
            &&& 0 <= at < labels.len()
            &&& labels[at].len() == cells@[row]@[col]@.len()
            &&& labels[at] == uppered(cells@[row]@[col]@)
            &&& cell_at(at, cols as int) == (CellIndex { row: row as usize, col: col as usize })
        }),
{
    law_label_count(rows, cols, cfg, keys);
    law_cell_at_is_row_major(rows as int, cols as int, row, col);
    vstd::arithmetic::div_mod::lemma_fundamental_div_mod_converse(
        row * cols + col,
        cols as int,
        row,
        col,
    );
}

/// Configured cells of another shape than the grid count as none.
pub proof fn law_misshapen_cells_are_ignored(
    rows: usize,
    cols: usize,
    cfg: Config,
    bare: Config,
    kb: Keybindings,
    cells: Vec<Vec<String>>,
    keys: Option<Seq<char>>,
)
    requires
        1 <= rows <= 10,
        1 <= cols <= 10,
        cfg.keybindings == Some(kb),
        kb.cells == Some(cells),
        cells@.len() != rows || exists|r: int|
            0 <= r < rows && (#[trigger] cells@[r])@.len() != cols,
        bare.keybindings matches Some(other) ==> other.cells is None,
    ensures
        label_texts(rows as int, cols as int, cfg, keys) == label_texts(
            rows as int,
            cols as int,
            bare,
            keys,
        ),
{
}

/// Whatever the configuration: the keys of `HYPRRGN_KEYS` label the cells row by row, in capitals,
/// where there are enough of them; too few of them count as none.
pub proof fn law_listed_keys_label_the_grid(
    rows: usize,
    cols: usize,
    cfg: Config,
    text: Seq<char>,
    row: int,
    col: int,
)
    requires
        1 <= rows <= 10,
        1 <= cols <= 10,
        forall|i: int| 0 <= i < text.len() ==> !white_space(#[trigger] text[i]),
        0 <= row < rows,
        0 <= col < cols,
    ensures
        ({
            let labels = label_texts(rows as int, cols as int, cfg, Some(text));
            let at = row * cols + col;
            &&& 0 <= at < labels.len()
            &&& text.len() >= rows * cols ==> labels[at] == seq![upper(text[at])]
            &&& text.len() < rows * cols ==> labels == label_texts(
                rows as int,
                cols as int,
                cfg,
                None,
            )
            &&& cell_at(at, cols as int) == (CellIndex { row: row as usize, col: col as usize })
        }),
{
    law_label_count(rows, cols, cfg, Some(text));
    law_cell_at_is_row_major(rows as int, cols as int, row, col);
    lemma_filter_all(text);
}

proof fn lemma_filter_all(text: Seq<char>)
    requires
        forall|i: int| 0 <= i < text.len() ==> !white_space(#[trigger] text[i]),
    ensures
        text.filter(|c: char| !white_space(c)) == text,
    decreases text.len(),
{
    reveal(Seq::filter);
    if text.len() > 0 {
        let front = text.drop_last();
        assert forall|i: int| 0 <= i < front.len() implies !white_space(#[trigger] front[i]) by {
            assert(front[i] == text[i]);
        }
        lemma_filter_all(front);
        assert(text =~= front.push(text.last()));
        assert(!white_space(text[text.len() - 1]));
    }
}

/// White space in `HYPRRGN_KEYS` does not count, wherever it stands.
pub proof fn law_white_space_between_keys(
    rows: usize,
    cols: usize,
    cfg: Config,
    a: Seq<char>,
    space: char,
    b: Seq<char>,
)
    requires
        white_space(space),
    ensures
        label_texts(rows as int, cols as int, cfg, Some(a + seq![space] + b)) == label_texts(
            rows as int,
            cols as int,
            cfg,
            Some(a + b),
        ),
{
    let visible = |c: char| !white_space(c);
    Seq::filter_distributes_over_add(a, b, visible);
    Seq::filter_distributes_over_add(a + seq![space], b, visible);
    Seq::filter_distributes_over_add(a, seq![space], visible);
    reveal(Seq::filter);
    assert(seq![space].drop_last() =~= Seq::<char>::empty());
    assert(Seq::<char>::empty().filter(visible) =~= Seq::<char>::empty());
    assert(!visible(seq![space].last()));
    assert(seq![space].filter(visible) =~= Seq::<char>::empty());
    assert(a.filter(visible) + Seq::<char>::empty() =~= a.filter(visible));
}

/// Where neither the configuration nor `HYPRRGN_KEYS` gives labels, a grid of two by two has U, I,
/// J and K, and any other one key of the home row after the other, then those of the other rows,
/// as far as there are keys.
pub proof fn law_generated_labels(rows: usize, cols: usize, cfg: Config, i: int)
    requires
        1 <= rows <= 10,
        1 <= cols <= 10,
        cfg.keybindings matches Some(kb) ==> kb.cells is None,
        0 <= i < rows * cols,
    ensures
        ({
            let labels = label_texts(rows as int, cols as int, cfg, None);
            let keys = "asdfghjkl;qwertyuiopzxcvbnm,./1234567890[]'`-=\\"@;
            &&& rows == 2 && cols == 2 ==> labels == seq![
                seq!['U'],
                seq!['I'],
                seq!['J'],
                seq!['K'],
            ]
            &&& (rows != 2 || cols != 2) && i < keys.len() ==> labels[i] == seq![upper(keys[i])]
            &&& (rows != 2 || cols != 2) && i >= keys.len() ==> labels[i].len() == 0
        }),
{
}

/// The key code of a label of one character is that of the letter; no other label has one.
pub proof fn law_label_keycode(label: Seq<char>, c: char)
    ensures
        label_keycode(seq![c]) == letter_keycode(c),
        label.len() != 1 ==> label_keycode(label) is None,
{
}

/// A label that is not empty has the keysym of a navigation key of that name, or the one that was
/// found for it; an empty one has none.
pub proof fn law_label_keysym(label: Seq<char>, found: Seq<u32>, i: int)
    ensures
        label.len() == 0 ==> label_keysym(label, found_at(found, i)) is None,
        label.len() > 0 && is_navigation_name(label) ==> label_keysym(label, found_at(found, i))
            == name_keysym(label, 0),
        label.len() > 0 && !is_navigation_name(label) && 0 <= i < found.len() && found[i] != 0
            ==> label_keysym(label, found_at(found, i)) == Some(found[i]),
        !is_navigation_name(label) && (i < 0 || i >= found.len() || found[i] == 0)
            ==> label_keysym(label, found_at(found, i)) is None,
{
    law_name_keysyms(label, found_at(found, i));
    law_name_keysyms(label, 0);
}

/// Each label has its own key, in order.
pub proof fn law_label_keys(labels: Seq<Seq<char>>, found: Seq<u32>, i: int)
    ensures
        label_keycodes(labels).len() == labels.len(),
        label_keysyms(labels, found).len() == labels.len(),
        0 <= i < labels.len() ==> label_keycodes(labels)[i] == label_keycode(labels[i]),
        0 <= i < labels.len() && i < found.len() ==> label_keysyms(labels, found)[i]
            == label_keysym(labels[i], found[i]),
        0 <= i < labels.len() && i >= found.len() ==> label_keysyms(labels, found)[i]
            == label_keysym(labels[i], 0),
{
}

/// Every cell with a key stands in the map, with that key; the place is returned.
pub proof fn law_every_key_is_mapped(keys: Seq<Option<u32>>, cols: int, i: int) -> (k: int)
    requires
        0 <= i < keys.len(),
        keys[i] is Some,
    ensures
        0 <= k < cell_map(keys, cols).len(),
        cell_map(keys, cols)[k].0 == keys[i]->0,
        cell_map(keys, cols)[k].1 == cell_at(i, cols),
    decreases keys.len(),
{
    let front = keys.drop_last();
    if i < front.len() {
        law_every_key_is_mapped(front, cols, i)
    } else {
        cell_map(front, cols).len() as int
    }
}

/// The map lists the cells row by row, each at most once.
pub proof fn law_map_is_in_order(keys: Seq<Option<u32>>, rows: int, cols: int, k: int, l: int)
    requires
        1 <= rows <= 10,
        1 <= cols <= 10,
        keys.len() == rows * cols,
        0 <= k < l < cell_map(keys, cols).len(),
    ensures
        ({
            let a = cell_map(keys, cols)[k].1;
            let b = cell_map(keys, cols)[l].1;
            a.row * cols + a.col < b.row * cols + b.col
        }),
{
    let (i, j) = lemma_map_order(keys, cols, k, l);
    lemma_cell_of_index(i, rows, cols);
    lemma_cell_of_index(j, rows, cols);
}

proof fn lemma_map_order(keys: Seq<Option<u32>>, cols: int, k: int, l: int) -> (at: (int, int))
    requires
        0 <= k < l < cell_map(keys, cols).len(),
    ensures
        0 <= at.0 < at.1 < keys.len(),
        cell_map(keys, cols)[k].1 == cell_at(at.0, cols),
        cell_map(keys, cols)[l].1 == cell_at(at.1, cols),
    decreases keys.len(),
{
    let front = keys.drop_last();
    if l < cell_map(front, cols).len() {
        lemma_map_order(front, cols, k, l)
    } else {
        let i = lemma_map_entry(front, cols, k);
        (i, keys.len() - 1)
    }
}

/// The texts of strings are their characters, each at its place.
pub proof fn law_texts(v: Seq<String>, i: int)
    ensures
        texts(v).len() == v.len(),
        0 <= i < v.len() ==> texts(v)[i] == v[i]@,
{
}

} // verus!
