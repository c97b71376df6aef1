//! What a key press means.

use crate::config::Keybindings;
use crate::events::OverlayEvent;
use crate::geometry::CellIndex;
use crate::keys::{
    bound_keycode, bound_keysym, law_named_code_is_bound, law_named_keysym_is_bound, name_keycode,
    takes_found, ActionKeys, Keymap, KEY_BACKSPACE, KEY_ESCAPE, KEY_RETURN,
};
use crate::labels::{cell_at, cell_map, entry};
use vstd::prelude::*;

verus! {

/// The cell of the first entry for `key`.
pub open spec fn first_cell(map: Seq<(u32, CellIndex)>, key: u32) -> Option<CellIndex>
    decreases map.len(),
{
    if map.len() == 0 {
        None
    } else if map[0].0 == key {
        Some(map[0].1)
    } else {
        first_cell(map.drop_first(), key)
    }
}

/// What a key means, given the keys for going up, cancelling and confirming, which take
/// precedence in this order, and a map for the keys that select cells.
pub open spec fn key_event(
    key: u32,
    backspace: u32,
    esc: u32,
    enter: u32,
    cells: Seq<(u32, CellIndex)>,
) -> Option<OverlayEvent> {
    if key == backspace {
        Some(OverlayEvent::Ascend)
    } else if key == esc {
        Some(OverlayEvent::Cancel)
    } else if key == enter {
        Some(OverlayEvent::Confirm)
    } else {
        match first_cell(cells, key) {
            Some(cell) => Some(OverlayEvent::SelectCell(cell)),
            None => None,
        }
    }
}

/// What a key press means: what its keysym means, if the keyboard layout is known and gives it
/// a meaning, or else what its key code means.
pub open spec fn press_event(
    sym: Option<u32>,
    code: u32,
    action_keys: ActionKeys,
    cell_keysyms: Seq<(u32, CellIndex)>,
    keymap: Keymap,
    cell_keycodes: Seq<(u32, CellIndex)>,
) -> Option<OverlayEvent> {
    let by_sym = match sym {
        Some(sym) => key_event(
            sym,
            action_keys.backspace,
            action_keys.esc,
            action_keys.enter,
            cell_keysyms,
        ),
        None => None,
    };
    match by_sym {
        Some(event) => Some(event),
        None => key_event(code, keymap.backspace, keymap.esc, keymap.enter, cell_keycodes),
    }
}

/// Find the cell of the first entry for a key.
fn find_cell(map: &Vec<(u32, CellIndex)>, key: u32) -> (r: Option<CellIndex>)
    ensures
        r == first_cell(map@, key),
{
    let mut i: usize = 0;
    assert(map@.skip(0) =~= map@);
    while i < map.len()
        invariant
            i <= map@.len(),
            first_cell(map@.skip(i as int), key) == first_cell(map@, key),
        decreases map@.len() - i,
    {
        assert(map@.skip(i as int).drop_first() =~= map@.skip(i + 1));
        let (k, cell) = map[i];
        if k == key {
            return Some(cell);
        }
        i += 1;
    }
    None
}

/// Find what a key means.
fn find_event(
    key: u32,
    backspace: u32,
    esc: u32,
    enter: u32,
    cells: &Vec<(u32, CellIndex)>,
) -> (r: Option<OverlayEvent>)
    ensures
        r == key_event(key, backspace, esc, enter, cells@),
{
    if key == backspace {
        Some(OverlayEvent::Ascend)
    } else if key == esc {
        Some(OverlayEvent::Cancel)
    } else if key == enter {
        Some(OverlayEvent::Confirm)
    } else {
        match find_cell(cells, key) {
            Some(cell) => Some(OverlayEvent::SelectCell(cell)),
            None => None,
        }
    }
}

/// Find what a key press means. `sym` is the keysym that the keyboard layout gives the key, if a
/// layout is known, and `code` its evdev code.
pub fn resolve_press(
    sym: Option<u32>,
    code: u32,
    action_keys: &ActionKeys,
    cell_keysyms: &Vec<(u32, CellIndex)>,
    keymap: &Keymap,
    cell_keycodes: &Vec<(u32, CellIndex)>,
) -> (r: Option<OverlayEvent>)
    ensures
        r == press_event(sym, code, *action_keys, cell_keysyms@, *keymap, cell_keycodes@),
{
    if let Some(sym) = sym {
        let by_sym = find_event(
            sym,
            action_keys.backspace,
            action_keys.esc,
            action_keys.enter,
            cell_keysyms,
        );
        if by_sym.is_some() {
            return by_sym;
        }
    }
    find_event(code, keymap.backspace, keymap.esc, keymap.enter, cell_keycodes)
}

/// The code under which a keyboard layout knows the key with an evdev code.
pub fn layout_keycode(code: u32) -> (r: u32)
    requires
        code <= u32::MAX - 8,
    ensures
        r == code + 8,
{
    code + 8
}

proof fn lemma_first_cell_concat(a: Seq<(u32, CellIndex)>, b: Seq<(u32, CellIndex)>, key: u32)
    ensures
        first_cell(a + b, key) == match first_cell(a, key) {
            Some(cell) => Some(cell),
            None => first_cell(b, key),
        },
    decreases a.len(),
{
    if a.len() == 0 {
        assert(a + b =~= b);
    } else {
        assert((a + b).drop_first() =~= a.drop_first() + b);
        lemma_first_cell_concat(a.drop_first(), b, key);
    }
}

/// The first cell with a key is the one that the key selects.
pub proof fn law_key_selects_its_cell(keys: Seq<Option<u32>>, cols: int, i: int, key: u32)
    requires
        0 <= i < keys.len(),
        keys[i] == Some(key),
        forall|j: int| 0 <= j < i ==> #[trigger] keys[j] != Some(key),
    ensures
        first_cell(cell_map(keys, cols), key) == Some(cell_at(i, cols)),
    decreases keys.len(),
{
    let front = keys.drop_last();
    lemma_first_cell_concat(
        cell_map(front, cols),
        entry(keys.last(), keys.len() - 1, cols),
        key,
    );
    if i < front.len() {
        assert forall|j: int| 0 <= j < i implies #[trigger] front[j] != Some(key) by {
            assert(front[j] == keys[j]);
        }
        law_key_selects_its_cell(front, cols, i, key);
    } else {
        assert forall|j: int| 0 <= j < front.len() implies #[trigger] front[j] != Some(key) by {
            assert(front[j] == keys[j]);
        }
        law_other_keys_select_nothing(front, cols, key);
        reveal_with_fuel(first_cell, 2);
    }
}

/// A key that no cell has selects none.
pub proof fn law_other_keys_select_nothing(keys: Seq<Option<u32>>, cols: int, key: u32)
    requires
        forall|j: int| 0 <= j < keys.len() ==> #[trigger] keys[j] != Some(key),
    ensures
        first_cell(cell_map(keys, cols), key) is None,
    decreases keys.len(),
{
    if keys.len() > 0 {
        let front = keys.drop_last();
        lemma_first_cell_concat(
            cell_map(front, cols),
            entry(keys.last(), keys.len() - 1, cols),
            key,
        );
        assert forall|j: int| 0 <= j < front.len() implies #[trigger] front[j] != Some(key) by {
            assert(front[j] == keys[j]);
        }
        law_other_keys_select_nothing(front, cols, key);
        assert(keys[keys.len() - 1] != Some(key));
        reveal_with_fuel(first_cell, 2);
    }
}

/// A navigation key keeps its meaning, whatever cells are bound to the same key.
pub proof fn law_navigation_keys_win(
    code: u32,
    action_keys: ActionKeys,
    cell_keysyms: Seq<(u32, CellIndex)>,
    keymap: Keymap,
    cell_keycodes: Seq<(u32, CellIndex)>,
)
    ensures
        press_event(
            Some(action_keys.backspace),
            code,
            action_keys,
            cell_keysyms,
            keymap,
            cell_keycodes,
        ) == Some(OverlayEvent::Ascend),
        action_keys.esc != action_keys.backspace ==> press_event(
            Some(action_keys.esc),
            code,
            action_keys,
            cell_keysyms,
            keymap,
            cell_keycodes,
        ) == Some(OverlayEvent::Cancel),
        action_keys.enter != action_keys.backspace && action_keys.enter != action_keys.esc
            ==> press_event(
            Some(action_keys.enter),
            code,
            action_keys,
            cell_keysyms,
            keymap,
            cell_keycodes,
        ) == Some(OverlayEvent::Confirm),
        press_event(None, keymap.backspace, action_keys, cell_keysyms, keymap, cell_keycodes)
            == Some(OverlayEvent::Ascend),
        keymap.esc != keymap.backspace ==> press_event(
            None,
            keymap.esc,
            action_keys,
            cell_keysyms,
            keymap,
            cell_keycodes,
        ) == Some(OverlayEvent::Cancel),
        keymap.enter != keymap.backspace && keymap.enter != keymap.esc ==> press_event(
            None,
            keymap.enter,
            action_keys,
            cell_keysyms,
            keymap,
            cell_keycodes,
        ) == Some(OverlayEvent::Confirm),
{
}

/// A key selects the cell of the first entry that has it, and none where no entry has it.
pub proof fn law_first_cell(map: Seq<(u32, CellIndex)>, key: u32, k: int)
    ensures
        0 <= k < map.len() && map[k].0 == key && (forall|j: int|
            0 <= j < k ==> (#[trigger] map[j]).0 != key) ==> first_cell(map, key) == Some(map[k].1),
        (forall|j: int| 0 <= j < map.len() ==> (#[trigger] map[j]).0 != key) ==> first_cell(
            map,
            key,
        ) is None,
    decreases map.len(),
{
    if map.len() > 0 && map[0].0 != key {
        let rest = map.drop_first();
        law_first_cell(rest, key, k - 1);
        assert forall|j: int| 0 <= j < rest.len() implies #[trigger] rest[j] == map[j + 1] by {}
        if 0 <= k < map.len() && map[k].0 == key && (forall|j: int|
            0 <= j < k ==> (#[trigger] map[j]).0 != key) {
            assert forall|j: int| 0 <= j < k - 1 implies (#[trigger] rest[j]).0 != key by {
                assert(map[j + 1].0 != key);
            }
        }
        if forall|j: int| 0 <= j < map.len() ==> (#[trigger] map[j]).0 != key {
            assert forall|j: int| 0 <= j < rest.len() implies (#[trigger] rest[j]).0 != key by {
                assert(map[j + 1].0 != key);
            }
        }
    } else if map.len() > 0 {
        assert(map[0].0 == key);
    }
}

/// A keysym that is none of the navigation keys selects the first cell that has it, whatever the
/// key code; so does a key code, where no layout is known.
pub proof fn law_cell_keys_select(
    map: Seq<(u32, CellIndex)>,
    k: int,
    key: u32,
    code: u32,
    action_keys: ActionKeys,
    keymap: Keymap,
    other: Seq<(u32, CellIndex)>,
)
    requires
        0 <= k < map.len(),
        map[k].0 == key,
        forall|j: int| 0 <= j < k ==> (#[trigger] map[j]).0 != key,
    ensures
        key != action_keys.backspace && key != action_keys.esc && key != action_keys.enter
            ==> press_event(Some(key), code, action_keys, map, keymap, other) == Some(
            OverlayEvent::SelectCell(map[k].1),
        ),
        key != keymap.backspace && key != keymap.esc && key != keymap.enter ==> press_event(
            None,
            key,
            action_keys,
            other,
            keymap,
            map,
        ) == Some(OverlayEvent::SelectCell(map[k].1)),
{
    law_first_cell(map, key, k);
}

/// A keysym that means nothing leaves the meaning to the key code, as if no layout were known; a
/// key code that means nothing either means nothing.
pub proof fn law_unknown_keys(
    sym: u32,
    code: u32,
    action_keys: ActionKeys,
    cell_keysyms: Seq<(u32, CellIndex)>,
    keymap: Keymap,
    cell_keycodes: Seq<(u32, CellIndex)>,
)
    requires
        sym != action_keys.backspace && sym != action_keys.esc && sym != action_keys.enter,
        forall|j: int| 0 <= j < cell_keysyms.len() ==> (#[trigger] cell_keysyms[j]).0 != sym,
    ensures
        press_event(Some(sym), code, action_keys, cell_keysyms, keymap, cell_keycodes)
            == press_event(None, code, action_keys, cell_keysyms, keymap, cell_keycodes),
        code != keymap.backspace && code != keymap.esc && code != keymap.enter && (forall|j: int|
            0 <= j < cell_keycodes.len() ==> (#[trigger] cell_keycodes[j]).0 != code)
            ==> press_event(None, code, action_keys, cell_keysyms, keymap, cell_keycodes) is None,
{
    law_first_cell(cell_keysyms, sym, 0);
    law_first_cell(cell_keycodes, code, 0);
}

/// A key whose keysym was found for the configured name of a navigation key is that navigation
/// key, unless one that comes before it has the same keysym.
pub proof fn law_named_keys_navigate(
    kb: Keybindings,
    found: ActionKeys,
    code: u32,
    cell_keysyms: Seq<(u32, CellIndex)>,
    keymap: Keymap,
    cell_keycodes: Seq<(u32, CellIndex)>,
)
    ensures
        ({
            let keys = ActionKeys {
                backspace: bound_keysym(KEY_BACKSPACE, kb.backspace, found.backspace),
                esc: bound_keysym(KEY_ESCAPE, kb.esc, found.esc),
                enter: bound_keysym(KEY_RETURN, kb.enter, found.enter),
            };
            let press = |sym: u32|
                press_event(Some(sym), code, keys, cell_keysyms, keymap, cell_keycodes);
            &&& takes_found(kb.backspace, found.backspace) ==> press(found.backspace) == Some(
                OverlayEvent::Ascend,
            )
            &&& takes_found(kb.esc, found.esc) && found.esc != keys.backspace ==> press(found.esc)
                == Some(OverlayEvent::Cancel)
            &&& takes_found(kb.enter, found.enter) && found.enter != keys.backspace && found.enter
                != keys.esc ==> press(found.enter) == Some(OverlayEvent::Confirm)
        }),
{
    law_named_keysym_is_bound(KEY_BACKSPACE, kb.backspace, found.backspace);
    law_named_keysym_is_bound(KEY_ESCAPE, kb.esc, found.esc);
    law_named_keysym_is_bound(KEY_RETURN, kb.enter, found.enter);
}

/// Without a layout, the key whose code the configured name of a navigation key has is that
/// navigation key, unless one that comes before it has the same code.
pub proof fn law_named_codes_navigate(
    base: Keymap,
    kb: Keybindings,
    action_keys: ActionKeys,
    cell_keysyms: Seq<(u32, CellIndex)>,
    cell_keycodes: Seq<(u32, CellIndex)>,
)
    ensures
        ({
            let keymap = Keymap {
                backspace: bound_keycode(base.backspace, kb.backspace),
                esc: bound_keycode(base.esc, kb.esc),
                enter: bound_keycode(base.enter, kb.enter),
            };
            let press = |code: u32|
                press_event(None, code, action_keys, cell_keysyms, keymap, cell_keycodes);
            &&& kb.backspace matches Some(n) ==> (name_keycode(n@) matches Some(code) ==> press(
                code,
            ) == Some(OverlayEvent::Ascend))
            &&& kb.esc matches Some(n) ==> (name_keycode(n@) matches Some(code) ==> (code
                != keymap.backspace ==> press(code) == Some(OverlayEvent::Cancel)))
            &&& kb.enter matches Some(n) ==> (name_keycode(n@) matches Some(code) ==> (code
                != keymap.backspace && code != keymap.esc ==> press(code) == Some(
                OverlayEvent::Confirm,
            )))
        }),
{
    law_named_code_is_bound(base.backspace, kb.backspace);
    law_named_code_is_bound(base.esc, kb.esc);
    law_named_code_is_bound(base.enter, kb.enter);
}

} // verus!
