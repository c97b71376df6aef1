use hyprrgn::events::{OverlayEvent, SharedEvents};
use hyprrgn::geometry::CellIndex;
use hyprrgn::input::{layout_keycode, resolve_press};
use hyprrgn::keys::{ActionKeys, Keymap};

fn at(row: usize, col: usize) -> CellIndex {
    CellIndex { row, col }
}

fn press(sym: Option<u32>, code: u32) -> Option<OverlayEvent> {
    let syms = vec![(0x75, at(0, 0)), (0x69, at(0, 1)), (0x75, at(1, 1)), (0xff1b, at(1, 0))];
    let codes = vec![(22, at(0, 0)), (23, at(0, 1)), (22, at(1, 1)), (14, at(1, 0))];
    resolve_press(sym, code, &ActionKeys::default(), &syms, &Keymap::default(), &codes)
}

#[test]
fn navigation_keysyms_come_first() {
    assert_eq!(press(Some(0xff08), 22), Some(OverlayEvent::Ascend));
    assert_eq!(press(Some(0xff1b), 22), Some(OverlayEvent::Cancel));
    assert_eq!(press(Some(0xff0d), 22), Some(OverlayEvent::Confirm));
}

#[test]
fn keysyms_select_the_first_cell() {
    assert_eq!(press(Some(0x75), 1), Some(OverlayEvent::SelectCell(at(0, 0))));
    assert_eq!(press(Some(0x69), 1), Some(OverlayEvent::SelectCell(at(0, 1))));
}

#[test]
fn codes_serve_where_keysyms_do_not() {
    assert_eq!(press(Some(0x7a), 23), Some(OverlayEvent::SelectCell(at(0, 1))));
    assert_eq!(press(None, 22), Some(OverlayEvent::SelectCell(at(0, 0))));
    assert_eq!(press(None, 14), Some(OverlayEvent::Ascend));
    assert_eq!(press(None, 1), Some(OverlayEvent::Cancel));
    assert_eq!(press(None, 28), Some(OverlayEvent::Confirm));
    assert_eq!(press(None, 44), None);
    assert_eq!(press(Some(0x7a), 44), None);
}

#[test]
fn layouts_count_codes_from_eight() {
    assert_eq!(layout_keycode(0), 8);
    assert_eq!(layout_keycode(30), 38);
}

#[test]
fn events_come_out_in_order() {
    let mut q = SharedEvents::default();
    assert_eq!(q.drain(), vec![]);
    q.push(OverlayEvent::Ascend);
    q.push(OverlayEvent::SelectCell(at(1, 2)));
    assert_eq!(q.drain(), vec![OverlayEvent::Ascend, OverlayEvent::SelectCell(at(1, 2))]);
    assert_eq!(q.drain(), vec![]);
}
