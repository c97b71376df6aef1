use hyprrgn::backend::AppState;
use hyprrgn::config::Config;
use hyprrgn::events::OverlayEvent;
use hyprrgn::geometry::{CellIndex, Rect};
use hyprrgn::grid::GridState;
use hyprrgn::labels::build_cell_maps;
use hyprrgn::overlay::OverlayState;
use hyprrgn::session::{process_event, process_events, target_line, Outcome};

fn select(row: usize, col: usize) -> OverlayEvent {
    OverlayEvent::SelectCell(CellIndex { row, col })
}

#[test]
fn single_events() {
    let root = Rect::new(0, 0, 1000, 1000);
    let mut g = GridState::new_with_grid(root, 2, 2);
    assert_eq!(process_event(&mut g, OverlayEvent::Ascend), Outcome::Continue);
    assert_eq!(g.current_rect(), root);
    assert_eq!(process_event(&mut g, select(0, 1)), Outcome::Continue);
    assert_eq!(g.current_rect(), Rect::new(500, 0, 500, 500));
    assert_eq!(process_event(&mut g, OverlayEvent::Confirm), Outcome::Confirmed(750, 250));
    assert_eq!(process_event(&mut g, OverlayEvent::Cancel), Outcome::Cancelled);
    assert_eq!(g.current_rect(), Rect::new(500, 0, 500, 500));
}

#[test]
fn events_behind_the_end_are_dropped() {
    let mut g = GridState::new_with_grid(Rect::new(0, 0, 1000, 1000), 2, 2);
    let events = vec![
        select(1, 1),
        select(0, 0),
        OverlayEvent::Ascend,
        OverlayEvent::Confirm,
        OverlayEvent::Cancel,
        select(1, 1),
    ];
    assert_eq!(process_events(&mut g, &events), Outcome::Confirmed(750, 750));
    assert_eq!(g.current_rect(), Rect::new(500, 500, 500, 500));
}

#[test]
fn events_may_come_in_batches() {
    let root = Rect::new(0, 0, 1920, 1080);
    let events =
        vec![select(1, 0), select(2, 2), OverlayEvent::Ascend, select(0, 1), OverlayEvent::Confirm];
    let mut whole = GridState::new_with_grid(root, 3, 3);
    let expected = process_events(&mut whole, &events);
    for cut in 0..events.len() {
        let mut g = GridState::new_with_grid(root, 3, 3);
        assert_eq!(process_events(&mut g, &events[..cut].to_vec()), Outcome::Continue);
        assert_eq!(process_events(&mut g, &events[cut..].to_vec()), expected);
        assert_eq!(g.current_rect(), whole.current_rect());
    }
}

#[test]
fn no_events_change_nothing() {
    let root = Rect::new(0, 0, 10, 10);
    let mut g = GridState::new_with_grid(root, 2, 2);
    assert_eq!(process_events(&mut g, &vec![]), Outcome::Continue);
    assert_eq!(g.current_rect(), root);
}

#[test]
fn cancel_gives_no_target() {
    let mut g = GridState::new_with_grid(Rect::new(0, 0, 10, 10), 2, 2);
    let events = vec![select(0, 0), OverlayEvent::Cancel, OverlayEvent::Confirm];
    assert_eq!(process_events(&mut g, &events), Outcome::Cancelled);
}

#[test]
fn targets_lie_in_the_root() {
    let root = Rect::new(0, 0, 1920, 1080);
    for depth in 0..30 {
        let mut g = GridState::new_with_grid(root, 2, 2);
        let mut events = vec![select(1, 0); depth];
        events.push(OverlayEvent::Confirm);
        match process_events(&mut g, &events) {
            Outcome::Confirmed(x, y) => {
                assert!((0..=1920).contains(&x) && (0..=1080).contains(&y))
            }
            other => panic!("{:?}", other),
        }
    }
}

#[test]
fn the_target_is_reported_as_two_numbers() {
    assert_eq!(target_line(750, 250), "750 250");
    assert_eq!(target_line(-1, 0), "-1 0");
}

#[test]
fn pressing_a_label_enters_its_cell() {
    let root = Rect::new(0, 0, 1920, 1080);
    let cfg = Config::default();
    let found = vec![0; 12];
    let (syms, codes, labels) = build_cell_maps(3, 4, &cfg, None, &found);
    let overlay = OverlayState::new(root, 3, 4, labels);
    let shown = overlay.label_cells();
    for (code, cell) in codes.clone() {
        let mut app = AppState::new();
        app.cell_keysyms = syms.clone();
        app.cell_keycodes = codes.clone();
        app.handle_key(None, code, true);
        let mut g = GridState::new_with_grid(root, 3, 4);
        assert_eq!(process_events(&mut g, &app.poll_events()), Outcome::Continue);
        assert_eq!(g.current_rect(), shown[cell.row * 4 + cell.col].1);
    }
    assert_eq!(codes.len(), 11);
}

#[test]
fn pressing_a_keysym_enters_its_cell() {
    let root = Rect::new(0, 0, 1920, 1080);
    let (syms, codes, labels) =
        build_cell_maps(2, 2, &Config::default(), None, &vec![0x75, 0x69, 0x6a, 0x6b]);
    let overlay = OverlayState::new(root, 2, 2, labels);
    let mut app = AppState::new();
    app.cell_keysyms = syms;
    app.cell_keycodes = codes;
    app.handle_key(Some(0x6a), 23, true);
    let mut g = GridState::new_with_grid(root, 2, 2);
    process_events(&mut g, &app.poll_events());
    assert_eq!(g.current_rect(), overlay.label_cells()[2].1);
}
