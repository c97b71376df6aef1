use hyprrgn::geometry::{CellIndex, Rect};
use hyprrgn::grid::{clamp_grid_size, GridState};

#[test]
fn test_initial_state() {
    let root = Rect::new(0, 0, 1920, 1080);
    let state = GridState::new_with_grid(root, 2, 2);
    assert_eq!(state.current_rect(), root);
}

#[test]
fn test_descend_and_center() {
    let root = Rect::new(0, 0, 1000, 1000);
    let mut state = GridState::new_with_grid(root, 2, 2);

    state.descend(CellIndex { row: 1, col: 1 }); // bottom-right
    assert_eq!(state.current_rect(), Rect::new(500, 500, 500, 500));
    assert_eq!(state.current_center(), (750, 750));
}

#[test]
fn test_ascend() {
    let root = Rect::new(0, 0, 1000, 1000);
    let mut state = GridState::new_with_grid(root, 2, 2);

    state.descend(CellIndex { row: 0, col: 0 });

    let ascended = state.ascend();
    assert!(ascended);
    assert_eq!(state.current_rect(), root);
}

#[test]
fn test_cannot_ascend_at_root() {
    let root = Rect::new(0, 0, 1000, 1000);
    let mut state = GridState::new_with_grid(root, 2, 2);

    let ascended = state.ascend();
    assert!(!ascended);
}

#[test]
fn test_multi_level_navigation() {
    let root = Rect::new(0, 0, 1000, 1000);
    let mut state = GridState::new_with_grid(root, 2, 2);

    state.descend(CellIndex { row: 1, col: 1 }); // bottom-right: (500, 500, 500, 500)
    state.descend(CellIndex { row: 0, col: 0 }); // top-left of that: (500, 500, 250, 250)

    assert_eq!(state.current_rect(), Rect::new(500, 500, 250, 250));

    state.ascend();
    assert_eq!(state.current_rect(), Rect::new(500, 500, 500, 500));
}

#[test]
fn test_subdivisions() {
    let root = Rect::new(0, 0, 100, 100);
    let state = GridState::new_with_grid(root, 2, 2);

    let br = state.current_rect().cell_rect(2, 2, 1, 1);
    assert_eq!(br, Rect::new(50, 50, 50, 50));
}

#[test]
fn grid_size_is_clamped() {
    assert_eq!(clamp_grid_size(0), 1);
    assert_eq!(clamp_grid_size(7), 7);
    assert_eq!(clamp_grid_size(11), 10);

    let root = Rect::new(0, 0, 1000, 1000);
    let mut big = GridState::new_with_grid(root, 50, 0);
    big.descend(CellIndex { row: 9, col: 0 });
    assert_eq!(big.current_rect(), Rect::new(0, 900, 1000, 100));
}

#[test]
fn as_many_ascents_as_descents_lead_back() {
    let root = Rect::new(7, -3, 1917, 1081);
    let mut state = GridState::new_with_grid(root, 3, 4);
    let mut seen = vec![root];
    for i in 0..6 {
        state.descend(CellIndex { row: i % 3, col: (2 * i) % 4 });
        seen.push(state.current_rect());
    }
    while let Some(r) = seen.pop() {
        assert_eq!(state.current_rect(), r);
        assert_eq!(state.ascend(), !seen.is_empty());
    }
    assert_eq!(state.current_rect(), root);
}

#[test]
fn descents_stay_in_the_root() {
    let root = Rect::new(0, 0, 1920, 1080);
    let mut state = GridState::new_with_grid(root, 2, 2);
    for _ in 0..40 {
        state.descend(CellIndex { row: 1, col: 1 });
        let r = state.current_rect();
        assert!(r.x + r.width <= 1920 && r.y + r.height <= 1080);
        assert!(r.width >= 0 && r.height >= 0);
    }
}
