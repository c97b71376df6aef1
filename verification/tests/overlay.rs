use hyprrgn::geometry::{CellIndex, Rect};
use hyprrgn::grid::GridState;
use hyprrgn::overlay::OverlayState;

fn labelled(rows: usize, cols: usize, labels: &[&str]) -> OverlayState {
    let labels = labels.iter().map(|s| s.to_string()).collect();
    OverlayState::new(Rect::new(0, 0, 10, 7), rows, cols, labels)
}

#[test]
fn new_overlay_shows_the_root() {
    let mut o = labelled(2, 2, &["U", "I", "J", "K"]);
    assert_eq!(o.root, Rect::new(0, 0, 10, 7));
    assert_eq!(o.current, o.root);
    assert_eq!((o.rows, o.cols), (2, 2));
    assert_eq!(o.labels, vec!["U", "I", "J", "K"]);
    o.update(Rect::new(1, 2, 3, 4));
    assert_eq!(o.current, Rect::new(1, 2, 3, 4));
    assert_eq!(o.root, Rect::new(0, 0, 10, 7));
}

#[test]
fn lines_stand_between_the_cells() {
    let mut o = labelled(2, 3, &[]);
    assert_eq!(o.column_lines(), vec![4, 7]);
    assert_eq!(o.row_lines(), vec![4]);
    o.update(Rect::new(100, 50, 10, 7));
    assert_eq!(o.column_lines(), vec![104, 107]);
    assert_eq!(o.row_lines(), vec![54]);
    for col in 1..3 {
        assert_eq!(o.column_lines()[col - 1], o.current.cell_rect(2, 3, 0, col).x);
    }
}

#[test]
fn a_single_cell_has_no_lines() {
    let o = labelled(1, 0, &[]);
    assert_eq!(o.column_lines(), vec![]);
    assert_eq!(o.row_lines(), vec![]);
    assert_eq!(o.label_cells(), vec![]);
}

#[test]
fn labels_are_shown_in_their_cells() {
    let o = labelled(2, 2, &["U", "", "J"]);
    assert_eq!(
        o.label_cells(),
        vec![(0, Rect::new(0, 0, 5, 4)), (2, Rect::new(0, 4, 5, 3))]
    );
}

#[test]
fn shown_cells_are_entered() {
    let root = Rect::new(0, 0, 1919, 1079);
    let labels: Vec<String> = (0..12).map(|i| format!("{}", i)).collect();
    let o = OverlayState::new(root, 3, 4, labels);
    for (i, rect) in o.label_cells() {
        let mut g = GridState::new_with_grid(root, 3, 4);
        g.descend(CellIndex { row: i / 4, col: i % 4 });
        assert_eq!(g.current_rect(), rect);
    }
    assert_eq!(o.label_cells().len(), 12);
}
