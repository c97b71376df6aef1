use hyprrgn::config::{Config, Keybindings};
use hyprrgn::geometry::CellIndex;
use hyprrgn::labels::{build_cell_maps, cell_labels, cell_lookups, default_cell_labels};

fn with_cells(cells: &[&[&str]]) -> Config {
    Config {
        grid_size: None,
        keybindings: Some(Keybindings {
            cells: Some(
                cells.iter().map(|r| r.iter().map(|s| s.to_string()).collect()).collect(),
            ),
            backspace: None,
            esc: None,
            enter: None,
        }),
    }
}

fn at(row: usize, col: usize) -> CellIndex {
    CellIndex { row, col }
}

#[test]
fn default_labels_in_order() {
    assert_eq!(default_cell_labels(0).len(), 0);
    assert_eq!(default_cell_labels(12).concat(), "ASDFGHJKL;QW");
    let all = default_cell_labels(100);
    assert_eq!(all.len(), 47);
    assert_eq!(all.concat(), "ASDFGHJKL;QWERTYUIOPZXCVBNM,./1234567890[]'`-=\\");
    for i in 0..47 {
        for j in 0..i {
            assert_ne!(all[i], all[j]);
        }
    }
}

#[test]
fn two_by_two_labels() {
    assert_eq!(cell_labels(2, 2, &Config::default(), None), vec!["U", "I", "J", "K"]);
}

#[test]
fn other_grids_get_default_labels() {
    let labels = cell_labels(3, 3, &Config::default(), None);
    assert_eq!(labels.concat(), "ASDFGHJKL");
    let labels = cell_labels(10, 99, &Config::default(), None);
    assert_eq!(labels.len(), 100);
    assert_eq!(labels[46], "\\");
    assert!(labels[47..].iter().all(|l| l.is_empty()));
    assert_eq!(cell_labels(0, 0, &Config::default(), None), vec!["A"]);
}

#[test]
fn configured_labels_need_the_right_shape() {
    let cfg = with_cells(&[&["q", "w"], &["escape", "\u{e4}s"]]);
    assert_eq!(cell_labels(2, 2, &cfg, None), vec!["Q", "W", "ESCAPE", "\u{e4}S"]);
    assert_eq!(cell_labels(1, 3, &cfg, None), vec!["A", "S", "D"]);
    let ragged = with_cells(&[&["q", "w"], &["e"]]);
    assert_eq!(cell_labels(2, 2, &ragged, None), vec!["U", "I", "J", "K"]);
}

#[test]
fn listed_keys_override_the_config() {
    let cfg = with_cells(&[&["q", "w"], &["a", "s"]]);
    assert_eq!(cell_labels(2, 2, &cfg, Some("h j\tkl")), vec!["H", "J", "K", "L"]);
    assert_eq!(cell_labels(2, 2, &cfg, Some("hjkl;z")), vec!["H", "J", "K", "L"]);
    assert_eq!(cell_labels(2, 2, &cfg, Some("hjk ")), vec!["Q", "W", "A", "S"]);
}

#[test]
fn lookups_skip_empty_and_navigation_labels() {
    let cfg = with_cells(&[&["q", ""], &[" enter", " w "]]);
    let labels = cell_labels(2, 2, &cfg, None);
    let asked = cell_lookups(&labels);
    assert_eq!(asked.len(), 4);
    assert_eq!(asked[0].as_deref(), Some("Q"));
    assert_eq!(asked[1], None);
    assert_eq!(asked[2], None);
    assert_eq!(asked[3].as_deref(), Some("W"));
}

#[test]
fn maps_of_the_default_grid() {
    let (syms, codes, labels) =
        build_cell_maps(2, 2, &Config::default(), None, &vec![0x75, 0x69, 0x6a, 0x6b]);
    assert_eq!(labels, vec!["U", "I", "J", "K"]);
    assert_eq!(
        syms,
        vec![(0x75, at(0, 0)), (0x69, at(0, 1)), (0x6a, at(1, 0)), (0x6b, at(1, 1))]
    );
    assert_eq!(codes, vec![(22, at(0, 0)), (23, at(0, 1)), (36, at(1, 0)), (37, at(1, 1))]);
}

#[test]
fn maps_leave_out_what_has_no_key() {
    let cfg = with_cells(&[&["q", "", "esc"], &["f1", ";", " z"]]);
    let found = vec![0x71, 99, 99, 0xffbe, 0];
    let (syms, codes, labels) = build_cell_maps(2, 3, &cfg, None, &found);
    assert_eq!(labels, vec!["Q", "", "ESC", "F1", ";", " Z"]);
    assert_eq!(syms, vec![(0x71, at(0, 0)), (0xff1b, at(0, 2)), (0xffbe, at(1, 0))]);
    assert_eq!(codes, vec![(16, at(0, 0))]);
}

#[test]
fn mapped_cells_are_in_the_grid() {
    let found = vec![7; 100];
    let (syms, codes, labels) = build_cell_maps(10, 10, &Config::default(), None, &found);
    assert_eq!(labels.len(), 100);
    assert_eq!(syms.len(), 47);
    assert_eq!(codes.len(), 26);
    assert!(syms.iter().chain(codes.iter()).all(|(_, c)| c.row < 10 && c.col < 10));
    assert_eq!(syms[46].1, at(4, 6));
    for i in 0..codes.len() {
        for j in 0..i {
            assert_ne!(codes[i].0, codes[j].0);
        }
    }
}
