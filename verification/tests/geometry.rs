use hyprrgn::geometry::{split_lengths, CellIndex, Rect};

#[test]
fn test_rect_center() {
    let r = Rect::new(0, 0, 100, 100);
    assert_eq!(r.center(), (50, 50));

    let r2 = Rect::new(10, 20, 50, 60);
    assert_eq!(r2.center(), (35, 50));
}

#[test]
fn test_cell_rect() {
    let r = Rect::new(0, 0, 100, 100);
    let br = r.cell_rect(2, 2, 1, 1);
    assert_eq!(br, Rect::new(50, 50, 50, 50));
}

#[test]
fn remainders_go_to_the_front() {
    assert_eq!(split_lengths(10, 3), vec![4, 3, 3]);
    assert_eq!(split_lengths(11, 3), vec![4, 4, 3]);
    assert_eq!(split_lengths(2, 5), vec![1, 1, 0, 0, 0]);
    assert_eq!(split_lengths(0, 2), vec![0, 0]);
    assert_eq!(split_lengths(7, 0), vec![7]);
}

#[test]
fn segments_add_up() {
    for total in 0..200 {
        for parts in 1..12 {
            let v = split_lengths(total, parts);
            assert_eq!(v.len(), parts);
            assert_eq!(v.iter().sum::<i32>(), total);
        }
    }
}

#[test]
fn negative_totals_have_no_remainder() {
    assert_eq!(split_lengths(-7, 2), vec![-3, -3]);
    assert_eq!(split_lengths(-6, 3), vec![-2, -2, -2]);
    assert_eq!(split_lengths(i32::MIN, 1), vec![i32::MIN]);
}

#[test]
fn center_rounds_toward_the_corner() {
    assert_eq!(Rect::new(0, 0, 5, 5).center(), (2, 2));
    assert_eq!(Rect::new(10, 10, -5, -5).center(), (8, 8));
}

#[test]
fn cells_clip_their_index() {
    let r = Rect::new(0, 0, 100, 90);
    assert_eq!(r.cell_rect(3, 2, 7, 9), r.cell_rect(3, 2, 2, 1));
    assert_eq!(r.cell_rect(0, 0, 4, 4), r);
    assert_eq!(r.cell_rect(1, 1, 0, 0), r);
}

#[test]
fn cells_tile_the_rectangle() {
    let r = Rect::new(3, 5, 17, 11);
    let mut hits = vec![0; 17 * 11];
    for row in 0..3 {
        for col in 0..4 {
            let c = r.cell_rect(3, 4, row, col);
            for y in c.y..c.y + c.height {
                for x in c.x..c.x + c.width {
                    hits[((y - 5) * 17 + (x - 3)) as usize] += 1;
                }
            }
        }
    }
    assert!(hits.iter().all(|&n| n == 1));
}

#[test]
fn neighbours_share_edges() {
    let r = Rect::new(-10, 20, 103, 77);
    for col in 0..6 {
        let a = r.cell_rect(5, 7, 2, col);
        let b = r.cell_rect(5, 7, 2, col + 1);
        assert_eq!(a.x + a.width, b.x);
    }
    let last = r.cell_rect(5, 7, 4, 6);
    assert_eq!((last.x + last.width, last.y + last.height), (93, 97));
}

#[test]
fn cells_shrink() {
    let r = Rect::new(0, 0, 2, 3);
    let c = r.cell_rect(2, 2, 0, 0);
    assert_eq!((c.width, c.height), (1, 2));
}

#[test]
fn text_of_rect_and_cell() {
    assert_eq!(Rect::new(-1, 0, 1920, 1080).to_string(), "Rect(x=-1, y=0, w=1920, h=1080)");
    assert_eq!(
        Rect::new(i32::MIN, i32::MAX, 10, 9).to_string(),
        "Rect(x=-2147483648, y=2147483647, w=10, h=9)"
    );
    assert_eq!(CellIndex { row: 3, col: 10 }.to_string(), "Cell(3, 10)");
    assert_eq!(
        CellIndex { row: usize::MAX, col: 0 }.to_string(),
        format!("Cell({}, 0)", usize::MAX)
    );
}
