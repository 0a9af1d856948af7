use suiji_potplayer::tiler::{grid_layout, rows_cols, tile_targets, Rect};

#[test]
fn grid_six_is_two_by_three() {
    assert_eq!(rows_cols(6), (2, 3));
    let area = Rect { left: 0, top: 0, right: 900, bottom: 600 };
    let cells = grid_layout(6, area);
    assert_eq!(cells.len(), 6);
    for c in &cells {
        assert!(c.left >= area.left);
        assert!(c.top >= area.top);
        assert!(c.right <= area.right);
        assert!(c.bottom <= area.bottom);
        assert!(c.width() > 0);
        assert!(c.height() > 0);
    }
    assert_eq!(cells[0].right, cells[1].left);
    assert_eq!(cells[1].right, cells[2].left);
}

#[test]
fn grid_ten_is_two_by_five() {
    assert_eq!(rows_cols(10), (2, 5));
}

#[test]
fn rows_cols_small_and_large() {
    assert_eq!(rows_cols(0), (0, 0));
    assert_eq!(rows_cols(1), (1, 1));
    assert_eq!(rows_cols(3), (1, 3));
    assert_eq!(rows_cols(4), (2, 2));
    assert_eq!(rows_cols(9), (3, 3));
    assert_eq!(rows_cols(11), (3, 4));
    assert_eq!(rows_cols(16), (4, 4));
    assert_eq!(rows_cols(17), (4, 5));
}

#[test]
fn grid_cells_exact_for_six() {
    let area = Rect { left: 10, top: 20, right: 910, bottom: 620 };
    let cells = grid_layout(6, area);
    assert_eq!(cells[0], Rect { left: 10, top: 20, right: 310, bottom: 320 });
    assert_eq!(cells[4], Rect { left: 310, top: 320, right: 610, bottom: 620 });
    assert_eq!(cells[3].top, cells[0].bottom);
}

#[test]
fn grid_empty_for_zero_or_flat_area() {
    let area = Rect { left: 0, top: 0, right: 900, bottom: 600 };
    assert!(grid_layout(0, area).is_empty());
    let flat = Rect { left: 0, top: 0, right: 900, bottom: 0 };
    assert!(grid_layout(3, flat).is_empty());
}

#[test]
fn tile_targets_skip_missing_windows() {
    let r = |l: i32| Rect { left: l, top: 0, right: l + 10, bottom: 10 };
    let out = tile_targets(&[5, 0, 7], &[r(0), r(10), r(20)]);
    assert_eq!(out, vec![(5, r(0)), (7, r(20))]);
    let out = tile_targets(&[5, 6, 7], &[r(0)]);
    assert_eq!(out, vec![(5, r(0))]);
}
