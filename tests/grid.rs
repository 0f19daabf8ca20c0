use gridlife::{cell_extent, cell_rect, CellRect, GridSimulation, KeyPress};

fn grid_of(rows: &[&[u8]]) -> GridSimulation {
    let rows: Vec<Vec<bool>> = rows.iter().map(|r| r.iter().map(|&b| b == 1).collect()).collect();
    GridSimulation::from_rows(rows).expect("rectangular rows")
}

fn snapshot(g: &GridSimulation) -> Vec<Vec<bool>> {
    g.cells().clone()
}

/// The rule written out independently: live cells among the cell, the one
/// above, the one to the left and the one above-left.
fn expected_next(cells: &[Vec<bool>]) -> Vec<Vec<bool>> {
    let h = cells.len() as isize;
    let mut out = Vec::new();
    for r in 0..h {
        let w = cells[r as usize].len() as isize;
        let mut row = Vec::new();
        for c in 0..w {
            let mut n = 0;
            for dr in -1..=0isize {
                for dc in -1..=0isize {
                    let (rr, cc) = (r + dr, c + dc);
                    if rr >= 0 && cc >= 0 && rr < h && cc < w && cells[rr as usize][cc as usize] {
                        n += 1;
                    }
                }
            }
            row.push((2..=3).contains(&n));
        }
        out.push(row);
    }
    out
}

#[test]
fn advance_keeps_dimensions() {
    for &(w, h) in &[(0usize, 0usize), (1, 1), (3, 5), (7, 2), (0, 4), (4, 0)] {
        let mut g = GridSimulation::new(w, h, true);
        g.advance();
        assert_eq!(g.width(), w);
        assert_eq!(g.height(), h);
        assert_eq!(g.cells().len(), h);
        assert!(g.cells().iter().all(|row| row.len() == w));
    }
}

#[test]
fn empty_grid_advances() {
    let mut g = GridSimulation::new(0, 0, true);
    g.advance();
    assert!(g.cells().is_empty());
    assert!(!g.is_alive(0, 0));
    assert!(g.alive_cells().is_empty());
}

#[test]
fn single_cell_grid_dies() {
    let mut g = GridSimulation::new(1, 1, true);
    assert_eq!(g.neighbor_count(0, 0), 1);
    g.advance();
    assert_eq!(snapshot(&g), vec![vec![false]]);
}

#[test]
fn boundary_cells_count_only_inside_neighbors() {
    let g = GridSimulation::new(3, 3, true);
    assert_eq!(g.neighbor_count(0, 0), 1);
    assert_eq!(g.neighbor_count(0, 2), 2);
    assert_eq!(g.neighbor_count(2, 0), 2);
    assert_eq!(g.neighbor_count(2, 2), 4);
    assert!(!g.is_alive(3, 0));
    assert!(!g.is_alive(0, 3));
}

#[test]
fn advance_is_deterministic() {
    let rows: &[&[u8]] = &[&[1, 0, 1, 1], &[0, 1, 1, 0], &[1, 1, 0, 1]];
    let mut a = grid_of(rows);
    let mut b = grid_of(rows);
    a.advance();
    b.advance();
    assert_eq!(snapshot(&a), snapshot(&b));
    a.advance();
    b.advance();
    assert_eq!(snapshot(&a), snapshot(&b));
}

#[test]
fn rule_holds_on_every_three_by_three_grid() {
    for bits in 0u32..512 {
        let rows: Vec<Vec<bool>> =
            (0..3).map(|r| (0..3).map(|c| bits & (1 << (r * 3 + c)) != 0).collect()).collect();
        let mut g = GridSimulation::from_rows(rows.clone()).unwrap();
        let counts: Vec<Vec<u8>> =
            (0..3).map(|r| (0..3).map(|c| g.neighbor_count(r, c)).collect()).collect();
        g.advance();
        for r in 0..3 {
            for c in 0..3 {
                let n = counts[r][c];
                assert_eq!(g.is_alive(r, c), n == 2 || n == 3, "state {} cell ({}, {})", bits, r, c);
            }
        }
        assert_eq!(snapshot(&g), expected_next(&rows));
    }
}

#[test]
fn lone_center_cell_dies_out() {
    let mut g = grid_of(&[&[0, 0, 0], &[0, 1, 0], &[0, 0, 0]]);
    g.advance();
    assert_eq!(snapshot(&g), vec![vec![false; 3]; 3]);
}

#[test]
fn space_key_gives_one_notice() {
    let g = GridSimulation::new(2, 2, false);
    assert_eq!(g.handle_key(KeyPress::Space), Some("Space pressed!"));
}

#[test]
fn other_key_gives_nothing() {
    let g = GridSimulation::new(2, 2, false);
    assert_eq!(g.handle_key(KeyPress::Other), None);
}

#[test]
fn all_alive_twenty_by_twenty() {
    let mut g = GridSimulation::new(20, 20, true);
    g.advance();
    for r in 0..20 {
        for c in 0..20 {
            let expected = (r == 0) != (c == 0);
            assert_eq!(g.is_alive(r, c), expected, "cell ({}, {})", r, c);
        }
    }
    g.advance();
    let mut expected = vec![vec![false; 20]; 20];
    for i in 1..20 {
        expected[0][i] = i >= 2;
        expected[i][0] = i >= 2;
        expected[1][i] = true;
        expected[i][1] = true;
    }
    assert_eq!(snapshot(&g), expected);
}

#[test]
fn advance_reads_previous_generation_only() {
    let mut g = grid_of(&[&[1, 1, 0], &[1, 0, 0]]);
    g.advance();
    assert_eq!(snapshot(&g), vec![vec![false, true, false], vec![true, true, false]]);
}

#[test]
fn ragged_rows_are_rejected() {
    assert!(GridSimulation::from_rows(vec![vec![true, false], vec![true]]).is_none());
}

#[test]
fn no_rows_make_an_empty_grid() {
    let g = GridSimulation::from_rows(Vec::new()).unwrap();
    assert_eq!(g.width(), 0);
    assert_eq!(g.height(), 0);
}

#[test]
fn new_grid_is_uniform() {
    let g = GridSimulation::new(4, 3, false);
    assert_eq!(snapshot(&g), vec![vec![false; 4]; 3]);
    let g = GridSimulation::new(2, 1, true);
    assert_eq!(snapshot(&g), vec![vec![true; 2]]);
}

#[test]
fn set_cell_changes_one_cell() {
    let mut g = GridSimulation::new(3, 2, false);
    g.set_cell(1, 2, true);
    assert_eq!(snapshot(&g), vec![vec![false, false, false], vec![false, false, true]]);
    g.set_cell(1, 2, false);
    assert_eq!(snapshot(&g), vec![vec![false; 3]; 2]);
}

#[test]
fn alive_cells_in_row_major_order() {
    let g = grid_of(&[&[0, 1, 0], &[1, 0, 1], &[0, 0, 1]]);
    assert_eq!(g.alive_cells(), vec![(0, 1), (1, 0), (1, 2), (2, 2)]);
}

#[test]
fn cell_extent_shares_the_window() {
    assert_eq!(cell_extent(480, 20), 24);
    assert_eq!(cell_extent(480, 7), 68);
}

#[test]
fn cell_rect_scales_position() {
    assert_eq!(cell_rect(2, 3, 24, 10, 24, 10), CellRect { x0: 72, y0: 20, x1: 96, y1: 30 });
    assert_eq!(cell_rect(0, 0, 24, 24, 24, 24), CellRect { x0: 0, y0: 0, x1: 24, y1: 24 });
    let big = cell_rect(u32::MAX, u32::MAX, u32::MAX, u32::MAX, u32::MAX, u32::MAX);
    assert_eq!(big.x1, (u32::MAX as u64) * (u32::MAX as u64) + u32::MAX as u64);
}

#[test]
fn cell_rect_size_is_apart_from_stride() {
    assert_eq!(cell_rect(0, 0, 24, 24, 20, 20), CellRect { x0: 0, y0: 0, x1: 20, y1: 20 });
    assert_eq!(cell_rect(1, 2, 24, 24, 20, 20), CellRect { x0: 48, y0: 24, x1: 68, y1: 44 });
    let last = cell_rect(19, 19, cell_extent(480, 20), cell_extent(480, 20), 20, 20);
    assert_eq!(last, CellRect { x0: 456, y0: 456, x1: 476, y1: 476 });
}
