use terminal_simulation_screensaver::life::LifeSimulator;
use terminal_simulation_screensaver::render::{fill_region, paint_white, Region};
use terminal_simulation_screensaver::rules::BoundaryPolicy;

fn board_from(pattern: &[&str]) -> Vec<Vec<bool>> {
    pattern
        .iter()
        .map(|row| row.chars().map(|ch| ch == '0').collect())
        .collect()
}

#[test]
fn paint_white_reports_live_cells_and_blanks_the_rest() {
    let sim = LifeSimulator::from_rows(board_from(&["0 ", " 0"]), BoundaryPolicy::Toroidal);
    assert!(paint_white(&sim, 0, 0));
    assert!(!paint_white(&sim, 1, 0));
    assert!(!paint_white(&sim, 0, 1));
    assert!(paint_white(&sim, 1, 1));
}

#[test]
fn paint_white_is_blank_far_outside_the_board() {
    let sim = LifeSimulator::from_rows(board_from(&["00", "00"]), BoundaryPolicy::Toroidal);
    assert!(!paint_white(&sim, 2, 0));
    assert!(!paint_white(&sim, 0, 2));
    assert!(!paint_white(&sim, usize::MAX, usize::MAX));
}

#[test]
fn fill_region_larger_than_the_board_leaves_the_excess_blank() {
    let sim = LifeSimulator::from_rows(board_from(&["0 0", " 0 "]), BoundaryPolicy::Toroidal);
    let region = Region { x: 0, y: 0, width: 7, height: 5 };
    let fills = fill_region(&sim, region);
    assert_eq!(fills.len(), 5);
    for (dy, row) in fills.iter().enumerate() {
        assert_eq!(row.len(), 7);
        for (dx, fill) in row.iter().enumerate() {
            let expected = dy < 2 && dx < 3 && sim.cell(dy, dx);
            assert_eq!(*fill, expected);
        }
    }
}

#[test]
fn fill_region_respects_the_region_origin() {
    let sim = LifeSimulator::from_rows(
        board_from(&["0  ", " 0 ", "  0"]),
        BoundaryPolicy::Toroidal,
    );
    let region = Region { x: 1, y: 2, width: 3, height: 2 };
    let fills = fill_region(&sim, region);
    assert_eq!(fills.len(), 2);
    // display position (x, y) = (region.x + dx, region.y + dy)
    assert_eq!(fills[0], vec![false, true, false]); // row 2: cells (2,1), (2,2), off-board
    assert_eq!(fills[1], vec![false, false, false]); // row 3 is off-board
}

#[test]
fn fill_region_of_an_empty_board_is_all_blank() {
    let sim = LifeSimulator::new(0, 0);
    let region = Region { x: 0, y: 0, width: 4, height: 3 };
    let fills = fill_region(&sim, region);
    assert_eq!(fills, vec![vec![false; 4]; 3]);
}

#[test]
fn to_text_draws_zero_for_live_and_space_for_dead() {
    let sim = LifeSimulator::from_rows(board_from(&["0 0", " 0 "]), BoundaryPolicy::Toroidal);
    assert_eq!(sim.to_text(), "0 0\n 0 \n");
}

#[test]
fn to_text_of_an_empty_board_is_empty() {
    let sim = LifeSimulator::new(0, 0);
    assert_eq!(sim.to_text(), "");
}

#[test]
fn to_text_of_a_dead_row_is_spaces_and_a_newline() {
    let sim = LifeSimulator::from_rows(board_from(&["    "]), BoundaryPolicy::Clamped);
    assert_eq!(sim.to_text(), "    \n");
}
