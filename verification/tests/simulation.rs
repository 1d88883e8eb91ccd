use terminal_simulation_screensaver::life::LifeSimulator;
use terminal_simulation_screensaver::rules::BoundaryPolicy;

fn board_from(pattern: &[&str]) -> Vec<Vec<bool>> {
    pattern
        .iter()
        .map(|row| row.chars().map(|ch| ch == '0').collect())
        .collect()
}

fn cells_of(sim: &LifeSimulator) -> Vec<Vec<bool>> {
    let mut out = Vec::new();
    for r in 0..sim.height() {
        let mut row = Vec::new();
        for c in 0..sim.width() {
            row.push(sim.cell(r, c));
        }
        out.push(row);
    }
    out
}

#[test]
fn new_has_requested_dimensions_and_toroidal_policy() {
    let sim = LifeSimulator::new(3, 4);
    assert_eq!(sim.height(), 3);
    assert_eq!(sim.width(), 4);
    assert_eq!(sim.policy(), BoundaryPolicy::Toroidal);
    let table = cells_of(&sim);
    assert_eq!(table.len(), 3);
    for row in &table {
        assert_eq!(row.len(), 4);
    }
}

#[test]
fn from_rows_keeps_the_given_cells() {
    let pattern = ["0 0", " 0 "];
    let sim = LifeSimulator::from_rows(board_from(&pattern), BoundaryPolicy::Toroidal);
    assert_eq!(sim.height(), 2);
    assert_eq!(sim.width(), 3);
    assert_eq!(
        cells_of(&sim),
        vec![vec![true, false, true], vec![false, true, false]]
    );
}

#[test]
fn update_on_all_dead_three_by_three_stays_all_dead() {
    for policy in [BoundaryPolicy::Toroidal, BoundaryPolicy::Clamped] {
        let mut sim = LifeSimulator::from_rows(board_from(&["   ", "   ", "   "]), policy);
        sim.update();
        assert_eq!(cells_of(&sim), vec![vec![false; 3]; 3]);
    }
}

#[test]
fn update_is_deterministic_for_a_fixed_input() {
    let pattern = ["0 0 ", " 00 ", "0  0", " 0 0"];
    let mut first = LifeSimulator::from_rows(board_from(&pattern), BoundaryPolicy::Toroidal);
    let mut second = LifeSimulator::from_rows(board_from(&pattern), BoundaryPolicy::Toroidal);
    first.update();
    second.update();
    assert_eq!(cells_of(&first), cells_of(&second));
}

#[test]
fn lonely_cell_dies_after_one_update() {
    let pattern = ["     ", "     ", "  0  ", "     ", "     "];
    let mut sim = LifeSimulator::from_rows(board_from(&pattern), BoundaryPolicy::Toroidal);
    sim.update();
    assert_eq!(cells_of(&sim), vec![vec![false; 5]; 5]);
}

#[test]
fn blinker_oscillates_between_horizontal_and_vertical() {
    let horizontal = ["     ", "     ", " 000 ", "     ", "     "];
    let vertical = ["     ", "  0  ", "  0  ", "  0  ", "     "];
    let mut sim = LifeSimulator::from_rows(board_from(&horizontal), BoundaryPolicy::Toroidal);
    sim.update();
    assert_eq!(cells_of(&sim), board_from(&vertical));
    sim.update();
    assert_eq!(cells_of(&sim), board_from(&horizontal));
}

#[test]
fn blinker_wraps_across_the_border() {
    // a horizontal blinker spanning columns 4, 0, 1 of row 0: the wraparound
    // lookup must see all three cells as one line and turn it vertical,
    // spanning rows 4, 0, 1 of column 0
    let across = ["00  0", "     ", "     ", "     ", "     "];
    let upright = ["0    ", "0    ", "     ", "     ", "0    "];
    let mut sim = LifeSimulator::from_rows(board_from(&across), BoundaryPolicy::Toroidal);
    sim.update();
    assert_eq!(cells_of(&sim), board_from(&upright));
    sim.update();
    assert_eq!(cells_of(&sim), board_from(&across));
}

#[test]
fn clamped_blinker_away_from_the_border_oscillates() {
    let horizontal = ["     ", "     ", " 000 ", "     ", "     "];
    let vertical = ["     ", "  0  ", "  0  ", "  0  ", "     "];
    let mut sim = LifeSimulator::from_rows(board_from(&horizontal), BoundaryPolicy::Clamped);
    sim.update();
    assert_eq!(cells_of(&sim), board_from(&vertical));
}

#[test]
fn policies_differ_on_an_all_live_three_by_three() {
    // on a torus every tally is nine, so everything dies; clamped, each
    // corner has exactly three in-board neighbors and survives alone
    let all_live = ["000", "000", "000"];
    let mut toroidal = LifeSimulator::from_rows(board_from(&all_live), BoundaryPolicy::Toroidal);
    toroidal.update();
    assert_eq!(cells_of(&toroidal), vec![vec![false; 3]; 3]);

    let mut clamped = LifeSimulator::from_rows(board_from(&all_live), BoundaryPolicy::Clamped);
    clamped.update();
    assert_eq!(cells_of(&clamped), board_from(&["0 0", "   ", "0 0"]));
}

#[test]
fn dead_board_stays_dead_indefinitely() {
    let mut sim = LifeSimulator::from_rows(board_from(&["      "; 4]), BoundaryPolicy::Toroidal);
    for _ in 0..10 {
        sim.update();
        assert_eq!(cells_of(&sim), vec![vec![false; 6]; 4]);
    }
}

#[test]
fn resize_always_yields_the_new_dimensions() {
    let mut sim = LifeSimulator::new(4, 7);
    sim.resize(2, 9);
    assert_eq!(sim.height(), 2);
    assert_eq!(sim.width(), 9);
    let table = cells_of(&sim);
    assert_eq!(table.len(), 2);
    for row in &table {
        assert_eq!(row.len(), 9);
    }

    sim.resize(0, 0);
    assert_eq!(sim.height(), 0);
    assert_eq!(sim.width(), 0);
    assert_eq!(cells_of(&sim).len(), 0);

    sim.resize(5, 3);
    assert_eq!(sim.height(), 5);
    assert_eq!(sim.width(), 3);
}

#[test]
fn resize_keeps_the_boundary_policy() {
    let mut sim = LifeSimulator::new_with_policy(3, 3, BoundaryPolicy::Clamped);
    sim.resize(6, 2);
    assert_eq!(sim.policy(), BoundaryPolicy::Clamped);
}

#[test]
fn update_on_empty_boards_is_a_no_op() {
    let mut none = LifeSimulator::new(0, 0);
    none.update();
    assert_eq!(none.height(), 0);
    assert_eq!(none.width(), 0);

    let mut rows_only = LifeSimulator::from_rows(vec![vec![], vec![]], BoundaryPolicy::Toroidal);
    rows_only.update();
    assert_eq!(rows_only.height(), 2);
    assert_eq!(rows_only.width(), 0);
}

#[test]
fn single_row_torus_follows_the_wraparound_tally() {
    // one row of three live cells: every cell sees the whole row three
    // times (above, level, below), a tally of nine, and dies
    let mut sim = LifeSimulator::from_rows(board_from(&["000"]), BoundaryPolicy::Toroidal);
    sim.update();
    assert_eq!(cells_of(&sim), vec![vec![false; 3]]);
}
