use sliding_puzzle::game::{App, Command, Mode};
use sliding_puzzle::grid::{Cell, Grid};
use sliding_puzzle::moves::Dir;
use sliding_puzzle::shuffle::{demo_grid, new_grid};

/// All 16 cells of an app's grid, row-major.
fn cells_of(app: &App) -> Vec<Cell> {
    let mut out = Vec::new();
    for y in 0..4 {
        for x in 0..4 {
            out.push(app.cell(x, y));
        }
    }
    out
}

/// The canonical solved layout: 1..=15 then the blank.
fn solved_cells() -> Vec<Cell> {
    let mut cells = Vec::new();
    for n in 1..16 {
        cells.push(Cell::Numbered(n));
    }
    cells.push(Cell::Empty);
    cells
}

/// Checks the grid invariant: exactly one blank and the numbered cells
/// are exactly {1, ..., 15}.
fn assert_well_formed(cells: &[Cell]) {
    assert_eq!(cells.len(), 16);
    let mut blanks = 0;
    let mut numbers: Vec<u8> = Vec::new();
    for c in cells {
        match c {
            Cell::Empty => blanks += 1,
            Cell::Numbered(n) => numbers.push(*n),
        }
    }
    assert_eq!(blanks, 1);
    numbers.sort();
    let expected: Vec<u8> = (1..16).collect();
    assert_eq!(numbers, expected);
}

#[test]
fn new_shuffled_grid_is_well_formed() {
    for _ in 0..20 {
        let app = App::new(Mode::Standard);
        assert_well_formed(&cells_of(&app));
    }
}

#[test]
fn new_grid_direct_is_well_formed() {
    let g = new_grid();
    assert_eq!(g.cell_count(), 16);
    let mut cells = Vec::new();
    for i in 0..16 {
        cells.push(g.cell_at(i));
    }
    assert_well_formed(&cells);
}

#[test]
fn demo_grid_has_expected_layout() {
    let g = demo_grid();
    let expected = vec![
        Cell::Numbered(1),
        Cell::Numbered(2),
        Cell::Numbered(3),
        Cell::Numbered(4),
        Cell::Numbered(5),
        Cell::Numbered(6),
        Cell::Numbered(7),
        Cell::Numbered(8),
        Cell::Numbered(11),
        Cell::Numbered(12),
        Cell::Numbered(13),
        Cell::Numbered(15),
        Cell::Numbered(10),
        Cell::Numbered(9),
        Cell::Empty,
        Cell::Numbered(14),
    ];
    for i in 0..16 {
        assert_eq!(g.cell_at(i), expected[i]);
    }
    let app = App::with_grid(g);
    assert!(!app.is_win());
    assert_well_formed(&cells_of(&app));
}

#[test]
fn new_in_demo_mode_uses_demo_layout() {
    let app = App::new(Mode::Demo);
    let direct = App::with_grid(demo_grid());
    assert_eq!(cells_of(&app), cells_of(&direct));
    assert!(!app.should_exit());
}

#[test]
fn is_win_on_solved_grid() {
    let g = Grid::from_cells(solved_cells()).unwrap();
    let app = App::with_grid(g);
    assert!(app.is_win());
}

#[test]
fn is_win_rejects_transposed_tail() {
    // 1..12 in order, then 13, 15, 14, blank: one transposition off.
    let mut cells = Vec::new();
    for n in 1..13 {
        cells.push(Cell::Numbered(n));
    }
    cells.push(Cell::Numbered(13));
    cells.push(Cell::Numbered(15));
    cells.push(Cell::Numbered(14));
    cells.push(Cell::Empty);
    let g = Grid::from_cells(cells).unwrap();
    let app = App::with_grid(g);
    assert!(!app.is_win());
}

#[test]
fn move_into_wall_is_ignored() {
    // Blank in the top-right corner at (3, 0).
    let mut cells = vec![
        Cell::Numbered(1),
        Cell::Numbered(2),
        Cell::Numbered(3),
        Cell::Empty,
    ];
    for n in 4..16 {
        cells.push(Cell::Numbered(n));
    }
    let g = Grid::from_cells(cells).unwrap();
    let mut app = App::with_grid(g);
    let before = cells_of(&app);
    assert!(!app.make_move(Dir::Up));
    assert_eq!(cells_of(&app), before);
    assert!(!app.make_move(Dir::Right));
    assert_eq!(cells_of(&app), before);
    // The legal directions still work from that corner.
    assert!(app.make_move(Dir::Left));
}

#[test]
fn legal_move_swaps_blank_and_neighbor_only() {
    // Demo grid: blank at (2, 3), tile 13 above it at (2, 2).
    let mut app = App::with_grid(demo_grid());
    let before = cells_of(&app);
    assert!(app.make_move(Dir::Up));
    let after = cells_of(&app);
    assert_eq!(after[4 * 2 + 2], Cell::Empty);
    assert_eq!(after[4 * 3 + 2], Cell::Numbered(13));
    for i in 0..16 {
        if i != 4 * 2 + 2 && i != 4 * 3 + 2 {
            assert_eq!(after[i], before[i]);
        }
    }
    // The inverse move restores the grid exactly.
    assert!(app.make_move(Dir::Down));
    assert_eq!(cells_of(&app), before);
}

#[test]
fn find_blank_locations() {
    let solved = App::with_grid(Grid::from_cells(solved_cells()).unwrap());
    assert_eq!(solved.find_blank(), (3, 3));
    let demo = App::with_grid(demo_grid());
    assert_eq!(demo.find_blank(), (2, 3));
}

#[test]
fn shuffle_replaces_grid_with_well_formed_one() {
    let mut app = App::with_grid(demo_grid());
    app.shuffle();
    assert_well_formed(&cells_of(&app));
    assert!(!app.should_exit());
}

#[test]
fn shuffle_keeps_blank_in_home_corner() {
    // The shuffle transposes tile slots only, so the blank stays at
    // (3, 3) and the arrangement stays solvable.
    for _ in 0..20 {
        let app = App::new(Mode::Standard);
        assert_eq!(app.find_blank(), (3, 3));
    }
    let mut app = App::with_grid(demo_grid());
    app.shuffle();
    assert_eq!(app.find_blank(), (3, 3));
}

#[test]
fn solved_then_break_then_restore() {
    let g = Grid::from_cells(solved_cells()).unwrap();
    let mut app = App::with_grid(g);
    assert!(app.is_win());
    assert!(app.make_move(Dir::Up));
    assert!(!app.is_win());
    assert!(app.make_move(Dir::Down));
    assert!(app.is_win());
}

#[test]
fn from_cells_rejects_bad_input() {
    // Too short.
    assert!(Grid::from_cells(vec![Cell::Empty]).is_none());
    // A tile numbered 0.
    let mut zero = solved_cells();
    zero[0] = Cell::Numbered(0);
    assert!(Grid::from_cells(zero).is_none());
    // A tile numbered 16.
    let mut big = solved_cells();
    big[0] = Cell::Numbered(16);
    assert!(Grid::from_cells(big).is_none());
    // A duplicated tile.
    let mut dup = solved_cells();
    dup[0] = Cell::Numbered(2);
    assert!(Grid::from_cells(dup).is_none());
    // Two blanks.
    let mut two = solved_cells();
    two[0] = Cell::Empty;
    assert!(Grid::from_cells(two).is_none());
    // The solved layout itself is accepted.
    assert!(Grid::from_cells(solved_cells()).is_some());
}

#[test]
fn handle_command_quit_and_noop() {
    let mut app = App::with_grid(demo_grid());
    let before = cells_of(&app);
    app.handle_command(Command::Noop);
    assert_eq!(cells_of(&app), before);
    assert!(!app.should_exit());
    app.handle_command(Command::Quit);
    assert_eq!(cells_of(&app), before);
    assert!(app.should_exit());
}

#[test]
fn handle_command_moves_and_restart() {
    let mut app = App::with_grid(demo_grid());
    app.handle_command(Command::MoveUp);
    let mut by_method = App::with_grid(demo_grid());
    by_method.make_move(Dir::Up);
    assert_eq!(cells_of(&app), cells_of(&by_method));
    app.handle_command(Command::Restart);
    assert_well_formed(&cells_of(&app));
    assert!(!app.should_exit());
}
