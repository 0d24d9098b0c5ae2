use life::Cell;
use life::InvalidDimensions;
use life::Universe;

/// Builds a `width * height` grid that is dead everywhere except at the
/// listed `(row, column)` positions.
fn grid(width: u32, height: u32, live: &[(u32, u32)]) -> Vec<Cell> {
    let mut cells = vec![Cell::Dead; (width * height) as usize];
    for &(row, column) in live {
        cells[(row * width + column) as usize] = Cell::Alive;
    }
    cells
}

/// Builds a universe from `grid`, panicking on bad dimensions.
fn universe(width: u32, height: u32, live: &[(u32, u32)]) -> Universe {
    match Universe::from_cells(width, height, grid(width, height, live)) {
        Ok(u) => u,
        Err(InvalidDimensions) => panic!("dimensions should have been accepted"),
    }
}

#[test]
fn new_has_default_dimensions() {
    let u = Universe::new();
    assert_eq!(u.width(), 64);
    assert_eq!(u.height(), 64);
    assert_eq!(u.cells().len(), 64 * 64);
}

#[test]
fn new_seed_pattern_is_parity_based() {
    let u = Universe::new();
    for i in 0..(64 * 64) {
        let expected = if i % 2 == 0 || i % 7 == 0 {
            Cell::Alive
        } else {
            Cell::Dead
        };
        assert_eq!(u.cells()[i], expected);
    }
}

#[test]
fn new_is_deterministic() {
    let mut a = Universe::new();
    let mut b = Universe::new();
    assert_eq!(a.cells(), b.cells());
    a.tick();
    b.tick();
    assert_eq!(a.cells(), b.cells());
}

#[test]
fn tick_preserves_dimensions_and_size() {
    let mut u = Universe::new();
    u.tick();
    assert_eq!(u.width(), 64);
    assert_eq!(u.height(), 64);
    assert_eq!(u.cells().len(), 64 * 64);
    for &c in u.cells() {
        assert!(c == Cell::Dead || c == Cell::Alive);
    }
}

#[test]
fn toroidal_corners_form_a_still_life() {
    // On a 4x4 torus the four corners are mutual neighbours, so each live
    // corner sees exactly 3 live cells and survives; every other cell sees
    // at most 2 and stays dead.  Without wraparound every corner would die.
    let corners = [(0, 0), (0, 3), (3, 0), (3, 3)];
    let mut u = universe(4, 4, &corners);
    let before = u.cells().clone();
    u.tick();
    assert_eq!(u.cells(), &before);
}

#[test]
fn all_dead_grid_stays_all_dead() {
    let mut u = universe(5, 4, &[]);
    u.tick();
    assert_eq!(u.cells(), &vec![Cell::Dead; 20]);
}

#[test]
fn blinker_oscillates() {
    // A horizontal blinker in the middle of a 5x5 grid, far from the edges:
    // the dead cells above and below its centre have exactly 3 live
    // neighbours and are born; the tips have 1 and die; the centre has 2 and
    // survives.
    let mut u = universe(5, 5, &[(2, 1), (2, 2), (2, 3)]);
    u.tick();
    assert_eq!(u.cells(), &grid(5, 5, &[(1, 2), (2, 2), (3, 2)]));
    u.tick();
    assert_eq!(u.cells(), &grid(5, 5, &[(2, 1), (2, 2), (2, 3)]));
}

#[test]
fn dead_cell_with_four_neighbors_stays_dead() {
    // Four live cells on the diagonals around the centre of a 5x5 grid: the
    // centre is dead with exactly 4 live neighbours and must stay dead, and
    // each live cell is isolated (0 live neighbours) and dies.
    let mut u = universe(5, 5, &[(1, 1), (1, 3), (3, 1), (3, 3)]);
    u.tick();
    assert_eq!(u.cells(), &vec![Cell::Dead; 25]);
}

#[test]
fn three_by_three_middle_row_fills_the_torus() {
    // On a 3x3 torus every dead cell sees all three live middle-row cells
    // (3 neighbours: born) and each live cell sees the other two (2
    // neighbours: survives), so one tick turns the whole grid alive.
    let mut u = universe(3, 3, &[(1, 0), (1, 1), (1, 2)]);
    u.tick();
    assert_eq!(u.cells(), &vec![Cell::Alive; 9]);
}

#[test]
fn render_small_grid_exactly() {
    let u = universe(2, 2, &[(0, 0), (1, 1)]);
    assert_eq!(u.render(), "🤠💀\n💀🤠\n");
}

#[test]
fn render_matches_cells_everywhere() {
    let u = Universe::new();
    let s = u.render();
    assert!(s.ends_with('\n'));
    let lines: Vec<&str> = s.lines().collect();
    assert_eq!(lines.len(), 64);
    for (r, line) in lines.iter().enumerate() {
        let chars: Vec<char> = line.chars().collect();
        assert_eq!(chars.len(), 64);
        for (c, &ch) in chars.iter().enumerate() {
            let expected = match u.cells()[r * 64 + c] {
                Cell::Alive => '🤠',
                Cell::Dead => '💀',
            };
            assert_eq!(ch, expected);
        }
    }
}

#[test]
fn from_cells_rejects_zero_dimensions() {
    assert!(matches!(
        Universe::from_cells(0, 3, Vec::new()),
        Err(InvalidDimensions)
    ));
    assert!(matches!(
        Universe::from_cells(3, 0, Vec::new()),
        Err(InvalidDimensions)
    ));
}

#[test]
fn from_cells_rejects_length_mismatch() {
    assert!(matches!(
        Universe::from_cells(2, 2, vec![Cell::Dead; 3]),
        Err(InvalidDimensions)
    ));
}

#[test]
fn from_cells_keeps_dimensions_and_cells() {
    let cells = vec![Cell::Alive, Cell::Dead, Cell::Dead, Cell::Alive, Cell::Dead, Cell::Alive];
    let u = match Universe::from_cells(3, 2, cells.clone()) {
        Ok(u) => u,
        Err(InvalidDimensions) => panic!("dimensions should have been accepted"),
    };
    assert_eq!(u.width(), 3);
    assert_eq!(u.height(), 2);
    assert_eq!(u.cells(), &cells);
}
