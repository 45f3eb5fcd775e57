use life::cell::Cell;
use life::raster::{CELL_SIZE, HEIGHT, WIDTH};
use life::universe::Universe;

const A: Cell = Cell::Alive;
const D: Cell = Cell::Dead;

fn grid(rows: &[&[Cell]]) -> Universe {
    let width = rows[0].len();
    let rows: Vec<Vec<Cell>> = rows.iter().map(|r| r.to_vec()).collect();
    Universe::from_rows(width, rows).expect("rectangular grid")
}

fn all_dead(width: usize, height: usize) -> Vec<Vec<Cell>> {
    vec![vec![D; width]; height]
}

#[test]
fn wrap_center_neighbors_on_three_by_three() {
    let u = grid(&[&[D, D, D], &[D, A, D], &[D, D, D]]);
    // On a 3x3 torus every cell is a neighbour of the centre.
    for &(r, c) in &[(0, 0), (0, 2), (2, 0), (2, 2), (0, 1), (1, 0), (1, 2), (2, 1)] {
        assert_eq!(u.live_neighbor_count(r, c), 1, "cell ({}, {})", r, c);
    }
    assert_eq!(u.live_neighbor_count(1, 1), 0);
}

#[test]
fn wrap_at_index_zero_reaches_far_edges() {
    let mut rows = all_dead(5, 5);
    rows[4][4] = A;
    let u = Universe::from_rows(5, rows).unwrap();
    assert_eq!(u.live_neighbor_count(0, 0), 1);
    assert_eq!(u.live_neighbor_count(0, 4), 1);
    assert_eq!(u.live_neighbor_count(4, 0), 1);
    assert_eq!(u.live_neighbor_count(2, 2), 0);
    assert_eq!(u.live_neighbor_count(4, 4), 0);
}

#[test]
fn single_cell_is_its_own_eight_neighbors() {
    let mut u = grid(&[&[A]]);
    assert_eq!(u.live_neighbor_count(0, 0), 8);
    u.tick();
    assert_eq!(u.cell(0, 0), D);
    let dead = grid(&[&[D]]);
    assert_eq!(dead.live_neighbor_count(0, 0), 0);
}

#[test]
fn narrow_grid_counts_a_cell_through_several_offsets() {
    let u = grid(&[&[A, D]]);
    // One row, two columns: offsets to the left and right both reach column 0
    // from column 1, on each of the three wrapped rows.
    assert_eq!(u.live_neighbor_count(0, 1), 6);
    assert_eq!(u.live_neighbor_count(0, 0), 2);
}

#[test]
fn block_is_a_still_life() {
    let start = vec![
        vec![D, D, D, D],
        vec![D, A, A, D],
        vec![D, A, A, D],
        vec![D, D, D, D],
    ];
    let mut u = Universe::from_rows(4, start.clone()).unwrap();
    for _ in 0..10 {
        u.tick();
        assert_eq!(u.cells(), start);
    }
}

#[test]
fn blinker_has_period_two() {
    let mut start = all_dead(5, 5);
    start[2][1] = A;
    start[2][2] = A;
    start[2][3] = A;
    let mut u = Universe::from_rows(5, start.clone()).unwrap();
    u.tick();
    let mut vertical = all_dead(5, 5);
    vertical[1][2] = A;
    vertical[2][2] = A;
    vertical[3][2] = A;
    assert_eq!(u.cells(), vertical);
    assert_ne!(u.cells(), start);
    u.tick();
    assert_eq!(u.cells(), start);
}

#[test]
fn tick_reads_only_the_previous_generation() {
    // Row 1 holds three live cells. In row-major order (0, 2) is visited
    // before (1, 1), and (0, 2) is born. Had (1, 1) seen that new value it
    // would count 2 live neighbours and survive; from the previous
    // generation it counts 1 and dies.
    let mut u = grid(&[
        &[D, D, D, D, D],
        &[D, A, A, A, D],
        &[D, D, D, D, D],
        &[D, D, D, D, D],
        &[D, D, D, D, D],
    ]);
    u.tick();
    assert_eq!(u.cell(0, 1), D);
    assert_eq!(u.cell(0, 2), A);
    assert_eq!(u.cell(2, 2), A);
    assert_eq!(u.cell(1, 1), D);
    assert_eq!(u.cell(1, 2), A);
}

#[test]
fn rule_cases() {
    assert_eq!(A.next_state(0), D);
    assert_eq!(A.next_state(1), D);
    assert_eq!(A.next_state(2), A);
    assert_eq!(A.next_state(3), A);
    assert_eq!(A.next_state(4), D);
    assert_eq!(A.next_state(8), D);
    assert_eq!(D.next_state(2), D);
    assert_eq!(D.next_state(3), A);
    assert_eq!(D.next_state(4), D);
    assert_eq!(D.next_state(0), D);
}

#[test]
fn from_rows_rejects_jagged_grid() {
    assert!(Universe::from_rows(2, vec![vec![A, D], vec![A]]).is_none());
    assert!(Universe::from_rows(3, vec![vec![A, D], vec![A, D]]).is_none());
    let u = Universe::from_rows(2, vec![vec![A, D], vec![D, D], vec![D, A]]).unwrap();
    assert_eq!(u.width(), 2);
    assert_eq!(u.height(), 3);
    let empty = Universe::from_rows(4, vec![]).unwrap();
    assert_eq!(empty.height(), 0);
}

#[test]
fn raster_two_cells_of_four_pixels() {
    let u = grid(&[&[A, D]]);
    let mut buffer = vec![0x123456u32; 8 * 4];
    u.draw_scaled(&mut buffer, 8, 4, 4);
    for y in 0..4 {
        for x in 0..8 {
            let expected = if x < 4 { 0xFFFFFF } else { 0x000000 };
            assert_eq!(buffer[y * 8 + x], expected, "pixel ({}, {})", x, y);
        }
    }
}

#[test]
fn raster_leaves_unmapped_pixels_and_skips_outside() {
    let u = grid(&[&[A, A], &[A, A]]);
    // The display is 5x3 pixels; the blocks of 2 cover columns 0..4 and
    // rows 0..3 (the lower block row is cut short by the display).
    let mut buffer = vec![7u32; 5 * 3];
    u.draw_scaled(&mut buffer, 5, 3, 2);
    for y in 0..3 {
        for x in 0..5 {
            let expected = if x < 4 { 0xFFFFFF } else { 7 };
            assert_eq!(buffer[y * 5 + x], expected, "pixel ({}, {})", x, y);
        }
    }
    let mut untouched = vec![9u32; 6];
    u.draw_scaled(&mut untouched, 3, 2, 0);
    assert_eq!(untouched, vec![9u32; 6]);
}

#[test]
fn draw_fills_the_display() {
    let mut rows = all_dead(WIDTH / CELL_SIZE, HEIGHT / CELL_SIZE);
    rows[1][2] = A;
    let u = Universe::from_rows(WIDTH / CELL_SIZE, rows).unwrap();
    let mut buffer = vec![5u32; WIDTH * HEIGHT];
    u.draw(&mut buffer);
    assert_eq!(buffer[0], 0x000000);
    assert_eq!(buffer[(HEIGHT - 1) * WIDTH + WIDTH - 1], 0x000000);
    assert_eq!(buffer[10 * WIDTH + 20], 0xFFFFFF);
    assert_eq!(buffer[19 * WIDTH + 29], 0xFFFFFF);
    assert_eq!(buffer[20 * WIDTH + 29], 0x000000);
    assert_eq!(buffer[19 * WIDTH + 30], 0x000000);
}

#[test]
fn colors_are_white_and_black() {
    assert_eq!(A.color(), 0xFFFFFF);
    assert_eq!(D.color(), 0x000000);
}

#[test]
fn random_seeding_is_about_half_alive() {
    let u = Universe::new(100, 100);
    assert_eq!(u.width(), 100);
    assert_eq!(u.height(), 100);
    let cells = u.cells();
    assert_eq!(cells.len(), 100);
    let alive: usize = cells
        .iter()
        .map(|row| {
            assert_eq!(row.len(), 100);
            row.iter().filter(|c| **c == A).count()
        })
        .sum();
    let fraction = alive as f64 / 10000.0;
    assert!((fraction - 0.5).abs() <= 0.05, "fraction {}", fraction);
}

#[test]
fn random_seeding_of_empty_grid() {
    let u = Universe::new(0, 3);
    assert_eq!(u.height(), 3);
    assert!(u.cells().iter().all(|r| r.is_empty()));
}
