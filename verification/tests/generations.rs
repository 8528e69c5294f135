//! The generation step: neighbour counting, the rule, and known patterns.

use game_of_life::universe::next_state;
use game_of_life::Universe;

fn dead(width: u32, height: u32) -> Universe {
    let mut universe = Universe::new(width, height);
    universe.set_height(height);
    universe
}

fn with_cells(width: u32, height: u32, cells: &[(u32, u32)]) -> Universe {
    let mut universe = dead(width, height);
    universe.set_cells(cells);
    universe
}

fn live_cells(universe: &Universe) -> Vec<(u32, u32)> {
    let mut cells = Vec::new();
    for row in 0..universe.height() {
        for column in 0..universe.width() {
            if universe.get_cell_state(row, column) {
                cells.push((row, column));
            }
        }
    }
    cells
}

fn bits(universe: &Universe) -> Vec<bool> {
    let mut cells = Vec::new();
    for row in 0..universe.height() {
        for column in 0..universe.width() {
            cells.push(universe.get_cell_state(row, column));
        }
    }
    cells
}

/// One generation by the textbook definition, on plain booleans.
fn plain_step(cells: &[bool], width: usize, height: usize) -> Vec<bool> {
    let mut next = Vec::new();
    for i in 0..width * height {
        let (row, column) = (i / width, i % width);
        let mut neighbors = 0;
        for (up, dr) in [height - 1, 0, 1].into_iter().enumerate() {
            for (left, dc) in [width - 1, 0, 1].into_iter().enumerate() {
                if up == 1 && left == 1 {
                    continue;
                }
                let r = (row + dr) % height;
                let c = (column + dc) % width;
                if cells[r * width + c] {
                    neighbors += 1;
                }
            }
        }
        next.push(neighbors == 3 || (cells[i] && neighbors == 2));
    }
    next
}

#[test]
fn rule_for_a_live_cell() {
    assert!(!next_state(true, 0));
    assert!(!next_state(true, 1));
    assert!(next_state(true, 2));
    assert!(next_state(true, 3));
    assert!(!next_state(true, 4));
    assert!(!next_state(true, 5));
    assert!(!next_state(true, 6));
    assert!(!next_state(true, 7));
    assert!(!next_state(true, 8));
}

#[test]
fn rule_for_a_dead_cell() {
    for neighbors in 0..=8u8 {
        assert_eq!(next_state(false, neighbors), neighbors == 3);
    }
}

#[test]
fn corner_neighbors_lie_across_the_edges() {
    let (width, height) = (5u32, 4u32);
    let around = [
        (height - 1, width - 1),
        (height - 1, 0),
        (height - 1, 1),
        (0, width - 1),
        (0, 1),
        (1, width - 1),
        (1, 0),
        (1, 1),
    ];
    for cell in around {
        let universe = with_cells(width, height, &[cell]);
        assert_eq!(universe.live_neighbor_count(0, 0), 1, "neighbour {:?}", cell);
    }
    assert_eq!(with_cells(width, height, &around).live_neighbor_count(0, 0), 8);
    for row in 0..height {
        for column in 0..width {
            if !around.contains(&(row, column)) {
                let universe = with_cells(width, height, &[(row, column)]);
                assert_eq!(universe.live_neighbor_count(0, 0), 0);
            }
        }
    }
}

#[test]
fn corner_neighbors_on_the_smallest_such_grid() {
    let mut universe = dead(3, 3);
    universe.set_cells(&[(2, 2), (2, 0), (2, 1), (0, 2), (0, 1), (1, 2), (1, 0), (1, 1)]);
    assert_eq!(universe.live_neighbor_count(0, 0), 8);
    universe.toggle_cell(0, 0);
    assert_eq!(universe.live_neighbor_count(0, 0), 8);
    assert_eq!(universe.live_neighbor_count(1, 1), 8);
}

#[test]
fn opposite_corner_wraps_too() {
    let universe = with_cells(6, 5, &[(0, 0), (0, 5), (4, 0), (3, 4)]);
    assert_eq!(universe.live_neighbor_count(4, 5), 4);
}

#[test]
fn a_cell_is_not_its_own_neighbor_on_a_large_grid() {
    let universe = with_cells(4, 4, &[(2, 2)]);
    assert_eq!(universe.live_neighbor_count(2, 2), 0);
    assert_eq!(universe.live_neighbor_count(1, 1), 1);
}

#[test]
fn single_cell_grid_wraps_onto_itself() {
    let mut universe = Universe::new(1, 1);
    assert!(universe.get_cell_state(0, 0));
    assert_eq!(universe.live_neighbor_count(0, 0), 8);
    universe.tick();
    assert!(!universe.get_cell_state(0, 0));
    assert_eq!(universe.live_neighbor_count(0, 0), 0);
    universe.tick();
    assert!(!universe.get_cell_state(0, 0));
}

#[test]
fn single_row_grid_counts_itself_above_and_below() {
    let universe = with_cells(5, 1, &[(0, 2)]);
    assert_eq!(universe.live_neighbor_count(0, 2), 2);
    assert_eq!(universe.live_neighbor_count(0, 1), 3);
    assert_eq!(universe.live_neighbor_count(0, 3), 3);
    assert_eq!(universe.live_neighbor_count(0, 0), 0);
}

#[test]
fn two_column_grid_meets_the_same_neighbor_from_both_sides() {
    let universe = with_cells(2, 4, &[(1, 1)]);
    assert_eq!(universe.live_neighbor_count(1, 0), 2);
    assert_eq!(universe.live_neighbor_count(0, 0), 2);
    assert_eq!(universe.live_neighbor_count(0, 1), 1);
    assert_eq!(universe.live_neighbor_count(3, 0), 0);
}

#[test]
fn lone_cell_dies() {
    let mut universe = with_cells(5, 5, &[(2, 2)]);
    universe.tick();
    assert_eq!(live_cells(&universe), vec![]);
}

#[test]
fn live_cell_with_one_neighbor_dies() {
    let mut universe = with_cells(5, 5, &[(2, 2), (2, 3)]);
    assert_eq!(universe.live_neighbor_count(2, 2), 1);
    universe.tick();
    assert!(!universe.get_cell_state(2, 2));
    assert_eq!(live_cells(&universe), vec![]);
}

#[test]
fn live_cell_with_two_neighbors_survives() {
    let mut universe = with_cells(5, 5, &[(1, 1), (2, 2), (3, 3)]);
    assert_eq!(universe.live_neighbor_count(2, 2), 2);
    universe.tick();
    assert!(universe.get_cell_state(2, 2));
    assert_eq!(live_cells(&universe), vec![(2, 2)]);
}

#[test]
fn live_cell_with_three_neighbors_survives() {
    let mut universe = with_cells(5, 5, &[(1, 1), (2, 2), (3, 3), (1, 3)]);
    assert_eq!(universe.live_neighbor_count(2, 2), 3);
    universe.tick();
    assert!(universe.get_cell_state(2, 2));
}

#[test]
fn live_cell_with_four_neighbors_dies() {
    let mut universe = with_cells(5, 5, &[(1, 1), (2, 2), (3, 3), (1, 3), (3, 1)]);
    assert_eq!(universe.live_neighbor_count(2, 2), 4);
    universe.tick();
    assert!(!universe.get_cell_state(2, 2));
}

#[test]
fn live_cell_with_eight_neighbors_dies() {
    let mut universe = dead(5, 5);
    for row in 1..=3 {
        for column in 1..=3 {
            universe.toggle_cell(row, column);
        }
    }
    assert_eq!(universe.live_neighbor_count(2, 2), 8);
    universe.tick();
    assert!(!universe.get_cell_state(2, 2));
}

#[test]
fn dead_cell_with_three_neighbors_comes_alive() {
    let mut universe = with_cells(5, 5, &[(1, 1), (1, 3), (3, 2)]);
    assert_eq!(universe.live_neighbor_count(2, 2), 3);
    universe.tick();
    assert_eq!(live_cells(&universe), vec![(2, 2)]);
}

#[test]
fn dead_cell_with_two_or_four_neighbors_stays_dead() {
    let mut two = with_cells(5, 5, &[(1, 1), (3, 3)]);
    assert_eq!(two.live_neighbor_count(2, 2), 2);
    two.tick();
    assert!(!two.get_cell_state(2, 2));

    let mut four = with_cells(5, 5, &[(1, 1), (1, 3), (3, 1), (3, 3)]);
    assert_eq!(four.live_neighbor_count(2, 2), 4);
    four.tick();
    assert!(!four.get_cell_state(2, 2));
}

#[test]
fn empty_grid_stays_empty() {
    let mut universe = dead(6, 4);
    universe.tick();
    assert_eq!(live_cells(&universe), vec![]);
}

#[test]
fn block_is_a_still_life() {
    let block = [(2, 2), (2, 3), (3, 2), (3, 3)];
    let mut universe = with_cells(6, 6, &block);
    for row in 2..=3 {
        for column in 2..=3 {
            assert_eq!(universe.live_neighbor_count(row, column), 3);
        }
    }
    for _ in 0..4 {
        universe.tick();
        assert_eq!(live_cells(&universe), block.to_vec());
    }
}

#[test]
fn block_in_the_corner_of_a_small_grid_is_still() {
    let block = [(0, 0), (0, 1), (1, 0), (1, 1)];
    for size in [3, 4] {
        let mut universe = with_cells(size, size, &block);
        universe.tick();
        assert_eq!(live_cells(&universe), block.to_vec());
    }
}

#[test]
fn blinker_turns_and_returns() {
    let flat = [(2, 1), (2, 2), (2, 3)];
    let upright = [(1, 2), (2, 2), (3, 2)];
    let mut universe = with_cells(5, 5, &flat);
    universe.tick();
    assert_eq!(live_cells(&universe), upright.to_vec());
    universe.tick();
    assert_eq!(live_cells(&universe), flat.to_vec());
    universe.tick();
    assert_eq!(live_cells(&universe), upright.to_vec());
}

#[test]
fn blinker_on_a_wide_grid() {
    let mut universe = with_cells(9, 6, &[(3, 4), (3, 5), (3, 6)]);
    universe.tick();
    assert_eq!(live_cells(&universe), vec![(2, 5), (3, 5), (4, 5)]);
    universe.tick();
    assert_eq!(live_cells(&universe), vec![(3, 4), (3, 5), (3, 6)]);
}

#[test]
fn glider_crosses_the_edge() {
    let mut universe = with_cells(6, 6, &[(0, 1), (1, 2), (2, 0), (2, 1), (2, 2)]);
    for _ in 0..24 {
        universe.tick();
    }
    assert_eq!(live_cells(&universe), vec![(0, 1), (1, 2), (2, 0), (2, 1), (2, 2)]);
    for _ in 0..4 {
        universe.tick();
    }
    assert_eq!(live_cells(&universe), vec![(1, 2), (2, 3), (3, 1), (3, 2), (3, 3)]);
}

#[test]
fn first_generations_of_the_seed_pattern() {
    let mut small = Universe::new(4, 4);
    small.tick();
    assert_eq!(small.get_cells().to_vec(), vec![21845usize]);
    small.tick();
    assert_eq!(small.get_cells().to_vec(), vec![21845usize]);

    let mut square = Universe::new(5, 5);
    square.tick();
    assert_eq!(live_cells(&square), vec![(2, 0), (2, 4)]);
    square.tick();
    assert_eq!(live_cells(&square), vec![]);

    let mut wide = Universe::new(7, 3);
    wide.tick();
    assert_eq!(live_cells(&wide), vec![(0, 2), (0, 4), (2, 2), (2, 4)]);
}

#[test]
fn generations_agree_with_the_textbook_definition() {
    for (width, height) in [(1, 1), (1, 6), (6, 1), (2, 2), (2, 5), (3, 3), (8, 5), (13, 11), (70, 3)] {
        let mut universe = Universe::new(width, height);
        universe.set_cells(&[(0, 0), (height - 1, width - 1), (height / 2, width / 2)]);
        let mut expected = bits(&universe);
        for generation in 0..6 {
            universe.tick();
            expected = plain_step(&expected, width as usize, height as usize);
            assert_eq!(
                bits(&universe),
                expected,
                "generation {} of a {}x{} grid",
                generation + 1,
                width,
                height
            );
        }
    }
}

#[test]
fn neighbor_counts_agree_with_the_textbook_definition() {
    let (width, height) = (7u32, 5u32);
    let universe = Universe::new(width, height);
    let cells = bits(&universe);
    for row in 0..height {
        for column in 0..width {
            let mut expected = 0;
            for (up, dr) in [height - 1, 0, 1].into_iter().enumerate() {
                for (left, dc) in [width - 1, 0, 1].into_iter().enumerate() {
                    if up == 1 && left == 1 {
                        continue;
                    }
                    let r = (row + dr) % height;
                    let c = (column + dc) % width;
                    if cells[(r * width + c) as usize] {
                        expected += 1;
                    }
                }
            }
            assert_eq!(universe.live_neighbor_count(row, column), expected);
        }
    }
}

#[test]
fn tick_reads_only_the_generation_before() {
    // A row of four: were cells updated in place, the third cell would see
    // the first two already changed.
    let mut universe = with_cells(8, 5, &[(2, 2), (2, 3), (2, 4), (2, 5)]);
    universe.tick();
    assert_eq!(
        live_cells(&universe),
        vec![(1, 3), (1, 4), (2, 3), (2, 4), (3, 3), (3, 4)]
    );
}

#[test]
fn toggle_after_tick_leaves_what_was_read_before() {
    let mut universe = Universe::new(8, 8);
    universe.tick();
    let read_before: Vec<usize> = universe.get_cells().to_vec();
    let bits_before = bits(&universe);
    universe.toggle_cell(3, 3);
    assert_eq!(read_before.len(), universe.get_cells().len());
    assert_ne!(read_before, universe.get_cells().to_vec());
    universe.toggle_cell(3, 3);
    assert_eq!(read_before, universe.get_cells().to_vec());
    assert_eq!(bits_before, bits(&universe));
}

#[test]
fn toggle_after_tick_does_not_reach_the_next_generation_through_the_other_buffer() {
    let mut toggled = Universe::new(9, 7);
    let mut plain = Universe::new(9, 7);
    toggled.tick();
    plain.tick();
    toggled.toggle_cell(0, 0);
    toggled.toggle_cell(0, 0);
    toggled.tick();
    plain.tick();
    assert_eq!(bits(&toggled), bits(&plain));
}

#[test]
fn resize_after_tick_leaves_nothing_behind() {
    let mut universe = Universe::new(6, 6);
    universe.tick();
    universe.set_width(4);
    assert_eq!(live_cells(&universe), vec![]);
    universe.tick();
    assert_eq!(live_cells(&universe), vec![]);
    universe.tick();
    assert_eq!(live_cells(&universe), vec![]);
}
