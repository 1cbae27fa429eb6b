use conway::{Cell, CellLike, Conway, GridError, Location, World};

fn seeded(width: usize, height: usize, cells: &[(usize, usize)]) -> Conway {
    let mut c = Conway::with_width(width, height);
    for &(x, y) in cells {
        c.add_living(&Location::new(x, y)).unwrap();
    }
    c
}

#[test]
fn render_has_height_lines_of_width_characters() {
    for height in 0..6 {
        let c = Conway::new(height);
        let text = c.to_string();
        let lines: Vec<&str> = text.split('\n').collect();
        if height == 0 {
            assert_eq!(text, "");
        } else {
            assert_eq!(lines.len(), height);
            for line in lines {
                assert_eq!(line.len(), 20);
            }
        }
    }
}

#[test]
fn render_of_a_narrow_grid() {
    let c = seeded(3, 2, &[(0, 0), (2, 1)]);
    assert_eq!(c.to_string(), "XOO\nOOX");
}

#[test]
fn render_of_zero_width_grid_is_line_breaks() {
    let c = Conway::with_width(0, 3);
    assert_eq!(c.to_string(), "\n\n");
}

#[test]
fn empty_grid_stays_empty_for_several_heights() {
    for height in 0..5 {
        let c = Conway::new(height);
        assert_eq!(c.tick().to_string(), c.to_string());
    }
}

#[test]
fn adding_off_the_grid_is_refused() {
    let mut c = Conway::new(2);
    assert_eq!(c.add_living(&Location::new(20, 0)), Err(GridError::OutOfBounds));
    assert_eq!(c.add_living(&Location::new(0, 2)), Err(GridError::OutOfBounds));
    assert_eq!(c.add_living(&Location::new(19, 1)), Ok(()));
    let expected = "OOOOOOOOOOOOOOOOOOOO\n".to_string() + "OOOOOOOOOOOOOOOOOOOX";
    assert_eq!(expected, c.to_string());
}

#[test]
fn cell_at_tells_absent_from_dead() {
    let mut w = World::new(2, 2);
    assert_eq!(w.cell_at(&Location::new(1, 1)), Some(Cell::dead()));
    assert_eq!(w.add_cell(Cell::alive(), &Location::new(1, 1)), Ok(()));
    assert_eq!(w.cell_at(&Location::new(1, 1)), Some(Cell::living()));
    assert_eq!(w.cell_at(&Location::new(2, 1)), None);
    assert_eq!(w.cell_at(&Location::new(0, 2)), None);
    assert_eq!(w.add_cell(Cell::dead(), &Location::new(1, 1)), Ok(()));
    assert_eq!(w.cell_at(&Location::new(1, 1)), Some(Cell::dead()));
    assert_eq!(w.add_cell(Cell::alive(), &Location::new(5, 5)), Err(GridError::OutOfBounds));
    assert_eq!(w.width(), 2);
    assert_eq!(w.height(), 2);
}

#[test]
fn neighbors_in_the_middle_are_eight_in_row_major_order() {
    let n = Location::new(1, 1).neighbors();
    let expected = vec![
        Location::new(0, 0),
        Location::new(1, 0),
        Location::new(2, 0),
        Location::new(0, 1),
        Location::new(2, 1),
        Location::new(0, 2),
        Location::new(1, 2),
        Location::new(2, 2),
    ];
    assert_eq!(n, expected);
}

#[test]
fn neighbors_at_the_origin_leave_out_negative_coordinates() {
    let n = Location::new(0, 0).neighbors();
    let expected = vec![Location::new(1, 0), Location::new(0, 1), Location::new(1, 1)];
    assert_eq!(n, expected);
}

#[test]
fn neighbors_at_the_largest_coordinate_stop_there() {
    let n = Location::new(usize::MAX, 0).neighbors();
    let expected = vec![
        Location::new(usize::MAX - 1, 0),
        Location::new(usize::MAX - 1, 1),
        Location::new(usize::MAX, 1),
    ];
    assert_eq!(n, expected);
}

#[test]
fn neighbors_of_leaves_out_cells_off_the_grid() {
    let mut w = World::new(3, 2);
    w.add_cell(Cell::alive(), &Location::new(1, 0)).unwrap();
    let cells = w.neighbors_of(&Location::new(2, 1));
    assert_eq!(cells, vec![Cell::living(), Cell::dead(), Cell::dead()]);
    let corner = w.neighbors_of(&Location::new(0, 0));
    assert_eq!(corner, vec![Cell::living(), Cell::dead(), Cell::dead()]);
}

#[test]
fn living_neighbor_count_counts_the_moore_neighborhood() {
    let c = seeded(4, 4, &[(0, 0), (1, 0), (2, 0), (0, 1), (2, 1), (0, 2), (1, 2), (2, 2)]);
    assert_eq!(c.living_neighbor_count(&Location::new(1, 1)), 8);
    assert_eq!(c.living_neighbor_count(&Location::new(0, 0)), 2);
    assert_eq!(c.living_neighbor_count(&Location::new(3, 3)), 1);
    assert_eq!(c.living_neighbor_count(&Location::new(3, 0)), 2);
    assert_eq!(c.living_neighbor_count(&Location::new(10, 10)), 0);
}

#[test]
fn cell_rule_table() {
    for n in 0..9u8 {
        let live = Cell::living().tick(n);
        let dead = Cell::dead().tick(n);
        assert_eq!(live.is_alive(), n == 2 || n == 3);
        assert_eq!(dead.is_alive(), n == 3);
    }
}

#[test]
fn cell_state_characters() {
    assert_eq!(Cell::alive().state(), 'X');
    assert_eq!(Cell::living().state(), 'X');
    assert_eq!(Cell::dead().state(), 'O');
}

#[test]
fn dead_cell_with_three_neighbors_is_born() {
    let c = seeded(3, 3, &[(0, 0), (2, 0), (0, 2)]);
    assert_eq!(c.to_string(), "XOX\nOOO\nXOO");
    assert_eq!(c.tick().to_string(), "OOO\nOXO\nOOO");
}

#[test]
fn living_cell_with_three_neighbors_survives() {
    let c = seeded(3, 3, &[(1, 1), (0, 0), (2, 0), (1, 2)]);
    assert_eq!(c.living_neighbor_count(&Location::new(1, 1)), 3);
    let next = c.tick();
    assert_eq!(next.to_string(), "OXO\nXXX\nOOO");
}

#[test]
fn block_is_still_for_many_generations() {
    let mut c = seeded(20, 4, &[(2, 1), (3, 1), (2, 2), (3, 2)]);
    let expected = c.to_string();
    for _ in 0..10 {
        c = c.tick();
        assert_eq!(c.to_string(), expected);
    }
}

#[test]
fn blinker_has_period_two() {
    let c = seeded(5, 5, &[(2, 1), (2, 2), (2, 3)]);
    let one = c.to_string();
    let two = c.tick().to_string();
    assert_eq!(two, "OOOOO\nOOOOO\nOXXXO\nOOOOO\nOOOOO");
    assert_ne!(one, two);
    assert_eq!(c.tick().tick().to_string(), one);
}

#[test]
fn tick_leaves_the_source_unchanged() {
    let c = seeded(20, 1, &[(2, 0)]);
    let next = c.tick();
    assert_eq!(c.to_string(), "OOXOOOOOOOOOOOOOOOOO");
    assert_eq!(next.to_string(), "OOOOOOOOOOOOOOOOOOOO");
}
