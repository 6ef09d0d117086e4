use game_of_life::grid::{Grid, State};

/// A 3x3 grid whose center cell is `center` and whose eight other cells are
/// `around`, in row-major order. On a 3x3 torus the eight other cells are
/// exactly the center's eight true neighbors.
fn grid3(center: State, around: [State; 8]) -> Grid {
    let cells = vec![
        around[0], around[1], around[2], around[3], center, around[4], around[5], around[6],
        around[7],
    ];
    Grid::from_cells(3, 3, cells).unwrap()
}

fn around(reds: usize, blues: usize) -> [State; 8] {
    assert!(reds + blues <= 8);
    let mut a = [State::Dead; 8];
    for k in 0..reds {
        a[k] = State::Red;
    }
    for k in reds..reds + blues {
        a[k] = State::Blue;
    }
    a
}

#[test]
fn step_is_deterministic() {
    let cells = vec![
        State::Red,
        State::Blue,
        State::Dead,
        State::Dead,
        State::Red,
        State::Blue,
        State::Blue,
        State::Dead,
        State::Red,
        State::Red,
        State::Dead,
        State::Blue,
    ];
    let g = Grid::from_cells(4, 3, cells).unwrap();
    let a = g.step();
    let b = g.step();
    assert_eq!(a.width(), b.width());
    assert_eq!(a.height(), b.height());
    for i in 0..3 {
        for j in 0..4 {
            assert_eq!(a.get(i, j), b.get(i, j));
        }
    }
}

#[test]
fn step_preserves_dimensions() {
    let g = Grid::new(7, 4);
    let s = g.step();
    assert_eq!(s.width(), 7);
    assert_eq!(s.height(), 4);
}

#[test]
fn corner_neighbors_wrap_around() {
    let g = Grid::from_cells(5, 4, vec![State::Dead; 20]).unwrap();
    let sur = g.get_surrounding(0, 0);
    assert_eq!(sur.len(), 9);
    assert!(sur.contains(&(3, 4)));
    assert!(sur.contains(&(3, 0)));
    assert!(sur.contains(&(0, 4)));
    let far = g.get_surrounding(3, 4);
    assert!(far.contains(&(0, 0)));
    assert!(far.contains(&(0, 3)));
    assert!(far.contains(&(2, 0)));
}

#[test]
fn surrounding_is_row_major_block() {
    let g = Grid::from_cells(5, 5, vec![State::Dead; 25]).unwrap();
    let sur = g.get_surrounding(2, 2);
    let expected = vec![
        (1, 1),
        (1, 2),
        (1, 3),
        (2, 1),
        (2, 2),
        (2, 3),
        (3, 1),
        (3, 2),
        (3, 3),
    ];
    assert_eq!(sur, expected);
}

#[test]
fn dead_cell_with_two_red_one_blue_becomes_red() {
    let g = grid3(State::Dead, around(2, 1));
    assert_eq!(g.step().get(1, 1), State::Red);
}

#[test]
fn dead_cell_with_one_red_two_blue_becomes_blue() {
    let g = grid3(State::Dead, around(1, 2));
    assert_eq!(g.step().get(1, 1), State::Blue);
}

#[test]
fn dead_cell_stays_dead_off_three() {
    let two = grid3(State::Dead, around(2, 0));
    assert_eq!(two.step().get(1, 1), State::Dead);
    let four = grid3(State::Dead, around(2, 2));
    assert_eq!(four.step().get(1, 1), State::Dead);
}

#[test]
fn red_cell_outnumbered_flips_to_blue() {
    let g = grid3(State::Red, around(1, 5));
    assert_eq!(g.step().get(1, 1), State::Blue);
}

#[test]
fn blue_cell_outnumbered_flips_to_red() {
    let g = grid3(State::Blue, around(5, 1));
    assert_eq!(g.step().get(1, 1), State::Red);
}

#[test]
fn red_cell_with_three_red_survives() {
    let g = grid3(State::Red, around(3, 0));
    assert_eq!(g.step().get(1, 1), State::Red);
}

#[test]
fn red_cell_with_five_red_dies() {
    let g = grid3(State::Red, around(5, 0));
    assert_eq!(g.step().get(1, 1), State::Dead);
}

#[test]
fn tied_live_cell_keeps_its_color() {
    let red = grid3(State::Red, around(2, 2));
    assert_eq!(red.step().get(1, 1), State::Red);
    let blue = grid3(State::Blue, around(2, 2));
    assert_eq!(blue.step().get(1, 1), State::Blue);
}

#[test]
fn lonely_live_cell_dies() {
    let g = grid3(State::Red, around(0, 0));
    assert_eq!(g.step().get(1, 1), State::Dead);
}

#[test]
fn red_block_is_a_still_life() {
    let mut cells = vec![State::Dead; 16];
    for (i, j) in [(1, 1), (1, 2), (2, 1), (2, 2)] {
        cells[i * 4 + j] = State::Red;
    }
    let g = Grid::from_cells(4, 4, cells).unwrap();
    let s = g.step();
    for i in 0..4 {
        for j in 0..4 {
            assert_eq!(s.get(i, j), g.get(i, j));
        }
    }
}

#[test]
fn byte_to_state_mapping() {
    let mut dead: usize = 0;
    let mut red: usize = 0;
    let mut blue: usize = 0;
    for b in 0..=255u8 {
        let s = game_of_life::grid::state_from_byte(b);
        let expected = match b % 4 {
            0 | 1 => State::Dead,
            2 => State::Red,
            _ => State::Blue,
        };
        assert_eq!(s, expected);
        match s {
            State::Dead => dead += 1,
            State::Red => red += 1,
            State::Blue => blue += 1,
        }
    }
    assert_eq!(dead, 128);
    assert_eq!(red, 64);
    assert_eq!(blue, 64);
}

#[test]
fn random_init_distribution() {
    let g = Grid::new(200, 200);
    let mut dead: usize = 0;
    let mut red: usize = 0;
    let mut blue: usize = 0;
    for i in 0..200 {
        for j in 0..200 {
            match g.get(i, j) {
                State::Dead => dead += 1,
                State::Red => red += 1,
                State::Blue => blue += 1,
            }
        }
    }
    assert_eq!(dead + red + blue, 40000);
    // Expected fractions are 1/2, 1/4, 1/4; the bounds sit more than ten
    // standard deviations out.
    assert!(18500 <= dead && dead <= 21500, "dead = {}", dead);
    assert!(9000 <= red && red <= 11000, "red = {}", red);
    assert!(9000 <= blue && blue <= 11000, "blue = {}", blue);
}

#[test]
fn new_has_requested_dimensions() {
    let g = Grid::new(13, 9);
    assert_eq!(g.width(), 13);
    assert_eq!(g.height(), 9);
}

#[test]
fn from_cells_rejects_wrong_length() {
    assert!(Grid::from_cells(3, 3, vec![State::Dead; 8]).is_none());
    assert!(Grid::from_cells(3, 3, vec![State::Dead; 10]).is_none());
    assert!(Grid::from_cells(3, 3, vec![State::Dead; 9]).is_some());
}

#[test]
fn get_reads_row_major() {
    let cells = vec![
        State::Red,
        State::Blue,
        State::Dead,
        State::Dead,
        State::Red,
        State::Blue,
    ];
    let g = Grid::from_cells(3, 2, cells).unwrap();
    assert_eq!(g.get(0, 0), State::Red);
    assert_eq!(g.get(0, 1), State::Blue);
    assert_eq!(g.get(0, 2), State::Dead);
    assert_eq!(g.get(1, 0), State::Dead);
    assert_eq!(g.get(1, 1), State::Red);
    assert_eq!(g.get(1, 2), State::Blue);
}
