use game_of_life::Universe;

fn alive_indices(u: &Universe) -> Vec<usize> {
    let size = (u.width() * u.height()) as usize;
    let mut alive = Vec::new();
    for i in 0..size {
        if u.cells().contains(i) {
            alive.push(i);
        }
    }
    alive
}

#[test]
fn deterministic_seed_3x3() {
    let u = Universe::new(3, 3);
    assert_eq!(u.width(), 3);
    assert_eq!(u.height(), 3);
    assert_eq!(u.cells().len(), 9);
    // cell 0 always dead; 1: neither 1%2==0 nor 1%7==0; 2, 4, 6, 8 even; 7%7==0
    assert!(!u.cells().contains(0));
    assert!(!u.cells().contains(1));
    assert!(u.cells().contains(2));
    assert!(!u.cells().contains(3));
    assert!(u.cells().contains(4));
    assert!(!u.cells().contains(5));
    assert!(u.cells().contains(6));
    assert!(u.cells().contains(7));
    assert!(u.cells().contains(8));
    assert_eq!(alive_indices(&u), vec![2, 4, 6, 7, 8]);
}

#[test]
fn glider_one_generation_on_5x5_torus() {
    let mut u = Universe::new(5, 5);
    u.clear();
    for (row, col) in [(0u32, 1u32), (1, 2), (2, 0), (2, 1), (2, 2)] {
        u.toggle_cell(row, col);
    }
    assert_eq!(alive_indices(&u), vec![1, 7, 10, 11, 12]);
    u.tick();
    // one step of the glider: {(1,0),(1,2),(2,1),(2,2),(3,1)}
    assert_eq!(alive_indices(&u), vec![5, 7, 11, 12, 16]);
}

#[test]
fn clear_renders_all_dead() {
    let mut u = Universe::new(2, 3);
    u.clear();
    assert_eq!(u.render(), "◻◻\n◻◻\n◻◻\n");
    assert_eq!(alive_indices(&u), Vec::<usize>::new());
}

#[test]
fn render_seed_2x2() {
    let u = Universe::new(2, 2);
    // cells 0..4: dead, dead, alive (2 % 2 == 0), dead
    assert_eq!(u.render(), "◻◻\n◼◻\n");
}

#[test]
fn render_shape_and_determinism() {
    let mut a = Universe::new(3, 5);
    let mut b = Universe::new(3, 5);
    assert_eq!(a.render(), b.render());
    let rendered = a.render();
    let lines: Vec<&str> = rendered.split_terminator('\n').collect();
    assert_eq!(lines.len(), 5);
    for line in lines {
        assert_eq!(line.chars().count(), 3);
    }
    // same mutations keep the outputs identical
    a.toggle_cell(4, 2);
    b.toggle_cell(4, 2);
    a.tick();
    b.tick();
    assert_eq!(a.render(), b.render());
}

#[test]
fn toggle_twice_restores_state() {
    let mut u = Universe::new(4, 4);
    let before = u.render();
    u.toggle_cell(2, 3);
    assert_ne!(u.render(), before);
    u.toggle_cell(2, 3);
    assert_eq!(u.render(), before);
}

#[test]
fn neighbour_count_on_1x1_torus() {
    let mut u = Universe::new(1, 1);
    assert_eq!(u.count_live_neighbour(0, 0), 0);
    u.toggle_cell(0, 0);
    // all 8 toroidal neighbors wrap back onto the single live cell
    assert_eq!(u.count_live_neighbour(0, 0), 8);
    u.tick();
    // alive with count 8 dies of overpopulation
    assert!(!u.cells().contains(0));
}

#[test]
fn neighbour_count_on_1xn_torus() {
    let mut u = Universe::new(4, 1);
    u.clear();
    u.toggle_cell(0, 1);
    // all three row offsets wrap onto row 0, so each column offset is seen
    // three times (the self column only twice: the (0,0) pair is skipped)
    assert_eq!(u.count_live_neighbour(0, 0), 3);
    assert_eq!(u.count_live_neighbour(0, 1), 2);
    assert_eq!(u.count_live_neighbour(0, 2), 3);
    assert_eq!(u.count_live_neighbour(0, 3), 0);
    for col in 0..4 {
        assert!(u.count_live_neighbour(0, col) <= 8);
    }
}

#[test]
fn blinker_oscillates() {
    let mut u = Universe::new(5, 5);
    u.clear();
    for col in [1, 2, 3] {
        u.toggle_cell(2, col);
    }
    let horizontal = alive_indices(&u);
    u.tick();
    // the horizontal blinker flips to vertical: (1,2), (2,2), (3,2)
    assert_eq!(alive_indices(&u), vec![7, 12, 17]);
    u.tick();
    assert_eq!(alive_indices(&u), horizontal);
}

#[test]
fn randomize_takes_one_draw_per_cell() {
    let draws = vec![true, false, true, true, false, false, true, false, true];
    let u = Universe::randomize(3, 3, &draws);
    assert_eq!(u.width(), 3);
    assert_eq!(u.height(), 3);
    // cell 0 stays dead whatever its draw says; the rest follow the draws
    assert_eq!(alive_indices(&u), vec![2, 3, 6, 8]);
}

#[test]
fn randomize_empty_grid() {
    let draws: Vec<bool> = Vec::new();
    let u = Universe::randomize(0, 5, &draws);
    assert_eq!(u.width(), 0);
    assert_eq!(u.height(), 5);
    assert_eq!(u.cells().len(), 0);
    // five rows of zero cells: a newline per row
    assert_eq!(u.render(), "\n\n\n\n\n");
}

#[test]
fn degenerate_zero_size_grid() {
    let mut u = Universe::new(0, 0);
    assert_eq!(u.cells().len(), 0);
    assert_eq!(u.render(), "");
    u.tick();
    u.clear();
    assert_eq!(u.render(), "");
}
