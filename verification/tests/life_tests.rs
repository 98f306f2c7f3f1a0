use game_of_life::grid::Grid;
use game_of_life::state::State;

fn alive_cells(g: &Grid) -> Vec<(usize, usize)> {
    let mut out = Vec::new();
    for y in 0..g.height {
        for x in 0..g.width {
            if matches!(g.get(x, y), State::Alive) {
                out.push((x, y));
            }
        }
    }
    out
}

#[test]
fn transition_rule_all_counts() {
    for n in 0..=8usize {
        let from_alive = State::Alive.get_next_state(n);
        let from_dead = State::Dead.get_next_state(n);
        assert_eq!(matches!(from_alive, State::Alive), n == 2 || n == 3);
        assert_eq!(matches!(from_dead, State::Alive), n == 3);
    }
    assert!(matches!(State::Alive.get_next_state(9), State::Dead));
    assert!(matches!(State::Dead.get_next_state(100), State::Dead));
}

#[test]
fn isolated_cell_dies() {
    for (w, h, x, y) in [(3, 3, 1, 1), (5, 4, 0, 0), (5, 5, 4, 2)] {
        let mut g = Grid::new(w, h);
        g.set(x, y, State::Alive);
        g.step();
        assert!(alive_cells(&g).is_empty());
    }
}

#[test]
fn block_is_still_life() {
    let mut g = Grid::new(4, 4);
    for (x, y) in [(1, 1), (2, 1), (1, 2), (2, 2)] {
        g.set(x, y, State::Alive);
    }
    g.step();
    assert_eq!(alive_cells(&g), vec![(1, 1), (2, 1), (1, 2), (2, 2)]);
    g.step();
    assert_eq!(alive_cells(&g), vec![(1, 1), (2, 1), (1, 2), (2, 2)]);
}

#[test]
fn blinker_oscillates() {
    let mut g = Grid::new(5, 5);
    for (x, y) in [(1, 0), (1, 1), (1, 2)] {
        g.set(x, y, State::Alive);
    }
    g.step();
    assert_eq!(alive_cells(&g), vec![(0, 1), (1, 1), (2, 1)]);
    g.step();
    assert_eq!(alive_cells(&g), vec![(1, 0), (1, 1), (1, 2)]);
}

#[test]
fn glider_moves_one_cell_diagonally_in_four_steps() {
    let mut g = Grid::new(8, 8);
    for (x, y) in [(1, 0), (2, 1), (0, 2), (1, 2), (2, 2)] {
        g.set(x, y, State::Alive);
    }
    let before = alive_cells(&g);
    for _ in 0..4 {
        g.step();
    }
    let after = alive_cells(&g);
    let shifted: Vec<(usize, usize)> = before.iter().map(|&(x, y)| (x + 1, y + 1)).collect();
    assert_eq!(after, shifted);
}

#[test]
fn toggle_flips_one_cell_only() {
    let mut g = Grid::new(3, 3);
    g.toggle(1, 2);
    assert!(matches!(g.get(1, 2), State::Alive));
    assert_eq!(alive_cells(&g).len(), 1);
    g.toggle(1, 2);
    assert!(alive_cells(&g).is_empty());
}

#[test]
fn neighbor_wraparound_on_edges() {
    // One alive cell in a corner: its 8 toroidal neighbors include the
    // opposite corner, so a cell diagonally across the seam sees it.
    let mut g = Grid::new(4, 4);
    g.set(0, 0, State::Alive);
    g.set(3, 3, State::Alive);
    g.set(3, 0, State::Alive);
    // (0, 0), (3, 3) and (3, 0) are mutual toroidal neighbors: each has
    // exactly 2 alive neighbors and survives; (0, 3) sees all three and is
    // born; everything else stays dead.
    g.step();
    assert_eq!(alive_cells(&g), vec![(0, 0), (3, 0), (0, 3), (3, 3)]);
}
