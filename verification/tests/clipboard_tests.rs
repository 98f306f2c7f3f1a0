use game_of_life::clipboard::Pattern;
use game_of_life::grid::Grid;
use game_of_life::state::State;

fn snapshot(g: &Grid) -> Vec<bool> {
    let mut out = Vec::new();
    for y in 0..g.height {
        for x in 0..g.width {
            out.push(matches!(g.get(x, y), State::Alive));
        }
    }
    out
}

#[test]
fn capture_reads_the_rectangle() {
    let mut g = Grid::new(4, 4);
    g.set(1, 1, State::Alive);
    g.set(2, 2, State::Alive);
    let p = g.capture(1, 1, 2, 2);
    assert_eq!(p.width, 2);
    assert_eq!(p.height, 2);
    assert!(matches!(p.cells[0], State::Alive)); // (1, 1)
    assert!(matches!(p.cells[1], State::Dead)); // (2, 1)
    assert!(matches!(p.cells[2], State::Dead)); // (1, 2)
    assert!(matches!(p.cells[3], State::Alive)); // (2, 2)
}

#[test]
fn capture_then_paste_round_trip() {
    let mut g = Grid::new(4, 4);
    for (x, y) in [(1, 1), (2, 2), (0, 0), (3, 1)] {
        g.set(x, y, State::Alive);
    }
    let before = snapshot(&g);
    let p = g.capture(1, 1, 2, 2);
    g.paste(1, 1, &p);
    assert_eq!(snapshot(&g), before);
}

#[test]
fn paste_overwrites_at_anchor() {
    let mut src = Grid::new(4, 4);
    src.set(0, 0, State::Alive);
    src.set(1, 1, State::Alive);
    let p = src.capture(0, 0, 1, 1);
    let mut g = Grid::new(4, 4);
    g.set(2, 1, State::Alive); // overwritten by a dead corner of the pattern
    g.set(0, 3, State::Alive); // outside the pasted rectangle, untouched
    g.paste(1, 1, &p);
    let alive: Vec<(usize, usize)> = (0..4usize)
        .flat_map(|y| (0..4usize).map(move |x| (x, y)))
        .filter(|&(x, y)| matches!(g.get(x, y), State::Alive))
        .collect();
    assert_eq!(alive, vec![(1, 1), (2, 2), (0, 3)]);
}

#[test]
fn oversized_paste_wraps_and_stays_in_bounds() {
    // A 5 by 2 all-alive pattern on a 3 by 3 grid: columns wrap around the
    // torus (some cells written more than once), rows land on 2 and 0.
    let p = Pattern { width: 5, height: 2, cells: vec![State::Alive; 10] };
    let mut g = Grid::new(3, 3);
    g.paste(1, 2, &p);
    for x in 0..3usize {
        assert!(matches!(g.get(x, 2), State::Alive)); // anchor row
        assert!(matches!(g.get(x, 0), State::Alive)); // wrapped second row
        assert!(matches!(g.get(x, 1), State::Dead)); // untouched row
    }
}

#[test]
fn pattern_taller_than_grid_wraps_vertically() {
    let p = Pattern { width: 1, height: 7, cells: vec![State::Alive; 7] };
    let mut g = Grid::new(3, 2);
    g.paste(0, 0, &p);
    assert!(matches!(g.get(0, 0), State::Alive));
    assert!(matches!(g.get(0, 1), State::Alive));
    assert!(matches!(g.get(1, 0), State::Dead));
    assert!(matches!(g.get(2, 1), State::Dead));
}

#[test]
fn empty_pattern_paste_is_a_no_op() {
    let mut g = Grid::new(3, 3);
    g.set(1, 1, State::Alive);
    let before = snapshot(&g);
    let p = Pattern::empty();
    g.paste(0, 0, &p);
    assert_eq!(snapshot(&g), before);
}

#[test]
fn later_pattern_cells_overwrite_earlier_ones() {
    // Width 4 on a width 2 grid: column i and column i + 2 land on the same
    // grid cell, so the right half of the pattern wins.
    let p = Pattern {
        width: 4,
        height: 1,
        cells: vec![State::Alive, State::Alive, State::Dead, State::Dead],
    };
    let mut g = Grid::new(2, 2);
    g.paste(0, 0, &p);
    assert!(matches!(g.get(0, 0), State::Dead));
    assert!(matches!(g.get(1, 0), State::Dead));
}
