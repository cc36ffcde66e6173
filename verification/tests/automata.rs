use array2d::Array2D;
use cellular_automata::{
    cell_glyph, cell_paint, check_alive_neighbors, init_brian_grid_scaled, initialize_grid,
    simulate_brian_generation, simulate_conway_generation, simulate_lwod_generation,
    simulate_seeds_generation, state_from_sample, try_simulate_generation, Automaton, CellPaint,
    Ruleset, brian_grid_from_draws, generation_is_quiet, grid_from_samples,
};

fn grid(rows: &[Vec<i32>]) -> Array2D<i32> {
    Array2D::from_rows(rows).unwrap()
}

fn count_state(g: &Array2D<i32>, state: i32) -> i32 {
    g.elements_row_major_iter().filter(|&&s| s == state).count() as i32
}

#[test]
fn neighbors_of_center_corner_and_edge() {
    let g = grid(&[vec![1, 1, 1], vec![1, 1, 1], vec![1, 1, 1]]);
    assert_eq!(check_alive_neighbors(&g, 1, 1), 8);
    assert_eq!(check_alive_neighbors(&g, 0, 0), 3);
    assert_eq!(check_alive_neighbors(&g, 0, 1), 5);
    assert_eq!(check_alive_neighbors(&g, 2, 2), 3);
}

#[test]
fn neighbors_count_only_state_one() {
    let g = grid(&[vec![2, 3, 0], vec![1, 1, 0], vec![0, 5, 1]]);
    assert_eq!(check_alive_neighbors(&g, 1, 1), 2);
    assert_eq!(check_alive_neighbors(&g, 0, 0), 2);
    assert_eq!(check_alive_neighbors(&g, 2, 2), 1);
}

#[test]
fn neighbors_do_not_wrap_around_edges() {
    let g = grid(&[vec![0, 0, 1], vec![0, 0, 0], vec![1, 0, 0]]);
    assert_eq!(check_alive_neighbors(&g, 0, 0), 0);
    assert_eq!(check_alive_neighbors(&g, 2, 2), 0);
}

#[test]
fn neighbors_of_positions_outside_the_grid() {
    let g = grid(&[vec![1, 1], vec![1, 1]]);
    assert_eq!(check_alive_neighbors(&g, 2, 2), 1);
    assert_eq!(check_alive_neighbors(&g, 5, 5), 0);
    // One step past the last usize wraps round to row 0.
    assert_eq!(check_alive_neighbors(&g, usize::MAX, 0), 2);
}

#[test]
fn conway_blinker_oscillates() {
    let g = grid(&[
        vec![0, 0, 0, 0, 0],
        vec![0, 0, 1, 0, 0],
        vec![0, 0, 1, 0, 0],
        vec![0, 0, 1, 0, 0],
        vec![0, 0, 0, 0, 0],
    ]);
    let (next, births, deaths) = simulate_conway_generation(&g, 5);
    let expected = grid(&[
        vec![0, 0, 0, 0, 0],
        vec![0, 0, 0, 0, 0],
        vec![0, 1, 1, 1, 0],
        vec![0, 0, 0, 0, 0],
        vec![0, 0, 0, 0, 0],
    ]);
    assert_eq!(next, expected);
    assert_eq!(births, 2);
    assert_eq!(deaths, 2);
    let (back, _, _) = simulate_conway_generation(&next, 5);
    assert_eq!(back, g);
}

#[test]
fn conway_block_is_stable() {
    let g = grid(&[vec![0, 0, 0, 0], vec![0, 1, 1, 0], vec![0, 1, 1, 0], vec![0, 0, 0, 0]]);
    let (next, births, deaths) = simulate_conway_generation(&g, 4);
    assert_eq!((births, deaths), (0, 0));
    assert_eq!(next, g);
}

#[test]
fn conway_keeps_other_states_and_works_on_a_corner_square() {
    let g = grid(&[vec![7, 1, 0], vec![1, 1, 0], vec![0, 0, 9]]);
    let (next, births, deaths) = simulate_conway_generation(&g, 2);
    assert_eq!(next, grid(&[vec![7, 1], vec![1, 1]]));
    assert_eq!((births, deaths), (0, 0));
}

#[test]
fn conway_population_balance_on_a_glider() {
    let g = grid(&[
        vec![0, 1, 0, 0, 0],
        vec![0, 0, 1, 0, 0],
        vec![1, 1, 1, 0, 0],
        vec![0, 0, 0, 0, 0],
        vec![0, 0, 0, 0, 0],
    ]);
    let (next, births, deaths) = simulate_conway_generation(&g, 5);
    assert_eq!(count_state(&next, 1), count_state(&g, 1) + births - deaths);
    assert_eq!(
        next,
        grid(&[
            vec![0, 0, 0, 0, 0],
            vec![1, 0, 1, 0, 0],
            vec![0, 1, 1, 0, 0],
            vec![0, 1, 0, 0, 0],
            vec![0, 0, 0, 0, 0],
        ])
    );
    assert_eq!((births, deaths), (2, 2));
}

#[test]
fn lwod_cells_never_die() {
    let g = grid(&[vec![0, 0, 0, 0], vec![1, 1, 1, 0], vec![0, 0, 0, 0], vec![0, 0, 0, 2]]);
    let (next, births, deaths) = simulate_lwod_generation(&g, 4);
    assert_eq!(
        next,
        grid(&[vec![0, 1, 0, 0], vec![1, 1, 1, 0], vec![0, 1, 0, 0], vec![0, 0, 0, 2]])
    );
    assert_eq!((births, deaths), (2, 0));
    assert_eq!(count_state(&next, 1), count_state(&g, 1) + births);
}

#[test]
fn lwod_without_births_is_stable() {
    let g = grid(&[vec![1, 0, 0], vec![0, 0, 0], vec![0, 0, 1]]);
    let (next, births, deaths) = simulate_lwod_generation(&g, 3);
    assert_eq!((births, deaths), (0, 0));
    assert_eq!(next, g);
}

#[test]
fn seeds_births_and_deaths() {
    let g = grid(&[vec![0, 0, 0, 0], vec![0, 1, 1, 0], vec![0, 0, 0, 0], vec![0, 0, 0, 0]]);
    let (next, births, deaths) = simulate_seeds_generation(&g, 4);
    assert_eq!(
        next,
        grid(&[vec![0, 1, 1, 0], vec![0, 0, 0, 0], vec![0, 1, 1, 0], vec![0, 0, 0, 0]])
    );
    assert_eq!((births, deaths), (4, 2));
    assert_eq!(count_state(&next, 1), births);
    assert_eq!(deaths, count_state(&g, 1));
}

#[test]
fn seeds_other_states_become_dead_without_counting() {
    let g = grid(&[vec![4, 0], vec![0, 0]]);
    let (next, births, deaths) = simulate_seeds_generation(&g, 2);
    assert_eq!(next, grid(&[vec![0, 0], vec![0, 0]]));
    assert_eq!((births, deaths), (0, 0));
}

#[test]
fn brian_state_cycle() {
    let g = grid(&[vec![0, 0, 0, 0], vec![0, 1, 1, 0], vec![0, 2, 3, 0], vec![0, 0, 0, 9]]);
    let (next, births, deaths) = simulate_brian_generation(&g, 4);
    assert_eq!(
        next,
        grid(&[vec![0, 1, 1, 0], vec![0, 2, 2, 0], vec![0, 3, 1, 0], vec![0, 0, 0, 0]])
    );
    assert_eq!((births, deaths), (3, 1));
    assert_eq!(count_state(&next, 1), births);
    assert_eq!(count_state(&next, 2), count_state(&g, 1));
    assert_eq!(deaths, count_state(&g, 2));
}

#[test]
fn brian_dead_cell_revives_with_two_neighbors() {
    let g = grid(&[vec![1, 3, 1], vec![0, 0, 0], vec![0, 0, 0]]);
    let (next, births, deaths) = simulate_brian_generation(&g, 3);
    assert_eq!(next, grid(&[vec![2, 1, 2], vec![0, 1, 0], vec![0, 0, 0]]));
    assert_eq!((births, deaths), (2, 0));
}

#[test]
fn brian_quiet_grid_without_live_cells_is_stable() {
    let g = grid(&[vec![3, 0], vec![0, 3]]);
    let (next, births, deaths) = simulate_brian_generation(&g, 2);
    assert_eq!((births, deaths), (0, 0));
    assert_eq!(next, g);
}

#[test]
fn sample_to_state_follows_the_density_coefficient() {
    assert_eq!(state_from_sample(5, 3), 1);
    assert_eq!(state_from_sample(3, 3), 0);
    assert_eq!(state_from_sample(3, 5), 0);
    assert_eq!(state_from_sample(0, -1), 0);
    assert_eq!(state_from_sample(-3, -5), 1);
    assert_eq!(state_from_sample(-5, -5), 0);
    assert_eq!(state_from_sample(-7, -5), 0);
    assert_eq!(state_from_sample(127, 126), 1);
    assert_eq!(state_from_sample(127, 127), 0);
}

#[test]
fn initialize_grid_with_maximal_density_coefficient_is_all_dead() {
    let g = initialize_grid(10, i8::MAX);
    assert_eq!(g.num_rows(), 10);
    assert_eq!(g.num_columns(), 10);
    assert!(g.elements_row_major_iter().all(|&s| s == 0));
}

#[test]
fn initialize_grid_holds_only_dead_and_live_cells() {
    let g = initialize_grid(20, -128);
    assert_eq!(g.num_rows(), 20);
    assert_eq!(g.num_columns(), 20);
    assert!(g.elements_row_major_iter().all(|&s| s == 0 || s == 1));
    assert!(g.elements_row_major_iter().any(|&s| s == 1));
}

#[test]
fn initialize_empty_grid() {
    let g = initialize_grid(0, 0);
    assert_eq!(g.num_elements(), 0);
}

#[test]
fn brian_cascade_start() {
    let g = init_brian_grid_scaled(6, 4, true);
    let mut expected = Array2D::filled_with(0, 6, 6);
    for (r, c) in [(3, 3), (3, 4), (4, 3), (4, 4)] {
        expected.set(r, c, 1).unwrap();
    }
    assert_eq!(g, expected);
}

#[test]
fn brian_cascade_start_on_a_single_cell() {
    let g = init_brian_grid_scaled(1, 1, true);
    assert_eq!(g, grid(&[vec![1]]));
}

#[test]
fn brian_random_start_fills_only_its_region() {
    let g = init_brian_grid_scaled(10, 7, false);
    assert_eq!(g.num_rows(), 10);
    assert_eq!(g.num_columns(), 10);
    for r in 0..10 {
        for c in 0..10 {
            let s = *g.get(r, c).unwrap();
            if (3..7).contains(&r) && (3..7).contains(&c) {
                assert!(s == 0 || s == 1);
            } else {
                assert_eq!(s, 0);
            }
        }
    }
}

#[test]
fn brian_random_start_with_an_empty_region() {
    let g = init_brian_grid_scaled(8, 3, false);
    assert!(g.elements_row_major_iter().all(|&s| s == 0));
}

#[test]
fn paint_per_ruleset_and_state() {
    assert_eq!(cell_paint(Ruleset::Conway, 1), Some(CellPaint::ConwayAlive));
    assert_eq!(cell_paint(Ruleset::Conway, 0), None);
    assert_eq!(cell_paint(Ruleset::Conway, 2), None);
    assert_eq!(cell_paint(Ruleset::BriansBrain, 1), Some(CellPaint::BrianAlive));
    assert_eq!(cell_paint(Ruleset::BriansBrain, 2), Some(CellPaint::BrianDying));
    assert_eq!(cell_paint(Ruleset::BriansBrain, 3), Some(CellPaint::BrianDead));
    assert_eq!(cell_paint(Ruleset::BriansBrain, 0), None);
    assert_eq!(cell_paint(Ruleset::BriansBrain, 4), None);
}

#[test]
fn console_glyphs() {
    assert_eq!(cell_glyph(Some(1)), "*");
    assert_eq!(cell_glyph(Some(0)), " ");
    assert_eq!(cell_glyph(Some(2)), " ");
    assert_eq!(cell_glyph(None), " ");
}

#[test]
fn checked_generation_matches_the_ruleset_function() {
    let g = grid(&[vec![0, 1, 0], vec![0, 1, 0], vec![0, 1, 0]]);
    let checked = try_simulate_generation(&g, 3, Automaton::Conway).unwrap();
    assert_eq!(checked, simulate_conway_generation(&g, 3));
    assert_eq!(checked.0, grid(&[vec![0, 0, 0], vec![1, 1, 1], vec![0, 0, 0]]));
    let checked = try_simulate_generation(&g, 3, Automaton::Seeds).unwrap();
    assert_eq!(checked, simulate_seeds_generation(&g, 3));
}

#[test]
fn checked_generation_refuses_a_square_outside_the_grid() {
    let g = grid(&[vec![0, 1, 0], vec![0, 1, 0]]);
    assert!(try_simulate_generation(&g, 3, Automaton::Conway).is_none());
    assert!(try_simulate_generation(&g, 2, Automaton::Conway).is_some());
    let wide = Array2D::filled_with(0, 4, 2);
    assert!(try_simulate_generation(&wide, 3, Automaton::BriansBrain).is_none());
    let empty: Array2D<i32> = Array2D::filled_with(0, 0, 0);
    let (next, births, deaths) = try_simulate_generation(&empty, 0, Automaton::Seeds).unwrap();
    assert_eq!((next.num_elements(), births, deaths), (0, 0, 0));
    assert!(try_simulate_generation(&g, usize::MAX, Automaton::LifeWithoutDeath).is_none());
}

#[test]
fn grid_from_samples_takes_one_sample_per_cell_in_row_major_order() {
    let samples: Vec<i8> = vec![0, 5, -3, 2, -7, 1, 100, -128, 3];
    let g = grid_from_samples(3, 2, &samples);
    assert_eq!(g, grid(&[vec![0, 1, 0], vec![0, 0, 0], vec![1, 0, 1]]));
    let g = grid_from_samples(3, -5, &samples);
    assert_eq!(g, grid(&[vec![0, 1, 1], vec![1, 0, 1], vec![1, 0, 1]]));
}

#[test]
fn brian_grid_from_draws_fills_its_square_in_row_major_order() {
    let g = brian_grid_from_draws(5, 4, &vec![1, 0, 1, 1, 0, 0, 1, 0, 1]);
    assert_eq!(
        g,
        grid(&[
            vec![0, 0, 0, 0, 0],
            vec![0, 1, 0, 1, 0],
            vec![0, 1, 0, 0, 0],
            vec![0, 1, 0, 1, 0],
            vec![0, 0, 0, 0, 0],
        ])
    );
    let empty = brian_grid_from_draws(4, 2, &vec![]);
    assert_eq!(empty, Array2D::filled_with(0, 4, 4));
}

#[test]
fn quiet_generation_has_no_births_and_no_deaths() {
    assert!(generation_is_quiet(0, 0));
    assert!(!generation_is_quiet(1, 0));
    assert!(!generation_is_quiet(0, 2));
}

#[test]
fn conway_generation_commutes_with_transpose_and_mirrors() {
    let g = grid(&[
        vec![0, 1, 0, 0, 0],
        vec![0, 0, 1, 0, 0],
        vec![1, 1, 1, 0, 0],
        vec![0, 0, 0, 0, 0],
        vec![0, 0, 0, 0, 1],
    ]);
    let n = 5;
    let transpose = |a: &Array2D<i32>| {
        Array2D::from_rows(&(0..n).map(|r| (0..n).map(|c| a[(c, r)]).collect()).collect::<Vec<_>>()).unwrap()
    };
    let mirror_cols = |a: &Array2D<i32>| {
        Array2D::from_rows(&(0..n).map(|r| (0..n).map(|c| a[(r, n - 1 - c)]).collect()).collect::<Vec<_>>())
            .unwrap()
    };
    let mirror_rows = |a: &Array2D<i32>| {
        Array2D::from_rows(&(0..n).map(|r| (0..n).map(|c| a[(n - 1 - r, c)]).collect()).collect::<Vec<_>>())
            .unwrap()
    };
    let (next, b, d) = simulate_conway_generation(&g, n);
    let (nt, bt, dt) = simulate_conway_generation(&transpose(&g), n);
    assert_eq!((nt, bt, dt), (transpose(&next), b, d));
    let (nm, bm, dm) = simulate_conway_generation(&mirror_cols(&g), n);
    assert_eq!((nm, bm, dm), (mirror_cols(&next), b, d));
    let (nr, br, dr) = simulate_conway_generation(&mirror_rows(&g), n);
    assert_eq!((nr, br, dr), (mirror_rows(&next), b, d));
}
