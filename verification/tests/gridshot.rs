use sense_maxer::gridshot::{
    gridshot_cells, pick_initial_cells, pick_vacant_cell, GridOccupancy, GRIDSHOT_TASK_VERSION,
    GRIDSHOT_TRIAL_TYPE,
};
use sense_maxer::rng::{lcg_step, next_index};
use sense_maxer::task_config::gridshot_task_config_json;

#[test]
fn pick_initial_cells_are_distinct() {
    let mut rng = 42u64;
    let cells = pick_initial_cells(&mut rng);
    assert_eq!(cells.len(), 3);
    assert_ne!(cells[0], cells[1]);
    assert_ne!(cells[0], cells[2]);
    assert_ne!(cells[1], cells[2]);
    for &(r, c) in &cells {
        assert!((-1..=1).contains(&r));
        assert!((-1..=1).contains(&c));
    }
}

#[test]
fn same_seed_same_initial_cells() {
    let a = pick_initial_cells(&mut 99u64);
    let b = pick_initial_cells(&mut 99u64);
    assert_eq!(a, b);
    let c = pick_initial_cells(&mut 100u64);
    assert_ne!(a, c);
}

#[test]
fn pick_vacant_never_occupied() {
    let occupied = [(-1, 0), (0, 0), (1, 1)];
    let mut rng = 7u64;
    for _ in 0..40 {
        let (r, c) = pick_vacant_cell(&mut rng, &occupied);
        assert!(!occupied.contains(&(r, c)), "picked occupied ({r},{c})");
        assert!((-1..=1).contains(&r));
        assert!((-1..=1).contains(&c));
    }
}

#[test]
fn grid_occupancy_exclusive_cells() {
    let mut g = GridOccupancy::new();
    assert!(g.is_empty());
    g.occupy(0, 0, "target_001");
    g.occupy(1, -1, "target_002");
    assert_eq!(g.len(), 2);
    assert_eq!(g.occupied_cells(), &[(0, 0), (1, -1)]);
    assert!(g.is_occupied(0, 0));
    assert_eq!(g.target_at(0, 0), Some("target_001"));
    assert_eq!(g.vacate(0, 0), Some("target_001".into()));
    assert!(!g.is_occupied(0, 0));
    assert_eq!(g.len(), 1);
}

#[test]
fn aim_gridshot_task_config_json_has_required_knobs() {
    assert_eq!(GRIDSHOT_TASK_VERSION, "1");
    assert_eq!(GRIDSHOT_TRIAL_TYPE, "GRIDSHOT");
    let j = gridshot_task_config_json();
    assert!(j.contains("\"grid_rows\":3"));
    assert!(j.contains("\"grid_cols\":3"));
    assert!(j.contains("\"concurrent_targets\":3"));
    assert!(j.contains("\"duration_secs\":60"));
    assert!(j.contains("\"spacing\":1"));
    assert!(j.contains("\"depth\":-6") || j.contains("\"depth\":-6.0"));
    assert!(j.contains(&format!("\"radius\":{}", 0.25f32)));
    assert!(j.contains("\"rng\":\"lcg\""));
    assert!(j.contains("\"rng_version\":\"1\""));
}

#[test]
fn lcg_step_matches_the_generator_formula() {
    let mut rng = 42u64;
    let s = lcg_step(&mut rng);
    assert_eq!(s, 42u64.wrapping_mul(6364136223846793005).wrapping_add(1));
    assert_eq!(rng, s);
}

#[test]
fn next_index_matches_unit_fraction_scaling() {
    for seed in [0u64, 1, 7, 42, 99, 0xC0FFEE, u64::MAX] {
        for n in 1..=9usize {
            let mut a = seed;
            let i = next_index(&mut a, n);
            let mut b = seed;
            b = b.wrapping_mul(6364136223846793005).wrapping_add(1);
            let unit = ((b >> 33) as f64) / (u32::MAX as f64 + 1.0);
            let expected = (unit * n as f64) as usize % n;
            assert_eq!(i, expected);
            assert_eq!(a, b);
        }
    }
}

#[test]
fn initial_cells_follow_the_swap_remove_pool() {
    let mut rng = 42u64;
    let cells = pick_initial_cells(&mut rng);
    let mut pool = gridshot_cells();
    let mut r = 42u64;
    let mut expected = Vec::new();
    for _ in 0..3 {
        let i = next_index(&mut r, pool.len());
        expected.push(pool.swap_remove(i));
    }
    assert_eq!(cells.to_vec(), expected);
    assert_eq!(rng, r);
}

#[test]
fn only_vacant_cell_is_picked() {
    let occupied = [(-1, -1), (-1, 0), (-1, 1), (0, -1), (0, 1), (1, -1), (1, 0), (1, 1)];
    let mut rng = 3u64;
    assert_eq!(pick_vacant_cell(&mut rng, &occupied), (0, 0));
}

#[test]
fn vacating_a_free_cell_changes_nothing() {
    let mut g = GridOccupancy::default();
    g.occupy(1, 1, "target_009");
    assert_eq!(g.vacate(0, 0), None);
    assert_eq!(g.len(), 1);
    assert_eq!(g.target_at(0, 0), None);
    assert_eq!(g.target_at(1, 1), Some("target_009"));
}

#[test]
fn grid_lists_nine_cells_row_major() {
    let cells = gridshot_cells();
    assert_eq!(cells.len(), 9);
    assert_eq!(cells[0], (-1, -1));
    assert_eq!(cells[4], (0, 0));
    assert_eq!(cells[8], (1, 1));
}

#[test]
fn every_grid_cell_holds_at_most_one_target() {
    let mut g = GridOccupancy::new();
    assert_eq!(g, GridOccupancy::new());
    for (k, (r, c)) in gridshot_cells().into_iter().enumerate() {
        assert!(!g.is_occupied(r, c));
        g.occupy(r, c, &format!("target_{:03}", k + 1));
    }
    assert_eq!(g.len(), 9);
    for (r, c) in gridshot_cells() {
        assert!(g.is_occupied(r, c));
        assert!(g.target_at(r, c).is_some());
    }
    assert_eq!(g.target_at(1, 1), Some("target_009"));
    assert_eq!(g.vacate(0, 0), Some("target_005".to_string()));
    assert!(!g.is_occupied(0, 0));
    assert_eq!(g.target_at(0, 0), None);
    assert_eq!(g.len(), 8);
}
