use rustbot::pathfinder::{WalkGrid, get_path_between_points, get_path_avoiding_enemies};

fn open_grid(w: usize, h: usize) -> WalkGrid {
    WalkGrid::new(w, h, vec![true; w * h])
}

/// A start already at the goal yields exactly the single-waypoint path.
#[test]
fn path_start_equals_end_is_single_waypoint() {
    let grid = open_grid(64, 64);
    let p = get_path_between_points(&grid, (100, 100), (100, 100), None).unwrap();
    assert_eq!(p, vec![(100, 100)]);
}

/// A start within the goal radius also yields the single-waypoint path.
#[test]
fn path_within_goal_radius_is_single_waypoint() {
    let grid = open_grid(64, 64);
    let p = get_path_between_points(&grid, (100, 100), (130, 120), None).unwrap();
    assert_eq!(p, vec![(100, 100)]);
}

/// An unreachable goal exhausts the frontier and yields nothing.
#[test]
fn path_to_unreachable_end_is_none() {
    // a wall of unwalkable tiles splits the map in two
    let w = 64usize;
    let h = 64usize;
    let mut cells = vec![true; w * h];
    for y in 0..h {
        for x in 28..36 {
            cells[y * w + x] = false;
        }
    }
    let grid = WalkGrid::new(w, h, cells);
    let r = get_path_between_points(&grid, (40, 40), (480, 40), None);
    assert!(r.is_none());
}

/// A flier ignores walkability and crosses the wall.
#[test]
fn flier_crosses_unwalkable_ground() {
    let w = 64usize;
    let h = 64usize;
    let mut cells = vec![true; w * h];
    for y in 0..h {
        for x in 28..36 {
            cells[y * w + x] = false;
        }
    }
    let grid = WalkGrid::new(w, h, cells);
    let r = get_path_between_points(&grid, (40, 40), (480, 40), Some(true));
    assert!(r.is_some());
}

/// A returned path is a connected sequence of fixed-step grid moves that
/// starts at the start and ends within the goal radius.
#[test]
fn path_is_connected_fixed_step_sequence() {
    let grid = open_grid(64, 64);
    let start = (40, 40);
    let end = (400, 300);
    let p = get_path_between_points(&grid, start, end, None).unwrap();
    assert_eq!(p[0], start);
    for w in p.windows(2) {
        let dx = w[1].0 - w[0].0;
        let dy = w[1].1 - w[0].1;
        assert!(dx == 0 || dx == 15 || dx == -15);
        assert!(dy == 0 || dy == 15 || dy == -15);
        assert!(!(dx == 0 && dy == 0));
    }
    let last = p[p.len() - 1];
    let ddx = (last.0 - end.0) as i64;
    let ddy = (last.1 - end.1) as i64;
    assert!(ddx * ddx + ddy * ddy <= 45 * 45);
}

/// The avoiding variant keeps every waypoint after the first clear of the
/// hostile positions.
#[test]
fn avoiding_path_keeps_distance_from_hostiles() {
    let grid = open_grid(64, 64);
    let start = (40, 40);
    let end = (450, 40);
    let hostiles = vec![(250, 40)];
    match get_path_avoiding_enemies(&grid, start, end, false, &hostiles) {
        Some(p) => {
            for wp in p.iter().skip(1) {
                let dx = (wp.0 - 250) as i64;
                let dy = (wp.1 - 40) as i64;
                assert!(dx * dx + dy * dy >= 200 * 200);
            }
        }
        None => {
            // the detour may be impossible on a narrow map; nothing to check
        }
    }
}

/// The plain search finds a path where the avoiding one must detour or fail.
#[test]
fn plain_path_exists_on_open_ground() {
    let grid = open_grid(64, 64);
    let r = get_path_between_points(&grid, (40, 40), (450, 300), None);
    assert!(r.is_some());
}
