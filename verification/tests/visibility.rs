use dungeon::fov::{FovAlgorithm, FovRequest, VisibilityTracker};
use dungeon::grid::Grid;
use dungeon::tile::Tile;

fn explored(grid: &Grid) -> Vec<Vec<bool>> {
    (0..grid.width())
        .map(|x| (0..grid.height()).map(|y| grid.get(x, y).unwrap().explored).collect())
        .collect()
}

fn in_fov(tracker: &VisibilityTracker, width: i32, height: i32) -> Vec<Vec<bool>> {
    (0..width).map(|x| (0..height).map(|y| tracker.is_in_fov(x, y)).collect()).collect()
}

#[test]
fn a_new_tracker_sees_nothing() {
    let tracker = VisibilityTracker::new();
    assert!(!tracker.is_in_fov(0, 0));
    assert!(!tracker.is_in_fov(5, 3));
    assert!(!tracker.is_in_fov(-1, -1));
}

#[test]
fn the_first_look_always_asks() {
    let tracker = VisibilityTracker::new();
    assert_eq!(
        tracker.recompute_if_moved((0, 0), 10, true, FovAlgorithm::Basic),
        Some(FovRequest {
            x: 0,
            y: 0,
            radius: 10,
            light_walls: true,
            algorithm: FovAlgorithm::Basic
        })
    );
}

#[test]
fn the_request_carries_the_settings_through() {
    let tracker = VisibilityTracker::new();
    assert_eq!(
        tracker.recompute_if_moved((25, 23), 0, false, FovAlgorithm::Shadow),
        Some(FovRequest {
            x: 25,
            y: 23,
            radius: 0,
            light_walls: false,
            algorithm: FovAlgorithm::Shadow
        })
    );
    assert_eq!(
        tracker.recompute_if_moved((-4, 7), -1, true, FovAlgorithm::Permissive8),
        Some(FovRequest {
            x: -4,
            y: 7,
            radius: -1,
            light_walls: true,
            algorithm: FovAlgorithm::Permissive8
        })
    );
}

#[test]
fn nothing_is_asked_while_the_observer_stands_still() {
    let mut grid = Grid::new(3, 3);
    let mut tracker = VisibilityTracker::new();
    tracker.observe((1, 1), vec![vec![true; 3]; 3], &mut grid);
    for _ in 0..5 {
        assert_eq!(tracker.recompute_if_moved((1, 1), 10, true, FovAlgorithm::Basic), None);
    }
}

#[test]
fn a_move_along_either_axis_asks_again() {
    let mut grid = Grid::new(3, 3);
    let mut tracker = VisibilityTracker::new();
    tracker.observe((1, 1), vec![vec![true; 3]; 3], &mut grid);
    assert!(tracker.recompute_if_moved((2, 1), 10, true, FovAlgorithm::Basic).is_some());
    assert!(tracker.recompute_if_moved((1, 0), 10, true, FovAlgorithm::Basic).is_some());
    tracker.observe((2, 1), vec![vec![false; 3]; 3], &mut grid);
    assert_eq!(tracker.recompute_if_moved((2, 1), 10, true, FovAlgorithm::Basic), None);
    assert!(tracker.recompute_if_moved((1, 1), 10, true, FovAlgorithm::Basic).is_some());
}

#[test]
fn observe_records_the_field_of_view() {
    let mut grid = Grid::new(3, 2);
    let mut tracker = VisibilityTracker::new();
    let seen = vec![vec![true, false], vec![false, true], vec![false, false]];
    tracker.observe((0, 0), seen.clone(), &mut grid);
    assert_eq!(in_fov(&tracker, 3, 2), seen);
    assert!(!tracker.is_in_fov(3, 0));
    assert!(!tracker.is_in_fov(0, 2));
    assert!(!tracker.is_in_fov(-1, 0));
    assert!(!tracker.is_in_fov(0, -1));
}

#[test]
fn observe_marks_visible_tiles_as_explored() {
    let mut grid = Grid::new(3, 2);
    let mut tracker = VisibilityTracker::new();
    let seen = vec![vec![true, false], vec![false, true], vec![false, false]];
    tracker.observe((0, 0), seen.clone(), &mut grid);
    assert_eq!(explored(&grid), seen);
    assert_eq!(grid.get(1, 1), Some(Tile { blocked: true, block_sight: true, explored: true }));
    assert_eq!(grid.get(1, 0), Some(Tile::wall()));
}

#[test]
fn the_field_of_view_is_replaced_but_memory_only_grows() {
    let mut grid = Grid::new(3, 1);
    let mut tracker = VisibilityTracker::new();
    tracker.observe((0, 0), vec![vec![true], vec![true], vec![false]], &mut grid);
    tracker.observe((2, 0), vec![vec![false], vec![true], vec![true]], &mut grid);
    assert_eq!(in_fov(&tracker, 3, 1), vec![vec![false], vec![true], vec![true]]);
    assert_eq!(explored(&grid), vec![vec![true], vec![true], vec![true]]);
    tracker.observe((1, 0), vec![vec![false], vec![false], vec![false]], &mut grid);
    assert_eq!(in_fov(&tracker, 3, 1), vec![vec![false], vec![false], vec![false]]);
    assert_eq!(explored(&grid), vec![vec![true], vec![true], vec![true]]);
}

#[test]
fn looking_twice_from_the_same_place_changes_nothing() {
    let seen = vec![vec![true, false, true], vec![false, true, false]];
    let mut once = Grid::new(2, 3);
    let mut tracker_once = VisibilityTracker::new();
    tracker_once.observe((1, 1), seen.clone(), &mut once);

    let mut twice = Grid::new(2, 3);
    let mut tracker_twice = VisibilityTracker::new();
    tracker_twice.observe((1, 1), seen.clone(), &mut twice);
    tracker_twice.observe((1, 1), seen.clone(), &mut twice);

    assert_eq!(in_fov(&tracker_once, 2, 3), in_fov(&tracker_twice, 2, 3));
    assert_eq!(explored(&once), explored(&twice));
    assert_eq!(tracker_once.recompute_if_moved((1, 1), 10, true, FovAlgorithm::Basic), None);
    assert_eq!(tracker_twice.recompute_if_moved((1, 1), 10, true, FovAlgorithm::Basic), None);
}

#[test]
fn skipped_frames_leave_everything_as_it_was() {
    let seen = vec![vec![true, false], vec![true, true]];
    let mut grid = Grid::new(2, 2);
    let mut tracker = VisibilityTracker::new();
    tracker.observe((0, 0), seen.clone(), &mut grid);
    let fov = in_fov(&tracker, 2, 2);
    let memory = explored(&grid);
    for _ in 0..10 {
        if tracker.recompute_if_moved((0, 0), 10, true, FovAlgorithm::Basic).is_some() {
            tracker.observe((0, 0), vec![vec![false; 2]; 2], &mut grid);
        }
    }
    assert_eq!(in_fov(&tracker, 2, 2), fov);
    assert_eq!(explored(&grid), memory);
}

#[test]
fn an_answer_of_another_shape_is_taken_as_far_as_it_goes() {
    let mut grid = Grid::new(2, 2);
    let mut tracker = VisibilityTracker::new();
    tracker.observe((0, 0), vec![vec![true], vec![], vec![true, true, true]], &mut grid);
    assert!(tracker.is_in_fov(0, 0));
    assert!(!tracker.is_in_fov(0, 1));
    assert!(!tracker.is_in_fov(1, 0));
    assert!(tracker.is_in_fov(2, 2));
    assert_eq!(explored(&grid), vec![vec![true, false], vec![false, false]]);
}
