use dungeon::grid::Grid;
use dungeon::carve::{create_h_tunnel, create_room, create_v_tunnel};
use dungeon::mapgen::{make_map, MapBuilder};
use dungeon::rect::Rect;
use dungeon::rng::Rng;
use dungeon::tile::Tile;

fn picture(grid: &Grid) -> Vec<String> {
    let mut rows = Vec::new();
    for y in 0..grid.height() {
        let mut row = String::new();
        for x in 0..grid.width() {
            row.push(if grid.get(x, y).unwrap().blocked { '#' } else { '.' });
        }
        rows.push(row);
    }
    rows
}

fn tiles(grid: &Grid) -> Vec<Vec<Tile>> {
    (0..grid.width())
        .map(|x| (0..grid.height()).map(|y| grid.get(x, y).unwrap()).collect())
        .collect()
}

fn reached_from(grid: &Grid, start: (i32, i32)) -> Vec<Vec<bool>> {
    let mut reached = vec![vec![false; grid.height() as usize]; grid.width() as usize];
    let mut pending = Vec::new();
    if !grid.is_blocked(start.0, start.1) {
        reached[start.0 as usize][start.1 as usize] = true;
        pending.push(start);
    }
    while let Some((x, y)) = pending.pop() {
        for (nx, ny) in [(x + 1, y), (x - 1, y), (x, y + 1), (x, y - 1)] {
            if !grid.is_blocked(nx, ny) && !reached[nx as usize][ny as usize] {
                reached[nx as usize][ny as usize] = true;
                pending.push((nx, ny));
            }
        }
    }
    reached
}

#[test]
fn single_room_on_a_small_grid() {
    let mut grid = Grid::new(10, 10);
    let room = Rect::new(2, 2, 4, 4);
    create_room(room, &mut grid);
    for x in 0..10 {
        for y in 0..10 {
            let inside = (3..=5).contains(&x) && (3..=5).contains(&y);
            let expected = if inside { Tile::empty() } else { Tile::wall() };
            assert_eq!(grid.get(x, y), Some(expected));
        }
    }
    assert_eq!(grid.get(2, 2), Some(Tile::wall()));
    assert_eq!(grid.get(6, 6), Some(Tile::wall()));
    assert_eq!(room.center(), (4, 4));
    assert_eq!(grid.get(4, 4), Some(Tile::empty()));
}

#[test]
fn create_room_leaves_the_border_of_the_rectangle_walled() {
    let mut grid = Grid::new(8, 6);
    create_room(Rect::new(1, 1, 5, 3), &mut grid);
    assert_eq!(
        picture(&grid),
        vec!["########", "########", "##....##", "##....##", "########", "########"]
    );
}

#[test]
fn create_room_without_an_inside_opens_nothing() {
    let mut grid = Grid::new(6, 6);
    create_room(Rect::new(1, 1, 1, 4), &mut grid);
    create_room(Rect::new(1, 1, 4, 0), &mut grid);
    create_room(Rect { x1: 4, y1: 4, x2: 1, y2: 1 }, &mut grid);
    create_room(Rect { x1: i32::MAX, y1: 0, x2: i32::MAX, y2: 5 }, &mut grid);
    create_room(Rect { x1: 0, y1: i32::MIN, x2: 5, y2: i32::MIN }, &mut grid);
    assert!(tiles(&grid).iter().flatten().all(|t| *t == Tile::wall()));
}

#[test]
fn create_room_is_clipped_to_the_grid() {
    let mut grid = Grid::new(4, 4);
    create_room(Rect { x1: -3, y1: 1, x2: 10, y2: 3 }, &mut grid);
    assert_eq!(picture(&grid), vec!["####", "####", "....", "####"]);
}

#[test]
fn horizontal_tunnel_runs_between_both_ends_in_either_direction() {
    let mut grid = Grid::new(8, 3);
    create_h_tunnel(2, 5, 1, &mut grid);
    assert_eq!(picture(&grid), vec!["########", "##....##", "########"]);
    let mut other = Grid::new(8, 3);
    create_h_tunnel(5, 2, 1, &mut other);
    assert_eq!(picture(&other), picture(&grid));
}

#[test]
fn vertical_tunnel_runs_between_both_ends_in_either_direction() {
    let mut grid = Grid::new(3, 6);
    create_v_tunnel(1, 4, 2, &mut grid);
    assert_eq!(picture(&grid), vec!["###", "##.", "##.", "##.", "##.", "###"]);
    let mut other = Grid::new(3, 6);
    create_v_tunnel(4, 1, 2, &mut other);
    assert_eq!(picture(&other), picture(&grid));
}

#[test]
fn tunnel_of_one_tile() {
    let mut grid = Grid::new(3, 3);
    create_h_tunnel(1, 1, 1, &mut grid);
    assert_eq!(picture(&grid), vec!["###", "#.#", "###"]);
    create_v_tunnel(0, 0, 0, &mut grid);
    assert_eq!(picture(&grid), vec![".##", "#.#", "###"]);
}

#[test]
fn tunnels_off_the_grid_are_passed_over() {
    let mut grid = Grid::new(3, 3);
    create_h_tunnel(-4, 7, 5, &mut grid);
    create_v_tunnel(-4, 7, -1, &mut grid);
    assert_eq!(picture(&grid), vec!["###", "###", "###"]);
    create_h_tunnel(-4, 7, 2, &mut grid);
    assert_eq!(picture(&grid), vec!["###", "###", "..."]);
}

#[test]
fn new_builder_has_no_rooms_and_starts_at_the_origin() {
    let builder = MapBuilder::new(12, 9);
    assert!(builder.rooms().is_empty());
    assert_eq!(builder.start(), (0, 0));
    assert_eq!(builder.map().width(), 12);
    assert_eq!(builder.map().height(), 9);
    assert!(tiles(builder.map()).iter().flatten().all(|t| *t == Tile::wall()));
}

#[test]
fn first_room_gives_the_starting_position() {
    let mut builder = MapBuilder::new(20, 12);
    assert!(builder.place_room(Rect::new(1, 1, 5, 4), true));
    assert_eq!(builder.start(), (3, 3));
    assert_eq!(builder.rooms(), &vec![Rect::new(1, 1, 5, 4)]);
    assert!(!builder.map().is_blocked(3, 3));
}

#[test]
fn second_room_is_joined_by_a_corridor_that_leaves_along_the_row() {
    let mut builder = MapBuilder::new(20, 12);
    assert!(builder.place_room(Rect::new(1, 1, 5, 4), true));
    assert!(builder.place_room(Rect::new(10, 5, 6, 5), true));
    assert_eq!(builder.start(), (3, 3));
    assert_eq!(
        picture(builder.map()),
        vec![
            "####################",
            "####################",
            "##....##############",
            "##............######",
            "##....#######.######",
            "#############.######",
            "###########.....####",
            "###########.....####",
            "###########.....####",
            "###########.....####",
            "####################",
            "####################",
        ]
    );
}

#[test]
fn second_room_is_joined_by_a_corridor_that_leaves_along_the_column() {
    let mut builder = MapBuilder::new(20, 12);
    assert!(builder.place_room(Rect::new(1, 1, 5, 4), false));
    assert!(builder.place_room(Rect::new(10, 5, 6, 5), false));
    assert_eq!(
        picture(builder.map()),
        vec![
            "####################",
            "####################",
            "##....##############",
            "##....##############",
            "##....##############",
            "###.################",
            "###.#######.....####",
            "###.............####",
            "###########.....####",
            "###########.....####",
            "####################",
            "####################",
        ]
    );
}

#[test]
fn overlapping_room_is_passed_over() {
    let mut builder = MapBuilder::new(20, 12);
    assert!(builder.place_room(Rect::new(1, 1, 5, 4), true));
    let before = tiles(builder.map());
    assert!(builder.overlaps(&Rect::new(4, 3, 5, 4)));
    assert!(!builder.place_room(Rect::new(4, 3, 5, 4), true));
    assert_eq!(builder.rooms().len(), 1);
    assert_eq!(builder.start(), (3, 3));
    assert_eq!(tiles(builder.map()), before);
}

#[test]
fn room_that_only_touches_an_accepted_one_is_passed_over() {
    let mut builder = MapBuilder::new(20, 12);
    assert!(builder.place_room(Rect::new(1, 1, 5, 4), true));
    assert!(!builder.place_room(Rect::new(6, 1, 5, 4), true));
    assert!(!builder.place_room(Rect::new(1, 5, 5, 4), false));
    assert!(builder.place_room(Rect::new(7, 1, 5, 4), true));
    assert_eq!(builder.rooms().len(), 2);
}

#[test]
fn corridor_starts_from_the_room_accepted_last() {
    let mut builder = MapBuilder::new(30, 10);
    assert!(builder.place_room(Rect::new(0, 0, 4, 4), true));
    assert!(builder.place_room(Rect::new(10, 0, 4, 4), true));
    assert!(!builder.place_room(Rect::new(12, 2, 4, 4), true));
    assert!(builder.place_room(Rect::new(20, 4, 4, 4), true));
    assert_eq!(
        picture(builder.map()),
        vec![
            "##############################",
            "#...#######...################",
            "#......................#######",
            "#...#######...########.#######",
            "######################.#######",
            "#####################...######",
            "#####################...######",
            "#####################...######",
            "##############################",
            "##############################",
        ]
    );
}

#[test]
fn finish_hands_over_what_was_built() {
    let mut builder = MapBuilder::new(20, 12);
    builder.place_room(Rect::new(1, 1, 5, 4), true);
    builder.place_room(Rect::new(10, 5, 6, 5), false);
    let expected = tiles(builder.map());
    let (grid, start) = builder.finish();
    assert_eq!(start, (3, 3));
    assert_eq!(tiles(&grid), expected);
}

#[test]
fn no_attempts_leave_an_all_wall_map_with_the_default_start() {
    let mut rng = Rng::new(5);
    let (grid, start) = make_map(40, 30, 0, 6, 10, &mut rng);
    assert_eq!(start, (0, 0));
    assert!(tiles(&grid).iter().flatten().all(|t| *t == Tile::wall()));
    assert_eq!(rng, Rng::new(5));
    let (other, start) = make_map(40, 30, -3, 6, 10, &mut rng);
    assert_eq!(start, (0, 0));
    assert_eq!(tiles(&other), tiles(&grid));
}

#[test]
fn small_map_for_a_fixed_seed() {
    let mut rng = Rng::new(99);
    let (grid, start) = make_map(30, 20, 5, 3, 5, &mut rng);
    assert_eq!(start, (4, 15));
    assert_eq!(
        picture(&grid),
        vec![
            "##############################",
            "##############################",
            "##############################",
            "##############################",
            "##############################",
            "####...........###############",
            "####.#######...###############",
            "####.########.################",
            "####.########.################",
            "####.########.###....#########",
            "####.########........#########",
            "####.############....#########",
            "####.############....#########",
            "####.#########################",
            "####.#########################",
            "###....#######################",
            "###....#######################",
            "##############################",
            "##############################",
            "##############################",
        ]
    );
}

#[test]
fn populate_accepts_the_expected_rooms_for_a_fixed_seed() {
    let mut rng = Rng::new(99);
    let mut builder = MapBuilder::new(30, 20);
    builder.populate(5, 3, 5, &mut rng);
    assert_eq!(
        builder.rooms(),
        &vec![
            Rect { x1: 2, y1: 14, x2: 7, y2: 17 },
            Rect { x1: 11, y1: 4, x2: 15, y2: 7 },
            Rect { x1: 16, y1: 8, x2: 21, y2: 13 },
        ]
    );
    assert_eq!(builder.start(), (4, 15));
}

#[test]
fn every_attempt_takes_five_draws() {
    let mut rng = Rng::new(99);
    make_map(30, 20, 5, 3, 5, &mut rng);
    let mut other = Rng::new(99);
    for _ in 0..25 {
        other.next_u64();
    }
    assert_eq!(rng, other);
}

#[test]
fn same_seed_gives_the_same_map() {
    let mut first = Rng::new(12345);
    let mut second = Rng::new(12345);
    let (a, start_a) = make_map(80, 50, 30, 6, 10, &mut first);
    let (b, start_b) = make_map(80, 50, 30, 6, 10, &mut second);
    assert_eq!(tiles(&a), tiles(&b));
    assert_eq!(start_a, start_b);
    assert_eq!(start_a, (10, 22));
    assert_eq!(first, second);
    let floors = tiles(&a).iter().flatten().filter(|t| !t.blocked).count();
    assert_eq!(floors, 1013);
}

#[test]
fn different_seeds_give_different_maps() {
    let (a, start_a) = make_map(80, 50, 30, 6, 10, &mut Rng::new(12345));
    let (b, start_b) = make_map(80, 50, 30, 6, 10, &mut Rng::new(2024));
    assert_eq!(start_b, (58, 23));
    assert_ne!(start_a, start_b);
    assert_ne!(tiles(&a), tiles(&b));
}

#[test]
fn generated_rooms_lie_within_the_grid() {
    for seed in 0..20 {
        let mut builder = MapBuilder::new(80, 50);
        builder.populate(30, 6, 10, &mut Rng::new(seed));
        assert!(!builder.rooms().is_empty());
        assert!(builder.rooms().len() <= 30);
        for room in builder.rooms() {
            assert!(0 <= room.x1 && room.x1 < room.x2 && room.x2 < 80);
            assert!(0 <= room.y1 && room.y1 < room.y2 && room.y2 < 50);
            assert!((6..=10).contains(&(room.x2 - room.x1)));
            assert!((6..=10).contains(&(room.y2 - room.y1)));
            for x in room.x1 + 1..room.x2 {
                for y in room.y1 + 1..room.y2 {
                    assert_eq!(builder.map().get(x, y), Some(Tile::empty()));
                }
            }
        }
        let map = builder.map();
        for x in 0..80 {
            assert!(map.is_blocked(x, 0) && map.is_blocked(x, 49));
        }
        for y in 0..50 {
            assert!(map.is_blocked(0, y) && map.is_blocked(79, y));
        }
    }
}

#[test]
fn generated_rooms_do_not_overlap() {
    for seed in 0..20 {
        let mut builder = MapBuilder::new(80, 50);
        builder.populate(30, 6, 10, &mut Rng::new(seed));
        let rooms = builder.rooms();
        for i in 0..rooms.len() {
            for j in 0..rooms.len() {
                if i != j {
                    assert!(!rooms[i].intersects_with(&rooms[j]));
                }
            }
        }
    }
}

#[test]
fn every_room_centre_can_be_reached_from_the_start() {
    for seed in 0..20 {
        let mut builder = MapBuilder::new(80, 50);
        builder.populate(30, 6, 10, &mut Rng::new(seed));
        let start = builder.start();
        assert_eq!(start, builder.rooms()[0].center());
        let reached = reached_from(builder.map(), start);
        for room in builder.rooms() {
            let (x, y) = room.center();
            assert!(reached[x as usize][y as usize]);
        }
    }
}

#[test]
fn every_floor_tile_can_be_reached_from_the_start() {
    let (grid, start) = make_map(80, 50, 30, 6, 10, &mut Rng::new(7));
    let reached = reached_from(&grid, start);
    for x in 0..80 {
        for y in 0..50 {
            assert_eq!(reached[x as usize][y as usize], !grid.is_blocked(x, y));
        }
    }
}

#[test]
fn generated_map_is_unexplored_and_made_of_walls_and_floor() {
    let (grid, _) = make_map(80, 50, 30, 6, 10, &mut Rng::new(3));
    assert_eq!(grid.width(), 80);
    assert_eq!(grid.height(), 50);
    for tile in tiles(&grid).iter().flatten() {
        assert!(*tile == Tile::wall() || *tile == Tile::empty());
    }
}

#[test]
fn rooms_as_large_as_the_grid_allows() {
    let mut builder = MapBuilder::new(4, 4);
    builder.populate(10, 3, 3, &mut Rng::new(1));
    assert_eq!(builder.rooms(), &vec![Rect { x1: 0, y1: 0, x2: 3, y2: 3 }]);
    assert_eq!(builder.start(), (1, 1));
    assert_eq!(picture(builder.map()), vec!["####", "#..#", "#..#", "####"]);
}

#[test]
fn rooms_without_an_inside_are_still_joined_through_their_centres() {
    let mut builder = MapBuilder::new(12, 3);
    assert!(builder.place_room(Rect::new(1, 1, 0, 0), true));
    assert_eq!(builder.start(), (1, 1));
    assert!(builder.map().is_blocked(1, 1));
    assert!(builder.place_room(Rect::new(8, 1, 1, 1), true));
    assert_eq!(picture(builder.map()), vec!["############", "#........###", "############"]);
}
