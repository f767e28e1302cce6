use bracket_random::prelude::RandomNumberGenerator;
use dwarf_game::geometry::{index_to_point, point_to_index, Point, MAP_TILES};
use dwarf_game::ai::Key;
use dwarf_game::game::{frame_action, FrameAction, Game};
use dwarf_game::map::{GameMap, TileType};
use dwarf_game::systems::TurnState;
use dwarf_game::schedule::{build_enemy_scheduler, build_input_scheduler, build_player_scheduler, Step};
use dwarf_game::spawner::{
    draw_distinct, enemy_spawns, place_deposit, spawn_enemy, player_spawn_point, spawn_enemies, spawn_giant_gem,
    spawn_gold, spawn_red_crystal,
};
use dwarf_game::world::World;

fn filled(t: TileType) -> GameMap {
    GameMap { tiles: vec![t; MAP_TILES], player_spawn_point: Point::new(0, 0), enemy_spawns: Vec::new() }
}

fn dist_sq(a: Point, b: Point) -> i64 {
    let dx = (a.x - b.x) as i64;
    let dy = (a.y - b.y) as i64;
    dx * dx + dy * dy
}

#[test]
fn generated_maps_keep_their_guarantees() {
    for seed in 0..5u64 {
        let mut rng = RandomNumberGenerator::seeded(seed);
        let map = GameMap::new(&mut rng);
        assert_eq!(map.tiles.len(), MAP_TILES);
        assert!(map.enemy_spawns.len() <= 20);
        for s in &map.enemy_spawns {
            assert!(dist_sq(*s, map.player_spawn_point) > 100);
        }
        for i in 0..MAP_TILES {
            if map.tiles[i] == TileType::GiantGem {
                assert!(dist_sq(index_to_point(i), map.player_spawn_point) > 900);
            }
        }
        let gems = map.tiles.iter().filter(|t| **t == TileType::GiantGem).count();
        assert_eq!(gems, 1);
        assert_eq!(map.tiles[point_to_index(map.player_spawn_point)], TileType::Floor);
    }
}

#[test]
fn spawn_point_is_nearest_floor_to_centre() {
    let mut map = filled(TileType::Wall);
    map.tiles[point_to_index(Point::new(10, 10))] = TileType::Floor;
    map.tiles[point_to_index(Point::new(40, 25))] = TileType::Floor;
    map.tiles[point_to_index(Point::new(34, 22))] = TileType::Floor;
    let p = player_spawn_point(&map);
    assert_eq!(p, Point::new(34, 22));
    assert_eq!(map.tiles[point_to_index(p)], TileType::Floor);
}

#[test]
fn spawn_point_tie_goes_to_first_scanned() {
    let mut map = filled(TileType::Wall);
    map.tiles[point_to_index(Point::new(38, 22))] = TileType::Floor;
    map.tiles[point_to_index(Point::new(36, 22))] = TileType::Floor;
    assert_eq!(player_spawn_point(&map), Point::new(36, 22));
}

#[test]
fn enemy_spawns_are_far_distinct_floor() {
    let mut map = filled(TileType::Floor);
    map.player_spawn_point = Point::new(37, 22);
    let mut rng = RandomNumberGenerator::seeded(3);
    let spawns = enemy_spawns(&map, &mut rng);
    assert_eq!(spawns.len(), 20);
    for (i, a) in spawns.iter().enumerate() {
        assert!(dist_sq(*a, map.player_spawn_point) > 100);
        for b in spawns.iter().skip(i + 1) {
            assert_ne!(a, b);
        }
    }
}

#[test]
fn enemy_spawns_take_all_when_few() {
    let mut map = filled(TileType::Wall);
    map.player_spawn_point = Point::new(0, 0);
    map.tiles[point_to_index(Point::new(20, 0))] = TileType::Floor;
    map.tiles[point_to_index(Point::new(0, 20))] = TileType::Floor;
    map.tiles[point_to_index(Point::new(5, 5))] = TileType::Floor;
    let mut rng = RandomNumberGenerator::seeded(3);
    let mut spawns = enemy_spawns(&map, &mut rng);
    spawns.sort_by_key(|p| (p.x, p.y));
    assert_eq!(spawns, vec![Point::new(0, 20), Point::new(20, 0)]);
}

#[test]
fn draw_distinct_stops_when_pool_runs_out() {
    let mut rng = RandomNumberGenerator::seeded(1);
    let mut drawn = draw_distinct(&mut rng, vec![4, 8, 15], 5);
    drawn.sort();
    assert_eq!(drawn, vec![4, 8, 15]);
    let two = draw_distinct(&mut rng, vec![4, 8, 15], 2);
    assert_eq!(two.len(), 2);
    assert_ne!(two[0], two[1]);
}

#[test]
fn deposit_covers_core_and_in_bounds_offsets() {
    let mut map = filled(TileType::Wall);
    map.player_spawn_point = Point::new(40, 40);
    let offsets = vec![Point::new(-1, 0), Point::new(0, -1), Point::new(1, 0)];
    place_deposit(&mut map, Point::new(0, 0), &offsets, TileType::Gold);
    assert_eq!(map.tiles[point_to_index(Point::new(0, 0))], TileType::Gold);
    assert_eq!(map.tiles[point_to_index(Point::new(1, 0))], TileType::Gold);
    let golds = map.tiles.iter().filter(|t| **t == TileType::Gold).count();
    assert_eq!(golds, 2);
}

#[test]
fn deposit_keeps_player_start() {
    let mut map = filled(TileType::Wall);
    map.player_spawn_point = Point::new(6, 5);
    map.tiles[point_to_index(Point::new(6, 5))] = TileType::Floor;
    let offsets = vec![Point::new(1, 0), Point::new(0, 1)];
    place_deposit(&mut map, Point::new(5, 5), &offsets, TileType::RedCrystal);
    assert_eq!(map.tiles[point_to_index(Point::new(5, 5))], TileType::RedCrystal);
    assert_eq!(map.tiles[point_to_index(Point::new(5, 6))], TileType::RedCrystal);
    assert_eq!(map.tiles[point_to_index(Point::new(6, 5))], TileType::Floor);
}

#[test]
fn gold_and_crystal_only_write_their_kind() {
    let mut map = filled(TileType::Wall);
    let mut rng = RandomNumberGenerator::seeded(11);
    spawn_gold(&mut map, &mut rng);
    let golds = map.tiles.iter().filter(|t| **t == TileType::Gold).count();
    assert!(golds >= 9);
    spawn_red_crystal(&mut map, &mut rng);
    let reds = map.tiles.iter().filter(|t| **t == TileType::RedCrystal).count();
    assert!(reds >= 7);
    assert!(map.tiles.iter().all(|t| matches!(t, TileType::Wall | TileType::Gold | TileType::RedCrystal)));
}

#[test]
fn giant_gem_lies_far_away() {
    let mut map = filled(TileType::Floor);
    map.player_spawn_point = Point::new(37, 22);
    let mut rng = RandomNumberGenerator::seeded(5);
    spawn_giant_gem(&mut map, &mut rng);
    let gems: Vec<usize> = (0..MAP_TILES).filter(|i| map.tiles[*i] == TileType::GiantGem).collect();
    assert_eq!(gems.len(), 1);
    assert!(dist_sq(index_to_point(gems[0]), map.player_spawn_point) > 900);
}

#[test]
fn map_queries() {
    let mut map = filled(TileType::Floor);
    map.tiles[point_to_index(Point::new(2, 2))] = TileType::Gold;
    assert!(map.can_enter(Point::new(1, 1)));
    assert!(!map.can_enter(Point::new(2, 2)));
    assert!(!map.can_enter(Point::new(75, 0)));
    assert!(map.can_mine(Point::new(2, 2)));
    assert!(!map.can_mine(Point::new(1, 1)));
    assert!(!map.can_mine(Point::new(-1, 0)));
    assert_eq!(map.can_exit(Point::new(1, 1), Point::new(1, 0)), Some(point_to_index(Point::new(2, 1))));
    assert_eq!(map.can_exit(Point::new(1, 2), Point::new(1, 0)), None);
    assert_eq!(map.can_exit(Point::new(0, 0), Point::new(-1, 0)), None);
}

#[test]
fn enemies_spawn_on_each_point() {
    let mut world = World::new();
    let mut rng = RandomNumberGenerator::seeded(9);
    let points = vec![Point::new(1, 1), Point::new(2, 2), Point::new(3, 3)];
    spawn_enemies(&mut world, &points, &mut rng);
    assert_eq!(world.entities.len(), 3);
    for (r, p) in world.entities.iter().zip(points.iter()) {
        assert_eq!(r.position, Some(*p));
        assert!(r.enemy.is_some());
        assert!(r.random_movement.is_some() != r.targeted_movement.is_some());
    }
}

#[test]
fn schedules_run_in_declared_order() {
    assert_eq!(
        build_input_scheduler().steps,
        vec![Step::Input, Step::Flush, Step::MapRender, Step::EntityRender, Step::UiRender]
    );
    assert_eq!(build_player_scheduler().steps[0], Step::Combat);
    assert_eq!(build_player_scheduler().steps.len(), 10);
    assert_eq!(build_enemy_scheduler().steps[..2], [Step::RandomMovement, Step::TargetedMovement]);
    assert_eq!(build_enemy_scheduler().steps.last(), Some(&Step::CycleTurn));
}

#[test]
fn new_game_is_set_up() {
    let mut rng = RandomNumberGenerator::seeded(21);
    let game = Game::new(&mut rng);
    assert_eq!(game.world.entities.len(), 1 + game.map.enemy_spawns.len());
    assert!(game.world.entities[0].player.is_some());
    assert_eq!(game.world.entities[0].position, Some(game.map.player_spawn_point));
    assert_eq!(game.game_log.entries.len(), 3);
    assert_eq!(game.game_log.entries[0], "Welcome to Dwarf Game. You are a Dwarf.");
    assert_eq!(game.game_stats.gold, 0);
    assert_eq!(game.turn, TurnState::Input);
    assert!(game.lock.0);
}

#[test]
fn enemy_kind_follows_roll() {
    let mut world = World::new();
    spawn_enemy(&mut world, Point::new(1, 1), 0);
    spawn_enemy(&mut world, Point::new(2, 2), 1);
    spawn_enemy(&mut world, Point::new(3, 3), 2);
    assert!(world.entities[0].random_movement.is_some());
    assert!(world.entities[1].random_movement.is_some());
    assert!(world.entities[2].targeted_movement.is_some());
    assert_eq!(world.entities[2].stats.unwrap().max_health, 15);
    assert_eq!(world.entities[2].entity.0, 2);
}

#[test]
fn frame_runs_phase_or_end_screen() {
    assert_eq!(frame_action(TurnState::Input, Some(Key::Space)), FrameAction::RunPhase);
    assert_eq!(frame_action(TurnState::Enemy, None), FrameAction::RunPhase);
    assert_eq!(frame_action(TurnState::GameOver, None), FrameAction::EndScreen { restart: false });
    assert_eq!(frame_action(TurnState::Victory, Some(Key::Space)), FrameAction::EndScreen { restart: true });
    assert_eq!(frame_action(TurnState::Victory, Some(Key::A)), FrameAction::EndScreen { restart: false });
}
