use bracket_random::prelude::RandomNumberGenerator;
use dwarf_game::ai::{player_position, input, random_movement, targeted_movement, wander, ClickLock, InputValues, Key};
use dwarf_game::render::map_render;
use dwarf_game::components::{Rgb, Entity, MineRange, Name, Stats, WantsToAttack, WantsToMine, WantsToMove};
use dwarf_game::geometry::{Point, MAP_TILES};
use dwarf_game::map::{GameMap, TileType};
use dwarf_game::spawner::{spawn_cave_spider, spawn_goblin, spawn_player};
use dwarf_game::systems::{
    combat, cycle_turn, entity_render, in_range, mining, movement, GameStats, TurnState,
};
use dwarf_game::text::int_to_string;
use dwarf_game::ui::GameLog;
use dwarf_game::world::{Intents, World};

fn open_map() -> GameMap {
    GameMap {
        tiles: vec![TileType::Floor; MAP_TILES],
        player_spawn_point: Point::new(0, 0),
        enemy_spawns: Vec::new(),
    }
}

fn idx(x: i32, y: i32) -> usize {
    (y * 75 + x) as usize
}

#[test]
fn in_range_test() {
    let p1 = Point::new(0, 0);
    let p2 = Point::new(1, 1);
    let range = 1;
    assert!(in_range(p1, p2, range));
}

#[test]
fn in_range_is_per_axis() {
    assert!(!in_range(Point::new(0, 0), Point::new(2, 0), 1));
    assert!(in_range(Point::new(5, 5), Point::new(4, 6), 1));
    assert!(!in_range(Point::new(5, 5), Point::new(5, 7), 1));
    assert!(in_range(Point::new(5, 5), Point::new(7, 3), 2));
}

#[test]
fn movement_into_wall_is_dropped() {
    let mut map = open_map();
    map.tiles[idx(3, 2)] = TileType::Wall;
    let mut world = World::new();
    spawn_player(&mut world, Point::new(2, 2));
    let player = world.entities[0].entity;
    let mut intents = Intents::new();
    intents.moves.push(WantsToMove { entity: player, destination: Point::new(3, 2) });
    movement(&mut world, &mut intents, &map);
    assert_eq!(world.entities[0].position, Some(Point::new(2, 2)));
    assert!(intents.moves.is_empty());
}

#[test]
fn movement_onto_floor_moves() {
    let map = open_map();
    let mut world = World::new();
    spawn_player(&mut world, Point::new(2, 2));
    let player = world.entities[0].entity;
    let mut intents = Intents::new();
    intents.moves.push(WantsToMove { entity: player, destination: Point::new(2, 3) });
    intents.moves.push(WantsToMove { entity: player, destination: Point::new(-1, 3) });
    movement(&mut world, &mut intents, &map);
    assert_eq!(world.entities[0].position, Some(Point::new(2, 3)));
    assert!(intents.moves.is_empty());
}

#[test]
fn mining_gold_counts_once() {
    let mut map = open_map();
    map.tiles[idx(4, 4)] = TileType::Gold;
    let mut world = World::new();
    spawn_player(&mut world, Point::new(3, 4));
    let player = world.entities[0].entity;
    let mut stats = GameStats::new();
    let mut intents = Intents::new();
    intents.mines.push(WantsToMine { entity: player, target: Point::new(4, 4) });
    mining(&mut map, &mut world, &mut intents, &mut stats);
    assert_eq!(stats.gold, 1);
    assert_eq!(map.tiles[idx(4, 4)], TileType::Floor);
    assert!(intents.mines.is_empty());
    intents.mines.push(WantsToMine { entity: player, target: Point::new(4, 4) });
    mining(&mut map, &mut world, &mut intents, &mut stats);
    assert_eq!(stats.gold, 1);
    assert_eq!(map.tiles[idx(4, 4)], TileType::Floor);
}

fn heal_from(health: i32) -> i32 {
    let mut map = open_map();
    map.tiles[idx(4, 4)] = TileType::RedCrystal;
    let mut world = World::new();
    spawn_player(&mut world, Point::new(3, 4));
    world.entities[0].stats = Some(Stats { max_health: 20, health, damage: 5 });
    let player = world.entities[0].entity;
    let mut stats = GameStats::new();
    let mut intents = Intents::new();
    intents.mines.push(WantsToMine { entity: player, target: Point::new(4, 4) });
    mining(&mut map, &mut world, &mut intents, &mut stats);
    assert_eq!(map.tiles[idx(4, 4)], TileType::Floor);
    world.entities[0].stats.unwrap().health
}

#[test]
fn red_crystal_heals_three() {
    assert_eq!(heal_from(10), 13);
}

#[test]
fn red_crystal_heal_is_capped() {
    assert_eq!(heal_from(19), 20);
    assert_eq!(heal_from(20), 20);
}

#[test]
fn giant_gem_is_taken() {
    let mut map = open_map();
    map.tiles[idx(4, 4)] = TileType::GiantGem;
    let mut world = World::new();
    spawn_player(&mut world, Point::new(3, 4));
    let player = world.entities[0].entity;
    let mut stats = GameStats::new();
    let mut intents = Intents::new();
    intents.mines.push(WantsToMine { entity: player, target: Point::new(4, 4) });
    mining(&mut map, &mut world, &mut intents, &mut stats);
    assert!(stats.has_gem);
}

#[test]
fn lethal_blow_removes_enemy_and_counts_kill() {
    let mut world = World::new();
    spawn_player(&mut world, Point::new(3, 4));
    spawn_cave_spider(&mut world, Point::new(4, 4));
    let player = world.entities[0].entity;
    let spider = world.entities[1].entity;
    let mut log = GameLog::new();
    let mut stats = GameStats::new();
    let mut intents = Intents::new();
    intents.attacks.push(WantsToAttack { entity: player, target: spider });
    combat(&mut world, &mut intents, &mut log, &mut stats);
    assert_eq!(world.entities.len(), 1);
    assert_eq!(stats.kills, 1);
    assert_eq!(
        log.entries,
        vec![
            "Player attacked Cave Spider for 5 dmg.".to_string(),
            "Cave Spider has been slain.".to_string()
        ]
    );
    assert!(intents.attacks.is_empty());
}

#[test]
fn wounding_blow_keeps_target() {
    let mut world = World::new();
    spawn_player(&mut world, Point::new(3, 4));
    spawn_goblin(&mut world, Point::new(4, 4));
    let player = world.entities[0].entity;
    let goblin = world.entities[1].entity;
    let mut log = GameLog::new();
    let mut stats = GameStats::new();
    let mut intents = Intents::new();
    intents.attacks.push(WantsToAttack { entity: player, target: goblin });
    combat(&mut world, &mut intents, &mut log, &mut stats);
    assert_eq!(world.entities[1].stats.unwrap().health, 10);
    assert_eq!(stats.kills, 0);
    assert_eq!(log.entries, vec!["Player attacked Goblin for 5 dmg.".to_string()]);
}

#[test]
fn player_at_zero_records_slayer() {
    let mut world = World::new();
    spawn_player(&mut world, Point::new(3, 4));
    spawn_goblin(&mut world, Point::new(4, 4));
    world.entities[0].stats = Some(Stats { max_health: 20, health: 2, damage: 5 });
    let player = world.entities[0].entity;
    let goblin = world.entities[1].entity;
    let mut log = GameLog::new();
    let mut stats = GameStats::new();
    let mut intents = Intents::new();
    intents.attacks.push(WantsToAttack { entity: goblin, target: player });
    combat(&mut world, &mut intents, &mut log, &mut stats);
    assert_eq!(world.entities.len(), 2);
    assert_eq!(world.entities[0].stats.unwrap().health, -1);
    assert_eq!(stats.slain_by, Some("Goblin".to_string()));
    assert_eq!(log.entries, vec!["Goblin attacked Player for 3 dmg.".to_string()]);
    let mut turn = TurnState::Enemy;
    cycle_turn(&world, &mut turn, &stats);
    assert_eq!(turn, TurnState::GameOver);
}

#[test]
fn attack_on_removed_entity_is_noop() {
    let mut world = World::new();
    spawn_player(&mut world, Point::new(3, 4));
    spawn_cave_spider(&mut world, Point::new(4, 4));
    let player = world.entities[0].entity;
    let spider = world.entities[1].entity;
    let mut log = GameLog::new();
    let mut stats = GameStats::new();
    let mut intents = Intents::new();
    intents.attacks.push(WantsToAttack { entity: player, target: spider });
    intents.attacks.push(WantsToAttack { entity: player, target: spider });
    combat(&mut world, &mut intents, &mut log, &mut stats);
    assert_eq!(stats.kills, 1);
    assert_eq!(log.entries.len(), 2);
}

#[test]
fn turn_cycle_steady() {
    let mut world = World::new();
    spawn_player(&mut world, Point::new(3, 4));
    let stats = GameStats::new();
    let mut turn = TurnState::Player;
    cycle_turn(&world, &mut turn, &stats);
    assert_eq!(turn, TurnState::Enemy);
    cycle_turn(&world, &mut turn, &stats);
    assert_eq!(turn, TurnState::Input);
}

#[test]
fn victory_wins_over_game_over() {
    let mut world = World::new();
    spawn_player(&mut world, Point::new(3, 4));
    world.entities[0].stats = Some(Stats { max_health: 20, health: 0, damage: 5 });
    let mut stats = GameStats::new();
    stats.has_gem = true;
    let mut turn = TurnState::Player;
    cycle_turn(&world, &mut turn, &stats);
    assert_eq!(turn, TurnState::Victory);
}

#[test]
fn key_moves_or_attacks() {
    let map = open_map();
    let mut world = World::new();
    spawn_player(&mut world, Point::new(3, 4));
    spawn_cave_spider(&mut world, Point::new(4, 4));
    let player = world.entities[0].entity;
    let spider = world.entities[1].entity;
    let mut intents = Intents::new();
    let mut turn = TurnState::Input;
    let mut lock = ClickLock(true);
    let keys = InputValues { key: Some(Key::D), mouse_pos: (0, 0), left_click: false };
    input(&world, &mut intents, &map, &keys, &mut turn, &mut lock);
    assert_eq!(intents.attacks, vec![WantsToAttack { entity: player, target: spider }]);
    assert!(intents.moves.is_empty());
    assert_eq!(turn, TurnState::Player);
    let mut intents = Intents::new();
    let mut turn = TurnState::Input;
    let keys = InputValues { key: Some(Key::W), mouse_pos: (0, 0), left_click: false };
    input(&world, &mut intents, &map, &keys, &mut turn, &mut lock);
    assert_eq!(intents.moves, vec![WantsToMove { entity: player, destination: Point::new(3, 3) }]);
    assert_eq!(turn, TurnState::Player);
}

#[test]
fn other_keys_do_nothing() {
    let map = open_map();
    let mut world = World::new();
    spawn_player(&mut world, Point::new(3, 4));
    let mut intents = Intents::new();
    let mut turn = TurnState::Input;
    let mut lock = ClickLock(true);
    for k in [Key::Space, Key::Other] {
        let keys = InputValues { key: Some(k), mouse_pos: (0, 0), left_click: false };
        input(&world, &mut intents, &map, &keys, &mut turn, &mut lock);
        assert_eq!(turn, TurnState::Input);
        assert!(intents.moves.is_empty() && intents.attacks.is_empty() && intents.mines.is_empty());
    }
}

#[test]
fn no_input_keeps_phase() {
    let map = open_map();
    let mut world = World::new();
    spawn_player(&mut world, Point::new(3, 4));
    let mut intents = Intents::new();
    let mut turn = TurnState::Input;
    let mut lock = ClickLock(true);
    let none = InputValues { key: None, mouse_pos: (0, 0), left_click: false };
    input(&world, &mut intents, &map, &none, &mut turn, &mut lock);
    assert_eq!(turn, TurnState::Input);
    assert!(intents.moves.is_empty() && intents.attacks.is_empty() && intents.mines.is_empty());
}

#[test]
fn click_acts_on_every_other_event() {
    let mut map = open_map();
    map.tiles[idx(4, 4)] = TileType::Wall;
    let mut world = World::new();
    spawn_player(&mut world, Point::new(3, 4));
    let player = world.entities[0].entity;
    let mut intents = Intents::new();
    let mut turn = TurnState::Input;
    let mut lock = ClickLock(true);
    let click = InputValues { key: None, mouse_pos: (4, 4), left_click: true };
    input(&world, &mut intents, &map, &click, &mut turn, &mut lock);
    assert_eq!(lock, ClickLock(false));
    assert_eq!(intents.mines, vec![WantsToMine { entity: player, target: Point::new(4, 4) }]);
    assert_eq!(turn, TurnState::Player);
    let mut intents = Intents::new();
    let mut turn = TurnState::Input;
    input(&world, &mut intents, &map, &click, &mut turn, &mut lock);
    assert_eq!(lock, ClickLock(true));
    assert!(intents.mines.is_empty());
    assert_eq!(turn, TurnState::Input);
}

#[test]
fn click_out_of_range_does_nothing() {
    let mut map = open_map();
    map.tiles[idx(6, 4)] = TileType::Wall;
    let mut world = World::new();
    spawn_player(&mut world, Point::new(3, 4));
    let mut intents = Intents::new();
    let mut turn = TurnState::Input;
    let mut lock = ClickLock(true);
    let click = InputValues { key: None, mouse_pos: (6, 4), left_click: true };
    input(&world, &mut intents, &map, &click, &mut turn, &mut lock);
    assert!(intents.mines.is_empty());
    assert_eq!(turn, TurnState::Input);
}

#[test]
fn wandering_spider_attacks_player_or_moves() {
    let mut world = World::new();
    spawn_player(&mut world, Point::new(3, 4));
    spawn_cave_spider(&mut world, Point::new(4, 4));
    let player = world.entities[0].entity;
    let spider = world.entities[1].entity;
    let mut intents = Intents::new();
    wander(&world, &mut intents, &vec![0, 0]);
    assert_eq!(intents.attacks, vec![WantsToAttack { entity: spider, target: player }]);
    assert!(intents.moves.is_empty());
    let mut intents = Intents::new();
    wander(&world, &mut intents, &vec![0, 2]);
    assert_eq!(intents.moves, vec![WantsToMove { entity: spider, destination: Point::new(4, 5) }]);
}

#[test]
fn random_movement_issues_one_intent_per_spider() {
    let mut world = World::new();
    spawn_player(&mut world, Point::new(10, 10));
    spawn_cave_spider(&mut world, Point::new(20, 20));
    spawn_cave_spider(&mut world, Point::new(30, 30));
    let mut rng = RandomNumberGenerator::seeded(7);
    let mut intents = Intents::new();
    random_movement(&world, &mut intents, &mut rng);
    assert_eq!(intents.moves.len(), 2);
    for m in &intents.moves {
        let from = if m.entity == world.entities[1].entity { Point::new(20, 20) } else { Point::new(30, 30) };
        let d = (m.destination.x - from.x).abs() + (m.destination.y - from.y).abs();
        assert_eq!(d, 1);
    }
}

#[test]
fn goblin_follows_step_then_strikes() {
    let mut world = World::new();
    spawn_player(&mut world, Point::new(3, 4));
    spawn_goblin(&mut world, Point::new(6, 4));
    let player = world.entities[0].entity;
    let goblin = world.entities[1].entity;
    let mut intents = Intents::new();
    targeted_movement(&world, &mut intents, &vec![None, Some(Point::new(5, 4))]);
    assert_eq!(intents.moves, vec![WantsToMove { entity: goblin, destination: Point::new(5, 4) }]);
    world.entities[1].position = Some(Point::new(4, 4));
    let mut intents = Intents::new();
    targeted_movement(&world, &mut intents, &vec![None, Some(Point::new(4, 5))]);
    assert_eq!(intents.attacks, vec![WantsToAttack { entity: goblin, target: player }]);
    let mut intents = Intents::new();
    targeted_movement(&world, &mut intents, &vec![None, None]);
    assert!(intents.moves.is_empty() && intents.attacks.is_empty());
}

#[test]
fn entity_render_lists_drawn_entities() {
    let mut world = World::new();
    spawn_player(&mut world, Point::new(3, 4));
    spawn_goblin(&mut world, Point::new(6, 4));
    world.entities[1].renderable = None;
    let drawn = entity_render(&world);
    assert_eq!(drawn.len(), 1);
    assert_eq!(drawn[0].0, Point::new(3, 4));
    assert_eq!(drawn[0].1.glyph, '@');
}

#[test]
fn game_log_recent_is_newest_first() {
    let mut log = GameLog::new();
    log.log("a".to_string());
    log.log("b".to_string());
    log.log("c".to_string());
    assert_eq!(log.recent(2), vec!["c".to_string(), "b".to_string()]);
    assert_eq!(log.recent(6).len(), 3);
}

#[test]
fn spawned_player_has_its_components() {
    let mut world = World::new();
    spawn_player(&mut world, Point::new(3, 4));
    let r = &world.entities[0];
    assert_eq!(r.entity, Entity(0));
    assert_eq!(r.stats, Some(Stats { max_health: 20, health: 20, damage: 5 }));
    assert_eq!(r.mine_range, Some(MineRange(1)));
    assert_eq!(r.name.as_ref().map(|n: &Name| n.0.clone()), Some("Player".to_string()));
    assert_eq!(world.next_id, 1);
}

#[test]
fn map_render_marks_hovered_wall_in_reach() {
    let mut map = open_map();
    map.tiles[idx(4, 4)] = TileType::Wall;
    map.tiles[idx(6, 4)] = TileType::Wall;
    let mut world = World::new();
    spawn_player(&mut world, Point::new(3, 4));
    let near = InputValues { key: None, mouse_pos: (4, 4), left_click: false };
    let looks = map_render(&world, &map, &near);
    assert_eq!(looks.len(), MAP_TILES);
    assert_eq!(looks[idx(4, 4)].0, Point::new(4, 4));
    assert_eq!(looks[idx(4, 4)].1.fg, Rgb(0, 255, 255));
    assert_eq!(looks[idx(6, 4)].1.fg, Rgb(222, 184, 135));
    assert_eq!(looks[idx(0, 0)].2, '.');
    let far = InputValues { key: None, mouse_pos: (6, 4), left_click: false };
    let looks = map_render(&world, &map, &far);
    assert_eq!(looks[idx(6, 4)].1.fg, Rgb(0, 139, 139));
    assert_eq!(looks[idx(6, 4)].2, '#');
}

#[test]
fn player_position_finds_the_player() {
    let mut world = World::new();
    assert_eq!(player_position(&world), None);
    spawn_cave_spider(&mut world, Point::new(1, 1));
    spawn_player(&mut world, Point::new(3, 4));
    assert_eq!(player_position(&world), Some(Point::new(3, 4)));
}

#[test]
fn decimal_text() {
    assert_eq!(int_to_string(0), "0");
    assert_eq!(int_to_string(7), "7");
    assert_eq!(int_to_string(1203), "1203");
    assert_eq!(int_to_string(-45), "-45");
    assert_eq!(int_to_string(i32::MIN), "-2147483648");
    assert_eq!(int_to_string(i32::MAX), "2147483647");
}
