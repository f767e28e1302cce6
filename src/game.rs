//! A whole game's state, and its setup at the start and on every restart.

use vstd::prelude::*;
use crate::ai::{ClickLock, Key};
use crate::map::{GameMap, generated};
use crate::spawner::{spawn_player, spawn_enemies, is_player_record, enemies_rolled};
use crate::systems::{GameStats, StatsView, TurnState};
use crate::ui::GameLog;
use crate::world::{World, Intents};
use bracket_random::prelude::RandomNumberGenerator;

verus! {

/// Everything one game holds.
pub struct Game {
    pub world: World,
    pub map: GameMap,
    pub intents: Intents,
    pub game_log: GameLog,
    pub game_stats: GameStats,
    pub turn: TurnState,
    pub lock: ClickLock,
}

/// The lines a new game's log starts with.
pub open spec fn welcome_lines() -> Seq<Seq<char>> {
    seq![
        "Welcome to Dwarf Game. You are a Dwarf."@,
        "WASD to move around. Click on tiles to mine them."@,
        "Find the GIANT GEM to prove your worth and win!"@,
    ]
}

/// What a frame does.
#[derive(Clone, Copy, Debug, PartialEq, Eq, Structural)]
pub enum FrameAction {
    /// Run the current phase's schedule.
    RunPhase,
    /// Show the end screen, then start a new game when asked to.
    EndScreen { restart: bool },
}

/// In `Input`, `Player` and `Enemy` a frame runs the phase; in `GameOver`
/// and `Victory` it shows the end screen, and the space key restarts.
pub fn frame_action(turn: TurnState, key: Option<Key>) -> (r: FrameAction)
    ensures
        r == match turn {
            TurnState::GameOver | TurnState::Victory => FrameAction::EndScreen {
                restart: key == Some(Key::Space),
            },
            _ => FrameAction::RunPhase,
        },
{
    match turn {
        TurnState::GameOver | TurnState::Victory => FrameAction::EndScreen {
            restart: match key {
                Some(Key::Space) => true,
                _ => false,
            },
        },
        _ => FrameAction::RunPhase,
    }
}

impl Game {
    /// A fresh game: a new cave, the player on its start, one enemy on each
    /// enemy start, the welcome lines in the log, counters at zero, no
    /// pending intents, the click lock closed and the input phase.
    pub fn new(rng: &mut RandomNumberGenerator) -> (r: Game)
        ensures
            generated(&r.map),
            r.world.wf(),
            r.world.entities@.len() == 1 + r.map.enemy_spawns@.len(),
            is_player_record(r.world.entities@[0], r.map.player_spawn_point),
            exists|rolls: Seq<i32>| #[trigger] enemies_rolled(r.world.entities@, 1, r.map.enemy_spawns@, rolls),
            r.game_log@ == welcome_lines(),
            r.game_stats@ == (StatsView { gold: 0, kills: 0, steps: 0, slain_by: None, has_gem: false }),
            r.intents.moves@.len() == 0 && r.intents.attacks@.len() == 0 && r.intents.mines@.len() == 0,
            r.turn == TurnState::Input,
            r.lock == ClickLock(true),
    {
        let map = GameMap::new(rng);
        let mut game_log = GameLog::new();
        game_log.log(String::from_str("Welcome to Dwarf Game. You are a Dwarf."));
        game_log.log(String::from_str("WASD to move around. Click on tiles to mine them."));
        game_log.log(String::from_str("Find the GIANT GEM to prove your worth and win!"));
        let mut world = World::new();
        spawn_player(&mut world, map.player_spawn_point);
        spawn_enemies(&mut world, &map.enemy_spawns, rng);
        proof {
            assert(game_log@ =~= welcome_lines());

        }
        Game {
            world,
            map,
            intents: Intents::new(),
            game_log,
            game_stats: GameStats::new(),
            turn: TurnState::Input,
            lock: ClickLock(true),
        }
    }
}

} // verus!
