//! The systems of a turn: input, intent resolution, enemy movement, and the
//! turn state machine.

use vstd::prelude::*;
use crate::components::{Entity, Renderable, Stats, WantsToMove, WantsToAttack, WantsToMine};
use crate::geometry::{Point, index_of, point_to_index};
use crate::map::{GameMap, TileType};
use crate::text::{attack_message, slain_message, player_name, attack_text, slain_text, player_name_text};
use crate::ui::GameLog;
use crate::world::{World, Intents, EntityRecord, lookup, name_of};

verus! {

/// What one move does to the entity table: where the destination can be
/// entered, every record of the mover takes it as its position.
pub open spec fn moved(ents: Seq<EntityRecord>, m: WantsToMove, map: &GameMap) -> Seq<EntityRecord> {
    if map.enterable(m.destination) {
        ents.map_values(
            |r: EntityRecord|
                if r.entity == m.entity {
                    EntityRecord { position: Some(m.destination), ..r }
                } else {
                    r
                },
        )
    } else {
        ents
    }
}

/// The moves applied in order.
pub open spec fn moves_applied(ents: Seq<EntityRecord>, moves: Seq<WantsToMove>, map: &GameMap) -> Seq<EntityRecord>
    decreases moves.len(),
{
    if moves.len() == 0 {
        ents
    } else {
        moved(moves_applied(ents, moves.drop_last(), map), moves.last(), map)
    }
}

fn set_position(world: &mut World, e: Entity, destination: Point)
    ensures
        final(world).next_id == old(world).next_id,
        final(world).entities@ == old(world).entities@.map_values(
            |r: EntityRecord|
                if r.entity == e {
                    EntityRecord { position: Some(destination), ..r }
                } else {
                    r
                },
        ),
{
    let ghost before = world.entities@;
    let mut j: usize = 0;
    while j < world.entities.len()
        invariant
            world.next_id == old(world).next_id,
            world.entities@.len() == before.len(),
            before == old(world).entities@,
            0 <= j <= before.len(),
            forall|i: int| j <= i < before.len() ==> world.entities@[i] == before[i],
            forall|i: int|
                0 <= i < j ==> world.entities@[i] == if before[i].entity == e {
                    EntityRecord { position: Some(destination), ..before[i] }
                } else {
                    before[i]
                },
        decreases before.len() - j,
    {
        if world.entities[j].entity == e {
            world.entities[j].position = Some(destination);
        }
        j += 1;
    }
    proof {
        assert(world.entities@ =~= before.map_values(
            |r: EntityRecord|
                if r.entity == e {
                    EntityRecord { position: Some(destination), ..r }
                } else {
                    r
                },
        ));
    }
}

/// Game stats storage.
#[derive(Clone, Debug)]
pub struct GameStats {
    pub gold: i32,
    pub kills: i32,
    pub steps: i32,
    pub slain_by: Option<String>,
    pub has_gem: bool,
}

/// `GameStats` with the name seen as its characters.
pub struct StatsView {
    pub gold: i32,
    pub kills: i32,
    pub steps: i32,
    pub slain_by: Option<Seq<char>>,
    pub has_gem: bool,
}

impl View for GameStats {
    type V = StatsView;

    open spec fn view(&self) -> StatsView {
        StatsView {
            gold: self.gold,
            kills: self.kills,
            steps: self.steps,
            slain_by: match self.slain_by {
                Some(s) => Some(s@),
                None => None,
            },
            has_gem: self.has_gem,
        }
    }
}

impl GameStats {
    /// All counters zero, nobody has slain the player, no gem.
    pub fn new() -> (r: GameStats)
        ensures
            r@ == (StatsView { gold: 0, kills: 0, steps: 0, slain_by: None, has_gem: false }),
    {
        GameStats { gold: 0, kills: 0, steps: 0, slain_by: None, has_gem: false }
    }
}

/// A counter one higher, held at `i32::MAX`.
pub open spec fn bumped(n: i32) -> i32 {
    if n < i32::MAX {
        (n + 1) as i32
    } else {
        n
    }
}

/// `x` held within the range of `i32`.
pub open spec fn clamp_i32(x: int) -> i32 {
    if x < i32::MIN {
        i32::MIN
    } else if x > i32::MAX {
        i32::MAX
    } else {
        x as i32
    }
}

/// What combat sees of the world: the entity table, the log and the stats.
pub struct CombatView {
    pub ents: Seq<EntityRecord>,
    pub log: Seq<Seq<char>>,
    pub stats: StatsView,
}

/// The damage and name of an attacker: both from its record where it has
/// both components, else 0 and the empty name.
pub open spec fn attacker_of(ents: Seq<EntityRecord>, e: Entity) -> (int, Seq<char>) {
    match lookup(ents, e) {
        Some(i) => match (ents[i].stats, ents[i].name) {
            (Some(st), Some(n)) => (st.damage as int, n.0@),
            _ => (0, Seq::empty()),
        },
        None => (0, Seq::empty()),
    }
}

/// The name of a target, or the empty name.
pub open spec fn target_name_of(ents: Seq<EntityRecord>, e: Entity) -> Seq<char> {
    match lookup(ents, e) {
        Some(i) => name_of(ents[i]),
        None => Seq::empty(),
    }
}

/// One attack: the target loses the attacker's damage and the log says so;
/// a target other than the player at or below zero health is removed,
/// logged as slain and, when the player struck, counted as a kill; the
/// player at or below zero records who slew it. An attack on an entity
/// that is gone, or has no stats, does nothing.
pub open spec fn attack_resolved(s: CombatView, a: WantsToAttack) -> CombatView {
    let (dmg, an) = attacker_of(s.ents, a.entity);
    let tn = target_name_of(s.ents, a.target);
    match lookup(s.ents, a.target) {
        Some(ti) => match s.ents[ti].stats {
            Some(ts) => struck(s, ti, ts, dmg, an, tn),
            None => s,
        },
        None => s,
    }
}

/// The record at `ti`, whose stats are `ts`, struck for `dmg` by `an`.
pub open spec fn struck(s: CombatView, ti: int, ts: Stats, dmg: int, an: Seq<char>, tn: Seq<char>) -> CombatView {
    let h = clamp_i32(ts.health - dmg);
    let ents1 = s.ents.update(ti, EntityRecord { stats: Some(Stats { health: h, ..ts }), ..s.ents[ti] });
    let log1 = s.log.push(attack_message(an, tn, dmg));
    if h <= 0 {
        if tn != player_name() {
            CombatView {
                ents: ents1.remove(ti),
                log: log1.push(slain_message(tn)),
                stats: if an == player_name() {
                    StatsView { kills: bumped(s.stats.kills), ..s.stats }
                } else {
                    s.stats
                },
            }
        } else {
            CombatView { ents: ents1, log: log1, stats: StatsView { slain_by: Some(an), ..s.stats } }
        }
    } else {
        CombatView { ents: ents1, log: log1, stats: s.stats }
    }
}

/// The attacks resolved in order.
pub open spec fn attacks_resolved(s: CombatView, attacks: Seq<WantsToAttack>) -> CombatView
    decreases attacks.len(),
{
    if attacks.len() == 0 {
        s
    } else {
        attack_resolved(attacks_resolved(s, attacks.drop_last()), attacks.last())
    }
}

pub open spec fn combat_view(world: &World, log: &GameLog, stats: &GameStats) -> CombatView {
    CombatView { ents: world.entities@, log: log@, stats: stats@ }
}

fn attacker_info(world: &World, e: Entity) -> (r: (i32, String))
    ensures
        r.0 as int == attacker_of(world.entities@, e).0,
        r.1@ == attacker_of(world.entities@, e).1,
{
    if let Some(i) = world.find(e) {
        if let Some(st) = world.entities[i].stats {
            if let Some(n) = &world.entities[i].name {
                return (st.damage, n.0.clone());
            }
        }
    }
    (0, String::new())
}

fn target_name(world: &World, e: Entity) -> (r: String)
    ensures
        r@ == target_name_of(world.entities@, e),
{
    if let Some(i) = world.find(e) {
        if let Some(n) = &world.entities[i].name {
            return n.0.clone();
        }
    }
    String::new()
}

/// Resolves one attack; see `attack_resolved`.
pub fn resolve_attack(world: &mut World, a: WantsToAttack, game_log: &mut GameLog, game_stats: &mut GameStats)
    requires
        old(world).wf(),
    ensures
        final(world).wf(),
        final(world).next_id == old(world).next_id,
        combat_view(final(world), final(game_log), final(game_stats)) == attack_resolved(
            combat_view(old(world), old(game_log), old(game_stats)),
            a,
        ),
{
    let ghost s = combat_view(world, game_log, game_stats);
    let (damage, attacker_name) = attacker_info(world, a.entity);
    let target_name = target_name(world, a.target);
    if let Some(ti) = world.find(a.target) {
        if let Some(ts) = world.entities[ti].stats {
            strike(world, ti, ts, damage, attacker_name, target_name, game_log, game_stats);
        }
    }
}

fn strike(
    world: &mut World,
    ti: usize,
    ts: Stats,
    damage: i32,
    attacker_name: String,
    target_name: String,
    game_log: &mut GameLog,
    game_stats: &mut GameStats,
)
    requires
        old(world).wf(),
        ti < old(world).entities@.len(),
        old(world).entities@[ti as int].stats == Some(ts),
    ensures
        final(world).wf(),
        final(world).next_id == old(world).next_id,
        combat_view(final(world), final(game_log), final(game_stats)) == struck(
            combat_view(old(world), old(game_log), old(game_stats)),
            ti as int,
            ts,
            damage as int,
            attacker_name@,
            target_name@,
        ),
{
    let ghost s = combat_view(world, game_log, game_stats);
    let diff = ts.health as i64 - damage as i64;
    let h: i32 = if diff < i32::MIN as i64 {
        i32::MIN
    } else if diff > i32::MAX as i64 {
        i32::MAX
    } else {
        diff as i32
    };
    world.entities[ti].stats = Some(Stats { health: h, ..ts });
    game_log.log(attack_text(&attacker_name, &target_name, damage));
    if h <= 0 {
        let player = player_name_text();
        if target_name != player {
            world.entities.remove(ti);
            game_log.log(slain_text(&target_name));
            if attacker_name == player {
                if game_stats.kills < i32::MAX {
                    game_stats.kills = game_stats.kills + 1;
                }
            }
        } else {
            game_stats.slain_by = Some(attacker_name);
        }
    }
    proof {
        let r = struck(s, ti as int, ts, damage as int, attacker_name@, target_name@);
        assert(world.entities@ =~= r.ents);
        assert forall|i: int| 0 <= i < world.entities@.len() implies (#[trigger] world.entities@[i]).entity.0 < world.next_id by {
            let j = if h <= 0 && target_name@ != player_name() && i >= ti { i + 1 } else { i };
            assert(world.entities@[i].entity == s.ents[j].entity);
        }
    }
}

/// Resolves every pending attack, in order, and clears them.
pub fn combat(world: &mut World, intents: &mut Intents, game_log: &mut GameLog, game_stats: &mut GameStats)
    requires
        old(world).wf(),
    ensures
        final(world).wf(),
        final(world).next_id == old(world).next_id,
        combat_view(final(world), final(game_log), final(game_stats)) == attacks_resolved(
            combat_view(old(world), old(game_log), old(game_stats)),
            old(intents).attacks@,
        ),
        final(intents).attacks@.len() == 0,
        final(intents).moves@ == old(intents).moves@,
        final(intents).mines@ == old(intents).mines@,
{
    let ghost s0 = combat_view(world, game_log, game_stats);
    let mut k: usize = 0;
    while k < intents.attacks.len()
        invariant
            world.wf(),
            world.next_id == old(world).next_id,
            intents.attacks@ == old(intents).attacks@,
            intents.moves@ == old(intents).moves@,
            intents.mines@ == old(intents).mines@,
            0 <= k <= intents.attacks@.len(),
            s0 == combat_view(old(world), old(game_log), old(game_stats)),
            combat_view(world, game_log, game_stats) == attacks_resolved(
                s0,
                intents.attacks@.subrange(0, k as int),
            ),
        decreases intents.attacks@.len() - k,
    {
        let a = intents.attacks[k];
        resolve_attack(world, a, game_log, game_stats);
        proof {
            let pre = intents.attacks@.subrange(0, k as int);
            let post = intents.attacks@.subrange(0, k as int + 1);
            assert(post.drop_last() =~= pre);
        }
        k += 1;
    }
    proof {
        assert(intents.attacks@.subrange(0, k as int) =~= intents.attacks@);
    }
    intents.attacks.clear();
}

/// Applies every pending move, in order, and clears them.
pub fn movement(world: &mut World, intents: &mut Intents, map: &GameMap)
    requires
        old(world).wf(),
        map.wf(),
    ensures
        final(world).wf(),
        final(world).next_id == old(world).next_id,
        final(world).entities@ == moves_applied(old(world).entities@, old(intents).moves@, map),
        final(intents).moves@.len() == 0,
        final(intents).attacks@ == old(intents).attacks@,
        final(intents).mines@ == old(intents).mines@,
{
    let mut k: usize = 0;
    while k < intents.moves.len()
        invariant
            map.wf(),
            world.wf(),
            world.next_id == old(world).next_id,
            intents.moves@ == old(intents).moves@,
            intents.attacks@ == old(intents).attacks@,
            intents.mines@ == old(intents).mines@,
            0 <= k <= intents.moves@.len(),
            world.entities@ == moves_applied(
                old(world).entities@,
                intents.moves@.subrange(0, k as int),
                map,
            ),
        decreases intents.moves@.len() - k,
    {
        let m = intents.moves[k];
        if map.can_enter(m.destination) {
            set_position(world, m.entity, m.destination);
        }
        proof {
            let pre = intents.moves@.subrange(0, k as int);
            let post = intents.moves@.subrange(0, k as int + 1);
            assert(post.drop_last() =~= pre);
            assert forall|i: int| 0 <= i < world.entities@.len() implies (#[trigger] world.entities@[i]).entity.0 < world.next_id by {
                let prev = moves_applied(old(world).entities@, pre, map);
                assert(world.entities@[i].entity == prev[i].entity);
            }
        }
        k += 1;
    }
    proof {
        assert(intents.moves@.subrange(0, k as int) =~= intents.moves@);
    }
    intents.moves.clear();
}

/// Game states. Used to handle turns, loss, and win.
#[derive(Clone, Copy, Debug, PartialEq, Eq, Structural)]
pub enum TurnState {
    Input,
    Player,
    Enemy,
    GameOver,
    Victory,
}

/// The phase after a `Player` or `Enemy` phase ran: the cycle goes on to the
/// next phase, unless the player is dead (`GameOver`) or holds the gem
/// (`Victory`, which wins over `GameOver`).
pub open spec fn next_turn(current: TurnState, player_dead: bool, has_gem: bool) -> TurnState {
    if has_gem {
        TurnState::Victory
    } else if player_dead {
        TurnState::GameOver
    } else {
        match current {
            TurnState::Player => TurnState::Enemy,
            TurnState::Enemy => TurnState::Input,
            _ => current,
        }
    }
}

/// A record tagged `Player` whose stats show health at or below zero.
pub open spec fn dead_player(r: EntityRecord) -> bool {
    r.player is Some && match r.stats {
        Some(st) => st.health <= 0,
        None => false,
    }
}

/// Some record of the player is dead.
pub open spec fn player_dead(ents: Seq<EntityRecord>) -> bool {
    exists|i: int| 0 <= i < ents.len() && dead_player(#[trigger] ents[i])
}

/// Decides the phase that follows the one that just ran.
pub fn cycle_turn(world: &World, turnstate: &mut TurnState, game_stats: &GameStats)
    ensures
        *final(turnstate) == next_turn(*old(turnstate), player_dead(world.entities@), game_stats.has_gem),
{
    let current_state = *turnstate;
    let mut new_state = match current_state {
        TurnState::Player => TurnState::Enemy,
        TurnState::Enemy => TurnState::Input,
        _ => current_state,
    };
    let mut i: usize = 0;
    let mut dead = false;
    while i < world.entities.len()
        invariant
            0 <= i <= world.entities@.len(),
            dead == exists|j: int| 0 <= j < i && dead_player(#[trigger] world.entities@[j]),
        decreases world.entities@.len() - i,
    {
        if world.entities[i].player.is_some() {
            if let Some(st) = world.entities[i].stats {
                if st.health <= 0 {
                    dead = true;
                }
            }
        }
        i += 1;
    }
    if dead {
        new_state = TurnState::GameOver;
    }
    if game_stats.has_gem {
        new_state = TurnState::Victory;
    }
    *turnstate = new_state;
}

/// Whether `target` is within `range` of `pos` along each axis.
pub fn in_range(pos: Point, target: Point, range: i32) -> (r: bool)
    ensures
        r == (abs(pos.x - target.x) <= range && abs(pos.y - target.y) <= range),
{
    let dx = pos.x as i64 - target.x as i64;
    let dy = pos.y as i64 - target.y as i64;
    let ax = if dx < 0 { -dx } else { dx };
    let ay = if dy < 0 { -dy } else { dy };
    ax <= range as i64 && ay <= range as i64
}

/// Absolute value.
pub open spec fn abs(x: int) -> int {
    if x < 0 {
        -x
    } else {
        x
    }
}

/// Health after a red crystal: three more, up to the maximum.
pub open spec fn healed(st: Stats) -> Stats {
    if st.health < st.max_health - 3 {
        Stats { health: (st.health + 3) as i32, ..st }
    } else if st.health < st.max_health {
        Stats { health: st.max_health, ..st }
    } else {
        st
    }
}

/// The first record tagged `Player` that has stats.
pub open spec fn player_slot(ents: Seq<EntityRecord>) -> Option<int> {
    if exists|i: int| 0 <= i < ents.len() && ents[i].player is Some && ents[i].stats is Some {
        Some(
            choose|i: int|
                0 <= i < ents.len() && ents[i].player is Some && ents[i].stats is Some && forall|
                    j: int,
                | 0 <= j < i ==> !(ents[j].player is Some && ents[j].stats is Some),
        )
    } else {
        None
    }
}

/// What mining sees: the tiles, the entity table and the stats.
pub struct MiningView {
    pub tiles: Seq<TileType>,
    pub ents: Seq<EntityRecord>,
    pub stats: StatsView,
}

/// One mining intent: a mineable target yields its reward (gold counts one,
/// a red crystal heals the player, the giant gem is taken) and becomes
/// `Floor`; a target that is no longer mineable is left alone.
pub open spec fn mine_resolved(s: MiningView, m: WantsToMine) -> MiningView {
    if 0 <= index_of(m.target) < s.tiles.len() && crate::geometry::in_bounds(m.target)
        && s.tiles[index_of(m.target)] != TileType::Floor {
        let t = s.tiles[index_of(m.target)];
        let tiles = s.tiles.update(index_of(m.target), TileType::Floor);
        if t == TileType::Gold {
            MiningView { tiles, ents: s.ents, stats: StatsView { gold: bumped(s.stats.gold), ..s.stats } }
        } else if t == TileType::RedCrystal {
            match player_slot(s.ents) {
                Some(p) => MiningView {
                    tiles,
                    ents: s.ents.update(
                        p,
                        EntityRecord { stats: Some(healed(s.ents[p].stats.unwrap())), ..s.ents[p] },
                    ),
                    stats: s.stats,
                },
                None => MiningView { tiles, ents: s.ents, stats: s.stats },
            }
        } else if t == TileType::GiantGem {
            MiningView { tiles, ents: s.ents, stats: StatsView { has_gem: true, ..s.stats } }
        } else {
            MiningView { tiles, ents: s.ents, stats: s.stats }
        }
    } else {
        s
    }
}

/// The mining intents resolved in order.
pub open spec fn mines_resolved(s: MiningView, mines: Seq<WantsToMine>) -> MiningView
    decreases mines.len(),
{
    if mines.len() == 0 {
        s
    } else {
        mine_resolved(mines_resolved(s, mines.drop_last()), mines.last())
    }
}

pub open spec fn mining_view(map: &GameMap, world: &World, stats: &GameStats) -> MiningView {
    MiningView { tiles: map.tiles@, ents: world.entities@, stats: stats@ }
}

fn find_player_stats(world: &World) -> (r: Option<usize>)
    ensures
        r is None <==> player_slot(world.entities@) is None,
        r matches Some(i) ==> player_slot(world.entities@) == Some(i as int) && i
            < world.entities@.len() && world.entities@[i as int].stats is Some,
{
    let mut i: usize = 0;
    while i < world.entities.len()
        invariant
            0 <= i <= world.entities@.len(),
            forall|j: int|
                0 <= j < i ==> !(world.entities@[j].player is Some && world.entities@[j].stats is Some),
        decreases world.entities@.len() - i,
    {
        if world.entities[i].player.is_some() && world.entities[i].stats.is_some() {
            proof {
                let ents = world.entities@;
                let k = choose|k: int|
                    0 <= k < ents.len() && ents[k].player is Some && ents[k].stats is Some && forall|
                        j: int,
                    | 0 <= j < k ==> !(ents[j].player is Some && ents[j].stats is Some);
                assert(k == i as int) by {
                    if k > i {
                        assert(ents[i as int].player is Some && ents[i as int].stats is Some);
                    }
                }
            }
            return Some(i);
        }
        i += 1;
    }
    None
}

/// Resolves one mining intent; see `mine_resolved`.
pub fn resolve_mine(map: &mut GameMap, world: &mut World, m: WantsToMine, game_stats: &mut GameStats)
    requires
        old(map).wf(),
        old(world).wf(),
    ensures
        final(map).wf(),
        final(world).wf(),
        final(world).next_id == old(world).next_id,
        final(map).player_spawn_point == old(map).player_spawn_point,
        final(map).enemy_spawns == old(map).enemy_spawns,
        mining_view(final(map), final(world), final(game_stats)) == mine_resolved(
            mining_view(old(map), old(world), old(game_stats)),
            m,
        ),
{
    if map.can_mine(m.target) {
        let idx = point_to_index(m.target);
        let t = map.tiles[idx];
        match t {
            TileType::Gold => {
                if game_stats.gold < i32::MAX {
                    game_stats.gold = game_stats.gold + 1;
                }
            },
            TileType::RedCrystal => {
                if let Some(p) = find_player_stats(world) {
                    let st = world.entities[p].stats.unwrap();
                    let mut new_stats = st;
                    if (st.health as i64) < st.max_health as i64 - 3 {
                        new_stats.health = st.health + 3;
                    } else if st.health < st.max_health {
                        new_stats.health = st.max_health;
                    }
                    world.entities[p].stats = Some(new_stats);
                }
            },
            TileType::GiantGem => {
                game_stats.has_gem = true;
            },
            _ => {},
        }
        map.tiles.set(idx, TileType::Floor);
    }
    proof {
        assert forall|i: int| 0 <= i < world.entities@.len() implies (#[trigger] world.entities@[i]).entity.0 < world.next_id by {
            assert(world.entities@[i].entity == old(world).entities@[i].entity);
        }
    }
}

/// Resolves every pending mining intent, in order, and clears them.
pub fn mining(map: &mut GameMap, world: &mut World, intents: &mut Intents, game_stats: &mut GameStats)
    requires
        old(map).wf(),
        old(world).wf(),
    ensures
        final(map).wf(),
        final(world).wf(),
        final(world).next_id == old(world).next_id,
        final(map).player_spawn_point == old(map).player_spawn_point,
        final(map).enemy_spawns == old(map).enemy_spawns,
        mining_view(final(map), final(world), final(game_stats)) == mines_resolved(
            mining_view(old(map), old(world), old(game_stats)),
            old(intents).mines@,
        ),
        final(intents).mines@.len() == 0,
        final(intents).moves@ == old(intents).moves@,
        final(intents).attacks@ == old(intents).attacks@,
{
    let ghost s0 = mining_view(map, world, game_stats);
    let mut k: usize = 0;
    while k < intents.mines.len()
        invariant
            map.wf(),
            world.wf(),
            world.next_id == old(world).next_id,
            map.player_spawn_point == old(map).player_spawn_point,
            map.enemy_spawns == old(map).enemy_spawns,
            intents.mines@ == old(intents).mines@,
            intents.moves@ == old(intents).moves@,
            intents.attacks@ == old(intents).attacks@,
            0 <= k <= intents.mines@.len(),
            s0 == mining_view(old(map), old(world), old(game_stats)),
            mining_view(map, world, game_stats) == mines_resolved(s0, intents.mines@.subrange(0, k as int)),
        decreases intents.mines@.len() - k,
    {
        let m = intents.mines[k];
        resolve_mine(map, world, m, game_stats);
        proof {
            let pre = intents.mines@.subrange(0, k as int);
            let post = intents.mines@.subrange(0, k as int + 1);
            assert(post.drop_last() =~= pre);
        }
        k += 1;
    }
    proof {
        assert(intents.mines@.subrange(0, k as int) =~= intents.mines@);
    }
    intents.mines.clear();
}

/// The position and look of every drawn entity, in table order.
pub open spec fn draw_list(ents: Seq<EntityRecord>) -> Seq<(Point, Renderable)>
    decreases ents.len(),
{
    if ents.len() == 0 {
        Seq::empty()
    } else {
        let r = ents.last();
        draw_list(ents.drop_last()) + match (r.position, r.renderable) {
            (Some(p), Some(g)) => seq![(p, g)],
            _ => Seq::<(Point, Renderable)>::empty(),
        }
    }
}

/// What the display draws of the entities: each one with a position and a
/// renderable, in table order.
pub fn entity_render(ecs: &World) -> (r: Vec<(Point, Renderable)>)
    ensures
        r@ == draw_list(ecs.entities@),
{
    let mut r: Vec<(Point, Renderable)> = Vec::new();
    let mut i: usize = 0;
    while i < ecs.entities.len()
        invariant
            0 <= i <= ecs.entities@.len(),
            r@ == draw_list(ecs.entities@.subrange(0, i as int)),
        decreases ecs.entities@.len() - i,
    {
        let ghost before = r@;
        let rec = &ecs.entities[i];
        if let Some(p) = rec.position {
            if let Some(g) = rec.renderable {
                r.push((p, g));
            }
        }
        proof {
            let pre = ecs.entities@.subrange(0, i as int);
            let post = ecs.entities@.subrange(0, i as int + 1);
            assert(post.drop_last() =~= pre);
            assert(post.last() == ecs.entities@[i as int]);
            match (ecs.entities@[i as int].position, ecs.entities@[i as int].renderable) {
                (Some(p), Some(g)) => {
                    assert(r@ =~= before + seq![(p, g)]);
                },
                _ => {
                    assert(r@ =~= before + Seq::<(Point, Renderable)>::empty());
                },
            }
        }
        i += 1;
    }
    proof {
        assert(ecs.entities@.subrange(0, i as int) =~= ecs.entities@);
    }
    r
}

} // verus!
