//! Player input and enemy movement: the systems that issue intents.

use vstd::prelude::*;
use crate::components::{Entity, WantsToMove, WantsToAttack, WantsToMine};
use crate::geometry::{Point, dist_sq, distance_squared};
use crate::map::GameMap;
use crate::rng::roll_range;
use crate::systems::{TurnState, in_range, abs};
use crate::world::{World, Intents, EntityRecord};
use bracket_random::prelude::RandomNumberGenerator;

verus! {

/// The keys the game reacts to; every other key is `Other`.
#[derive(Clone, Copy, Debug, PartialEq, Eq, Structural)]
pub enum Key {
    A,
    D,
    W,
    S,
    Space,
    Other,
}

/// Workaround for a left click that the input source reports twice.
#[derive(Clone, Copy, Debug, PartialEq, Eq, Structural)]
pub struct ClickLock(pub bool);

/// Input values grouping to reduce function argument counts.
#[derive(Clone, Copy, Debug)]
pub struct InputValues {
    pub key: Option<Key>,
    pub mouse_pos: (i32, i32),
    pub left_click: bool,
}

/// The step a movement key stands for; other keys stand for none.
pub open spec fn key_delta(k: Key) -> Option<(int, int)> {
    match k {
        Key::A => Some((-1, 0)),
        Key::D => Some((1, 0)),
        Key::W => Some((0, -1)),
        Key::S => Some((0, 1)),
        _ => None,
    }
}

pub open spec fn clamp_coord(x: int) -> i32 {
    if x < i32::MIN {
        i32::MIN
    } else if x > i32::MAX {
        i32::MAX
    } else {
        x as i32
    }
}

/// `p` moved by `(dx, dy)`; a coordinate beyond `i32` is held at its end,
/// which lies off the map either way.
pub open spec fn offset(p: Point, dx: int, dy: int) -> Point {
    Point { x: clamp_coord(p.x + dx), y: clamp_coord(p.y + dy) }
}

pub fn offset_point(p: Point, dx: i32, dy: i32) -> (r: Point)
    requires
        -1 <= dx <= 1,
        -1 <= dy <= 1,
    ensures
        r == offset(p, dx as int, dy as int),
{
    let x = p.x as i64 + dx as i64;
    let y = p.y as i64 + dy as i64;
    let cx = if x < i32::MIN as i64 { i32::MIN } else if x > i32::MAX as i64 { i32::MAX } else { x as i32 };
    let cy = if y < i32::MIN as i64 { i32::MIN } else if y > i32::MAX as i64 { i32::MAX } else { y as i32 };
    Point { x: cx, y: cy }
}

/// The first record tagged `Player` that has a position and a mine range.
pub open spec fn input_player(r: EntityRecord) -> bool {
    r.player is Some && r.position is Some && r.mine_range is Some
}

pub open spec fn first_input_player(ents: Seq<EntityRecord>) -> Option<int> {
    if exists|i: int| 0 <= i < ents.len() && input_player(ents[i]) {
        Some(
            choose|i: int|
                0 <= i < ents.len() && input_player(ents[i]) && forall|j: int|
                    0 <= j < i ==> !input_player(ents[j]),
        )
    } else {
        None
    }
}

pub(crate) fn find_input_player(world: &World) -> (r: Option<usize>)
    ensures
        r is None <==> first_input_player(world.entities@) is None,
        r matches Some(i) ==> first_input_player(world.entities@) == Some(i as int) && i
            < world.entities@.len() && input_player(world.entities@[i as int]),
{
    let mut i: usize = 0;
    while i < world.entities.len()
        invariant
            0 <= i <= world.entities@.len(),
            forall|j: int| 0 <= j < i ==> !input_player(world.entities@[j]),
        decreases world.entities@.len() - i,
    {
        let r = &world.entities[i];
        if r.player.is_some() && r.position.is_some() && r.mine_range.is_some() {
            proof {
                let ents = world.entities@;
                let k = choose|k: int|
                    0 <= k < ents.len() && input_player(ents[k]) && forall|j: int|
                        0 <= j < k ==> !input_player(ents[j]);
                assert(k == i as int) by {
                    if k > i {
                        assert(input_player(ents[i as int]));
                    }
                }
            }
            return Some(i);
        }
        i += 1;
    }
    None
}

/// An attack by `attacker` on every enemy standing on `dest`, in table order.
pub open spec fn attacks_on_enemies(ents: Seq<EntityRecord>, attacker: Entity, dest: Point) -> Seq<WantsToAttack>
    decreases ents.len(),
{
    if ents.len() == 0 {
        Seq::empty()
    } else {
        let r = ents.last();
        attacks_on_enemies(ents.drop_last(), attacker, dest) + if r.enemy is Some && r.position
            == Some(dest) {
            seq![WantsToAttack { entity: attacker, target: r.entity }]
        } else {
            Seq::<WantsToAttack>::empty()
        }
    }
}

/// An attack by `attacker` on every record with stats and the `Player` tag
/// standing on `dest`, in table order.
pub open spec fn attacks_on_player(ents: Seq<EntityRecord>, attacker: Entity, dest: Point) -> Seq<WantsToAttack>
    decreases ents.len(),
{
    if ents.len() == 0 {
        Seq::empty()
    } else {
        let r = ents.last();
        attacks_on_player(ents.drop_last(), attacker, dest) + if r.stats is Some && r.player is Some
            && r.position == Some(dest) {
            seq![WantsToAttack { entity: attacker, target: r.entity }]
        } else {
            Seq::<WantsToAttack>::empty()
        }
    }
}

fn collect_attacks(world: &World, attacker: Entity, dest: Point, on_player: bool) -> (r: Vec<WantsToAttack>)
    ensures
        r@ == if on_player {
            attacks_on_player(world.entities@, attacker, dest)
        } else {
            attacks_on_enemies(world.entities@, attacker, dest)
        },
{
    let mut r: Vec<WantsToAttack> = Vec::new();
    let mut i: usize = 0;
    while i < world.entities.len()
        invariant
            0 <= i <= world.entities@.len(),
            r@ == if on_player {
                attacks_on_player(world.entities@.subrange(0, i as int), attacker, dest)
            } else {
                attacks_on_enemies(world.entities@.subrange(0, i as int), attacker, dest)
            },
        decreases world.entities@.len() - i,
    {
        let rec = &world.entities[i];
        let hit = if on_player {
            rec.stats.is_some() && rec.player.is_some() && rec.position == Some(dest)
        } else {
            rec.enemy.is_some() && rec.position == Some(dest)
        };
        let ghost before = r@;
        if hit {
            r.push(WantsToAttack { entity: attacker, target: rec.entity });
        }
        proof {
            let pre = world.entities@.subrange(0, i as int);
            let post = world.entities@.subrange(0, i as int + 1);
            assert(post.drop_last() =~= pre);
            assert(post.last() == world.entities@[i as int]);
            if hit {
                assert(r@ =~= before + seq![WantsToAttack { entity: attacker, target: rec.entity }]);
            } else {
                assert(r@ =~= before + Seq::<WantsToAttack>::empty());
            }
        }
        i += 1;
    }
    proof {
        assert(world.entities@.subrange(0, i as int) =~= world.entities@);
    }
    r
}

fn append_all(dst: &mut Vec<WantsToAttack>, src: Vec<WantsToAttack>)
    ensures
        final(dst)@ == old(dst)@ + src@,
{
    let mut src = src;
    dst.append(&mut src);
}

/// What the input phase does, as a function of the table, the map and the
/// input: the new lock, the intents issued, and the phase.
pub open spec fn input_outcome(
    ents: Seq<EntityRecord>,
    map: &GameMap,
    input: InputValues,
    turn: TurnState,
    lock: bool,
    mines: Seq<WantsToMine>,
    moves: Seq<WantsToMove>,
    attacks: Seq<WantsToAttack>,
) -> (bool, TurnState, Seq<WantsToMine>, Seq<WantsToMove>, Seq<WantsToAttack>) {
    let mouse = Point { x: input.mouse_pos.0, y: input.mouse_pos.1 };
    if input.left_click {
        let new_lock = !lock;
        if !new_lock {
            match first_input_player(ents) {
                Some(p) => {
                    let pos = ents[p].position.unwrap();
                    let range = ents[p].mine_range.unwrap().0;
                    if map.mineable(mouse) && abs(pos.x - mouse.x) <= range && abs(pos.y - mouse.y) <= range {
                        (
                            new_lock,
                            TurnState::Player,
                            mines.push(WantsToMine { entity: ents[p].entity, target: mouse }),
                            moves,
                            attacks,
                        )
                    } else {
                        (new_lock, turn, mines, moves, attacks)
                    }
                },
                None => (new_lock, turn, mines, moves, attacks),
            }
        } else {
            (new_lock, turn, mines, moves, attacks)
        }
    } else if input.key is Some && key_delta(input.key.unwrap()) is Some {
        let (dx, dy) = key_delta(input.key.unwrap()).unwrap();
        match first_input_player(ents) {
            Some(p) => {
                let dest = offset(ents[p].position.unwrap(), dx, dy);
                let hits = attacks_on_enemies(ents, ents[p].entity, dest);
                if hits.len() > 0 {
                    (lock, TurnState::Player, mines, moves, attacks + hits)
                } else {
                    (
                        lock,
                        TurnState::Player,
                        mines,
                        moves.push(WantsToMove { entity: ents[p].entity, destination: dest }),
                        attacks,
                    )
                }
            },
            None => (lock, TurnState::Player, mines, moves, attacks),
        }
    } else {
        (lock, turn, mines, moves, attacks)
    }
}

/// Handles player input: a click (every other one, see `ClickLock`) on a
/// mineable tile in range issues a mining intent; a movement key (W, A, S,
/// D) issues an attack on the enemies standing where the player would go, or
/// else a move; any other key does nothing.
pub fn input(
    world: &World,
    intents: &mut Intents,
    map: &GameMap,
    input: &InputValues,
    turnstate: &mut TurnState,
    lock: &mut ClickLock,
)
    requires
        map.wf(),
    ensures
        input_outcome(
            world.entities@,
            map,
            *input,
            *old(turnstate),
            old(lock).0,
            old(intents).mines@,
            old(intents).moves@,
            old(intents).attacks@,
        ) == (final(lock).0, *final(turnstate), final(intents).mines@, final(intents).moves@, final(intents).attacks@),
{
    let mouse = Point::new(input.mouse_pos.0, input.mouse_pos.1);
    if input.left_click {
        lock.0 = !lock.0;
        if !lock.0 {
            if let Some(p) = find_input_player(world) {
                let rec = &world.entities[p];
                let pos = rec.position.unwrap();
                let range = rec.mine_range.unwrap().0;
                if map.can_mine(mouse) && in_range(pos, mouse, range) {
                    intents.mines.push(WantsToMine { entity: rec.entity, target: mouse });
                    *turnstate = TurnState::Player;
                }
            }
        }
    } else if let Some(key) = input.key {
        let (dx, dy): (i32, i32) = match key {
            Key::A => (-1, 0),
            Key::D => (1, 0),
            Key::W => (0, -1),
            Key::S => (0, 1),
            _ => {
                return ;
            },
        };
        if let Some(p) = find_input_player(world) {
            let rec = &world.entities[p];
            let dest = offset_point(rec.position.unwrap(), dx, dy);
            let hits = collect_attacks(world, rec.entity, dest, false);
            if hits.len() > 0 {
                append_all(&mut intents.attacks, hits);
            } else {
                intents.moves.push(WantsToMove { entity: rec.entity, destination: dest });
            }
        }
        *turnstate = TurnState::Player;
    }
}

/// The intents of an enemy bound for `dest`: attacks on the player standing
/// there, or else a move (into a free tile, or one another enemy holds;
/// the map decides later whether the move stands).
pub open spec fn mover_intents(
    ents: Seq<EntityRecord>,
    mover: Entity,
    dest: Point,
    moves: Seq<WantsToMove>,
    attacks: Seq<WantsToAttack>,
) -> (Seq<WantsToMove>, Seq<WantsToAttack>) {
    let hits = attacks_on_player(ents, mover, dest);
    if hits.len() > 0 {
        (moves, attacks + hits)
    } else {
        (moves.push(WantsToMove { entity: mover, destination: dest }), attacks)
    }
}

fn issue_mover_intents(world: &World, intents: &mut Intents, mover: Entity, dest: Point)
    ensures
        (final(intents).moves@, final(intents).attacks@) == mover_intents(
            world.entities@,
            mover,
            dest,
            old(intents).moves@,
            old(intents).attacks@,
        ),
        final(intents).mines@ == old(intents).mines@,
{
    let hits = collect_attacks(world, mover, dest, true);
    if hits.len() > 0 {
        append_all(&mut intents.attacks, hits);
    } else {
        intents.moves.push(WantsToMove { entity: mover, destination: dest });
    }
}

/// The step a roll of `0..4` stands for: left, right, down, up.
pub open spec fn roll_delta(roll: i32) -> (int, int) {
    if roll == 0 {
        (-1, 0)
    } else if roll == 1 {
        (1, 0)
    } else if roll == 2 {
        (0, 1)
    } else {
        (0, -1)
    }
}

/// A record that moves at random: drawn, tagged, and placed.
pub open spec fn random_mover(r: EntityRecord) -> bool {
    r.renderable is Some && r.random_movement is Some && r.position is Some
}

/// A record that hunts the player: drawn, tagged, and placed.
pub open spec fn targeted_mover(r: EntityRecord) -> bool {
    r.renderable is Some && r.targeted_movement is Some && r.position is Some
}

/// The intents of the first `k` records, each random mover stepping by its roll.
pub open spec fn wander_outcome(
    ents: Seq<EntityRecord>,
    rolls: Seq<i32>,
    k: nat,
    moves: Seq<WantsToMove>,
    attacks: Seq<WantsToAttack>,
) -> (Seq<WantsToMove>, Seq<WantsToAttack>)
    decreases k,
{
    if k == 0 {
        (moves, attacks)
    } else {
        let (m, a) = wander_outcome(ents, rolls, (k - 1) as nat, moves, attacks);
        let r = ents[k - 1];
        if random_mover(r) {
            let (dx, dy) = roll_delta(rolls[k - 1]);
            mover_intents(ents, r.entity, offset(r.position.unwrap(), dx, dy), m, a)
        } else {
            (m, a)
        }
    }
}

/// Issues the intents of the random movers, record `k` stepping by `rolls[k]`.
pub fn wander(world: &World, intents: &mut Intents, rolls: &Vec<i32>)
    requires
        rolls@.len() == world.entities@.len(),
    ensures
        (final(intents).moves@, final(intents).attacks@) == wander_outcome(
            world.entities@,
            rolls@,
            world.entities@.len(),
            old(intents).moves@,
            old(intents).attacks@,
        ),
        final(intents).mines@ == old(intents).mines@,
{
    let mut k: usize = 0;
    while k < world.entities.len()
        invariant
            rolls@.len() == world.entities@.len(),
            0 <= k <= world.entities@.len(),
            (intents.moves@, intents.attacks@) == wander_outcome(
                world.entities@,
                rolls@,
                k as nat,
                old(intents).moves@,
                old(intents).attacks@,
            ),
            intents.mines@ == old(intents).mines@,
        decreases world.entities@.len() - k,
    {
        let rec = &world.entities[k];
        if rec.renderable.is_some() && rec.random_movement.is_some() && rec.position.is_some() {
            let roll = rolls[k];
            let (dx, dy): (i32, i32) = if roll == 0 {
                (-1, 0)
            } else if roll == 1 {
                (1, 0)
            } else if roll == 2 {
                (0, 1)
            } else {
                (0, -1)
            };
            let dest = offset_point(rec.position.unwrap(), dx, dy);
            issue_mover_intents(world, intents, rec.entity, dest);
        }
        k += 1;
    }
}

/// Moves the entities tagged `RandomMovement` one step in a direction drawn
/// at random, or has them attack the player standing there.
pub fn random_movement(world: &World, intents: &mut Intents, rng: &mut RandomNumberGenerator)
    ensures
        exists|rolls: Seq<i32>|
            rolls.len() == world.entities@.len() && (forall|k: int|
                0 <= k < rolls.len() ==> 0 <= #[trigger] rolls[k] < 4) && (final(intents).moves@,
            final(intents).attacks@) == wander_outcome(
                world.entities@,
                rolls,
                world.entities@.len(),
                old(intents).moves@,
                old(intents).attacks@,
            ),
        final(intents).mines@ == old(intents).mines@,
{
    let mut rolls: Vec<i32> = Vec::new();
    let mut k: usize = 0;
    while k < world.entities.len()
        invariant
            0 <= k <= world.entities@.len(),
            rolls@.len() == k,
            forall|j: int| 0 <= j < k ==> 0 <= #[trigger] rolls@[j] < 4,
        decreases world.entities@.len() - k,
    {
        let rec = &world.entities[k];
        if rec.renderable.is_some() && rec.random_movement.is_some() && rec.position.is_some() {
            rolls.push(roll_range(rng, 0, 4));
        } else {
            rolls.push(0);
        }
        k += 1;
    }
    wander(world, intents, &rolls);
}

/// The first record tagged `Player` that has a position.
pub open spec fn placed_player(r: EntityRecord) -> bool {
    r.player is Some && r.position is Some
}

pub open spec fn first_placed_player(ents: Seq<EntityRecord>) -> Option<int> {
    if exists|i: int| 0 <= i < ents.len() && placed_player(ents[i]) {
        Some(
            choose|i: int|
                0 <= i < ents.len() && placed_player(ents[i]) && forall|j: int|
                    0 <= j < i ==> !placed_player(ents[j]),
        )
    } else {
        None
    }
}

fn find_placed_player(world: &World) -> (r: Option<usize>)
    ensures
        r is None <==> first_placed_player(world.entities@) is None,
        r matches Some(i) ==> first_placed_player(world.entities@) == Some(i as int) && i
            < world.entities@.len() && placed_player(world.entities@[i as int]),
{
    let mut i: usize = 0;
    while i < world.entities.len()
        invariant
            0 <= i <= world.entities@.len(),
            forall|j: int| 0 <= j < i ==> !placed_player(world.entities@[j]),
        decreases world.entities@.len() - i,
    {
        let r = &world.entities[i];
        if r.player.is_some() && r.position.is_some() {
            proof {
                let ents = world.entities@;
                let k = choose|k: int|
                    0 <= k < ents.len() && placed_player(ents[k]) && forall|j: int|
                        0 <= j < k ==> !placed_player(ents[j]);
                assert(k == i as int) by {
                    if k > i {
                        assert(placed_player(ents[i as int]));
                    }
                }
            }
            return Some(i);
        }
        i += 1;
    }
    None
}

/// The position of the first record tagged `Player` that has one.
pub fn player_position(world: &World) -> (r: Option<Point>)
    ensures
        r == match first_placed_player(world.entities@) {
            Some(p) => world.entities@[p].position,
            None => None::<Point>,
        },
{
    match find_placed_player(world) {
        Some(p) => world.entities[p].position,
        None => None,
    }
}

/// Where a hunter at `pos` heads: the player's own tile once within a
/// straight-line distance of 1.2 (squared distance at most 1), else the
/// step the distance field gives.
pub open spec fn hunt_target(pos: Point, player_pos: Point, step: Point) -> Point {
    if dist_sq(pos, player_pos) > 1 {
        step
    } else {
        player_pos
    }
}

/// The intents of the first `k` records, each hunter with a step heading for
/// `hunt_target`; a hunter with no step (the player out of reach) stays put.
pub open spec fn hunt_outcome(
    ents: Seq<EntityRecord>,
    player_pos: Point,
    steps: Seq<Option<Point>>,
    k: nat,
    moves: Seq<WantsToMove>,
    attacks: Seq<WantsToAttack>,
) -> (Seq<WantsToMove>, Seq<WantsToAttack>)
    decreases k,
{
    if k == 0 {
        (moves, attacks)
    } else {
        let (m, a) = hunt_outcome(ents, player_pos, steps, (k - 1) as nat, moves, attacks);
        let r = ents[k - 1];
        if targeted_mover(r) && steps[k - 1] is Some {
            mover_intents(
                ents,
                r.entity,
                hunt_target(r.position.unwrap(), player_pos, steps[k - 1].unwrap()),
                m,
                a,
            )
        } else {
            (m, a)
        }
    }
}

/// Moves the entities tagged `TargetedMovement` toward the player.
/// `steps[k]` is the lowest exit of the distance field rooted at the player's
/// tile from the tile of record `k` (`None` where there is none).
pub fn targeted_movement(world: &World, intents: &mut Intents, steps: &Vec<Option<Point>>)
    requires
        steps@.len() == world.entities@.len(),
    ensures
        final(intents).mines@ == old(intents).mines@,
        match first_placed_player(world.entities@) {
            Some(p) => (final(intents).moves@, final(intents).attacks@) == hunt_outcome(
                world.entities@,
                world.entities@[p].position.unwrap(),
                steps@,
                world.entities@.len(),
                old(intents).moves@,
                old(intents).attacks@,
            ),
            None => final(intents).moves@ == old(intents).moves@ && final(intents).attacks@ == old(
                intents,
            ).attacks@,
        },
{
    let p = match find_placed_player(world) {
        Some(p) => p,
        None => {
            return ;
        },
    };
    let player_pos = world.entities[p].position.unwrap();
    let mut k: usize = 0;
    while k < world.entities.len()
        invariant
            steps@.len() == world.entities@.len(),
            0 <= k <= world.entities@.len(),
            (intents.moves@, intents.attacks@) == hunt_outcome(
                world.entities@,
                player_pos,
                steps@,
                k as nat,
                old(intents).moves@,
                old(intents).attacks@,
            ),
            intents.mines@ == old(intents).mines@,
        decreases world.entities@.len() - k,
    {
        let rec = &world.entities[k];
        if rec.renderable.is_some() && rec.targeted_movement.is_some() && rec.position.is_some() {
            if let Some(step) = steps[k] {
                let pos = rec.position.unwrap();
                let dest = if distance_squared(pos, player_pos) > 1 {
                    step
                } else {
                    player_pos
                };
                issue_mover_intents(world, intents, rec.entity, dest);
            }
        }
        k += 1;
    }
}

} // verus!
