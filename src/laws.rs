//! Laws of the turn rules, stated over the systems' own contracts.

use vstd::prelude::*;
use crate::components::{Stats, WantsToMove, WantsToAttack, WantsToMine};
use crate::geometry::{in_bounds, index_of};
use crate::map::{GameMap, TileType};
use crate::systems::{
    TurnState, next_turn, moves_applied, moved, mine_resolved, mines_resolved, MiningView, StatsView,
    healed, attacks_resolved,
    CombatView, struck, clamp_i32, bumped, attack_resolved, attacker_of, target_name_of,
};
use crate::text::{player_name, attack_message, slain_message};
use crate::world::{EntityRecord, lookup};

verus! {

/// A move into a wall is dropped: the entity table is left as it was.
pub proof fn lemma_move_into_wall_rejected(ents: Seq<EntityRecord>, m: WantsToMove, map: &GameMap)
    requires
        map.wf(),
        in_bounds(m.destination) ==> map.tile(m.destination) == TileType::Wall,
    ensures
        moves_applied(ents, seq![m], map) == ents,
{
    assert(seq![m].drop_last() =~= Seq::<WantsToMove>::empty());
    assert(seq![m].last() == m);
    assert(moves_applied(ents, Seq::<WantsToMove>::empty(), map) == ents);
    assert(!map.enterable(m.destination));
    assert(moves_applied(ents, seq![m], map) == moved(
        moves_applied(ents, seq![m].drop_last(), map),
        m,
        map,
    ));
}

/// Mining gold counts exactly one more gold and leaves the tile `Floor`;
/// mining the same tile again changes nothing.
pub proof fn lemma_mine_gold(s: MiningView, m: WantsToMine)
    requires
        s.tiles.len() == 3375,
        in_bounds(m.target),
        s.tiles[index_of(m.target)] == TileType::Gold,
        s.stats.gold < i32::MAX,
    ensures
        mines_resolved(s, seq![m]) == mine_resolved(s, m),
        mine_resolved(s, m) == (MiningView {
            tiles: s.tiles.update(index_of(m.target), TileType::Floor),
            ents: s.ents,
            stats: StatsView { gold: (s.stats.gold + 1) as i32, ..s.stats },
        }),
        mine_resolved(s, m).tiles[index_of(m.target)] == TileType::Floor,
        mine_resolved(mine_resolved(s, m), m) == mine_resolved(s, m),
{
    crate::geometry::lemma_point_of_index(m.target);
    assert(seq![m].drop_last() =~= Seq::<WantsToMine>::empty());
    assert(seq![m].last() == m);
    assert(mines_resolved(s, Seq::<WantsToMine>::empty()) == s);
}

/// A red crystal heals three, never past the maximum.
pub proof fn lemma_heal_capped(st: Stats)
    requires
        st.health <= st.max_health,
    ensures
        healed(st).health == if st.health + 3 <= st.max_health {
            st.health + 3
        } else {
            st.max_health as int
        },
        healed(st).max_health == st.max_health,
        healed(st).damage == st.damage,
{
}

/// A blow that brings a target other than the player to zero health or
/// below removes its record, and counts a kill when the player struck it.
pub proof fn lemma_lethal_blow(s: CombatView, ti: int, ts: Stats, dmg: int, an: Seq<char>, tn: Seq<char>)
    requires
        0 <= ti < s.ents.len(),
        clamp_i32(ts.health - dmg) <= 0,
        tn != player_name(),
    ensures
        struck(s, ti, ts, dmg, an, tn).ents == s.ents.update(
            ti,
            EntityRecord { stats: Some(Stats { health: clamp_i32(ts.health - dmg), ..ts }), ..s.ents[ti] },
        ).remove(ti),
        struck(s, ti, ts, dmg, an, tn).ents.len() == s.ents.len() - 1,
        struck(s, ti, ts, dmg, an, tn).log == s.log.push(attack_message(an, tn, dmg)).push(
            slain_message(tn),
        ),
        struck(s, ti, ts, dmg, an, tn).stats.slain_by == s.stats.slain_by,
        struck(s, ti, ts, dmg, an, tn).stats.kills == if an == player_name() {
            bumped(s.stats.kills)
        } else {
            s.stats.kills
        },
{
}

/// An attack on a present target with stats is the strike `struck` describes,
/// with the attacker's damage and name and the target's name.
pub proof fn lemma_attack_strikes(s: CombatView, a: WantsToAttack, ti: int, ts: Stats)
    requires
        lookup(s.ents, a.target) == Some(ti),
        s.ents[ti].stats == Some(ts),
    ensures
        attack_resolved(s, a) == struck(
            s,
            ti,
            ts,
            attacker_of(s.ents, a.entity).0,
            attacker_of(s.ents, a.entity).1,
            target_name_of(s.ents, a.target),
        ),
{
}

/// A blow on the player never removes it: its health drops by the damage
/// (held within `i32`), the log says so, kills stay as they were, and at zero
/// or below the attacker is recorded as its slayer.
pub proof fn lemma_blow_on_player(s: CombatView, ti: int, ts: Stats, dmg: int, an: Seq<char>, tn: Seq<char>)
    requires
        0 <= ti < s.ents.len(),
        tn == player_name(),
    ensures
        struck(s, ti, ts, dmg, an, tn).ents == s.ents.update(
            ti,
            EntityRecord { stats: Some(Stats { health: clamp_i32(ts.health - dmg), ..ts }), ..s.ents[ti] },
        ),
        struck(s, ti, ts, dmg, an, tn).log == s.log.push(attack_message(an, tn, dmg)),
        struck(s, ti, ts, dmg, an, tn).stats.kills == s.stats.kills,
        struck(s, ti, ts, dmg, an, tn).stats.slain_by == if clamp_i32(ts.health - dmg) <= 0 {
            Some(an)
        } else {
            s.stats.slain_by
        },
{
}

/// A single pending attack resolves as that one attack.
pub proof fn lemma_one_attack(s: CombatView, a: WantsToAttack)
    ensures
        attacks_resolved(s, seq![a]) == attack_resolved(s, a),
{
    assert(seq![a].drop_last() =~= Seq::<WantsToAttack>::empty());
    assert(seq![a].last() == a);
    assert(attacks_resolved(s, Seq::<WantsToAttack>::empty()) == s);
}

/// From `Player` the turn passes to `Enemy`, and from `Enemy` to `Input`,
/// unless the player died or took the gem.
pub proof fn lemma_turn_cycle(dead: bool, gem: bool)
    requires
        !dead,
        !gem,
    ensures
        next_turn(TurnState::Player, dead, gem) == TurnState::Enemy,
        next_turn(TurnState::Enemy, dead, gem) == TurnState::Input,
{
}

/// When the player has died and taken the gem in the same phase, it is a victory.
pub proof fn lemma_victory_over_game_over(current: TurnState)
    ensures
        next_turn(current, true, true) == TurnState::Victory,
{
}

} // verus!
