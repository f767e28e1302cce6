//! The tile grid, its queries, and the cellular-automaton steps that shape
//! a cave out of noise.

use vstd::prelude::*;
use crate::geometry::{
    Point, MAP_TILES, MAP_WIDTH, MAP_HEIGHT, num_tiles, in_bounds, in_bounds_xy, index_xy,
    index_of, point_of, dist_sq, point_in_bounds, point_to_index, lemma_index_in_range,
    lemma_index_of_point, lemma_point_of_index, lemma_far_cell,
};
use crate::rng::roll_range;
use crate::spawner::{
    player_spawn_point, enemy_spawns, spawn_gold, spawn_red_crystal, spawn_giant_gem, has_floor,
    enemy_spawn_candidate, gem_candidate, spawn_point_chosen, enemy_spawns_chosen, deposits_placed,
    deposit_cells, gold_shapes, crystal_shapes, spawn_candidate_in,
};
use bracket_random::prelude::RandomNumberGenerator;

verus! {

/// The kinds of tile on the map.
#[derive(Clone, Copy, Debug, PartialEq, Eq, Structural)]
pub enum TileType {
    Wall,
    Floor,
    Gold,
    RedCrystal,
    GiantGem,
}

/// The tile grid, row-major, with the spawn points chosen at generation.
pub struct GameMap {
    pub tiles: Vec<TileType>,
    pub player_spawn_point: Point,
    pub enemy_spawns: Vec<Point>,
}

/// 1 where `(x, y)` is a `Wall` of the grid, 0 elsewhere (off the grid too).
pub open spec fn wall_at(tiles: Seq<TileType>, x: int, y: int) -> int {
    if in_bounds_xy(x, y) && tiles[index_xy(x, y)] == TileType::Wall {
        1
    } else {
        0
    }
}

/// Number of walls among the eight neighbours of `(x, y)`.
pub open spec fn neighbor_walls(tiles: Seq<TileType>, x: int, y: int) -> int {
    wall_at(tiles, x - 1, y - 1) + wall_at(tiles, x, y - 1) + wall_at(tiles, x + 1, y - 1)
        + wall_at(tiles, x - 1, y) + wall_at(tiles, x + 1, y)
        + wall_at(tiles, x - 1, y + 1) + wall_at(tiles, x, y + 1) + wall_at(tiles, x + 1, y + 1)
}

/// The automaton's rule for one tile: a wall with fewer than three wall
/// neighbours opens up, a floor with more than four fills in.
pub open spec fn next_tile(t: TileType, walls: int) -> TileType {
    if t == TileType::Wall && walls < 3 {
        TileType::Floor
    } else if t == TileType::Floor && walls > 4 {
        TileType::Wall
    } else {
        t
    }
}

/// One generation of the automaton, computed from the previous one only.
pub open spec fn smoothed(tiles: Seq<TileType>) -> Seq<TileType> {
    Seq::new(
        tiles.len(),
        |i: int| next_tile(tiles[i], neighbor_walls(tiles, point_of(i).x as int, point_of(i).y as int)),
    )
}

/// `n` generations of the automaton.
pub open spec fn smoothed_n(tiles: Seq<TileType>, n: nat) -> Seq<TileType>
    decreases n,
{
    if n == 0 {
        tiles
    } else {
        smoothed(smoothed_n(tiles, (n - 1) as nat))
    }
}

/// Noise: every tile a wall or a floor.
pub open spec fn is_noise(t: Seq<TileType>) -> bool {
    t.len() == num_tiles() && forall|i: int|
        0 <= i < t.len() ==> #[trigger] t[i] == TileType::Wall || t[i] == TileType::Floor
}

/// The cave carved from noise: five generations, with the centre tile
/// opened should no floor be left.
pub open spec fn cave_of(noise: Seq<TileType>) -> Seq<TileType> {
    let s = smoothed_n(noise, 5);
    if has_floor(s) {
        s
    } else {
        s.update(1687, TileType::Floor)
    }
}

/// The stages of generation, from noise to the map `r`: the start and the
/// enemy starts are chosen on the cave, then gold, red crystal and the gem
/// are placed, each on what the stage before left.
pub open spec fn generated_from(
    r: &GameMap,
    noise: Seq<TileType>,
    gold: Seq<TileType>,
    crystal: Seq<TileType>,
) -> bool {
    let cave = cave_of(noise);
    let start = r.player_spawn_point;
    &&& is_noise(noise)
    &&& spawn_point_chosen(cave, start)
    &&& enemy_spawns_chosen(cave, start, r.enemy_spawns@)
    &&& deposits_placed(cave, gold, 9, TileType::Gold, gold_shapes(), start)
    &&& deposits_placed(gold, crystal, 7, TileType::RedCrystal, crystal_shapes(), start)
    &&& exists|p: Point|
        in_bounds(p) && dist_sq(start, p) > 900 && r.tiles@ == #[trigger] crystal.update(
            index_of(p),
            TileType::GiantGem,
        )
}

/// What every generated map satisfies: it came out of the stages above; the
/// player's start is still `Floor`; exactly one tile is the giant gem, more
/// than thirty cells from the start.
pub open spec fn generated(r: &GameMap) -> bool {
    &&& r.wf()
    &&& exists|noise: Seq<TileType>, gold: Seq<TileType>, crystal: Seq<TileType>|
        #[trigger] generated_from(r, noise, gold, crystal)
    &&& in_bounds(r.player_spawn_point)
    &&& r.tiles@[index_of(r.player_spawn_point)] == TileType::Floor
    &&& exists|g: int|
        0 <= g < num_tiles() && r.tiles@[g] == TileType::GiantGem && dist_sq(
            r.player_spawn_point,
            point_of(g),
        ) > 900 && forall|i: int|
            0 <= i < num_tiles() && #[trigger] r.tiles@[i] == TileType::GiantGem ==> i == g
}

impl GameMap {
    /// The grid has one tile per cell.
    pub open spec fn wf(&self) -> bool {
        self.tiles@.len() == num_tiles()
    }

    pub open spec fn tile(&self, p: Point) -> TileType {
        self.tiles@[index_of(p)]
    }

    /// In bounds and `Floor`.
    pub open spec fn enterable(&self, p: Point) -> bool {
        in_bounds(p) && self.tile(p) == TileType::Floor
    }

    /// In bounds and not `Floor`.
    pub open spec fn mineable(&self, p: Point) -> bool {
        in_bounds(p) && self.tile(p) != TileType::Floor
    }

    /// Generates a cave: noise, five smoothing steps, the player's start
    /// nearest the centre, up to twenty enemy starts, gold and red crystal
    /// deposits, and the giant gem more than thirty cells from the start.
    /// Should the cave come out with no floor at all, the centre tile is
    /// opened so that the player has somewhere to stand.
    pub fn new(rng: &mut RandomNumberGenerator) -> (r: GameMap)
        ensures
            generated(&r),
    {
        let mut a_map = GameMap {
            tiles: vec![TileType::Floor; MAP_TILES],
            player_spawn_point: Point::new(0, 0),
            enemy_spawns: Vec::new(),
        };
        a_map.initialize(rng);
        let ghost noise = a_map.tiles@;
        let mut n: usize = 0;
        while n < 5
            invariant
                a_map.wf(),
                is_noise(noise),
                0 <= n <= 5,
                a_map.tiles@ == smoothed_n(noise, n as nat),
                forall|i: int|
                    0 <= i < num_tiles() ==> #[trigger] a_map.tiles@[i] == TileType::Wall
                        || a_map.tiles@[i] == TileType::Floor,
            decreases 5 - n,
        {
            let ghost prev = a_map.tiles@;
            a_map.step();
            proof {
                assert forall|i: int| 0 <= i < num_tiles() implies #[trigger] a_map.tiles@[i]
                    == TileType::Wall || a_map.tiles@[i] == TileType::Floor by {
                    assert(a_map.tiles@[i] == smoothed(prev)[i]);
                    assert(prev[i] == TileType::Wall || prev[i] == TileType::Floor);
                }
            }
            n += 1;
        }
        if !a_map.any_floor() {
            a_map.tiles.set(1687, TileType::Floor);
            proof {
                assert(a_map.tiles@[1687] == TileType::Floor);
            }
        }
        let ghost cave = a_map.tiles@;
        assert(cave == cave_of(noise));
        assert(forall|i: int| 0 <= i < num_tiles() ==> #[trigger] cave[i] != TileType::GiantGem);
        a_map.player_spawn_point = player_spawn_point(&a_map);
        let ghost spawns_map = a_map;
        a_map.enemy_spawns = enemy_spawns(&a_map, rng);
        let ghost start = a_map.player_spawn_point;
        spawn_gold(&mut a_map, rng);
        let ghost gold = a_map.tiles@;
        spawn_red_crystal(&mut a_map, rng);
        let ghost crystal = a_map.tiles@;
        let ghost pre = a_map;
        proof {
            lemma_point_of_index(start);
            let si = index_of(start);
            assert(cave[si] == TileType::Floor);
            assert(gold[si] == cave[si]) by {
                let (cs, sh) = choose|cs: Seq<usize>, sh: Seq<int>|
                    cs.no_duplicates() && cs.len() <= 9 && sh.len() == cs.len() && (cs.len() == 9
                        || forall|i: int|
                        0 <= i < num_tiles() && cave[i] == TileType::Wall ==> cs.contains(i as usize))
                        && (forall|j: int|
                        0 <= j < cs.len() ==> #[trigger] cs[j] < num_tiles() && cave[cs[j] as int]
                            == TileType::Wall && 0 <= sh[j] < gold_shapes().len()) && gold
                        == deposit_cells(cave, cs, sh, gold_shapes(), TileType::Gold, start);
            }
            assert(crystal[si] == gold[si]) by {
                let (cs, sh) = choose|cs: Seq<usize>, sh: Seq<int>|
                    cs.no_duplicates() && cs.len() <= 7 && sh.len() == cs.len() && (cs.len() == 7
                        || forall|i: int|
                        0 <= i < num_tiles() && gold[i] == TileType::Wall ==> cs.contains(i as usize))
                        && (forall|j: int|
                        0 <= j < cs.len() ==> #[trigger] cs[j] < num_tiles() && gold[cs[j] as int]
                            == TileType::Wall && 0 <= sh[j] < crystal_shapes().len()) && crystal
                        == deposit_cells(gold, cs, sh, crystal_shapes(), TileType::RedCrystal, start);
            }
            assert forall|i: int| 0 <= i < num_tiles() implies #[trigger] crystal[i] != TileType::GiantGem by {
                let (cs, sh) = choose|cs: Seq<usize>, sh: Seq<int>|
                    cs.no_duplicates() && cs.len() <= 9 && sh.len() == cs.len() && (cs.len() == 9
                        || forall|i: int|
                        0 <= i < num_tiles() && cave[i] == TileType::Wall ==> cs.contains(i as usize))
                        && (forall|j: int|
                        0 <= j < cs.len() ==> #[trigger] cs[j] < num_tiles() && cave[cs[j] as int]
                            == TileType::Wall && 0 <= sh[j] < gold_shapes().len()) && gold
                        == deposit_cells(cave, cs, sh, gold_shapes(), TileType::Gold, start);
                let (cs2, sh2) = choose|cs: Seq<usize>, sh: Seq<int>|
                    cs.no_duplicates() && cs.len() <= 7 && sh.len() == cs.len() && (cs.len() == 7
                        || forall|i: int|
                        0 <= i < num_tiles() && gold[i] == TileType::Wall ==> cs.contains(i as usize))
                        && (forall|j: int|
                        0 <= j < cs.len() ==> #[trigger] cs[j] < num_tiles() && gold[cs[j] as int]
                            == TileType::Wall && 0 <= sh[j] < crystal_shapes().len()) && crystal
                        == deposit_cells(gold, cs, sh, crystal_shapes(), TileType::RedCrystal, start);
                assert(gold[i] != TileType::GiantGem);
            }
            let q = lemma_far_cell(start);
            assert(gem_candidate(&pre, q));
        }
        spawn_giant_gem(&mut a_map, rng);
        proof {
            let p = choose|p: Point|
                gem_candidate(&pre, p) && a_map.tiles@ == pre.tiles@.update(
                    index_of(p),
                    TileType::GiantGem,
                );
            lemma_point_of_index(p);
            lemma_point_of_index(start);
            let g = index_of(p);
            if g == index_of(start) {
                assert(p == start);
                let d = start.x - start.x;
                let e = start.y - start.y;
                assert(d == 0 && e == 0);
                assert(d * d + e * e == 0);
            }
            assert(is_noise(noise));
            assert(spawn_point_chosen(cave, start));
            assert(enemy_spawns_chosen(cave, start, a_map.enemy_spawns@)) by {
                assert(spawns_map.tiles@ == cave && spawns_map.player_spawn_point == start);
                assert forall|q: Point| spawn_candidate_in(cave, start, q) == enemy_spawn_candidate(&spawns_map, q) by {}
                let es = a_map.enemy_spawns@;
                assert forall|k: int| 0 <= k < es.len() implies spawn_candidate_in(cave, start, #[trigger] es[k]) by {
                    assert(enemy_spawn_candidate(&spawns_map, es[k]));
                }
                if es.len() < 20 {
                    assert forall|q: Point| #[trigger] spawn_candidate_in(cave, start, q) implies es.contains(q) by {
                        assert(enemy_spawn_candidate(&spawns_map, q));
                    }
                }
            }
            assert(deposits_placed(cave, gold, 9, TileType::Gold, gold_shapes(), start));
            assert(deposits_placed(gold, crystal, 7, TileType::RedCrystal, crystal_shapes(), start));
            assert(in_bounds(p) && dist_sq(start, p) > 900 && a_map.tiles@ == crystal.update(
                index_of(p),
                TileType::GiantGem,
            ));
            assert(generated_from(&a_map, noise, gold, crystal));
            assert forall|i: int| 0 <= i < num_tiles() && #[trigger] a_map.tiles@[i] == TileType::GiantGem implies i == g by {
                if i != g {
                    assert(a_map.tiles@[i] == crystal[i]);
                }
            }
            assert(a_map.tiles@[g] == TileType::GiantGem);
            assert(point_of(g) == p);
        }
        a_map
    }

    /// Whether any tile is `Floor`.
    pub fn any_floor(&self) -> (r: bool)
        requires
            self.wf(),
        ensures
            r == has_floor(self.tiles@),
    {
        let mut i: usize = 0;
        while i < self.tiles.len()
            invariant
                0 <= i <= self.tiles@.len(),
                forall|j: int| 0 <= j < i ==> self.tiles@[j] != TileType::Floor,
            decreases self.tiles@.len() - i,
        {
            if self.tiles[i] == TileType::Floor {
                return true;
            }
            i += 1;
        }
        false
    }

    pub fn can_enter(&self, position: Point) -> (r: bool)
        requires
            self.wf(),
        ensures
            r == self.enterable(position),
    {
        point_in_bounds(position) && self.tiles[point_to_index(position)] == TileType::Floor
    }

    /// The index of `position + delta` when that cell can be entered.
    pub fn can_exit(&self, position: Point, delta: Point) -> (r: Option<usize>)
        requires
            self.wf(),
        ensures
            ({
                let x = position.x + delta.x;
                let y = position.y + delta.y;
                let p = Point { x: x as i32, y: y as i32 };
                r == if in_bounds_xy(x, y) && self.tile(p) == TileType::Floor {
                    Some(index_xy(x, y) as usize)
                } else {
                    None::<usize>
                }
            }),
    {
        let x = position.x as i64 + delta.x as i64;
        let y = position.y as i64 + delta.y as i64;
        if 0 <= x && x < MAP_WIDTH as i64 && 0 <= y && y < MAP_HEIGHT as i64 {
            let new_position = Point { x: x as i32, y: y as i32 };
            if self.can_enter(new_position) {
                Some(point_to_index(new_position))
            } else {
                None
            }
        } else {
            None
        }
    }

    pub fn can_mine(&self, target_pos: Point) -> (r: bool)
        requires
            self.wf(),
        ensures
            r == self.mineable(target_pos),
    {
        point_in_bounds(target_pos) && self.tiles[point_to_index(target_pos)] != TileType::Floor
    }

    /// Sets every tile to `Wall` with probability 42 in 100, else to `Floor`.
    pub(crate) fn initialize(&mut self, rng: &mut RandomNumberGenerator)
        requires
            old(self).wf(),
        ensures
            final(self).wf(),
            final(self).player_spawn_point == old(self).player_spawn_point,
            final(self).enemy_spawns == old(self).enemy_spawns,
            forall|i: int|
                0 <= i < num_tiles() ==> #[trigger] final(self).tiles@[i] == TileType::Wall
                    || final(self).tiles@[i] == TileType::Floor,
    {
        let mut i: usize = 0;
        while i < self.tiles.len()
            invariant
                self.wf(),
                self.player_spawn_point == old(self).player_spawn_point,
                self.enemy_spawns == old(self).enemy_spawns,
                0 <= i <= num_tiles(),
                forall|j: int|
                    0 <= j < i ==> #[trigger] self.tiles@[j] == TileType::Wall
                        || self.tiles@[j] == TileType::Floor,
            decreases num_tiles() - i,
        {
            let roll = roll_range(rng, 0, 100);
            if roll < 42 {
                self.tiles.set(i, TileType::Wall);
            } else {
                self.tiles.set(i, TileType::Floor);
            }
            i += 1;
        }
    }

    fn wall_count_at(&self, x: i32, y: i32) -> (r: i32)
        requires
            self.wf(),
            -1 <= x <= MAP_WIDTH,
            -1 <= y <= MAP_HEIGHT,
        ensures
            r == wall_at(self.tiles@, x as int, y as int),
    {
        if 0 <= x && x < MAP_WIDTH && 0 <= y && y < MAP_HEIGHT {
            proof {
                lemma_index_in_range(x as int, y as int);
            }
            if self.tiles[(y * MAP_WIDTH + x) as usize] == TileType::Wall {
                1
            } else {
                0
            }
        } else {
            0
        }
    }

    /// Count the number of walls neighbouring a map location.
    fn count_neighbor_walls(&self, x: i32, y: i32) -> (r: i32)
        requires
            self.wf(),
            in_bounds_xy(x as int, y as int),
        ensures
            r == neighbor_walls(self.tiles@, x as int, y as int),
    {
        self.wall_count_at(x - 1, y - 1) + self.wall_count_at(x, y - 1)
            + self.wall_count_at(x + 1, y - 1) + self.wall_count_at(x - 1, y)
            + self.wall_count_at(x + 1, y) + self.wall_count_at(x - 1, y + 1)
            + self.wall_count_at(x, y + 1) + self.wall_count_at(x + 1, y + 1)
    }

    /// One step of the automaton, read from the previous generation only.
    pub(crate) fn step(&mut self)
        requires
            old(self).wf(),
        ensures
            final(self).wf(),
            final(self).tiles@ == smoothed(old(self).tiles@),
            final(self).player_spawn_point == old(self).player_spawn_point,
            final(self).enemy_spawns == old(self).enemy_spawns,
    {
        let mut new_map = self.tiles.clone();
        let mut idx: usize = 0;
        while idx < MAP_TILES
            invariant
                self.wf(),
                new_map@.len() == num_tiles(),
                0 <= idx <= num_tiles(),
                forall|j: int|
                    0 <= j < idx ==> #[trigger] new_map@[j] == smoothed(self.tiles@)[j],
            decreases num_tiles() - idx,
        {
            proof {
                lemma_index_of_point(idx as int);
            }
            let x = (idx % 75) as i32;
            let y = (idx / 75) as i32;
            let neighbor_walls = self.count_neighbor_walls(x, y);
            let t = self.tiles[idx];
            if t == TileType::Wall && neighbor_walls < 3 {
                new_map.set(idx, TileType::Floor);
            } else if t == TileType::Floor && neighbor_walls > 4 {
                new_map.set(idx, TileType::Wall);
            } else {
                new_map.set(idx, t);
            }
            idx += 1;
        }
        proof {
            assert(new_map@ =~= smoothed(self.tiles@));
        }
        self.tiles = new_map;
    }
}

} // verus!
