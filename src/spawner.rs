//! Spawn points and the placement of mineable deposits on a generated map.

use vstd::prelude::*;
use crate::geometry::{
    Point, MAP_TILES, MAP_WIDTH, MAP_HEIGHT, num_tiles, in_bounds, in_bounds_xy, index_xy, index_of, point_of,
    dist_sq, distance_squared, index_to_point, point_to_index, point_in_bounds,
    lemma_index_of_point, lemma_point_of_index, lemma_dist_sq_nonneg,
};
use crate::map::{GameMap, TileType};
use crate::components::{
    Entity, Rgb, ColorPair, Renderable, Player, Enemy, Stats, RandomMovement, TargetedMovement,
    Name, MineRange,
};
use crate::world::{World, EntityRecord, name_of};
use crate::rng::{pick_index, roll_range};
use bracket_random::prelude::RandomNumberGenerator;

verus! {

/// The cell nearest to which the player starts.
pub open spec fn map_center() -> Point {
    offset_of(37, 22)
}

/// A cell where an enemy may start: open floor more than ten cells away from
/// the player's start.
pub open spec fn enemy_spawn_candidate(map: &GameMap, p: Point) -> bool {
    in_bounds(p) && map.tile(p) == TileType::Floor && dist_sq(map.player_spawn_point, p) > 100
}

/// `r` is the floor tile of `tiles` nearest to the centre, the first one
/// scanned winning a tie.
pub open spec fn spawn_point_chosen(tiles: Seq<TileType>, r: Point) -> bool {
    &&& in_bounds(r)
    &&& tiles[index_of(r)] == TileType::Floor
    &&& forall|j: int|
        0 <= j < num_tiles() && tiles[j] == TileType::Floor ==> dist_sq(map_center(), r) <= dist_sq(
            map_center(),
            #[trigger] point_of(j),
        )
    &&& forall|j: int|
        0 <= j < index_of(r) && tiles[j] == TileType::Floor ==> dist_sq(map_center(), r) < dist_sq(
            map_center(),
            #[trigger] point_of(j),
        )
}

/// A floor tile of `tiles` more than ten cells from `start`.
pub open spec fn spawn_candidate_in(tiles: Seq<TileType>, start: Point, p: Point) -> bool {
    in_bounds(p) && tiles[index_of(p)] == TileType::Floor && dist_sq(start, p) > 100
}

/// `r` holds up to twenty distinct candidates, fewer only when it holds them all.
pub open spec fn enemy_spawns_chosen(tiles: Seq<TileType>, start: Point, r: Seq<Point>) -> bool {
    &&& r.len() <= 20
    &&& r.no_duplicates()
    &&& forall|k: int| 0 <= k < r.len() ==> spawn_candidate_in(tiles, start, #[trigger] r[k])
    &&& r.len() < 20 ==> forall|p: Point| #[trigger] spawn_candidate_in(tiles, start, p) ==> r.contains(p)
}

/// The map holds at least one `Floor` tile.
pub open spec fn has_floor(tiles: Seq<TileType>) -> bool {
    exists|i: int| 0 <= i < tiles.len() && tiles[i] == TileType::Floor
}

/// The floor tile nearest to the centre of the map; the first one scanned wins a tie.
pub fn player_spawn_point(map: &GameMap) -> (r: Point)
    requires
        map.wf(),
        has_floor(map.tiles@),
    ensures
        in_bounds(r),
        map.tile(r) == TileType::Floor,
        forall|j: int|
            0 <= j < num_tiles() && map.tiles@[j] == TileType::Floor ==> dist_sq(map_center(), r)
                <= dist_sq(map_center(), #[trigger] point_of(j)),
        forall|j: int|
            0 <= j < index_of(r) && map.tiles@[j] == TileType::Floor ==> dist_sq(map_center(), r)
                < dist_sq(map_center(), #[trigger] point_of(j)),
{
    let center = Point::new(37, 22);
    let mut best: Option<usize> = None;
    let mut best_dist: i128 = 0;
    let mut idx: usize = 0;
    while idx < MAP_TILES
        invariant
            map.wf(),
            0 <= idx <= num_tiles(),
            best is None ==> forall|j: int| 0 <= j < idx ==> map.tiles@[j] != TileType::Floor,
            best matches Some(b) ==> {
                &&& b < idx
                &&& map.tiles@[b as int] == TileType::Floor
                &&& best_dist == dist_sq(center, point_of(b as int))
                &&& forall|j: int|
                    0 <= j < idx && map.tiles@[j] == TileType::Floor ==> best_dist <= dist_sq(
                        center,
                        #[trigger] point_of(j),
                    )
                &&& forall|j: int|
                    0 <= j < b && map.tiles@[j] == TileType::Floor ==> best_dist < dist_sq(
                        center,
                        #[trigger] point_of(j),
                    )
            },
        decreases num_tiles() - idx,
    {
        if map.tiles[idx] == TileType::Floor {
            let d = distance_squared(center, index_to_point(idx));
            match best {
                None => {
                    best = Some(idx);
                    best_dist = d;
                },
                Some(_) => {
                    if d < best_dist {
                        best = Some(idx);
                        best_dist = d;
                    }
                },
            }
        }
        idx += 1;
    }
    match best {
        Some(b) => index_to_point(b),
        None => {
            proof {
                let i = choose|i: int| 0 <= i < map.tiles@.len() && map.tiles@[i] == TileType::Floor;
                assert(map.tiles@[i] != TileType::Floor);
            }
            center
        },
    }
}

/// Draws up to `n` distinct values of `pool`, without replacement; fewer only
/// when the pool runs out, and then all of it.
pub fn draw_distinct(rng: &mut RandomNumberGenerator, pool: Vec<usize>, n: usize) -> (r: Vec<usize>)
    requires
        pool@.no_duplicates(),
        pool.len() < i32::MAX,
    ensures
        r@.no_duplicates(),
        r.len() <= n,
        r.len() == n || r.len() == pool.len(),
        forall|k: int| 0 <= k < r.len() ==> pool@.contains(#[trigger] r@[k]),
        r.len() < n ==> forall|k: int| 0 <= k < pool.len() ==> r@.contains(#[trigger] pool@[k]),
{
    let ghost orig = pool@;
    let mut pool = pool;
    let mut drawn: Vec<usize> = Vec::new();
    while drawn.len() < n && pool.len() > 0
        invariant
            pool@.no_duplicates(),
            drawn@.no_duplicates(),
            pool.len() < i32::MAX,
            drawn.len() <= n,
            drawn.len() + pool.len() == orig.len(),
            forall|k: int| 0 <= k < pool.len() ==> !drawn@.contains(#[trigger] pool@[k]),
            forall|k: int| 0 <= k < drawn.len() ==> orig.contains(#[trigger] drawn@[k]),
            forall|k: int| 0 <= k < pool.len() ==> orig.contains(#[trigger] pool@[k]),
            forall|k: int|
                0 <= k < orig.len() ==> pool@.contains(#[trigger] orig[k]) || drawn@.contains(
                    orig[k],
                ),
        decreases pool.len(),
    {
        let ghost old_pool = pool@;
        let ghost old_drawn = drawn@;
        let i = match pick_index(rng, &pool) {
            Some(i) => i,
            None => 0,
        };
        let v = pool.remove(i);
        drawn.push(v);
        proof {
            assert(pool@ == old_pool.remove(i as int));
            assert forall|k: int| 0 <= k < pool.len() implies !drawn@.contains(#[trigger] pool@[k]) by {
                let kk = if k < i { k } else { k + 1 };
                assert(pool@[k] == old_pool[kk]);
                assert(!old_drawn.contains(old_pool[kk]));
                if drawn@[old_drawn.len() as int] == pool@[k] {
                    assert(old_pool[kk] == old_pool[i as int]);
                }
                if drawn@.contains(pool@[k]) {
                    let m = choose|m: int| 0 <= m < drawn@.len() && drawn@[m] == pool@[k];
                    if m < old_drawn.len() {
                        assert(old_drawn[m] == pool@[k]);
                    }
                }
            }
            assert forall|k: int| 0 <= k < orig.len() implies pool@.contains(#[trigger] orig[k])
                || drawn@.contains(orig[k]) by {
                if old_pool.contains(orig[k]) {
                    let m = choose|m: int| 0 <= m < old_pool.len() && old_pool[m] == orig[k];
                    if m < i {
                        assert(pool@[m] == orig[k]);
                    } else if m > i {
                        assert(pool@[m - 1] == orig[k]);
                    } else {
                        assert(drawn@[old_drawn.len() as int] == orig[k]);
                    }
                } else {
                    let m = choose|m: int| 0 <= m < old_drawn.len() && old_drawn[m] == orig[k];
                    assert(drawn@[m] == orig[k]);
                }
            }
            assert forall|k: int| 0 <= k < drawn.len() implies orig.contains(#[trigger] drawn@[k]) by {
                if k < old_drawn.len() {
                    assert(drawn@[k] == old_drawn[k]);
                } else {
                    assert(drawn@[k] == old_pool[i as int]);
                }
            }
            assert forall|k: int| 0 <= k < pool.len() implies orig.contains(#[trigger] pool@[k]) by {
                let kk = if k < i { k } else { k + 1 };
                assert(pool@[k] == old_pool[kk]);
            }
            assert forall|a: int, b: int| 0 <= a < b < pool.len() implies pool@[a] != pool@[b] by {
                let aa = if a < i { a } else { a + 1 };
                let bb = if b < i { b } else { b + 1 };
                assert(pool@[a] == old_pool[aa]);
                assert(pool@[b] == old_pool[bb]);
            }
            assert forall|a: int, b: int| 0 <= a < b < drawn.len() implies drawn@[a] != drawn@[b] by {
                if b == old_drawn.len() {
                    assert(drawn@[a] == old_drawn[a]);
                    assert(!old_drawn.contains(old_pool[i as int]));
                }
            }
        }
    }
    proof {
        if drawn.len() < n {
            assert forall|k: int| 0 <= k < orig.len() implies drawn@.contains(#[trigger] orig[k]) by {
                if pool@.contains(orig[k]) {
                    let m = choose|m: int| 0 <= m < pool@.len() && pool@[m] == orig[k];
                }
            }
        }
    }
    drawn
}

/// A tile of the kind asked for (any kind for `None`) whose squared distance
/// from the player's start exceeds `min_dist_sq`.
pub open spec fn pool_candidate(map: &GameMap, kind: Option<TileType>, min_dist_sq: int, p: Point) -> bool {
    &&& in_bounds(p)
    &&& (kind matches Some(t) ==> map.tile(p) == t)
    &&& dist_sq(map.player_spawn_point, p) > min_dist_sq
}

/// Indices of the tiles of `map` that pass `pool_candidate`, ascending.
fn candidate_pool(map: &GameMap, kind: Option<TileType>, min_dist_sq: i64) -> (r: Vec<usize>)
    requires
        map.wf(),
    ensures
        r@.no_duplicates(),
        r.len() <= num_tiles(),
        forall|k: int| 0 <= k < r.len() ==> #[trigger] r@[k] < num_tiles(),
        forall|i: int|
            0 <= i < num_tiles() ==> (r@.contains(i as usize) <==> pool_candidate(
                map,
                kind,
                min_dist_sq as int,
                #[trigger] point_of(i),
            )),
{
    let mut pool: Vec<usize> = Vec::new();
    let mut idx: usize = 0;
    while idx < MAP_TILES
        invariant
            map.wf(),
            0 <= idx <= num_tiles(),
            pool.len() <= idx,
            forall|a: int, b: int| 0 <= a < b < pool.len() ==> pool@[a] < pool@[b],
            forall|k: int| 0 <= k < pool.len() ==> #[trigger] pool@[k] < idx,
            forall|i: int|
                0 <= i < idx ==> (pool@.contains(i as usize) <==> pool_candidate(
                    map,
                    kind,
                    min_dist_sq as int,
                    #[trigger] point_of(i),
                )),
        decreases num_tiles() - idx,
    {
        let p = index_to_point(idx);
        let ghost old_pool = pool@;
        let kind_ok = match kind {
            Some(t) => map.tiles[idx] == t,
            None => true,
        };
        if kind_ok && distance_squared(map.player_spawn_point, p) > min_dist_sq as i128 {
            pool.push(idx);
        }
        proof {
            lemma_index_of_point(idx as int);
            assert forall|i: int|
                0 <= i < idx + 1 implies (pool@.contains(i as usize) <==> pool_candidate(
                map,
                kind,
                min_dist_sq as int,
                #[trigger] point_of(i),
            )) by {
                lemma_index_of_point(i);
                if i < idx {
                    if old_pool.contains(i as usize) {
                        let m = choose|m: int| 0 <= m < old_pool.len() && old_pool[m] == i as usize;
                        assert(pool@[m] == i as usize);
                    }
                    if pool@.contains(i as usize) {
                        let m = choose|m: int| 0 <= m < pool@.len() && pool@[m] == i as usize;
                        if m < old_pool.len() {
                            assert(old_pool[m] == i as usize);
                        }
                    }
                } else {
                    if pool@.contains(i as usize) {
                        let m = choose|m: int| 0 <= m < pool@.len() && pool@[m] == i as usize;
                        if m < old_pool.len() {
                            assert(old_pool[m] < idx);
                        }
                    }
                    if pool_candidate(map, kind, min_dist_sq as int, point_of(i)) {
                        assert(pool@[pool@.len() - 1] == idx);
                    }
                }
            }
        }
        idx += 1;
    }
    proof {
        assert forall|a: int, b: int| 0 <= a < b < pool.len() implies pool@[a] != pool@[b] by {}
    }
    pool
}

/// Up to twenty distinct enemy spawn points, drawn without replacement from
/// the floor tiles more than ten cells away from the player's start; fewer
/// only when there are fewer such tiles, and then all of them.
pub fn enemy_spawns(map: &GameMap, rng: &mut RandomNumberGenerator) -> (r: Vec<Point>)
    requires
        map.wf(),
    ensures
        r.len() <= 20,
        r@.no_duplicates(),
        forall|k: int| 0 <= k < r.len() ==> enemy_spawn_candidate(map, #[trigger] r@[k]),
        r.len() < 20 ==> forall|p: Point| enemy_spawn_candidate(map, p) ==> r@.contains(p),
{
    let pool = candidate_pool(map, Some(TileType::Floor), 100);
    let ghost pool_view = pool@;
    let drawn = draw_distinct(rng, pool, 20);
    let mut spawns: Vec<Point> = Vec::new();
    let mut k: usize = 0;
    while k < drawn.len()
        invariant
            map.wf(),
            0 <= k <= drawn.len(),
            drawn.len() <= 20,
            drawn@.no_duplicates(),
            forall|j: int| 0 <= j < drawn.len() ==> pool_view.contains(#[trigger] drawn@[j]),
            forall|j: int| 0 <= j < pool_view.len() ==> #[trigger] pool_view[j] < num_tiles(),
            forall|i: int|
                0 <= i < num_tiles() ==> (pool_view.contains(i as usize) <==> pool_candidate(
                    map,
                    Some(TileType::Floor),
                    100,
                    #[trigger] point_of(i),
                )),
            spawns.len() == k,
            forall|j: int| 0 <= j < k ==> #[trigger] spawns@[j] == point_of(drawn@[j] as int),
            forall|j: int| 0 <= j < k ==> #[trigger] drawn@[j] < num_tiles(),
        decreases drawn.len() - k,
    {
        let d = drawn[k];
        proof {
            assert(pool_view.contains(drawn@[k as int]));
            let m = choose|m: int| 0 <= m < pool_view.len() && pool_view[m] == d;
            assert(pool_view[m] < num_tiles());
        }
        spawns.push(index_to_point(d));
        k += 1;
    }
    proof {
        assert forall|j: int| 0 <= j < spawns.len() implies enemy_spawn_candidate(map, #[trigger] spawns@[j]) by {
            assert(pool_view.contains(drawn@[j]));
        }
        assert forall|a: int, b: int| 0 <= a < b < spawns.len() implies spawns@[a] != spawns@[b] by {
            lemma_index_of_point(drawn@[a] as int);
            lemma_index_of_point(drawn@[b] as int);
        }
        if spawns.len() < 20 {
            assert forall|p: Point| enemy_spawn_candidate(map, p) implies spawns@.contains(p) by {
                lemma_point_of_index(p);
                let i = index_of(p);
                assert(pool_view.contains(i as usize));
                let m = choose|m: int| 0 <= m < pool_view.len() && pool_view[m] == i as usize;
                assert(drawn@.contains(pool_view[m]));
                let j = choose|j: int| 0 <= j < drawn.len() && drawn@[j] == i as usize;
                assert(spawns@[j] == p);
            }
        }
    }
    spawns
}

/// Tile `i` is the core of the deposit or one of its in-bounds offset cells.
pub open spec fn deposit_covers(core: Point, offsets: Seq<Point>, i: int) -> bool {
    i == index_of(core) || exists|k: int|
        0 <= k < offsets.len() && in_bounds_xy(
            core.x + offsets[k].x,
            core.y + offsets[k].y,
        ) && index_xy(core.x + (#[trigger] offsets[k]).x, core.y + offsets[k].y) == i
}

/// Turns the core and every in-bounds cell of `core + offset` into `tile`,
/// except the player's start, which stays as it is; no other tile changes.
pub fn place_deposit(map: &mut GameMap, core: Point, offsets: &Vec<Point>, tile: TileType)
    requires
        old(map).wf(),
        in_bounds(core),
    ensures
        final(map).wf(),
        final(map).player_spawn_point == old(map).player_spawn_point,
        final(map).enemy_spawns == old(map).enemy_spawns,
        forall|i: int|
            0 <= i < num_tiles() ==> #[trigger] final(map).tiles@[i] == if deposit_covers(
                core,
                offsets@,
                i,
            ) && point_of(i) != old(map).player_spawn_point {
                tile
            } else {
                old(map).tiles@[i]
            },
{
    let ghost before = map.tiles@;
    let keep = map.player_spawn_point;
    let ci = point_to_index(core);
    proof {
        lemma_point_of_index(core);
    }
    if core != keep {
        map.tiles.set(ci, tile);
    }
    let mut k: usize = 0;
    while k < offsets.len()
        invariant
            map.wf(),
            map.player_spawn_point == old(map).player_spawn_point,
            map.enemy_spawns == old(map).enemy_spawns,
            keep == old(map).player_spawn_point,
            before == old(map).tiles@,
            in_bounds(core),
            0 <= k <= offsets.len(),
            forall|i: int|
                0 <= i < num_tiles() ==> #[trigger] map.tiles@[i] == if deposit_covers(
                    core,
                    offsets@.subrange(0, k as int),
                    i,
                ) && point_of(i) != keep {
                    tile
                } else {
                    before[i]
                },
        decreases offsets.len() - k,
    {
        let off = offsets[k];
        let x = core.x as i64 + off.x as i64;
        let y = core.y as i64 + off.y as i64;
        let ghost prev = map.tiles@;
        if 0 <= x && x < MAP_WIDTH as i64 && 0 <= y && y < MAP_HEIGHT as i64 {
            let cell = Point { x: x as i32, y: y as i32 };
            let ci = point_to_index(cell);
            proof {
                lemma_point_of_index(cell);
            }
            if cell != keep {
                map.tiles.set(ci, tile);
            }
        }
        proof {
            let pre = offsets@.subrange(0, k as int);
            let post = offsets@.subrange(0, k as int + 1);
            assert forall|i: int| 0 <= i < num_tiles() implies #[trigger] map.tiles@[i] == if deposit_covers(
                core,
                post,
                i,
            ) && point_of(i) != keep {
                tile
            } else {
                before[i]
            } by {
                lemma_index_of_point(i);
                if deposit_covers(core, pre, i) {
                    if i != index_of(core) {
                        let m = choose|m: int|
                            0 <= m < pre.len() && in_bounds_xy(core.x + pre[m].x, core.y + pre[m].y)
                                && index_xy(core.x + (#[trigger] pre[m]).x, core.y + pre[m].y) == i;
                        assert(post[m] == pre[m]);
                    }
                }
                if deposit_covers(core, post, i) && i != index_of(core) {
                    let m = choose|m: int|
                        0 <= m < post.len() && in_bounds_xy(core.x + post[m].x, core.y + post[m].y)
                            && index_xy(core.x + (#[trigger] post[m]).x, core.y + post[m].y) == i;
                    if m < k {
                        assert(pre[m] == post[m]);
                    } else {
                        assert(post[m] == off);
                    }
                }
                if 0 <= x < 75 && 0 <= y < 45 && i == index_xy(x as int, y as int) {
                    assert(post[k as int] == off);
                }
            }
        }
        k += 1;
    }
    proof {
        assert(offsets@.subrange(0, offsets.len() as int) =~= offsets@);
    }
}

/// The tiles after deposits of `tile`, core `cores[j]` taking shape
/// `shapes[j]` of `prefabs`: each covered tile but `keep` holds `tile`.
pub open spec fn deposit_cells(
    before: Seq<TileType>,
    cores: Seq<usize>,
    shapes: Seq<int>,
    prefabs: Seq<Seq<Point>>,
    tile: TileType,
    keep: Point,
) -> Seq<TileType> {
    Seq::new(
        before.len(),
        |i: int|
            if point_of(i) != keep && exists|j: int|
                0 <= j < cores.len() && deposit_covers(
                    point_of(#[trigger] cores[j] as int),
                    prefabs[shapes[j]],
                    i,
                ) {
                tile
            } else {
                before[i]
            },
    )
}

/// What placing deposits leaves, for some draw of cores and shapes: the
/// cores are distinct former walls, `count` of them or every wall when there
/// are fewer; each takes one shape of `prefabs`; exactly the cores and their
/// shapes' in-bounds cells, the player's start `keep` aside, become `tile`.
pub open spec fn deposits_placed(
    before: Seq<TileType>,
    after: Seq<TileType>,
    count: nat,
    tile: TileType,
    prefabs: Seq<Seq<Point>>,
    keep: Point,
) -> bool {
    exists|cores: Seq<usize>, shapes: Seq<int>|
        {
            &&& cores.no_duplicates()
            &&& cores.len() <= count
            &&& shapes.len() == cores.len()
            &&& (cores.len() == count || forall|i: int|
                0 <= i < num_tiles() && before[i] == TileType::Wall ==> cores.contains(i as usize))
            &&& forall|j: int|
                0 <= j < cores.len() ==> #[trigger] cores[j] < num_tiles() && before[cores[j] as int]
                    == TileType::Wall && 0 <= shapes[j] < prefabs.len()
            &&& after == deposit_cells(before, cores, shapes, prefabs, tile, keep)
        }
}

pub open spec fn shapes_of(prefabs: Seq<Vec<Point>>) -> Seq<Seq<Point>> {
    prefabs.map_values(|v: Vec<Point>| v@)
}

/// Chooses up to `count` distinct `Wall` cores and gives each a shape drawn
/// from `prefabs`, turning the core and the shape's cells into `tile`.
fn spawn_deposits(
    map: &mut GameMap,
    rng: &mut RandomNumberGenerator,
    count: usize,
    prefabs: &Vec<Vec<Point>>,
    tile: TileType,
)
    requires
        old(map).wf(),
        0 < prefabs.len() < 100,
    ensures
        final(map).wf(),
        final(map).player_spawn_point == old(map).player_spawn_point,
        final(map).enemy_spawns == old(map).enemy_spawns,
        deposits_placed(
            old(map).tiles@,
            final(map).tiles@,
            count as nat,
            tile,
            shapes_of(prefabs@),
            old(map).player_spawn_point,
        ),
{
    let ghost before = map.tiles@;
    let ghost keep = map.player_spawn_point;
    let ghost pv = shapes_of(prefabs@);
    let pool = candidate_pool(map, Some(TileType::Wall), -1);
    let ghost pool_view = pool@;
    proof {
        assert forall|i: int| 0 <= i < num_tiles() implies (pool_view.contains(i as usize) <==> (
        #[trigger] before[i]) == TileType::Wall) by {
            lemma_index_of_point(i);
            lemma_dist_sq_nonneg(map.player_spawn_point, point_of(i));
            assert(pool_candidate(map, Some(TileType::Wall), -1, point_of(i)) ==> before[i]
                == TileType::Wall);
            assert(before[i] == TileType::Wall ==> pool_candidate(
                map,
                Some(TileType::Wall),
                -1,
                point_of(i),
            ));
        }
    }
    let cores = draw_distinct(rng, pool, count);
    proof {
        assert forall|j: int| 0 <= j < cores@.len() implies #[trigger] cores@[j] < num_tiles() by {
            assert(pool_view.contains(cores@[j]));
            let m = choose|m: int| 0 <= m < pool_view.len() && pool_view[m] == cores@[j];
            assert(pool_view[m] < num_tiles());
        }
    }
    let ghost mut shapes: Seq<int> = Seq::empty();
    let mut k: usize = 0;
    while k < cores.len()
        invariant
            map.wf(),
            map.player_spawn_point == keep,
            keep == old(map).player_spawn_point,
            map.enemy_spawns == old(map).enemy_spawns,
            before == old(map).tiles@,
            before.len() == num_tiles(),
            pv == shapes_of(prefabs@),
            0 <= k <= cores.len(),
            0 < prefabs.len() < 100,
            shapes.len() == k,
            forall|j: int| 0 <= j < k ==> 0 <= #[trigger] shapes[j] < prefabs.len(),
            forall|j: int| 0 <= j < cores.len() ==> #[trigger] cores@[j] < num_tiles(),
            map.tiles@ == deposit_cells(before, cores@.subrange(0, k as int), shapes, pv, tile, keep),
        decreases cores.len() - k,
    {
        let c = cores[k];
        let core = index_to_point(c);
        let choice = roll_range(rng, 0, prefabs.len() as i32) as usize;
        let offsets = &prefabs[choice];
        let ghost prev = map.tiles@;
        place_deposit(map, core, offsets, tile);
        proof {
            let cs0 = cores@.subrange(0, k as int);
            let cs1 = cores@.subrange(0, k as int + 1);
            let sh1 = shapes.push(choice as int);
            assert(pv[choice as int] == offsets@);
            assert forall|i: int| 0 <= i < num_tiles() implies #[trigger] map.tiles@[i] == deposit_cells(
                before,
                cs1,
                sh1,
                pv,
                tile,
                keep,
            )[i] by {
                let old_cov = exists|j: int|
                    0 <= j < cs0.len() && deposit_covers(
                        point_of(#[trigger] cs0[j] as int),
                        pv[shapes[j]],
                        i,
                    );
                let new_cov = exists|j: int|
                    0 <= j < cs1.len() && deposit_covers(
                        point_of(#[trigger] cs1[j] as int),
                        pv[sh1[j]],
                        i,
                    );
                if old_cov {
                    let j = choose|j: int|
                        0 <= j < cs0.len() && deposit_covers(
                            point_of(#[trigger] cs0[j] as int),
                            pv[shapes[j]],
                            i,
                        );
                    assert(cs1[j] == cs0[j] && sh1[j] == shapes[j]);
                }
                if new_cov {
                    let j = choose|j: int|
                        0 <= j < cs1.len() && deposit_covers(
                            point_of(#[trigger] cs1[j] as int),
                            pv[sh1[j]],
                            i,
                        );
                    if j < k {
                        assert(cs1[j] == cs0[j] && sh1[j] == shapes[j]);
                    } else {
                        assert(cs1[j] == c && sh1[j] == choice);
                    }
                }
                if deposit_covers(core, offsets@, i) {
                    assert(cs1[k as int] == c && sh1[k as int] == choice);
                }
            }
            assert(map.tiles@ =~= deposit_cells(before, cs1, sh1, pv, tile, keep));
            shapes = sh1;
        }
        k += 1;
    }
    proof {
        let cs = cores@;
        assert(cs.subrange(0, k as int) =~= cs);
        assert forall|j: int| 0 <= j < cs.len() implies #[trigger] cs[j] < num_tiles() && before[cs[j] as int]
            == TileType::Wall && 0 <= shapes[j] < pv.len() by {
            assert(pool_view.contains(cs[j]));
        }
        if cs.len() != count {
            assert forall|i: int| 0 <= i < num_tiles() && before[i] == TileType::Wall implies cs.contains(
                i as usize,
            ) by {
                assert(pool_view.contains(i as usize));
                let m = choose|m: int| 0 <= m < pool_view.len() && pool_view[m] == i as usize;
                assert(cs.contains(pool_view[m]));
            }
        }
        assert(deposits_placed(before, map.tiles@, count as nat, tile, pv, keep));
    }
}

/// The offset `(x, y)` of a deposit shape.
pub open spec fn offset_of(x: int, y: int) -> Point {
    Point { x: x as i32, y: y as i32 }
}

/// Gold deposit shapes: horizontal and vertical bars, four L shapes, four T shapes and a star.
pub open spec fn gold_shapes() -> Seq<Seq<Point>> {
    seq![
        seq![offset_of(1, 0), offset_of(-1, 0)],
        seq![offset_of(0, 1), offset_of(0, -1)],
        seq![offset_of(0, -1), offset_of(1, 0)],
        seq![offset_of(0, -1), offset_of(-1, 0)],
        seq![offset_of(0, 1), offset_of(1, 0)],
        seq![offset_of(0, 1), offset_of(-1, 0)],
        seq![offset_of(1, 0), offset_of(-1, 0), offset_of(0, -1)],
        seq![offset_of(1, 0), offset_of(-1, 0), offset_of(0, 1)],
        seq![offset_of(0, 1), offset_of(0, -1), offset_of(1, 0)],
        seq![offset_of(0, 1), offset_of(0, -1), offset_of(-1, 0)],
        seq![offset_of(0, 1), offset_of(0, -1), offset_of(-1, 0), offset_of(1, 0)],
    ]
}

/// Places nine gold deposits, each a wall core with one of the shapes above.
pub fn spawn_gold(map: &mut GameMap, rng: &mut RandomNumberGenerator)
    requires
        old(map).wf(),
    ensures
        final(map).wf(),
        final(map).player_spawn_point == old(map).player_spawn_point,
        final(map).enemy_spawns == old(map).enemy_spawns,
        deposits_placed(
            old(map).tiles@,
            final(map).tiles@,
            9,
            TileType::Gold,
            gold_shapes(),
            old(map).player_spawn_point,
        ),
{
    let prefabs: Vec<Vec<Point>> = vec![
        vec![Point::new(1, 0), Point::new(-1, 0)],
        vec![Point::new(0, 1), Point::new(0, -1)],
        vec![Point::new(0, -1), Point::new(1, 0)],
        vec![Point::new(0, -1), Point::new(-1, 0)],
        vec![Point::new(0, 1), Point::new(1, 0)],
        vec![Point::new(0, 1), Point::new(-1, 0)],
        vec![Point::new(1, 0), Point::new(-1, 0), Point::new(0, -1)],
        vec![Point::new(1, 0), Point::new(-1, 0), Point::new(0, 1)],
        vec![Point::new(0, 1), Point::new(0, -1), Point::new(1, 0)],
        vec![Point::new(0, 1), Point::new(0, -1), Point::new(-1, 0)],
        vec![Point::new(0, 1), Point::new(0, -1), Point::new(-1, 0), Point::new(1, 0)],
    ];
    proof {
        assert(shapes_of(prefabs@) =~= gold_shapes());
    }
    spawn_deposits(map, rng, 9, &prefabs, TileType::Gold);
}

/// Red crystal deposit shapes: four one-cell bars and four two-by-two boxes.
pub open spec fn crystal_shapes() -> Seq<Seq<Point>> {
    seq![
        seq![offset_of(1, 0)],
        seq![offset_of(-1, 0)],
        seq![offset_of(0, 1)],
        seq![offset_of(0, -1)],
        seq![offset_of(1, 0), offset_of(1, -1), offset_of(0, -1)],
        seq![offset_of(-1, 0), offset_of(-1, -1), offset_of(0, -1)],
        seq![offset_of(1, 0), offset_of(1, 1), offset_of(0, 1)],
        seq![offset_of(-1, 0), offset_of(-1, 1), offset_of(0, 1)],
    ]
}

/// Places seven red crystal deposits, each a wall core with one of the shapes above.
pub fn spawn_red_crystal(map: &mut GameMap, rng: &mut RandomNumberGenerator)
    requires
        old(map).wf(),
    ensures
        final(map).wf(),
        final(map).player_spawn_point == old(map).player_spawn_point,
        final(map).enemy_spawns == old(map).enemy_spawns,
        deposits_placed(
            old(map).tiles@,
            final(map).tiles@,
            7,
            TileType::RedCrystal,
            crystal_shapes(),
            old(map).player_spawn_point,
        ),
{
    let prefabs: Vec<Vec<Point>> = vec![
        vec![Point::new(1, 0)],
        vec![Point::new(-1, 0)],
        vec![Point::new(0, 1)],
        vec![Point::new(0, -1)],
        vec![Point::new(1, 0), Point::new(1, -1), Point::new(0, -1)],
        vec![Point::new(-1, 0), Point::new(-1, -1), Point::new(0, -1)],
        vec![Point::new(1, 0), Point::new(1, 1), Point::new(0, 1)],
        vec![Point::new(-1, 0), Point::new(-1, 1), Point::new(0, 1)],
    ];
    proof {
        assert(prefabs@[0]@ =~= crystal_shapes()[0]);
        assert(prefabs@[1]@ =~= crystal_shapes()[1]);
        assert(prefabs@[2]@ =~= crystal_shapes()[2]);
        assert(prefabs@[3]@ =~= crystal_shapes()[3]);
        assert(prefabs@[4]@ =~= crystal_shapes()[4]);
        assert(prefabs@[5]@ =~= crystal_shapes()[5]);
        assert(prefabs@[6]@ =~= crystal_shapes()[6]);
        assert(prefabs@[7]@ =~= crystal_shapes()[7]);
        assert(shapes_of(prefabs@) =~= crystal_shapes());
    }
    spawn_deposits(map, rng, 7, &prefabs, TileType::RedCrystal);
}

/// A tile where the giant gem may lie: more than thirty cells from the player's start.
pub open spec fn gem_candidate(map: &GameMap, p: Point) -> bool {
    in_bounds(p) && dist_sq(map.player_spawn_point, p) > 900
}

/// Overwrites one tile drawn from those more than thirty cells away from the
/// player's start with the giant gem; with no such tile the map is unchanged.
pub fn spawn_giant_gem(map: &mut GameMap, rng: &mut RandomNumberGenerator)
    requires
        old(map).wf(),
    ensures
        final(map).wf(),
        final(map).player_spawn_point == old(map).player_spawn_point,
        final(map).enemy_spawns == old(map).enemy_spawns,
        (forall|p: Point| !gem_candidate(old(map), p)) ==> final(map).tiles@ == old(map).tiles@,
        (exists|p: Point| gem_candidate(old(map), p)) ==> exists|p: Point|
            gem_candidate(old(map), p) && #[trigger] final(map).tiles@ == old(map).tiles@.update(
                index_of(p),
                TileType::GiantGem,
            ),
{
    let pool = candidate_pool(map, None, 900);
    let ghost pool_view = pool@;
    match pick_index(rng, &pool) {
        Some(k) => {
            let i = pool[k];
            proof {
                assert(pool_view.contains(i));
                lemma_index_of_point(i as int);
            }
            map.tiles.set(i, TileType::GiantGem);
            proof {
                let p = point_of(i as int);
                assert(gem_candidate(old(map), p));
            }
        },
        None => {
            proof {
                assert forall|p: Point| !gem_candidate(old(map), p) by {
                    if gem_candidate(old(map), p) {
                        lemma_point_of_index(p);
                        assert(pool_view.contains(index_of(p) as usize));
                    }
                }
            }
        },
    }
}

/// The record of the player: `@`, white on black, 20 health, 5 damage, mine range 1.
pub open spec fn is_player_record(r: EntityRecord, position: Point) -> bool {
    &&& r.position == Some(position)
    &&& name_of(r) == "Player"@
    &&& r.renderable == Some(
        Renderable { color: ColorPair { fg: Rgb(255, 255, 255), bg: Rgb(0, 0, 0) }, glyph: '@' },
    )
    &&& r.stats == Some(Stats { max_health: 20, health: 20, damage: 5 })
    &&& r.player is Some && r.enemy is None
    &&& r.random_movement is None && r.targeted_movement is None
    &&& r.mine_range == Some(MineRange(1))
}

/// The record of a cave spider: `s`, chocolate on black, 5 health, 1 damage, moves at random.
pub open spec fn is_cave_spider_record(r: EntityRecord, position: Point) -> bool {
    &&& r.position == Some(position)
    &&& name_of(r) == "Cave Spider"@
    &&& r.renderable == Some(
        Renderable { color: ColorPair { fg: Rgb(210, 105, 30), bg: Rgb(0, 0, 0) }, glyph: 's' },
    )
    &&& r.stats == Some(Stats { max_health: 5, health: 5, damage: 1 })
    &&& r.enemy is Some && r.player is None
    &&& r.random_movement is Some && r.targeted_movement is None
    &&& r.mine_range is None
}

/// The record of a goblin: `g`, green on black, 15 health, 3 damage, hunts the player.
pub open spec fn is_goblin_record(r: EntityRecord, position: Point) -> bool {
    &&& r.position == Some(position)
    &&& name_of(r) == "Goblin"@
    &&& r.renderable == Some(
        Renderable { color: ColorPair { fg: Rgb(0, 255, 0), bg: Rgb(0, 0, 0) }, glyph: 'g' },
    )
    &&& r.stats == Some(Stats { max_health: 15, health: 15, damage: 3 })
    &&& r.enemy is Some && r.player is None
    &&& r.targeted_movement is Some && r.random_movement is None
    &&& r.mine_range is None
}

/// The world with one record more, under a fresh identifier.
pub open spec fn spawned(old_world: &World, new_world: &World) -> bool {
    &&& new_world.wf()
    &&& new_world.next_id == old_world.next_id + 1
    &&& new_world.entities@.len() == old_world.entities@.len() + 1
    &&& new_world.entities@.drop_last() == old_world.entities@
    &&& new_world.entities@.last().entity == Entity(old_world.next_id)
}

/// Spawns the player at `position`.
pub fn spawn_player(ecs: &mut World, position: Point)
    requires
        old(ecs).wf(),
        old(ecs).next_id < u64::MAX,
    ensures
        spawned(old(ecs), final(ecs)),
        is_player_record(final(ecs).entities@.last(), position),
{
    let record = EntityRecord {
        entity: Entity(0),
        position: Some(position),
        name: Some(Name(String::from_str("Player"))),
        renderable: Some(
            Renderable { color: ColorPair { fg: Rgb(255, 255, 255), bg: Rgb(0, 0, 0) }, glyph: '@' },
        ),
        stats: Some(Stats { max_health: 20, health: 20, damage: 5 }),
        player: Some(Player),
        enemy: None,
        random_movement: None,
        targeted_movement: None,
        mine_range: Some(MineRange(1)),
    };
    ecs.push(record);
    proof {
        assert(ecs.entities@.drop_last() =~= old(ecs).entities@);
    }
}

/// Spawns a cave spider at `position`.
pub fn spawn_cave_spider(ecs: &mut World, position: Point)
    requires
        old(ecs).wf(),
        old(ecs).next_id < u64::MAX,
    ensures
        spawned(old(ecs), final(ecs)),
        is_cave_spider_record(final(ecs).entities@.last(), position),
{
    let record = EntityRecord {
        entity: Entity(0),
        position: Some(position),
        name: Some(Name(String::from_str("Cave Spider"))),
        renderable: Some(
            Renderable { color: ColorPair { fg: Rgb(210, 105, 30), bg: Rgb(0, 0, 0) }, glyph: 's' },
        ),
        stats: Some(Stats { max_health: 5, health: 5, damage: 1 }),
        player: None,
        enemy: Some(Enemy),
        random_movement: Some(RandomMovement),
        targeted_movement: None,
        mine_range: None,
    };
    ecs.push(record);
    proof {
        assert(ecs.entities@.drop_last() =~= old(ecs).entities@);
    }
}

/// Spawns a goblin at `position`.
pub fn spawn_goblin(ecs: &mut World, position: Point)
    requires
        old(ecs).wf(),
        old(ecs).next_id < u64::MAX,
    ensures
        spawned(old(ecs), final(ecs)),
        is_goblin_record(final(ecs).entities@.last(), position),
{
    let record = EntityRecord {
        entity: Entity(0),
        position: Some(position),
        name: Some(Name(String::from_str("Goblin"))),
        renderable: Some(
            Renderable { color: ColorPair { fg: Rgb(0, 255, 0), bg: Rgb(0, 0, 0) }, glyph: 'g' },
        ),
        stats: Some(Stats { max_health: 15, health: 15, damage: 3 }),
        player: None,
        enemy: Some(Enemy),
        random_movement: None,
        targeted_movement: Some(TargetedMovement),
        mine_range: None,
    };
    ecs.push(record);
    proof {
        assert(ecs.entities@.drop_last() =~= old(ecs).entities@);
    }
}

/// The enemy a roll of `0..3` gives: a cave spider for 0 or 1, a goblin for 2.
pub open spec fn enemy_for_roll(r: EntityRecord, position: Point, roll: i32) -> bool {
    if roll < 2 {
        is_cave_spider_record(r, position)
    } else {
        is_goblin_record(r, position)
    }
}

/// From record `n0` on, record `n0 + k` is the enemy that roll `rolls[k]`
/// of `0..3` gives at `spawns[k]`.
pub open spec fn enemies_rolled(ents: Seq<EntityRecord>, n0: int, spawns: Seq<Point>, rolls: Seq<i32>) -> bool {
    rolls.len() == spawns.len() && forall|k: int|
        0 <= k < spawns.len() ==> 0 <= #[trigger] rolls[k] < 3 && enemy_for_roll(
            ents[n0 + k],
            spawns[k],
            rolls[k],
        )
}

/// Spawns at `position` the enemy that `roll` stands for.
pub fn spawn_enemy(ecs: &mut World, position: Point, roll: i32)
    requires
        old(ecs).wf(),
        old(ecs).next_id < u64::MAX,
    ensures
        spawned(old(ecs), final(ecs)),
        enemy_for_roll(final(ecs).entities@.last(), position, roll),
{
    if roll < 2 {
        spawn_cave_spider(ecs, position);
    } else {
        spawn_goblin(ecs, position);
    }
}

/// Spawns one enemy on each point, in order, of the kind a roll of `0..3`
/// drawn for it gives: a cave spider with chance two in three, else a goblin.
pub fn spawn_enemies(ecs: &mut World, spawns: &Vec<Point>, rng: &mut RandomNumberGenerator)
    requires
        old(ecs).wf(),
        old(ecs).next_id + spawns@.len() < u64::MAX,
    ensures
        final(ecs).wf(),
        final(ecs).next_id == old(ecs).next_id + spawns@.len(),
        final(ecs).entities@.len() == old(ecs).entities@.len() + spawns@.len(),
        final(ecs).entities@.subrange(0, old(ecs).entities@.len() as int) == old(ecs).entities@,
        forall|k: int|
            0 <= k < spawns@.len() ==> (#[trigger] final(ecs).entities@[old(ecs).entities@.len() + k]).entity
                == Entity((old(ecs).next_id + k) as u64),
        exists|rolls: Seq<i32>|
            #[trigger] enemies_rolled(final(ecs).entities@, old(ecs).entities@.len() as int, spawns@, rolls),
{
    let ghost n0 = old(ecs).entities@.len();
    let ghost mut rolls: Seq<i32> = Seq::empty();
    let mut k: usize = 0;
    while k < spawns.len()
        invariant
            ecs.wf(),
            0 <= k <= spawns@.len(),
            old(ecs).next_id + spawns@.len() < u64::MAX,
            n0 == old(ecs).entities@.len(),
            ecs.next_id == old(ecs).next_id + k,
            ecs.entities@.len() == n0 + k,
            ecs.entities@.subrange(0, n0 as int) == old(ecs).entities@,
            rolls.len() == k,
            forall|j: int|
                0 <= j < k ==> (#[trigger] ecs.entities@[n0 + j]).entity == Entity(
                    (old(ecs).next_id + j) as u64,
                ) && 0 <= rolls[j] < 3 && enemy_for_roll(ecs.entities@[n0 + j], spawns@[j], rolls[j]),
        decreases spawns@.len() - k,
    {
        let ghost before = ecs.entities@;
        let roll = roll_range(rng, 0, 3);
        spawn_enemy(ecs, spawns[k], roll);
        proof {
            assert(ecs.entities@.subrange(0, n0 as int) =~= before.subrange(0, n0 as int));
            let r1 = rolls.push(roll);
            assert forall|j: int| 0 <= j < k + 1 implies (#[trigger] ecs.entities@[n0 + j]).entity == Entity(
                (old(ecs).next_id + j) as u64,
            ) && 0 <= r1[j] < 3 && enemy_for_roll(ecs.entities@[n0 + j], spawns@[j], r1[j]) by {
                if j < k {
                    assert(ecs.entities@[n0 + j] == ecs.entities@.drop_last()[n0 + j]);
                    assert(r1[j] == rolls[j]);
                }
            }
            rolls = r1;
        }
        k += 1;
    }
    proof {
        let fin = ecs.entities@;
        assert forall|k: int| 0 <= k < spawns@.len() implies 0 <= #[trigger] rolls[k] < 3 && enemy_for_roll(
            fin[n0 + k],
            spawns@[k],
            rolls[k],
        ) by {
            assert(fin[n0 + k] == ecs.entities@[n0 + k]);
        }
        assert(enemies_rolled(fin, n0 as int, spawns@, rolls));
    }
}

} // verus!
