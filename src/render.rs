//! What the display draws of the map: one glyph and colour pair per tile.

use vstd::prelude::*;
use crate::ai::{InputValues, first_input_player};
use crate::components::{Rgb, ColorPair};
use crate::geometry::{Point, MAP_TILES, num_tiles, point_of, index_to_point};
use crate::map::{GameMap, TileType};
use crate::systems::{in_range, abs};
use crate::world::World;

verus! {

pub open spec fn on_black(fg: Rgb) -> ColorPair {
    ColorPair { fg, bg: Rgb(0, 0, 0) }
}

/// The look of a tile: floor is a white dot; every other tile is a `#` whose
/// colour tells its kind, a darker shade under the mouse; a wall under the
/// mouse is bright cyan when it is within the player's mining range.
pub open spec fn tile_look(t: TileType, hovered: bool, reachable: bool) -> (ColorPair, char) {
    match t {
        TileType::Floor => (on_black(Rgb(255, 255, 255)), '.'),
        TileType::Wall => (
            if hovered {
                if reachable {
                    on_black(Rgb(0, 255, 255))
                } else {
                    on_black(Rgb(0, 139, 139))
                }
            } else {
                on_black(Rgb(222, 184, 135))
            },
            '#',
        ),
        TileType::Gold => (
            if hovered {
                on_black(Rgb(218, 165, 32))
            } else {
                on_black(Rgb(255, 215, 0))
            },
            '#',
        ),
        TileType::RedCrystal => (
            if hovered {
                on_black(Rgb(139, 0, 0))
            } else {
                on_black(Rgb(255, 0, 0))
            },
            '#',
        ),
        TileType::GiantGem => (
            if hovered {
                on_black(Rgb(148, 0, 211))
            } else {
                on_black(Rgb(238, 130, 238))
            },
            '#',
        ),
    }
}

fn look_of(t: TileType, hovered: bool, reachable: bool) -> (r: (ColorPair, char))
    ensures
        r == tile_look(t, hovered, reachable),
{
    let black = Rgb(0, 0, 0);
    match t {
        TileType::Floor => (ColorPair { fg: Rgb(255, 255, 255), bg: black }, '.'),
        TileType::Wall => {
            let fg = if hovered {
                if reachable {
                    Rgb(0, 255, 255)
                } else {
                    Rgb(0, 139, 139)
                }
            } else {
                Rgb(222, 184, 135)
            };
            (ColorPair { fg, bg: black }, '#')
        },
        TileType::Gold => {
            let fg = if hovered { Rgb(218, 165, 32) } else { Rgb(255, 215, 0) };
            (ColorPair { fg, bg: black }, '#')
        },
        TileType::RedCrystal => {
            let fg = if hovered { Rgb(139, 0, 0) } else { Rgb(255, 0, 0) };
            (ColorPair { fg, bg: black }, '#')
        },
        TileType::GiantGem => {
            let fg = if hovered { Rgb(148, 0, 211) } else { Rgb(238, 130, 238) };
            (ColorPair { fg, bg: black }, '#')
        },
    }
}

/// The mouse is within the mining range of the player (the first record
/// with the `Player` tag, a position and a mine range); false with no player.
pub open spec fn mouse_reachable(world: &World, mouse: Point) -> bool {
    match first_input_player(world.entities@) {
        Some(p) => {
            let pos = world.entities@[p].position.unwrap();
            let range = world.entities@[p].mine_range.unwrap().0;
            abs(pos.x - mouse.x) <= range && abs(pos.y - mouse.y) <= range
        },
        None => false,
    }
}

/// Every tile of the map, in index order, with its look.
pub fn map_render(ecs: &World, map: &GameMap, input: &InputValues) -> (r: Vec<(Point, ColorPair, char)>)
    requires
        map.wf(),
    ensures
        r@.len() == num_tiles(),
        forall|i: int|
            0 <= i < num_tiles() ==> {
                let (cp, g) = tile_look(
                    map.tiles@[i],
                    point_of(i) == (Point { x: input.mouse_pos.0, y: input.mouse_pos.1 }),
                    mouse_reachable(ecs, Point { x: input.mouse_pos.0, y: input.mouse_pos.1 }),
                );
                #[trigger] r@[i] == (point_of(i), cp, g)
            },
{
    let mouse = Point::new(input.mouse_pos.0, input.mouse_pos.1);
    let reachable = match crate::ai::find_input_player(ecs) {
        Some(p) => in_range(
            ecs.entities[p].position.unwrap(),
            mouse,
            ecs.entities[p].mine_range.unwrap().0,
        ),
        None => false,
    };
    let mut r: Vec<(Point, ColorPair, char)> = Vec::new();
    let mut i: usize = 0;
    while i < MAP_TILES
        invariant
            map.wf(),
            0 <= i <= num_tiles(),
            r@.len() == i,
            reachable == mouse_reachable(ecs, mouse),
            mouse == (Point { x: input.mouse_pos.0, y: input.mouse_pos.1 }),
            forall|j: int|
                0 <= j < i ==> {
                    let (cp, g) = tile_look(map.tiles@[j], point_of(j) == mouse, reachable);
                    #[trigger] r@[j] == (point_of(j), cp, g)
                },
        decreases num_tiles() - i,
    {
        let p = index_to_point(i);
        let (cp, g) = look_of(map.tiles[i], p == mouse, reachable);
        r.push((p, cp, g));
        i += 1;
    }
    r
}

} // verus!
