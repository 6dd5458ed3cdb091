//! The tile grid and its generators: a fixed 80x50 play area stored as one
//! flat vector of tiles, with the linear index mapping `idx(x, y) =
//! y * width + x`, filled either by random wall-splatter or by carving
//! rooms and corridors out of solid rock.

use crate::components::Rgb;
use crate::rect::Rect;
use crate::rng::{rng_new, roll_die};
use vstd::prelude::*;

verus! {

/// A single cell of the play area.
#[derive(Clone, Copy, PartialEq, Eq, Debug, Structural)]
pub enum TileType {
    Wall,
    Floor,
}

/// The linear index of grid coordinates `(x, y)`.
pub open spec fn idx_spec(x: int, y: int) -> int {
    y * 80 + x
}

/// Whether `(x, y)` lies on the grid.
pub open spec fn in_bounds(x: int, y: int) -> bool {
    0 <= x < 80 && 0 <= y < 50
}

/// The tile stored for `(x, y)` in a flat grid.
pub open spec fn tile_at(map: Seq<TileType>, x: int, y: int) -> TileType {
    map[idx_spec(x, y)]
}

/// Whether `(x, y)` lies on the outermost row or column of the grid.
pub open spec fn is_border(x: int, y: int) -> bool {
    x == 0 || x == 79 || y == 0 || y == 49
}

/// Maps grid coordinates to the flat index. Callers must bounds-check first:
/// an out-of-range coordinate pair is a contract violation, never a wrapped
/// index that would touch some other row.
pub fn xy_idx(x: i32, y: i32) -> (idx: usize)
    requires
        in_bounds(x as int, y as int),
    ensures
        idx == idx_spec(x as int, y as int),
        idx < 4000,
{
    (y as usize) * 80 + (x as usize)
}

/// The flat index mapping is a bijection between in-bounds coordinate pairs
/// and their indices: two in-bounds pairs share an index exactly when they
/// are the same pair.
pub proof fn lemma_xy_idx_injective(x1: int, y1: int, x2: int, y2: int)
    requires
        in_bounds(x1, y1),
        in_bounds(x2, y2),
    ensures
        idx_spec(x1, y1) == idx_spec(x2, y2) <==> (x1 == x2 && y1 == y2),
{
}

/// A grid of 4000 copies of one tile.
fn filled(tile: TileType) -> (map: Vec<TileType>)
    ensures
        map@.len() == 4000,
        forall|i: int| 0 <= i < 4000 ==> map@[i] == tile,
{
    let mut map: Vec<TileType> = Vec::new();
    while map.len() < 4000
        invariant
            map@.len() <= 4000,
            forall|i: int| 0 <= i < map@.len() ==> map@[i] == tile,
        decreases 4000 - map@.len(),
    {
        map.push(tile);
    }
    map
}

/// Carves the interior of a room to floor: every tile with
/// `x1 < x <= x2` and `y1 < y <= y2` becomes `Floor`, the rest of the
/// grid is untouched.
#[verifier::loop_isolation(false)]
pub fn apply_room_to_map(room: &Rect, map: &mut Vec<TileType>)
    requires
        old(map)@.len() == 4000,
        0 <= room.x1 < room.x2 < 80,
        0 <= room.y1 < room.y2 < 50,
    ensures
        final(map)@.len() == 4000,
        forall|x: int, y: int| in_bounds(x, y) ==> #[trigger] tile_at(final(map)@, x, y) == (
            if room.x1 < x <= room.x2 && room.y1 < y <= room.y2 {
                TileType::Floor
            } else {
                tile_at(old(map)@, x, y)
            }
        ),
{
    let mut y: i32 = room.y1 + 1;
    while y <= room.y2
        invariant
            room.y1 < y <= room.y2 + 1,
            map@.len() == 4000,
            forall|xx: int, yy: int| in_bounds(xx, yy) ==> #[trigger] tile_at(map@, xx, yy) == (
                if room.x1 < xx <= room.x2 && room.y1 < yy < y {
                    TileType::Floor
                } else {
                    tile_at(old(map)@, xx, yy)
                }
            ),
        decreases room.y2 + 1 - y,
    {
        let mut x: i32 = room.x1 + 1;
        while x <= room.x2
            invariant
                room.x1 < x <= room.x2 + 1,
                room.y1 < y <= room.y2,
                map@.len() == 4000,
                forall|xx: int, yy: int| in_bounds(xx, yy) ==> #[trigger] tile_at(map@, xx, yy) == (
                    if (room.x1 < xx <= room.x2 && room.y1 < yy < y) || (yy == y && room.x1 < xx
                        < x) {
                        TileType::Floor
                    } else {
                        tile_at(old(map)@, xx, yy)
                    }
                ),
            decreases room.x2 + 1 - x,
        {
            let i: usize = xy_idx(x, y);
            let ghost snap = map@;
            map.set(i, TileType::Floor);
            proof {
                assert forall|xx: int, yy: int| in_bounds(xx, yy) implies #[trigger] tile_at(
                    map@,
                    xx,
                    yy,
                ) == (
                    if (room.x1 < xx <= room.x2 && room.y1 < yy < y) || (yy == y && room.x1 < xx
                        < x + 1) {
                        TileType::Floor
                    } else {
                        tile_at(old(map)@, xx, yy)
                    }
                ) by {
                    lemma_xy_idx_injective(xx, yy, x as int, y as int);
                    assert(tile_at(snap, xx, yy) == (
                        if (room.x1 < xx <= room.x2 && room.y1 < yy < y) || (yy == y && room.x1
                            < xx < x) {
                            TileType::Floor
                        } else {
                            tile_at(old(map)@, xx, yy)
                        }
                    ));
                }
            }
            x = x + 1;
        }
        y = y + 1;
    }
}

/// Whether flat index `i` lies on the horizontal tunnel at row `y` between
/// columns `x1` and `x2` (in either order, inclusive).
pub open spec fn on_horizontal_tunnel(i: int, x1: int, x2: int, y: int) -> bool {
    exists|xx: int|
        vstd::math::min(x1, x2) <= xx <= vstd::math::max(x1, x2) && i == #[trigger] idx_spec(
            xx,
            y,
        )
}

/// Whether flat index `i` lies on the vertical tunnel at column `x` between
/// rows `y1` and `y2` (in either order, inclusive).
pub open spec fn on_vertical_tunnel(i: int, y1: int, y2: int, x: int) -> bool {
    exists|yy: int|
        vstd::math::min(y1, y2) <= yy <= vstd::math::max(y1, y2) && i == #[trigger] idx_spec(
            x,
            yy,
        )
}

/// Carves a straight tunnel at row `y` between columns `x1` and `x2`: each
/// candidate flat index is checked against the grid length and skipped
/// silently when out of range, so the carve never fails.
#[verifier::loop_isolation(false)]
pub fn apply_horizontal_tunnel(map: &mut Vec<TileType>, x1: i32, x2: i32, y: i32)
    requires
        old(map)@.len() == 4000,
        x1 < i32::MAX,
        x2 < i32::MAX,
    ensures
        final(map)@.len() == 4000,
        forall|i: int| 0 <= i < 4000 ==> #[trigger] final(map)@[i] == (
            if on_horizontal_tunnel(i, x1 as int, x2 as int, y as int) {
                TileType::Floor
            } else {
                old(map)@[i]
            }
        ),
{
    let start: i32 = if x1 <= x2 {
        x1
    } else {
        x2
    };
    let end: i32 = if x1 <= x2 {
        x2
    } else {
        x1
    };
    let mut x: i32 = start;
    while x <= end
        invariant
            start <= x <= end + 1,
            map@.len() == 4000,
            forall|i: int| 0 <= i < 4000 ==> #[trigger] map@[i] == (
                if exists|xx: int| start <= xx < x && i == #[trigger] idx_spec(xx, y as int) {
                    TileType::Floor
                } else {
                    old(map)@[i]
                }
            ),
        decreases end + 1 - x,
    {
        let ghost snap = map@;
        let idx64: i64 = (y as i64) * 80 + (x as i64);
        proof {
            assert(idx64 == idx_spec(x as int, y as int));
        }
        if 0 <= idx64 && idx64 < 4000 {
            map.set(idx64 as usize, TileType::Floor);
        }
        proof {
            assert forall|i: int| 0 <= i < 4000 implies map@[i] == (
                if exists|xx: int| start <= xx < x + 1 && i == #[trigger] idx_spec(xx, y as int) {
                    TileType::Floor
                } else {
                    old(map)@[i]
                }
            ) by {
                if i == idx_spec(x as int, y as int) {
                    assert(start <= x < x + 1 && i == idx_spec(x as int, y as int));
                } else {
                    assert(map@[i] == snap[i]);
                    if exists|xx: int| start <= xx < x + 1 && i == #[trigger] idx_spec(
                        xx,
                        y as int,
                    ) {
                        let xx: int = choose|xx: int|
                            start <= xx < x + 1 && i == #[trigger] idx_spec(xx, y as int);
                        assert(start <= xx < x && i == idx_spec(xx, y as int));
                    }
                }
            }
        }
        x = x + 1;
    }
}

/// Carves a straight tunnel at column `x` between rows `y1` and `y2`, with
/// the same silent bound check as the horizontal carve.
#[verifier::loop_isolation(false)]
pub fn apply_vertical_tunnel(map: &mut Vec<TileType>, y1: i32, y2: i32, x: i32)
    requires
        old(map)@.len() == 4000,
        y1 < i32::MAX,
        y2 < i32::MAX,
    ensures
        final(map)@.len() == 4000,
        forall|i: int| 0 <= i < 4000 ==> #[trigger] final(map)@[i] == (
            if on_vertical_tunnel(i, y1 as int, y2 as int, x as int) {
                TileType::Floor
            } else {
                old(map)@[i]
            }
        ),
{
    let start: i32 = if y1 <= y2 {
        y1
    } else {
        y2
    };
    let end: i32 = if y1 <= y2 {
        y2
    } else {
        y1
    };
    let mut y: i32 = start;
    while y <= end
        invariant
            start <= y <= end + 1,
            map@.len() == 4000,
            forall|i: int| 0 <= i < 4000 ==> #[trigger] map@[i] == (
                if exists|yy: int| start <= yy < y && i == #[trigger] idx_spec(x as int, yy) {
                    TileType::Floor
                } else {
                    old(map)@[i]
                }
            ),
        decreases end + 1 - y,
    {
        let ghost snap = map@;
        let idx64: i64 = (y as i64) * 80 + (x as i64);
        proof {
            assert(idx64 == idx_spec(x as int, y as int));
        }
        if 0 <= idx64 && idx64 < 4000 {
            map.set(idx64 as usize, TileType::Floor);
        }
        proof {
            assert forall|i: int| 0 <= i < 4000 implies map@[i] == (
                if exists|yy: int| start <= yy < y + 1 && i == #[trigger] idx_spec(x as int, yy) {
                    TileType::Floor
                } else {
                    old(map)@[i]
                }
            ) by {
                if i == idx_spec(x as int, y as int) {
                    assert(start <= y < y + 1 && i == idx_spec(x as int, y as int));
                } else {
                    assert(map@[i] == snap[i]);
                    if exists|yy: int| start <= yy < y + 1 && i == #[trigger] idx_spec(
                        x as int,
                        yy,
                    ) {
                        let yy: int = choose|yy: int|
                            start <= yy < y + 1 && i == #[trigger] idx_spec(x as int, yy);
                        assert(start <= yy < y && i == idx_spec(x as int, yy));
                    }
                }
            }
        }
        y = y + 1;
    }
}

/// On one row the carved indices of a horizontal tunnel form one contiguous
/// interval of the flat index space.
pub proof fn lemma_horizontal_tunnel_interval(i: int, x1: int, x2: int, y: int)
    ensures
        on_horizontal_tunnel(i, x1, x2, y) <==> (idx_spec(vstd::math::min(x1, x2), y) <= i
            <= idx_spec(vstd::math::max(x1, x2), y)),
{
    if idx_spec(vstd::math::min(x1, x2), y) <= i <= idx_spec(vstd::math::max(x1, x2), y) {
        let xx: int = i - y * 80;
        assert(i == idx_spec(xx, y));
        assert(vstd::math::min(x1, x2) <= xx <= vstd::math::max(x1, x2));
    }
}

/// Whether `(x, y)` is carved to floor by the fixed two-room layout: the
/// interiors of the two rooms, and the horizontal tunnel at row 23 that
/// joins their centers.
pub open spec fn rooms_layout_floor(x: int, y: int) -> bool {
    (20 < x <= 30 && 15 < y <= 30) || (35 < x <= 45 && 15 < y <= 30) || (y == 23 && 25 <= x
        <= 40)
}

/// Builds the two-room map: an all-wall grid with two carved rooms joined
/// by a horizontal tunnel between their centers. A tile is floor exactly
/// when the fixed layout carves it; there is no forced-border guarantee
/// beyond the layout staying clear of the border.
pub fn new_map_rooms_and_coridoors() -> (map: Vec<TileType>)
    ensures
        map@.len() == 4000,
        forall|x: int, y: int| in_bounds(x, y) ==> #[trigger] tile_at(map@, x, y) == (
            if rooms_layout_floor(x, y) {
                TileType::Floor
            } else {
                TileType::Wall
            }
        ),
{
    let mut map = filled(TileType::Wall);
    let room1 = Rect::new(20, 15, 10, 15);
    let room2 = Rect::new(35, 15, 10, 15);
    apply_room_to_map(&room1, &mut map);
    apply_room_to_map(&room2, &mut map);
    let ghost before_tunnel = map@;
    apply_horizontal_tunnel(&mut map, 25, 40, 23);
    proof {
        assert forall|x: int, y: int| in_bounds(x, y) implies #[trigger] tile_at(map@, x, y) == (
            if rooms_layout_floor(x, y) {
                TileType::Floor
            } else {
                TileType::Wall
            }
        ) by {
            assert(0 <= idx_spec(x, y) < 4000);
            lemma_horizontal_tunnel_interval(idx_spec(x, y), 25, 40, 23);
            assert(tile_at(before_tunnel, x, y) == before_tunnel[idx_spec(x, y)]);
        }
    }
    map
}

/// How many of the first `n` tiles of a grid are walls standing off the
/// border.
pub open spec fn interior_wall_count(map: Seq<TileType>, n: int) -> int
    decreases n,
{
    if n <= 0 {
        0
    } else {
        interior_wall_count(map, n - 1) + (
        if !is_border((n - 1) % 80, (n - 1) / 80) && map[n - 1] == TileType::Wall {
            1int
        } else {
            0int
        })
    }
}

/// A grid with no wall off the border has an interior wall count of zero.
proof fn lemma_interior_wall_count_zero(m: Seq<TileType>, n: int)
    requires
        n <= 4000,
        forall|x: int, y: int|
            in_bounds(x, y) && !is_border(x, y) ==> #[trigger] tile_at(m, x, y)
                != TileType::Wall,
    ensures
        interior_wall_count(m, n) == 0,
    decreases n,
{
    if n > 0 {
        lemma_interior_wall_count_zero(m, n - 1);
        lemma_idx_div_mod(n - 1);
        assert(tile_at(m, (n - 1) % 80, (n - 1) / 80) == m[n - 1]);
    }
}

/// Changing one tile raises the interior wall count of a prefix by at most
/// one, and leaves it unchanged when the tile lies beyond the prefix.
proof fn lemma_interior_wall_count_update(m: Seq<TileType>, j: int, t: TileType, n: int)
    requires
        0 <= j < m.len(),
        n <= m.len(),
    ensures
        j >= n ==> interior_wall_count(m.update(j, t), n) == interior_wall_count(m, n),
        interior_wall_count(m.update(j, t), n) <= interior_wall_count(m, n) + 1,
    decreases n,
{
    if n > 0 {
        lemma_interior_wall_count_update(m, j, t, n - 1);
    }
}

/// Forces the four border rows and columns to wall, leaving every interior
/// tile as it was.
#[verifier::loop_isolation(false)]
fn force_borders(map: &mut Vec<TileType>)
    requires
        old(map)@.len() == 4000,
    ensures
        final(map)@.len() == 4000,
        forall|x: int, y: int|
            in_bounds(x, y) && is_border(x, y) ==> #[trigger] tile_at(final(map)@, x, y)
                == TileType::Wall,
        forall|x: int, y: int|
            in_bounds(x, y) && !is_border(x, y) ==> #[trigger] tile_at(final(map)@, x, y)
                == tile_at(old(map)@, x, y),
{
    let mut x: i32 = 0;
    while x < 80
        invariant
            0 <= x <= 80,
            map@.len() == 4000,
            forall|xx: int| 0 <= xx < x ==> #[trigger] tile_at(map@, xx, 0) == TileType::Wall,
            forall|xx: int| 0 <= xx < x ==> #[trigger] tile_at(map@, xx, 49) == TileType::Wall,
            forall|xx: int, yy: int|
                in_bounds(xx, yy) && yy != 0 && yy != 49 ==> #[trigger] tile_at(map@, xx, yy)
                    == tile_at(old(map)@, xx, yy),
        decreases 80 - x,
    {
        let ghost snap = map@;
        let i0: usize = xy_idx(x, 0);
        map.set(i0, TileType::Wall);
        let i49: usize = xy_idx(x, 49);
        map.set(i49, TileType::Wall);
        proof {
            assert forall|xx: int| 0 <= xx < x + 1 implies #[trigger] tile_at(map@, xx, 0)
                == TileType::Wall by {
                assert(tile_at(snap, xx, 0) == snap[idx_spec(xx, 0)]);
            }
            assert forall|xx: int| 0 <= xx < x + 1 implies #[trigger] tile_at(map@, xx, 49)
                == TileType::Wall by {
                assert(tile_at(snap, xx, 49) == snap[idx_spec(xx, 49)]);
            }
            assert forall|xx: int, yy: int|
                in_bounds(xx, yy) && yy != 0 && yy != 49 implies #[trigger] tile_at(map@, xx, yy)
                == tile_at(old(map)@, xx, yy) by {
                lemma_xy_idx_injective(xx, yy, x as int, 0);
                lemma_xy_idx_injective(xx, yy, x as int, 49);
                assert(tile_at(snap, xx, yy) == snap[idx_spec(xx, yy)]);
            }
        }
        x = x + 1;
    }
    let mut y: i32 = 0;
    while y < 50
        invariant
            0 <= y <= 50,
            map@.len() == 4000,
            forall|xx: int| 0 <= xx < 80 ==> #[trigger] tile_at(map@, xx, 0) == TileType::Wall,
            forall|xx: int| 0 <= xx < 80 ==> #[trigger] tile_at(map@, xx, 49) == TileType::Wall,
            forall|yy: int| 0 <= yy < y ==> #[trigger] tile_at(map@, 0, yy) == TileType::Wall,
            forall|yy: int| 0 <= yy < y ==> #[trigger] tile_at(map@, 79, yy) == TileType::Wall,
            forall|xx: int, yy: int|
                in_bounds(xx, yy) && !is_border(xx, yy) ==> #[trigger] tile_at(map@, xx, yy)
                    == tile_at(old(map)@, xx, yy),
        decreases 50 - y,
    {
        let ghost snap = map@;
        let i0: usize = xy_idx(0, y);
        map.set(i0, TileType::Wall);
        let i79: usize = xy_idx(79, y);
        map.set(i79, TileType::Wall);
        proof {
            assert forall|xx: int| 0 <= xx < 80 implies #[trigger] tile_at(map@, xx, 0)
                == TileType::Wall by {
                assert(tile_at(snap, xx, 0) == snap[idx_spec(xx, 0)]);
            }
            assert forall|xx: int| 0 <= xx < 80 implies #[trigger] tile_at(map@, xx, 49)
                == TileType::Wall by {
                assert(tile_at(snap, xx, 49) == snap[idx_spec(xx, 49)]);
            }
            assert forall|yy: int| 0 <= yy < y + 1 implies #[trigger] tile_at(map@, 0, yy)
                == TileType::Wall by {
                assert(tile_at(snap, 0, yy) == snap[idx_spec(0, yy)]);
            }
            assert forall|yy: int| 0 <= yy < y + 1 implies #[trigger] tile_at(map@, 79, yy)
                == TileType::Wall by {
                assert(tile_at(snap, 79, yy) == snap[idx_spec(79, yy)]);
            }
            assert forall|xx: int, yy: int|
                in_bounds(xx, yy) && !is_border(xx, yy) implies #[trigger] tile_at(map@, xx, yy)
                == tile_at(old(map)@, xx, yy) by {
                lemma_xy_idx_injective(xx, yy, 0, y as int);
                lemma_xy_idx_injective(xx, yy, 79, y as int);
                assert(tile_at(snap, xx, yy) == snap[idx_spec(xx, yy)]);
            }
        }
        y = y + 1;
    }
}

/// Builds the splatter map: an all-floor grid whose border is forced to
/// wall, then pelted with 400 randomly placed walls. Whatever the random
/// source yields, the border stays wall, the protected spawn tile at
/// `(40, 25)` stays floor, and at most 400 interior tiles are wall — the
/// rest of the interior stays open.
#[verifier::loop_isolation(false)]
#[verifier::rlimit(80)]
#[verifier::spinoff_prover]
pub fn new_map_test() -> (map: Vec<TileType>)
    ensures
        map@.len() == 4000,
        forall|x: int, y: int|
            in_bounds(x, y) && is_border(x, y) ==> #[trigger] tile_at(map@, x, y)
                == TileType::Wall,
        tile_at(map@, 40, 25) == TileType::Floor,
        interior_wall_count(map@, 4000) <= 400,
{
    let mut map = filled(TileType::Floor);
    force_borders(&mut map);
    proof {
        assert forall|x: int, y: int|
            in_bounds(x, y) && !is_border(x, y) implies #[trigger] tile_at(map@, x, y)
            != TileType::Wall by {
            assert(0 <= idx_spec(x, y) < 4000);
        }
        lemma_interior_wall_count_zero(map@, 4000);
        assert(0 <= idx_spec(40, 25) < 4000);
        assert(tile_at(map@, 40, 25) == TileType::Floor);
    }
    let mut rng = rng_new();
    let mut i: usize = 0;
    while i < 400
        invariant
            i <= 400,
            map@.len() == 4000,
            forall|xx: int, yy: int|
                in_bounds(xx, yy) && is_border(xx, yy) ==> #[trigger] tile_at(map@, xx, yy)
                    == TileType::Wall,
            tile_at(map@, 40, 25) == TileType::Floor,
            interior_wall_count(map@, 4000) <= i as int,
        decreases 400 - i,
    {
        let rx: i32 = roll_die(&mut rng, 78);
        let ry: i32 = roll_die(&mut rng, 48);
        let ghost snap = map@;
        let idx: usize = xy_idx(rx, ry);
        let spawn: usize = xy_idx(40, 25);
        if idx != spawn {
            map.set(idx, TileType::Wall);
            proof {
                assert forall|xx: int, yy: int| in_bounds(xx, yy) && is_border(xx, yy) implies #[trigger] tile_at(
                    map@,
                    xx,
                    yy,
                ) == TileType::Wall by {
                    assert(tile_at(snap, xx, yy) == snap[idx_spec(xx, yy)]);
                }
                assert(tile_at(map@, 40, 25) == snap[idx_spec(40, 25)]);
                lemma_interior_wall_count_update(snap, idx as int, TileType::Wall, 4000);
            }
        }
        i = i + 1;
    }
    map
}

/// In any grid built by the two-room layout, the tunnel row joins the two
/// room centers: every tile at row 23 whose column lies between the
/// centers' columns is floor.
pub proof fn lemma_tunnel_joins_room_centers(map: Seq<TileType>)
    requires
        map.len() == 4000,
        forall|x: int, y: int| in_bounds(x, y) ==> #[trigger] tile_at(map, x, y) == (
            if rooms_layout_floor(x, y) {
                TileType::Floor
            } else {
                TileType::Wall
            }
        ),
    ensures
        forall|x: int|
            crate::rect::center_spec(Rect { x1: 20, y1: 15, x2: 30, y2: 30 }).0 <= x
                <= crate::rect::center_spec(Rect { x1: 35, y1: 15, x2: 45, y2: 30 }).0
                ==> #[trigger] tile_at(map, x, 23) == TileType::Floor,
{
}

/// One draw command for the external render sink: a glyph code with its
/// colors at a grid cell.
#[derive(Clone, Copy, PartialEq, Eq, Debug, Structural)]
pub struct DrawCmd {
    pub x: i32,
    pub y: i32,
    pub glyph: u16,
    pub fg: Rgb,
    pub bg: Rgb,
}

/// The draw command for the tile at `(x, y)`: floor is a gray dot, wall a
/// green hash, both on black. The glyph codes 46 and 35 are the dot and
/// the hash in the terminal's code page, which agrees with ASCII there.
pub open spec fn tile_draw(x: int, y: int, t: TileType) -> DrawCmd {
    match t {
        TileType::Floor => DrawCmd {
            x: x as i32,
            y: y as i32,
            glyph: 46,
            fg: Rgb { r: 128, g: 128, b: 128 },
            bg: Rgb { r: 0, g: 0, b: 0 },
        },
        TileType::Wall => DrawCmd {
            x: x as i32,
            y: y as i32,
            glyph: 35,
            fg: Rgb { r: 0, g: 255, b: 0 },
            bg: Rgb { r: 0, g: 0, b: 0 },
        },
    }
}

/// The full sequence of tile draw commands of a grid, one per cell in
/// flat-index order.
pub open spec fn map_draws(map: Seq<TileType>) -> Seq<DrawCmd> {
    Seq::new(4000, |i: int| tile_draw(i % 80, i / 80, map[i]))
}

/// Every flat index on the grid splits uniquely into its column and row.
pub proof fn lemma_idx_div_mod(i: int)
    requires
        0 <= i < 4000,
    ensures
        in_bounds(i % 80, i / 80),
        idx_spec(i % 80, i / 80) == i,
{
    vstd::arithmetic::div_mod::lemma_fundamental_div_mod(i, 80);
    vstd::arithmetic::div_mod::lemma_mod_bound(i, 80);
}

/// Emits one draw command per grid cell, row by row: floor as a gray dot,
/// wall as a green hash, for the external render sink to consume.
#[verifier::loop_isolation(false)]
pub fn draw_map(map: &Vec<TileType>) -> (out: Vec<DrawCmd>)
    requires
        map@.len() == 4000,
    ensures
        out@ == map_draws(map@),
        forall|x: int, y: int|
            in_bounds(x, y) ==> #[trigger] out@[idx_spec(x, y)] == tile_draw(
                x,
                y,
                tile_at(map@, x, y),
            ),
{
    let mut out: Vec<DrawCmd> = Vec::new();
    let mut y: i32 = 0;
    while y < 50
        invariant
            0 <= y <= 50,
            out@.len() == y * 80,
            forall|xx: int, yy: int|
                in_bounds(xx, yy) && idx_spec(xx, yy) < y * 80 ==> #[trigger] out@[idx_spec(
                    xx,
                    yy,
                )] == tile_draw(xx, yy, tile_at(map@, xx, yy)),
        decreases 50 - y,
    {
        let mut x: i32 = 0;
        while x < 80
            invariant
                0 <= x <= 80,
                0 <= y < 50,
                out@.len() == y * 80 + x,
                forall|xx: int, yy: int|
                    in_bounds(xx, yy) && idx_spec(xx, yy) < y * 80 + x ==> #[trigger] out@[idx_spec(
                        xx,
                        yy,
                    )] == tile_draw(xx, yy, tile_at(map@, xx, yy)),
            decreases 80 - x,
        {
            let idx: usize = xy_idx(x, y);
            let t: TileType = map[idx];
            let cmd: DrawCmd = match t {
                TileType::Floor => DrawCmd {
                    x,
                    y,
                    glyph: 46,
                    fg: Rgb { r: 128, g: 128, b: 128 },
                    bg: Rgb { r: 0, g: 0, b: 0 },
                },
                TileType::Wall => DrawCmd {
                    x,
                    y,
                    glyph: 35,
                    fg: Rgb { r: 0, g: 255, b: 0 },
                    bg: Rgb { r: 0, g: 0, b: 0 },
                },
            };
            out.push(cmd);
            proof {
                assert forall|xx: int, yy: int|
                    in_bounds(xx, yy) && idx_spec(xx, yy) < y * 80 + x + 1 implies #[trigger] out@[idx_spec(
                    xx,
                    yy,
                )] == tile_draw(xx, yy, tile_at(map@, xx, yy)) by {
                    lemma_xy_idx_injective(xx, yy, x as int, y as int);
                }
            }
            x = x + 1;
        }
        y = y + 1;
    }
    proof {
        assert forall|i: int| 0 <= i < 4000 implies out@[i] == map_draws(map@)[i] by {
            lemma_idx_div_mod(i);
        }
        assert(out@ =~= map_draws(map@));
    }
    out
}

} // verus!
