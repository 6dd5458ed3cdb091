//! Input handling and the movement validator: a key event maps to one of
//! four unit deltas through a many-to-one alias table, and every player
//! entity attempts a single validated step.

use crate::components::Position;
use crate::ecs::{World, WorldModel};
use crate::map::{in_bounds, tile_at, xy_idx, TileType};
use vstd::prelude::*;

verus! {

/// A symbolic key event handed in by the host each tick.
#[derive(Clone, Copy, PartialEq, Eq, Debug, Structural)]
pub enum Key {
    Left,
    Right,
    Up,
    Down,
    H,
    J,
    K,
    L,
    A,
    S,
    D,
    W,
    Numpad4,
    Numpad5,
    Numpad6,
    Numpad8,
    Other,
}

/// The movement delta a key aliases to, if any: the arrow, vi-style and
/// numpad spellings of each direction all alias to the same unit delta;
/// any other key maps to nothing and is a silent no-op.
pub open spec fn key_delta(k: Key) -> Option<(int, int)> {
    match k {
        Key::Left | Key::Numpad4 | Key::A | Key::H => Some((-1, 0)),
        Key::Right | Key::Numpad6 | Key::D | Key::L => Some((1, 0)),
        Key::Up | Key::Numpad8 | Key::W | Key::K => Some((0, -1)),
        Key::Down | Key::Numpad5 | Key::S | Key::J => Some((0, 1)),
        Key::Other => None,
    }
}

/// A coordinate clamped into a closed range.
pub open spec fn clamp(v: int, lo: int, hi: int) -> int {
    if v < lo {
        lo
    } else if v > hi {
        hi
    } else {
        v
    }
}

/// One movement step: the candidate tile is checked before any clamping;
/// a wall rejects the move silently and the position stays, anything else
/// commits the clamped candidate.
pub open spec fn move_step(p: Position, dx: int, dy: int, map: Seq<TileType>) -> Position {
    if tile_at(map, p.x + dx, p.y + dy) == TileType::Wall {
        p
    } else {
        Position { x: clamp(p.x + dx, 0, 79) as i32, y: clamp(p.y + dy, 0, 49) as i32 }
    }
}

/// The positions storage after every entity tagged as player attempts one
/// step by `(dx, dy)`; everything else keeps its position.
pub open spec fn moved_positions(m: WorldModel, dx: int, dy: int) -> Seq<Option<Position>> {
    Seq::new(
        m.positions.len(),
        |e: int|
            if m.has_player(e) && m.positions[e] is Some {
                Some(move_step(m.positions[e]->Some_0, dx, dy, m.map))
            } else {
                m.positions[e]
            },
    )
}

/// Movement law: for any position, any of the four unit deltas, and any
/// grid, when the candidate tile lies on the grid, a wall destination
/// leaves the position unchanged and any other destination moves it to the
/// clamped candidate. A candidate off the grid is a contract violation of
/// the index mapping, never a wrapped index, so it is excluded here.
pub proof fn lemma_movement(p: Position, dx: int, dy: int, map: Seq<TileType>)
    requires
        (dx == -1 && dy == 0) || (dx == 1 && dy == 0) || (dx == 0 && dy == -1) || (dx == 0 && dy
            == 1),
        in_bounds(p.x + dx, p.y + dy),
    ensures
        tile_at(map, p.x + dx, p.y + dy) == TileType::Wall ==> move_step(p, dx, dy, map) == p,
        tile_at(map, p.x + dx, p.y + dy) != TileType::Wall ==> move_step(p, dx, dy, map)
            == (Position {
            x: clamp(p.x + dx, 0, 79) as i32,
            y: clamp(p.y + dy, 0, 49) as i32,
        }),
{
}

/// Every player's candidate tile lies on the grid, so the wall check can
/// index it; an off-grid candidate would be a contract violation of the
/// index mapping.
pub open spec fn players_can_step(m: WorldModel, dx: int, dy: int) -> bool {
    forall|e: int|
        #[trigger] m.has_player(e) && m.has_position(e) ==> in_bounds(
            m.position(e).x + dx,
            m.position(e).y + dy,
        )
}

/// Moves every player entity by `(delta_x, delta_y)`: a step onto a wall
/// tile is rejected silently and the position is unchanged; any other step
/// commits the candidate, clamped to the grid after the wall check.
#[verifier::loop_isolation(false)]
pub fn try_move_player(delta_x: i32, delta_y: i32, ecs: &mut World)
    requires
        old(ecs).wf(),
        old(ecs)@.map.len() == 4000,
        players_can_step(old(ecs)@, delta_x as int, delta_y as int),
    ensures
        final(ecs).wf(),
        final(ecs)@ == (WorldModel {
            positions: moved_positions(old(ecs)@, delta_x as int, delta_y as int),
            ..old(ecs)@
        }),
        final(ecs).pending@ == old(ecs).pending@,
{
    let n: usize = ecs.positions.data.len();
    let mut e: usize = 0;
    while e < n
        invariant
            e <= n,
            n == old(ecs)@.positions.len(),
            ecs@.alive == old(ecs)@.alive,
            ecs@.renderables == old(ecs)@.renderables,
            ecs@.players == old(ecs)@.players,
            ecs@.left_movers == old(ecs)@.left_movers,
            ecs@.map == old(ecs)@.map,
            ecs.pending@ == old(ecs).pending@,
            ecs@.positions.len() == old(ecs)@.positions.len(),
            forall|j: int|
                0 <= j < e ==> #[trigger] ecs@.positions[j] == moved_positions(
                    old(ecs)@,
                    delta_x as int,
                    delta_y as int,
                )[j],
            forall|j: int| e <= j < n ==> #[trigger] ecs@.positions[j] == old(ecs)@.positions[j],
        decreases n - e,
    {
        if ecs.players.contains(e) && ecs.positions.contains(e) {
            let pos: Position = ecs.positions.get(e).unwrap();
            proof {
                assert(old(ecs)@.has_player(e as int) && old(ecs)@.has_position(e as int));
            }
            let cx: i32 = pos.x + delta_x;
            let cy: i32 = pos.y + delta_y;
            let dest: usize = xy_idx(cx, cy);
            if ecs.map[dest] != TileType::Wall {
                let nx: i32 = if cx < 0 {
                    0
                } else if cx > 79 {
                    79
                } else {
                    cx
                };
                let ny: i32 = if cy < 0 {
                    0
                } else if cy > 49 {
                    49
                } else {
                    cy
                };
                proof {
                    assert(ecs@.alive[e as int]);
                }
                ecs.positions.set_value(e, Position { x: nx, y: ny });
            }
        }
        e = e + 1;
    }
    proof {
        assert(ecs@.positions =~= moved_positions(old(ecs)@, delta_x as int, delta_y as int));
        assert(ecs@ =~= (WorldModel {
            positions: moved_positions(old(ecs)@, delta_x as int, delta_y as int),
            ..old(ecs)@
        }));
    }
}

/// The world after one key event: a recognized key moves every player by
/// its delta; no key, or an unrecognized one, changes nothing.
pub open spec fn input_applied(m: WorldModel, key: Option<Key>) -> WorldModel {
    match key {
        Some(k) => match key_delta(k) {
            Some(d) => WorldModel { positions: moved_positions(m, d.0, d.1), ..m },
            None => m,
        },
        None => m,
    }
}

/// Precondition of one input step: when the key maps to a delta, the grid
/// is full-sized and every player's candidate tile lies on it.
pub open spec fn input_ok(m: WorldModel, key: Option<Key>) -> bool {
    match key {
        Some(k) => match key_delta(k) {
            Some(d) => m.map.len() == 4000 && players_can_step(m, d.0, d.1),
            None => true,
        },
        None => true,
    }
}

/// Consumes one key event: each recognized alias triggers the matching
/// unit move of every player entity, anything else is a silent no-op.
pub fn player_input(ecs: &mut World, key: Option<Key>)
    requires
        old(ecs).wf(),
        input_ok(old(ecs)@, key),
    ensures
        final(ecs).wf(),
        final(ecs)@ == input_applied(old(ecs)@, key),
        final(ecs).pending@ == old(ecs).pending@,
{
    match key {
        None => {},
        Some(k) => match k {
            Key::Left | Key::Numpad4 | Key::A | Key::H => try_move_player(-1, 0, ecs),
            Key::Right | Key::Numpad6 | Key::D | Key::L => try_move_player(1, 0, ecs),
            Key::Up | Key::Numpad8 | Key::W | Key::K => try_move_player(0, -1, ecs),
            Key::Down | Key::Numpad5 | Key::S | Key::J => try_move_player(0, 1, ecs),
            Key::Other => {},
        },
    }
}

} // verus!
