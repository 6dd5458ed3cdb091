//! The autonomous demo system: a stateless unit of per-tick logic that
//! drags every tagged entity one tile to the left, wrapping at the left
//! edge, deliberately ignoring the tile grid.

use crate::components::{LeftMover, Position};
use crate::ecs::Storage;
use vstd::prelude::*;

verus! {

/// One left step: x falls by one, wrapping to the right edge when it
/// would turn negative.
pub open spec fn left_step(p: Position) -> Position {
    if p.x - 1 < 0 {
        Position { x: 79, y: p.y }
    } else {
        Position { x: (p.x - 1) as i32, y: p.y }
    }
}

/// The positions storage after every entity tagged as a left mover takes
/// one left step; everything else keeps its position.
pub open spec fn left_walked(
    left_movers: Seq<Option<LeftMover>>,
    positions: Seq<Option<Position>>,
) -> Seq<Option<Position>> {
    Seq::new(
        positions.len(),
        |e: int|
            if 0 <= e < left_movers.len() && left_movers[e] is Some && positions[e] is Some {
                Some(left_step(positions[e]->Some_0))
            } else {
                positions[e]
            },
    )
}

/// Every tagged entity's x coordinate can fall by one without leaving the
/// machine integer range.
pub open spec fn left_walk_ok(
    left_movers: Seq<Option<LeftMover>>,
    positions: Seq<Option<Position>>,
) -> bool {
    forall|e: int|
        0 <= e < positions.len() && e < left_movers.len() && left_movers[e] is Some
            && #[trigger] positions[e] is Some ==> positions[e]->Some_0.x > i32::MIN
}

/// The demo system itself: an empty struct that only carries the logic.
pub struct LeftWalker {}

impl LeftWalker {
    /// Runs the system over its declared storages: a shared view of the
    /// left-mover tags and an exclusive view of the positions.
    #[verifier::loop_isolation(false)]
    pub fn run(&self, left_movers: &Storage<LeftMover>, positions: &mut Storage<Position>)
        requires
            left_walk_ok(left_movers.data@, old(positions).data@),
        ensures
            final(positions).data@ == left_walked(left_movers.data@, old(positions).data@),
    {
        let n: usize = if left_movers.data.len() <= positions.data.len() {
            left_movers.data.len()
        } else {
            positions.data.len()
        };
        let mut e: usize = 0;
        while e < n
            invariant
                e <= n,
                positions.data@.len() == old(positions).data@.len(),
                forall|j: int|
                    0 <= j < e ==> #[trigger] positions.data@[j] == left_walked(
                        left_movers.data@,
                        old(positions).data@,
                    )[j],
                forall|j: int|
                    e <= j < positions.data@.len() ==> #[trigger] positions.data@[j] == old(
                        positions,
                    ).data@[j],
            decreases n - e,
        {
            if left_movers.contains(e) && positions.contains(e) {
                let pos: Position = positions.get(e).unwrap();
                let nx: i32 = if pos.x - 1 < 0 {
                    79
                } else {
                    pos.x - 1
                };
                positions.set_value(e, Position { x: nx, y: pos.y });
            }
            e = e + 1;
        }
        proof {
            assert(positions.data@ =~= left_walked(left_movers.data@, old(positions).data@));
        }
    }
}

} // verus!
