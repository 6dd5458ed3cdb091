//! The tick driver: one frame ingests the input key, runs the systems in
//! their fixed order (movement first, then the autonomous walker), replays
//! the buffered structural changes, and exposes the renderable state as a
//! list of draw commands.

use crate::components::{Position, Renderable};
use crate::ecs::{apply_commands, lemma_apply_commands_map, Command, World, WorldModel};
use crate::map::{draw_map, map_draws, DrawCmd};
use crate::player::{input_applied, input_ok, player_input, Key};
use crate::systems::{left_walk_ok, left_walked, LeftWalker};
use vstd::prelude::*;

verus! {

/// The draw command of one renderable entity at its position.
pub open spec fn entity_draw(p: Position, r: Renderable) -> DrawCmd {
    DrawCmd { x: p.x, y: p.y, glyph: r.glyph, fg: r.fg, bg: r.bg }
}

/// The draw commands of the first `n` entity slots that hold both a
/// position and a renderable, in entity creation order.
pub open spec fn entity_draws(m: WorldModel, n: int) -> Seq<DrawCmd>
    decreases n,
{
    if n <= 0 {
        Seq::empty()
    } else {
        let p: Seq<DrawCmd> = entity_draws(m, n - 1);
        if m.has_position(n - 1) && m.has_renderable(n - 1) {
            p.push(entity_draw(m.position(n - 1), m.renderable(n - 1)))
        } else {
            p
        }
    }
}

/// The world after the fixed system sequence of one tick: the autonomous
/// left walk, then the replay of the buffered structural changes.
pub open spec fn systems_applied(m: WorldModel, pending: Seq<Command>) -> WorldModel {
    apply_commands(
        WorldModel { positions: left_walked(m.left_movers, m.positions), ..m },
        pending,
    )
}

/// The world after one whole tick: input first, then the systems.
pub open spec fn tick_model(m: WorldModel, key: Option<Key>, pending: Seq<Command>) -> WorldModel {
    systems_applied(input_applied(m, key), pending)
}

/// Precondition of one tick: the input step can index every candidate
/// tile, and the walker's decrement stays within machine integers.
pub open spec fn tick_ok(m: WorldModel, key: Option<Key>) -> bool {
    &&& m.map.len() == 4000
    &&& input_ok(m, key)
    &&& left_walk_ok(m.left_movers, input_applied(m, key).positions)
}

/// The whole game state a host carries across frames: the world with its
/// storages and grid.
pub struct State {
    pub ecs: World,
}

impl State {
    /// Runs the fixed per-tick system sequence: the autonomous left walker
    /// over its declared storages, then the atomic replay of buffered
    /// structural changes.
    pub fn run_systems(&mut self)
        requires
            old(self).ecs.wf(),
            left_walk_ok(old(self).ecs@.left_movers, old(self).ecs@.positions),
        ensures
            final(self).ecs.wf(),
            final(self).ecs@ == systems_applied(old(self).ecs@, old(self).ecs.pending@),
            final(self).ecs.pending@ == Seq::<Command>::empty(),
    {
        let lw = LeftWalker {  };
        lw.run(&self.ecs.left_movers, &mut self.ecs.positions);
        proof {
            assert(self.ecs@ =~= (WorldModel {
                positions: left_walked(old(self).ecs@.left_movers, old(self).ecs@.positions),
                ..old(self).ecs@
            }));
        }
        self.ecs.maintain();
    }

    /// One frame: consume the input key, run the systems, and emit the
    /// draw commands of the resulting state — every grid cell first, then
    /// every entity holding both a position and a renderable.
    #[verifier::loop_isolation(false)]
    pub fn tick(&mut self, key: Option<Key>) -> (out: Vec<DrawCmd>)
        requires
            old(self).ecs.wf(),
            tick_ok(old(self).ecs@, key),
        ensures
            final(self).ecs.wf(),
            final(self).ecs@ == tick_model(old(self).ecs@, key, old(self).ecs.pending@),
            final(self).ecs.pending@ == Seq::<Command>::empty(),
            out@ == map_draws(final(self).ecs@.map) + entity_draws(
                final(self).ecs@,
                final(self).ecs@.n(),
            ),
    {
        player_input(&mut self.ecs, key);
        proof {
            let mid = input_applied(old(self).ecs@, key);
            lemma_apply_commands_map(
                WorldModel { positions: left_walked(mid.left_movers, mid.positions), ..mid },
                old(self).ecs.pending@,
            );
        }
        self.run_systems();
        let mut out = draw_map(&self.ecs.map);
        let ghost tiles = out@;
        let n: usize = self.ecs.alive.len();
        let mut e: usize = 0;
        while e < n
            invariant
                e <= n,
                out@ == tiles + entity_draws(self.ecs@, e as int),
            decreases n - e,
        {
            if self.ecs.positions.contains(e) && self.ecs.renderables.contains(e) {
                let p: Position = self.ecs.positions.get(e).unwrap();
                let r: Renderable = self.ecs.renderables.get(e).unwrap();
                out.push(DrawCmd { x: p.x, y: p.y, glyph: r.glyph, fg: r.fg, bg: r.bg });
            }
            proof {
                assert(out@ =~= tiles + entity_draws(self.ecs@, e as int + 1));
            }
            e = e + 1;
        }
        out
    }
}

} // verus!
