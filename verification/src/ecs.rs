//! The entity store: entities are indices into per-component-type storages,
//! structural changes can be buffered as commands and replayed atomically by
//! `maintain`, and `join2` walks the entities present in two storages at
//! once. A world's storages never hold data for a destroyed entity.

use crate::components::{LeftMover, Player, Position, Renderable};
use crate::map::TileType;
use vstd::prelude::*;

verus! {

/// An opaque identifier for one entity of a world.
#[derive(Clone, Copy, PartialEq, Eq, Debug, Structural)]
pub struct Entity {
    pub id: usize,
}

/// A typed container mapping entity indices to one component type's values.
pub struct Storage<T> {
    pub data: Vec<Option<T>>,
}

impl<T: Copy> Storage<T> {
    /// How many entity slots the storage covers.
    pub open spec fn slots(self) -> nat {
        self.data@.len()
    }

    /// Whether entity `e` holds a component of this type.
    pub open spec fn has(self, e: int) -> bool {
        0 <= e < self.data@.len() && self.data@[e] is Some
    }

    /// The component held by entity `e`.
    pub open spec fn at(self, e: int) -> T {
        self.data@[e]->Some_0
    }

    /// An empty storage, covering no entities.
    pub fn new() -> (s: Storage<T>)
        ensures
            s.data@ == Seq::<Option<T>>::empty(),
    {
        Storage { data: Vec::new() }
    }

    /// Adds one empty slot for a newly created entity.
    pub fn grow(&mut self)
        ensures
            final(self).data@ == old(self).data@.push(None::<T>),
    {
        self.data.push(None);
    }

    /// Records value `v` for entity slot `i`.
    pub fn set_value(&mut self, i: usize, v: T)
        requires
            i < old(self).data@.len(),
        ensures
            final(self).data@ == old(self).data@.update(i as int, Some(v)),
    {
        self.data.set(i, Some(v));
    }

    /// Clears entity slot `i`.
    pub fn clear_at(&mut self, i: usize)
        requires
            i < old(self).data@.len(),
        ensures
            final(self).data@ == old(self).data@.update(i as int, None::<T>),
    {
        self.data.set(i, None);
    }

    /// Whether entity slot `i` holds a component.
    pub fn contains(&self, i: usize) -> (r: bool)
        ensures
            r == self.has(i as int),
    {
        i < self.data.len() && self.data[i].is_some()
    }

    /// The component of entity slot `i`, if any. Reading a slot the storage
    /// does not cover is not an error: it holds nothing.
    pub fn get(&self, i: usize) -> (r: Option<T>)
        ensures
            r == (if self.has(i as int) {
                Some(self.at(i as int))
            } else {
                None::<T>
            }),
    {
        if i < self.data.len() {
            self.data[i]
        } else {
            None
        }
    }
}

/// A buffered structural change, applied by `World::maintain`.
#[derive(Clone, Copy, PartialEq, Eq, Debug, Structural)]
pub enum Command {
    AttachPosition(Entity, Position),
    AttachRenderable(Entity, Renderable),
    AttachPlayer(Entity),
    AttachLeftMover(Entity),
    DetachPosition(Entity),
    DetachRenderable(Entity),
    DetachPlayer(Entity),
    DetachLeftMover(Entity),
    DestroyEntity(Entity),
}

/// The mathematical state of a world: which entities are alive, what each
/// storage holds for each entity index, and the tile grid.
#[verifier::ext_equal]
pub ghost struct WorldModel {
    pub alive: Seq<bool>,
    pub positions: Seq<Option<Position>>,
    pub renderables: Seq<Option<Renderable>>,
    pub players: Seq<Option<Player>>,
    pub left_movers: Seq<Option<LeftMover>>,
    pub map: Seq<TileType>,
}

impl WorldModel {
    /// How many entities were ever created.
    pub open spec fn n(self) -> int {
        self.alive.len() as int
    }

    /// Whether entity index `e` was created and not destroyed.
    pub open spec fn live(self, e: int) -> bool {
        0 <= e < self.alive.len() && self.alive[e]
    }

    /// Whether entity index `e` holds a position.
    pub open spec fn has_position(self, e: int) -> bool {
        0 <= e < self.positions.len() && self.positions[e] is Some
    }

    /// The position of entity index `e`.
    pub open spec fn position(self, e: int) -> Position {
        self.positions[e]->Some_0
    }

    /// Whether entity index `e` holds a renderable.
    pub open spec fn has_renderable(self, e: int) -> bool {
        0 <= e < self.renderables.len() && self.renderables[e] is Some
    }

    /// The renderable of entity index `e`.
    pub open spec fn renderable(self, e: int) -> Renderable {
        self.renderables[e]->Some_0
    }

    /// Whether entity index `e` carries the player tag.
    pub open spec fn has_player(self, e: int) -> bool {
        0 <= e < self.players.len() && self.players[e] is Some
    }

    /// Whether entity index `e` carries the left-mover tag.
    pub open spec fn has_left_mover(self, e: int) -> bool {
        0 <= e < self.left_movers.len() && self.left_movers[e] is Some
    }
}

/// Well-formedness of a world state: every storage covers exactly the
/// created entities, and a destroyed entity holds no component — storages
/// never keep orphaned data.
pub open spec fn model_wf(m: WorldModel) -> bool {
    &&& m.positions.len() == m.alive.len()
    &&& m.renderables.len() == m.alive.len()
    &&& m.players.len() == m.alive.len()
    &&& m.left_movers.len() == m.alive.len()
    &&& forall|e: int|
        0 <= e < m.alive.len() && !(#[trigger] m.alive[e]) ==> m.positions[e] is None
            && m.renderables[e] is None && m.players[e] is None && m.left_movers[e] is None
}

/// What one buffered command does to a world state. A command naming an
/// entity index the state does not cover, or attaching to a destroyed
/// entity, is a silent no-op.
pub open spec fn apply_command(m: WorldModel, c: Command) -> WorldModel {
    match c {
        Command::AttachPosition(e, v) => if m.live(e.id as int) {
            WorldModel { positions: m.positions.update(e.id as int, Some(v)), ..m }
        } else {
            m
        },
        Command::AttachRenderable(e, v) => if m.live(e.id as int) {
            WorldModel { renderables: m.renderables.update(e.id as int, Some(v)), ..m }
        } else {
            m
        },
        Command::AttachPlayer(e) => if m.live(e.id as int) {
            WorldModel { players: m.players.update(e.id as int, Some(Player {  })), ..m }
        } else {
            m
        },
        Command::AttachLeftMover(e) => if m.live(e.id as int) {
            WorldModel { left_movers: m.left_movers.update(e.id as int, Some(LeftMover {  })), ..m }
        } else {
            m
        },
        Command::DetachPosition(e) => if 0 <= e.id < m.alive.len() {
            WorldModel { positions: m.positions.update(e.id as int, None::<Position>), ..m }
        } else {
            m
        },
        Command::DetachRenderable(e) => if 0 <= e.id < m.alive.len() {
            WorldModel { renderables: m.renderables.update(e.id as int, None::<Renderable>), ..m }
        } else {
            m
        },
        Command::DetachPlayer(e) => if 0 <= e.id < m.alive.len() {
            WorldModel { players: m.players.update(e.id as int, None::<Player>), ..m }
        } else {
            m
        },
        Command::DetachLeftMover(e) => if 0 <= e.id < m.alive.len() {
            WorldModel { left_movers: m.left_movers.update(e.id as int, None::<LeftMover>), ..m }
        } else {
            m
        },
        Command::DestroyEntity(e) => if 0 <= e.id < m.alive.len() {
            WorldModel {
                alive: m.alive.update(e.id as int, false),
                positions: m.positions.update(e.id as int, None::<Position>),
                renderables: m.renderables.update(e.id as int, None::<Renderable>),
                players: m.players.update(e.id as int, None::<Player>),
                left_movers: m.left_movers.update(e.id as int, None::<LeftMover>),
                ..m
            }
        } else {
            m
        },
    }
}

/// The state after replaying a whole command buffer, first to last.
pub open spec fn apply_commands(m: WorldModel, cs: Seq<Command>) -> WorldModel
    decreases cs.len(),
{
    if cs.len() == 0 {
        m
    } else {
        apply_command(apply_commands(m, cs.drop_last()), cs.last())
    }
}

/// Replaying commands never touches the tile grid: every structural
/// change leaves the map as it was.
pub proof fn lemma_apply_commands_map(m: WorldModel, cs: Seq<Command>)
    ensures
        apply_commands(m, cs).map == m.map,
    decreases cs.len(),
{
    if cs.len() > 0 {
        lemma_apply_commands_map(m, cs.drop_last());
    }
}

/// The explicit world: all component storages, the liveness record, the
/// tile grid, and the buffer of deferred structural changes.
pub struct World {
    pub alive: Vec<bool>,
    pub positions: Storage<Position>,
    pub renderables: Storage<Renderable>,
    pub players: Storage<Player>,
    pub left_movers: Storage<LeftMover>,
    pub map: Vec<TileType>,
    pub pending: Vec<Command>,
}

impl View for World {
    type V = WorldModel;

    open spec fn view(&self) -> WorldModel {
        WorldModel {
            alive: self.alive@,
            positions: self.positions.data@,
            renderables: self.renderables.data@,
            players: self.players.data@,
            left_movers: self.left_movers.data@,
            map: self.map@,
        }
    }
}

impl World {
    /// Well-formedness of the world.
    pub open spec fn wf(self) -> bool {
        model_wf(self@)
    }

    /// A world with no entities, an empty grid, and nothing buffered.
    pub fn new() -> (w: World)
        ensures
            w.wf(),
            w@.alive == Seq::<bool>::empty(),
            w@.positions == Seq::<Option<Position>>::empty(),
            w@.renderables == Seq::<Option<Renderable>>::empty(),
            w@.players == Seq::<Option<Player>>::empty(),
            w@.left_movers == Seq::<Option<LeftMover>>::empty(),
            w@.map == Seq::<TileType>::empty(),
            w.pending@ == Seq::<Command>::empty(),
    {
        World {
            alive: Vec::new(),
            positions: Storage::new(),
            renderables: Storage::new(),
            players: Storage::new(),
            left_movers: Storage::new(),
            map: Vec::new(),
            pending: Vec::new(),
        }
    }

    /// Installs the tile grid the systems read.
    pub fn insert_map(&mut self, map: Vec<TileType>)
        requires
            old(self).wf(),
        ensures
            final(self).wf(),
            final(self)@ == (WorldModel { map: map@, ..old(self)@ }),
            final(self).pending@ == old(self).pending@,
    {
        self.map = map;
        proof {
            assert(self@ =~= (WorldModel { map: self.map@, ..old(self)@ }));
        }
    }

    /// Creates a fresh entity: its index is the next unused one, it is
    /// alive, and it holds no component yet.
    pub fn create_entity(&mut self) -> (e: Entity)
        requires
            old(self).wf(),
        ensures
            final(self).wf(),
            e.id == old(self)@.alive.len(),
            final(self)@.alive == old(self)@.alive.push(true),
            final(self)@.positions == old(self)@.positions.push(None::<Position>),
            final(self)@.renderables == old(self)@.renderables.push(None::<Renderable>),
            final(self)@.players == old(self)@.players.push(None::<Player>),
            final(self)@.left_movers == old(self)@.left_movers.push(None::<LeftMover>),
            final(self)@.map == old(self)@.map,
            final(self).pending@ == old(self).pending@,
    {
        let id: usize = self.alive.len();
        self.alive.push(true);
        self.positions.grow();
        self.renderables.grow();
        self.players.grow();
        self.left_movers.grow();
        Entity { id }
    }

    /// Records a position for a live entity, immediately.
    pub fn attach_position(&mut self, e: Entity, v: Position)
        requires
            old(self).wf(),
            old(self)@.live(e.id as int),
        ensures
            final(self).wf(),
            final(self)@ == (WorldModel {
                positions: old(self)@.positions.update(e.id as int, Some(v)),
                ..old(self)@
            }),
            final(self).pending@ == old(self).pending@,
    {
        self.positions.set_value(e.id, v);
        proof {
            assert(self@ =~= (WorldModel {
                positions: old(self)@.positions.update(e.id as int, Some(v)),
                ..old(self)@
            }));
        }
    }

    /// Records a renderable for a live entity, immediately.
    pub fn attach_renderable(&mut self, e: Entity, v: Renderable)
        requires
            old(self).wf(),
            old(self)@.live(e.id as int),
        ensures
            final(self).wf(),
            final(self)@ == (WorldModel {
                renderables: old(self)@.renderables.update(e.id as int, Some(v)),
                ..old(self)@
            }),
            final(self).pending@ == old(self).pending@,
    {
        self.renderables.set_value(e.id, v);
        proof {
            assert(self@ =~= (WorldModel {
                renderables: old(self)@.renderables.update(e.id as int, Some(v)),
                ..old(self)@
            }));
        }
    }

    /// Marks a live entity as the player, immediately.
    pub fn attach_player(&mut self, e: Entity)
        requires
            old(self).wf(),
            old(self)@.live(e.id as int),
        ensures
            final(self).wf(),
            final(self)@ == (WorldModel {
                players: old(self)@.players.update(e.id as int, Some(Player {  })),
                ..old(self)@
            }),
            final(self).pending@ == old(self).pending@,
    {
        self.players.set_value(e.id, Player {  });
        proof {
            assert(self@ =~= (WorldModel {
                players: old(self)@.players.update(e.id as int, Some(Player {  })),
                ..old(self)@
            }));
        }
    }

    /// Marks a live entity as a left mover, immediately.
    pub fn attach_left_mover(&mut self, e: Entity)
        requires
            old(self).wf(),
            old(self)@.live(e.id as int),
        ensures
            final(self).wf(),
            final(self)@ == (WorldModel {
                left_movers: old(self)@.left_movers.update(e.id as int, Some(LeftMover {  })),
                ..old(self)@
            }),
            final(self).pending@ == old(self).pending@,
    {
        self.left_movers.set_value(e.id, LeftMover {  });
        proof {
            assert(self@ =~= (WorldModel {
                left_movers: old(self)@.left_movers.update(e.id as int, Some(LeftMover {  })),
                ..old(self)@
            }));
        }
    }

    /// Buffers a structural change for the next `maintain`.
    pub fn queue(&mut self, c: Command)
        requires
            old(self).wf(),
        ensures
            final(self).wf(),
            final(self)@ == old(self)@,
            final(self).pending@ == old(self).pending@.push(c),
    {
        self.pending.push(c);
        proof {
            assert(self@ =~= old(self)@);
        }
    }

    /// Replays the buffered structural changes in order, atomically between
    /// ticks, and empties the buffer.
    #[verifier::loop_isolation(false)]
    pub fn maintain(&mut self)
        requires
            old(self).wf(),
        ensures
            final(self).wf(),
            final(self)@ == apply_commands(old(self)@, old(self).pending@),
            final(self).pending@ == Seq::<Command>::empty(),
    {
        let n: usize = self.pending.len();
        let mut k: usize = 0;
        while k < n
            invariant
                k <= n,
                self.pending@ == old(self).pending@,
                self.wf(),
                self@ == apply_commands(old(self)@, old(self).pending@.take(k as int)),
            decreases n - k,
        {
            let ghost pre = self@;
            let c: Command = self.pending[k];
            match c {
                Command::AttachPosition(e, v) => {
                    if e.id < self.alive.len() && self.alive[e.id] {
                        self.positions.set_value(e.id, v);
                    }
                },
                Command::AttachRenderable(e, v) => {
                    if e.id < self.alive.len() && self.alive[e.id] {
                        self.renderables.set_value(e.id, v);
                    }
                },
                Command::AttachPlayer(e) => {
                    if e.id < self.alive.len() && self.alive[e.id] {
                        self.players.set_value(e.id, Player {  });
                    }
                },
                Command::AttachLeftMover(e) => {
                    if e.id < self.alive.len() && self.alive[e.id] {
                        self.left_movers.set_value(e.id, LeftMover {  });
                    }
                },
                Command::DetachPosition(e) => {
                    if e.id < self.alive.len() {
                        self.positions.clear_at(e.id);
                    }
                },
                Command::DetachRenderable(e) => {
                    if e.id < self.alive.len() {
                        self.renderables.clear_at(e.id);
                    }
                },
                Command::DetachPlayer(e) => {
                    if e.id < self.alive.len() {
                        self.players.clear_at(e.id);
                    }
                },
                Command::DetachLeftMover(e) => {
                    if e.id < self.alive.len() {
                        self.left_movers.clear_at(e.id);
                    }
                },
                Command::DestroyEntity(e) => {
                    if e.id < self.alive.len() {
                        self.alive.set(e.id, false);
                        self.positions.clear_at(e.id);
                        self.renderables.clear_at(e.id);
                        self.players.clear_at(e.id);
                        self.left_movers.clear_at(e.id);
                    }
                },
            }
            proof {
                assert(self@ =~= apply_command(pre, c));
                let cs = old(self).pending@;
                assert(cs.take(k as int + 1).drop_last() =~= cs.take(k as int));
                assert(cs.take(k as int + 1).last() == cs[k as int]);
                assert(self@ =~= apply_commands(old(self)@, cs.take(k as int + 1)));
            }
            k = k + 1;
        }
        proof {
            assert(old(self).pending@.take(n as int) =~= old(self).pending@);
        }
        self.pending = Vec::new();
    }
}

/// The entity indices present in both storages at once, in entity creation
/// order, up to the smaller storage's coverage.
pub open spec fn join_ids<A, B>(a: Seq<Option<A>>, b: Seq<Option<B>>, n: int) -> Seq<int>
    decreases n,
{
    if n <= 0 {
        Seq::empty()
    } else {
        let p: Seq<int> = join_ids(a, b, n - 1);
        if a[n - 1] is Some && b[n - 1] is Some {
            p.push(n - 1)
        } else {
            p
        }
    }
}

/// The inner join of two storages: the entities present in both, yielded in
/// creation order. Joining anything with an empty storage visits nothing,
/// and that is not an error.
#[verifier::loop_isolation(false)]
pub fn join2<A: Copy, B: Copy>(a: &Storage<A>, b: &Storage<B>) -> (r: Vec<Entity>)
    ensures
        r@.map_values(|e: Entity| e.id as int) == join_ids(
            a.data@,
            b.data@,
            vstd::math::min(a.data@.len() as int, b.data@.len() as int),
        ),
{
    let n: usize = if a.data.len() <= b.data.len() {
        a.data.len()
    } else {
        b.data.len()
    };
    let mut r: Vec<Entity> = Vec::new();
    let mut i: usize = 0;
    while i < n
        invariant
            i <= n,
            r@.map_values(|e: Entity| e.id as int) == join_ids(a.data@, b.data@, i as int),
        decreases n - i,
    {
        if a.contains(i) && b.contains(i) {
            r.push(Entity { id: i });
        }
        proof {
            assert(r@.map_values(|e: Entity| e.id as int) =~= join_ids(
                a.data@,
                b.data@,
                i as int + 1,
            ));
        }
        i = i + 1;
    }
    r
}

/// Joining never yields anything when the first storage holds nothing: the
/// join over zero-populated storages is the empty sequence.
pub proof fn lemma_join_over_empty<A, B>(a: Seq<Option<A>>, b: Seq<Option<B>>, n: int)
    requires
        forall|i: int| 0 <= i < a.len() ==> #[trigger] a[i] is None,
        n <= a.len(),
    ensures
        join_ids(a, b, n) == Seq::<int>::empty(),
    decreases n,
{
    if n > 0 {
        lemma_join_over_empty(a, b, n - 1);
    }
}

} // verus!
