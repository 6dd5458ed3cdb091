use roguelike_core::components::{LeftMover, Player, Position, Renderable, Rgb};
use roguelike_core::ecs::{join2, Command, Entity, Storage, World};

#[test]
fn create_entities_yields_increasing_ids() {
    let mut w = World::new();
    let a = w.create_entity();
    let b = w.create_entity();
    let c = w.create_entity();
    assert_eq!(a.id, 0);
    assert_eq!(b.id, 1);
    assert_eq!(c.id, 2);
}

#[test]
fn attach_then_read_back() {
    let mut w = World::new();
    let e = w.create_entity();
    assert_eq!(w.positions.get(e.id), None);
    w.attach_position(e, Position { x: 3, y: 4 });
    assert_eq!(w.positions.get(e.id), Some(Position { x: 3, y: 4 }));
    w.attach_renderable(
        e,
        Renderable { glyph: 64, fg: Rgb { r: 255, g: 255, b: 0 }, bg: Rgb { r: 0, g: 0, b: 0 } },
    );
    assert_eq!(w.renderables.get(e.id).unwrap().glyph, 64);
    w.attach_player(e);
    assert!(w.players.contains(e.id));
    assert!(!w.left_movers.contains(e.id));
}

#[test]
fn join_over_empty_storages_yields_nothing() {
    let a: Storage<Player> = Storage::new();
    let b: Storage<Position> = Storage::new();
    let joined = join2(&a, &b);
    assert_eq!(joined.len(), 0);
}

#[test]
fn join_over_unpopulated_world_yields_nothing() {
    let mut w = World::new();
    w.create_entity();
    w.create_entity();
    let joined = join2(&w.players, &w.positions);
    assert_eq!(joined.len(), 0);
}

#[test]
fn join_visits_entities_in_creation_order() {
    let mut w = World::new();
    let a = w.create_entity();
    let b = w.create_entity();
    let c = w.create_entity();
    let d = w.create_entity();
    w.attach_position(a, Position { x: 1, y: 1 });
    w.attach_position(c, Position { x: 2, y: 2 });
    w.attach_position(d, Position { x: 3, y: 3 });
    w.attach_player(a);
    w.attach_player(b);
    w.attach_player(d);
    let joined = join2(&w.players, &w.positions);
    assert_eq!(joined, vec![Entity { id: 0 }, Entity { id: 3 }]);
}

#[test]
fn maintain_applies_buffered_attach() {
    let mut w = World::new();
    let e = w.create_entity();
    w.queue(Command::AttachPosition(e, Position { x: 9, y: 9 }));
    assert_eq!(w.positions.get(e.id), None);
    w.maintain();
    assert_eq!(w.positions.get(e.id), Some(Position { x: 9, y: 9 }));
    assert_eq!(w.pending.len(), 0);
}

#[test]
fn maintain_applies_buffered_detach() {
    let mut w = World::new();
    let e = w.create_entity();
    w.attach_position(e, Position { x: 1, y: 2 });
    w.attach_left_mover(e);
    w.queue(Command::DetachPosition(e));
    w.maintain();
    assert_eq!(w.positions.get(e.id), None);
    assert!(w.left_movers.contains(e.id));
}

#[test]
fn destroy_clears_every_storage() {
    let mut w = World::new();
    let e = w.create_entity();
    let other = w.create_entity();
    w.attach_position(e, Position { x: 1, y: 2 });
    w.attach_player(e);
    w.attach_left_mover(e);
    w.attach_position(other, Position { x: 5, y: 6 });
    w.queue(Command::DestroyEntity(e));
    w.maintain();
    assert_eq!(w.positions.get(e.id), None);
    assert!(!w.players.contains(e.id));
    assert!(!w.left_movers.contains(e.id));
    assert_eq!(w.positions.get(other.id), Some(Position { x: 5, y: 6 }));
}

#[test]
fn attach_after_destroy_is_a_silent_noop() {
    let mut w = World::new();
    let e = w.create_entity();
    w.queue(Command::DestroyEntity(e));
    w.queue(Command::AttachPosition(e, Position { x: 7, y: 7 }));
    w.maintain();
    assert_eq!(w.positions.get(e.id), None);
}

#[test]
fn command_for_unknown_entity_is_a_silent_noop() {
    let mut w = World::new();
    w.create_entity();
    w.queue(Command::AttachPlayer(Entity { id: 99 }));
    w.queue(Command::DetachLeftMover(Entity { id: 99 }));
    w.queue(Command::DestroyEntity(Entity { id: 99 }));
    w.maintain();
    assert!(!w.players.contains(99));
    assert_eq!(w.alive.len(), 1);
    assert!(w.alive[0]);
}

#[test]
fn commands_replay_in_order() {
    let mut w = World::new();
    let e = w.create_entity();
    w.queue(Command::AttachPosition(e, Position { x: 1, y: 1 }));
    w.queue(Command::AttachPosition(e, Position { x: 2, y: 2 }));
    w.queue(Command::DetachPosition(e));
    w.queue(Command::AttachPosition(e, Position { x: 3, y: 3 }));
    w.maintain();
    assert_eq!(w.positions.get(e.id), Some(Position { x: 3, y: 3 }));
}

#[test]
fn storage_reads_outside_coverage_hold_nothing() {
    let s: Storage<LeftMover> = Storage::new();
    assert_eq!(s.get(0), None);
    assert!(!s.contains(5));
}
