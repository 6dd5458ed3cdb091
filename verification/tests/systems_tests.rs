use roguelike_core::components::{Position, Rgb, Renderable};
use roguelike_core::ecs::World;
use roguelike_core::map::TileType;
use roguelike_core::state::State;
use roguelike_core::systems::LeftWalker;

#[test]
fn left_walker_decrements_tagged_x() {
    let mut w = World::new();
    let e = w.create_entity();
    w.attach_position(e, Position { x: 5, y: 7 });
    w.attach_left_mover(e);
    let lw = LeftWalker {};
    lw.run(&w.left_movers, &mut w.positions);
    assert_eq!(w.positions.get(e.id), Some(Position { x: 4, y: 7 }));
}

#[test]
fn left_walker_wraps_at_the_left_edge() {
    let mut w = World::new();
    let e = w.create_entity();
    w.attach_position(e, Position { x: 0, y: 12 });
    w.attach_left_mover(e);
    let lw = LeftWalker {};
    lw.run(&w.left_movers, &mut w.positions);
    assert_eq!(w.positions.get(e.id), Some(Position { x: 79, y: 12 }));
}

#[test]
fn left_walker_ignores_untagged_entities() {
    let mut w = World::new();
    let tagged = w.create_entity();
    let plain = w.create_entity();
    w.attach_position(tagged, Position { x: 10, y: 1 });
    w.attach_left_mover(tagged);
    w.attach_position(plain, Position { x: 10, y: 2 });
    let lw = LeftWalker {};
    lw.run(&w.left_movers, &mut w.positions);
    assert_eq!(w.positions.get(tagged.id), Some(Position { x: 9, y: 1 }));
    assert_eq!(w.positions.get(plain.id), Some(Position { x: 10, y: 2 }));
}

#[test]
fn tick_runs_walker_after_input_and_draws_everything() {
    let map = vec![TileType::Floor; 4000];
    let mut w = World::new();
    w.insert_map(map);
    let walker = w.create_entity();
    w.attach_position(walker, Position { x: 30, y: 8 });
    w.attach_renderable(
        walker,
        Renderable { glyph: 1, fg: Rgb { r: 255, g: 0, b: 0 }, bg: Rgb { r: 0, g: 0, b: 0 } },
    );
    w.attach_left_mover(walker);
    let mut st = State { ecs: w };
    let out = st.tick(None);
    assert_eq!(st.ecs.positions.get(walker.id), Some(Position { x: 29, y: 8 }));
    assert_eq!(out.len(), 4001);
    assert_eq!(out[4000].x, 29);
    assert_eq!(out[4000].glyph, 1);
    // a second frame moves it again
    st.tick(None);
    assert_eq!(st.ecs.positions.get(walker.id), Some(Position { x: 28, y: 8 }));
}

#[test]
fn systems_run_in_fixed_order_movement_then_walker() {
    // an entity that is both the player and a left mover first takes the
    // input step, then the autonomous left step of the same tick
    let map = vec![TileType::Floor; 4000];
    let mut w = World::new();
    w.insert_map(map);
    let e = w.create_entity();
    w.attach_position(e, Position { x: 10, y: 10 });
    w.attach_player(e);
    w.attach_left_mover(e);
    let mut st = State { ecs: w };
    st.tick(Some(roguelike_core::player::Key::Down));
    assert_eq!(st.ecs.positions.get(e.id), Some(Position { x: 9, y: 11 }));
}
