//! Scenario tests for the render systems' draw lists.

use dungeon_oxide::components::{register_components, CompVal, Health, Player, Pos, Spr, Vel};
use dungeon_oxide::context::{Context, DrawCmd, Input};
use dungeon_oxide::ecs::{EntityBuilder, World};
use dungeon_oxide::systems::graphics::{draw_attack, draw_health, draw_sprites};

fn no_keys() -> Input {
    Input { up: false, down: false, left: false, right: false, attack: false }
}

fn plain_ctx() -> Context {
    Context::new(vec![0u8; 32], vec![false], no_keys())
}

#[test]
fn sprites_are_drawn_at_their_positions() {
    let mut w = World::new();
    register_components(&mut w);
    w.add_entity(EntityBuilder::new().with_component(Pos::new(5, 6)).with_component(
        Spr(7),
    )).unwrap();
    // A sprite without a position is not drawn, nor a position without a
    // sprite.
    w.add_entity(EntityBuilder::new().with_component(Spr(9))).unwrap();
    w.add_entity(EntityBuilder::new().with_component(Pos::new(1, 1))).unwrap();
    w.add_entity(EntityBuilder::new().with_component(Pos::new(30, 40)).with_component(
        Spr(2),
    )).unwrap();
    let cmds = draw_sprites(&mut w, &plain_ctx()).unwrap();
    assert_eq!(cmds, vec![
        DrawCmd::Tile { id: 7, x: 5, y: 6 },
        DrawCmd::Tile { id: 2, x: 30, y: 40 },
    ]);
}

#[test]
fn attack_circle_follows_the_attacking_player() {
    let mut w = World::new();
    register_components(&mut w);
    w.add_entity(EntityBuilder::new().with_component(Pos::new(12, 13)).with_component(
        Player { attack: false },
    )).unwrap();
    assert!(draw_attack(&mut w, &plain_ctx()).unwrap().is_empty());

    // Mark the attack through the write gateway and draw again.
    let mut h = w.get_mut::<Player>().unwrap();
    h.write(0, Some(CompVal::Player(Player { attack: true })));
    w.release_mut(h);
    let cmds = draw_attack(&mut w, &plain_ctx()).unwrap();
    assert_eq!(cmds, vec![DrawCmd::AttackCircle { x: 12, y: 13 }]);
}

#[test]
fn health_bar_shows_full_and_empty_hearts() {
    let mut w = World::new();
    register_components(&mut w);
    w.add_entity(
        EntityBuilder::new().with_component(Player { attack: false }).with_component(
            Health(3),
        ).with_component(Vel::new(0, 0)),
    ).unwrap();
    let cmds = draw_health(&mut w, &plain_ctx()).unwrap();
    assert_eq!(cmds, vec![
        DrawCmd::Tile { id: 238, x: 0, y: 0 },
        DrawCmd::Tile { id: 238, x: 14, y: 0 },
        DrawCmd::Tile { id: 238, x: 28, y: 0 },
        DrawCmd::Tile { id: 239, x: 42, y: 0 },
        DrawCmd::Tile { id: 239, x: 56, y: 0 },
    ]);
}
