//! Scenario tests for the gameplay systems: movement, collision, damage,
//! steering, pushing and death.

use dungeon_oxide::components::{register_components, Collider, CompVal, Follow, Health,
    HealthMod, Player, Pos, Push, Spr, Vel};
use dungeon_oxide::context::{Context, Input};
use dungeon_oxide::ecs::{EcsError, EntityBuilder, World};
use dungeon_oxide::systems::gameplay::{apply_velocities, collide, decelerate, move_followers,
    move_pushables, player_input, remove_dead, update_health};
use dungeon_oxide::systems::SystemKind;

fn idle_keys() -> Input {
    Input { up: false, down: false, left: false, right: false, attack: false }
}

fn open_ctx() -> Context {
    // Two rows of sixteen tiles, nothing solid.
    Context::new(vec![0u8; 32], vec![false], idle_keys())
}

fn walled_ctx() -> Context {
    // Tile index 5 (column 5 of row 0) holds tile id 1, which is solid;
    // everything else is open.
    let mut level = vec![0u8; 32];
    level[5] = 1;
    Context::new(level, vec![false, true], idle_keys())
}

fn read_pos(w: &mut World, i: usize) -> Option<Pos> {
    let h = w.get::<Pos>().unwrap();
    let v = h.read(i);
    w.release(h);
    match v {
        Some(CompVal::Pos(p)) => Some(p),
        _ => None,
    }
}

fn read_vel(w: &mut World, i: usize) -> Option<Vel> {
    let h = w.get::<Vel>().unwrap();
    let v = h.read(i);
    w.release(h);
    match v {
        Some(CompVal::Vel(p)) => Some(p),
        _ => None,
    }
}

fn read_health(w: &mut World, i: usize) -> Option<i32> {
    let h = w.get::<Health>().unwrap();
    let v = h.read(i);
    w.release(h);
    match v {
        Some(CompVal::Health(Health(n))) => Some(n),
        _ => None,
    }
}

fn read_cooldown(w: &mut World, i: usize) -> Option<u32> {
    let h = w.get::<HealthMod>().unwrap();
    let v = h.read(i);
    w.release(h);
    match v {
        Some(CompVal::HealthMod(m)) => Some(m.cooldown),
        _ => None,
    }
}

#[test]
fn velocity_integrates_into_position_each_tick() {
    let mut w = World::new();
    w.register::<Pos>().unwrap();
    w.register::<Vel>().unwrap();
    w.register::<Collider>().unwrap();
    w.add_entity(EntityBuilder::new().with_component(Pos::new(0, 0)).with_component(
        Vel::new(1, 1),
    )).unwrap();
    w.system(SystemKind::ApplyVelocities);
    let ctx = open_ctx();
    w.tick(&ctx).unwrap();
    assert_eq!(read_pos(&mut w, 0), Some(Pos { x: 1, y: 1 }));
    w.tick(&ctx).unwrap();
    assert_eq!(read_pos(&mut w, 0), Some(Pos { x: 2, y: 2 }));
}

#[test]
fn solid_tile_blocks_one_axis_only() {
    let ctx = walled_ctx();

    // Moving right into the solid tile: x stays put.
    let mut w = World::new();
    register_components(&mut w);
    w.add_entity(
        EntityBuilder::new()
            .with_component(Pos::new(79, 0))
            .with_component(Vel::new(1, 0))
            .with_component(Collider::new(1, 1)),
    )
    .unwrap();
    apply_velocities(&mut w, &ctx).unwrap();
    assert_eq!(read_pos(&mut w, 0), Some(Pos { x: 79, y: 0 }));

    // From the row boundary, x is still blocked but y advances into the
    // open row below.
    let mut w2 = World::new();
    register_components(&mut w2);
    w2.add_entity(
        EntityBuilder::new()
            .with_component(Pos::new(79, 15))
            .with_component(Vel::new(1, 1))
            .with_component(Collider::new(1, 1)),
    )
    .unwrap();
    apply_velocities(&mut w2, &ctx).unwrap();
    assert_eq!(read_pos(&mut w2, 0), Some(Pos { x: 79, y: 16 }));
}

#[test]
fn entities_without_collider_move_unchecked() {
    let ctx = walled_ctx();
    let mut w = World::new();
    register_components(&mut w);
    w.add_entity(EntityBuilder::new().with_component(Pos::new(79, 0)).with_component(
        Vel::new(1, 0),
    )).unwrap();
    apply_velocities(&mut w, &ctx).unwrap();
    assert_eq!(read_pos(&mut w, 0), Some(Pos { x: 80, y: 0 }));
}

#[test]
fn collide_probes_corners() {
    let ctx = walled_ctx();
    // A box overlapping the solid tile collides; one clear of it does not.
    assert_eq!(collide((79, 0), Collider::new(1, 1), &ctx), Ok(true));
    assert_eq!(collide((60, 0), Collider::new(1, 1), &ctx), Ok(false));
    assert_eq!(collide((0, 16), Collider::new(15, 15), &ctx), Ok(false));
}

#[test]
fn collide_outside_grid_is_fatal() {
    let ctx = open_ctx();
    assert_eq!(collide((-20, 0), Collider::new(1, 1), &ctx), Err(EcsError::OutOfBounds));
    assert_eq!(collide((0, 40), Collider::new(1, 1), &ctx), Err(EcsError::OutOfBounds));
    // A tile id beyond the solidity table is a content error too.
    let bad = Context::new(vec![9u8; 32], vec![false], idle_keys());
    assert_eq!(collide((0, 0), Collider::new(1, 1), &bad), Err(EcsError::OutOfBounds));
}

#[test]
fn damage_applies_once_and_cools_down() {
    let mut w = World::new();
    register_components(&mut w);
    // The victim and the hazard overlap and stay overlapped (no velocity,
    // so no knockback movement).
    w.add_entity(
        EntityBuilder::new()
            .with_component(Pos::new(0, 0))
            .with_component(Collider::new(2, 2))
            .with_component(Health(10)),
    )
    .unwrap();
    w.add_entity(
        EntityBuilder::new()
            .with_component(Pos::new(1, 1))
            .with_component(Collider::new(2, 2))
            .with_component(HealthMod { health: -1, cooldown: 0 }),
    )
    .unwrap();
    w.system(SystemKind::UpdateHealth);
    let ctx = open_ctx();

    w.tick(&ctx).unwrap();
    assert_eq!(read_health(&mut w, 0), Some(9));
    assert_eq!(read_cooldown(&mut w, 1), Some(19));

    // The cooldown counts down by one per tick with no further damage.
    for expected in (0..19).rev() {
        w.tick(&ctx).unwrap();
        assert_eq!(read_health(&mut w, 0), Some(9));
        assert_eq!(read_cooldown(&mut w, 1), Some(expected));
    }

    // Once it reaches zero, damage applies again.
    w.tick(&ctx).unwrap();
    assert_eq!(read_health(&mut w, 0), Some(8));
    assert_eq!(read_cooldown(&mut w, 1), Some(19));
}

#[test]
fn damage_knocks_both_entities_apart() {
    let mut w = World::new();
    register_components(&mut w);
    w.add_entity(
        EntityBuilder::new()
            .with_component(Pos::new(0, 0))
            .with_component(Collider::new(15, 15))
            .with_component(Health(10))
            .with_component(Vel::new(0, 0)),
    )
    .unwrap();
    w.add_entity(
        EntityBuilder::new()
            .with_component(Pos::new(10, 0))
            .with_component(Collider::new(15, 15))
            .with_component(HealthMod { health: -1, cooldown: 0 })
            .with_component(Vel::new(0, 0)),
    )
    .unwrap();
    update_health(&mut w, &open_ctx()).unwrap();
    // Two thirds of the distance, truncated toward zero: (0-10)*2/3 = -6.
    assert_eq!(read_vel(&mut w, 0), Some(Vel { x: -6, y: 0 }));
    assert_eq!(read_vel(&mut w, 1), Some(Vel { x: 6, y: 0 }));
    assert_eq!(read_health(&mut w, 0), Some(9));
}

#[test]
fn deceleration_moves_each_axis_toward_zero() {
    let mut w = World::new();
    register_components(&mut w);
    w.add_entity(EntityBuilder::new().with_component(Vel::new(5, -3))).unwrap();
    w.add_entity(EntityBuilder::new().with_component(Vel::new(0, 0))).unwrap();
    decelerate(&mut w, &open_ctx()).unwrap();
    assert_eq!(read_vel(&mut w, 0), Some(Vel { x: 4, y: -2 }));
    assert_eq!(read_vel(&mut w, 1), Some(Vel { x: 0, y: 0 }));
}

#[test]
fn followers_steer_toward_their_target() {
    let mut w = World::new();
    register_components(&mut w);
    w.add_entity(EntityBuilder::new().with_component(Pos::new(50, 50))).unwrap();
    w.add_entity(
        EntityBuilder::new()
            .with_component(Pos::new(10, 80))
            .with_component(Vel::new(0, 0))
            .with_component(Follow(0)),
    )
    .unwrap();
    move_followers(&mut w, &open_ctx()).unwrap();
    // The target is to the upper right: one step each axis.
    assert_eq!(read_vel(&mut w, 1), Some(Vel { x: 1, y: -1 }));
}

#[test]
fn follower_keeps_faster_own_velocity() {
    let mut w = World::new();
    register_components(&mut w);
    w.add_entity(EntityBuilder::new().with_component(Pos::new(50, 50))).unwrap();
    w.add_entity(
        EntityBuilder::new()
            .with_component(Pos::new(10, 80))
            .with_component(Vel::new(-4, 2))
            .with_component(Follow(0)),
    )
    .unwrap();
    move_followers(&mut w, &open_ctx()).unwrap();
    // |own velocity| beats the one-pixel steering step on both axes.
    assert_eq!(read_vel(&mut w, 1), Some(Vel { x: -4, y: 2 }));
}

#[test]
fn follow_target_without_position_is_fatal() {
    let mut w = World::new();
    register_components(&mut w);
    w.add_entity(EntityBuilder::new().with_component(Vel::new(0, 0))).unwrap();
    w.add_entity(
        EntityBuilder::new()
            .with_component(Pos::new(0, 0))
            .with_component(Vel::new(0, 0))
            .with_component(Follow(0)),
    )
    .unwrap();
    assert_eq!(move_followers(&mut w, &open_ctx()).unwrap_err(), EcsError::MissingComponent);
    // A failing system leaves everything as it was.
    assert_eq!(read_vel(&mut w, 1), Some(Vel { x: 0, y: 0 }));
}

#[test]
fn player_pushes_box_along() {
    let mut w = World::new();
    register_components(&mut w);
    w.add_entity(
        EntityBuilder::new()
            .with_component(Pos::new(0, 0))
            .with_component(Vel::new(2, 0))
            .with_component(Collider::new(2, 2))
            .with_component(Player { attack: false }),
    )
    .unwrap();
    w.add_entity(
        EntityBuilder::new()
            .with_component(Pos::new(1, 0))
            .with_component(Collider::new(2, 2))
            .with_component(Push),
    )
    .unwrap();
    move_pushables(&mut w, &open_ctx()).unwrap();
    assert_eq!(read_pos(&mut w, 1), Some(Pos { x: 3, y: 0 }));
    assert_eq!(read_pos(&mut w, 0), Some(Pos { x: 0, y: 0 }));
}

#[test]
fn blocked_box_pushes_player_back() {
    // Every tile is solid, so the box cannot move at all.
    let ctx = Context::new(vec![0u8; 32], vec![true], idle_keys());
    let mut w = World::new();
    register_components(&mut w);
    w.add_entity(
        EntityBuilder::new()
            .with_component(Pos::new(0, 0))
            .with_component(Vel::new(2, 0))
            .with_component(Collider::new(2, 2))
            .with_component(Player { attack: false }),
    )
    .unwrap();
    w.add_entity(
        EntityBuilder::new()
            .with_component(Pos::new(1, 0))
            .with_component(Collider::new(2, 2))
            .with_component(Push),
    )
    .unwrap();
    move_pushables(&mut w, &ctx).unwrap();
    assert_eq!(read_pos(&mut w, 1), Some(Pos { x: 1, y: 0 }));
    assert_eq!(read_pos(&mut w, 0), Some(Pos { x: -2, y: 0 }));
}

#[test]
fn pushing_without_player_is_fatal() {
    let mut w = World::new();
    register_components(&mut w);
    w.add_entity(EntityBuilder::new().with_component(Pos::new(1, 0)).with_component(
        Push,
    ).with_component(Collider::new(2, 2))).unwrap();
    assert_eq!(move_pushables(&mut w, &open_ctx()).unwrap_err(), EcsError::NoPlayer);
}

#[test]
fn dead_entities_lose_sprite_and_collider() {
    let mut w = World::new();
    register_components(&mut w);
    w.add_entity(
        EntityBuilder::new()
            .with_component(Spr(3))
            .with_component(Collider::new(1, 1))
            .with_component(Health(0)),
    )
    .unwrap();
    w.add_entity(
        EntityBuilder::new()
            .with_component(Spr(4))
            .with_component(Collider::new(1, 1))
            .with_component(Health(2)),
    )
    .unwrap();
    remove_dead(&mut w, &open_ctx()).unwrap();
    let spr = w.get::<Spr>().unwrap();
    assert_eq!(spr.read(0), None);
    assert_eq!(spr.read(1), Some(CompVal::Spr(Spr(4))));
    w.release(spr);
    let coll = w.get::<Collider>().unwrap();
    assert_eq!(coll.read(0), None);
    assert_eq!(coll.read(1), Some(CompVal::Collider(Collider { w: 1, h: 1 })));
    w.release(coll);
    // The rows themselves survive; death only clears slots.
    assert_eq!(w.entity_count(), 2);
    assert_eq!(read_health(&mut w, 0), Some(0));
}

#[test]
fn held_keys_push_velocity() {
    let mut w = World::new();
    register_components(&mut w);
    w.add_entity(
        EntityBuilder::new()
            .with_component(Pos::new(50, 50))
            .with_component(Vel::new(0, 0))
            .with_component(Player { attack: false }),
    )
    .unwrap();
    let ctx = Context::new(vec![0u8; 32], vec![false], Input {
        up: true,
        down: false,
        left: true,
        right: false,
        attack: false,
    });
    player_input(&mut w, &ctx).unwrap();
    assert_eq!(read_vel(&mut w, 0), Some(Vel { x: -2, y: -2 }));
}

#[test]
fn rightward_key_mirrors_vertical_speed() {
    // The running game feeds the vertical speed into the horizontal axis
    // when the rightward key is held; the library reproduces that exactly.
    let mut w = World::new();
    register_components(&mut w);
    w.add_entity(
        EntityBuilder::new()
            .with_component(Pos::new(50, 50))
            .with_component(Vel::new(0, 5))
            .with_component(Player { attack: false }),
    )
    .unwrap();
    let ctx = Context::new(vec![0u8; 32], vec![false], Input {
        up: false,
        down: false,
        left: false,
        right: true,
        attack: false,
    });
    player_input(&mut w, &ctx).unwrap();
    assert_eq!(read_vel(&mut w, 0), Some(Vel { x: 5, y: 5 }));
}

#[test]
fn attack_damages_nearby_entities_but_not_the_attacker() {
    let mut w = World::new();
    register_components(&mut w);
    w.add_entity(
        EntityBuilder::new()
            .with_component(Pos::new(50, 50))
            .with_component(Vel::new(0, 0))
            .with_component(Player { attack: false })
            .with_component(Health(5)),
    )
    .unwrap();
    // In range: 5 pixels away.
    w.add_entity(EntityBuilder::new().with_component(Pos::new(55, 50)).with_component(
        Health(5),
    )).unwrap();
    // Out of range: 20 pixels away.
    w.add_entity(EntityBuilder::new().with_component(Pos::new(70, 50)).with_component(
        Health(5),
    )).unwrap();
    let ctx = Context::new(vec![0u8; 32], vec![false], Input {
        up: false,
        down: false,
        left: false,
        right: false,
        attack: true,
    });
    player_input(&mut w, &ctx).unwrap();
    assert_eq!(read_health(&mut w, 0), Some(5));
    assert_eq!(read_health(&mut w, 1), Some(4));
    assert_eq!(read_health(&mut w, 2), Some(5));
}

#[test]
fn input_without_player_is_fatal() {
    let mut w = World::new();
    register_components(&mut w);
    w.add_entity(EntityBuilder::new().with_component(Pos::new(0, 0))).unwrap();
    assert_eq!(player_input(&mut w, &open_ctx()).unwrap_err(), EcsError::NoPlayer);
}
