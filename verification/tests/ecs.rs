//! Scenario tests for the core ECS: registration, construction, the borrow
//! gateway and the scheduler.

use dungeon_oxide::components::{register_components, Collider, CompVal, Follow, Health, Kind,
    Player, Pos, Push, Spr, Vel};
use dungeon_oxide::context::{Context, DrawCmd, Input};
use dungeon_oxide::ecs::{EcsError, EntityBuilder, World};
use dungeon_oxide::systems::{register_systems, SystemKind};

fn quiet_input() -> Input {
    Input { up: false, down: false, left: false, right: false, attack: false }
}

fn empty_ctx() -> Context {
    Context::new(vec![0u8; 32], vec![false], quiet_input())
}

#[test]
fn columns_stay_aligned() {
    let mut w = World::new();
    register_components(&mut w);
    w.add_entity(EntityBuilder::new().with_component(Pos::new(1, 2))).unwrap();
    w.add_entity(EntityBuilder::new().with_component(Vel::new(3, 4)).with_component(
        Health(7),
    )).unwrap();
    w.add_entity(EntityBuilder::new()).unwrap();
    assert_eq!(w.entity_count(), 3);
    for k in [
        Kind::Pos,
        Kind::Vel,
        Kind::Spr,
        Kind::Player,
        Kind::Collider,
        Kind::Health,
        Kind::HealthMod,
        Kind::Follow,
        Kind::Push,
    ] {
        assert!(w.is_registered(k));
    }
    let h = w.get::<Pos>().unwrap();
    assert_eq!(h.len(), 3);
    w.release(h);
    let h = w.get::<Health>().unwrap();
    assert_eq!(h.len(), 3);
    w.release(h);
    let h = w.get::<Push>().unwrap();
    assert_eq!(h.len(), 3);
    w.release(h);
}

#[test]
fn slots_hold_exactly_what_was_built() {
    let mut w = World::new();
    register_components(&mut w);
    let e = w
        .add_entity(
            EntityBuilder::new().with_component(Pos::new(3, 4)).with_component(Health(9)),
        )
        .unwrap();
    assert_eq!(e.0, 0);
    let pos = w.get::<Pos>().unwrap();
    assert_eq!(pos.read(0), Some(CompVal::Pos(Pos { x: 3, y: 4 })));
    w.release(pos);
    let health = w.get::<Health>().unwrap();
    assert_eq!(health.read(0), Some(CompVal::Health(Health(9))));
    w.release(health);
    let vel = w.get::<Vel>().unwrap();
    assert_eq!(vel.read(0), None);
    w.release(vel);
}

#[test]
fn builder_replaces_repeated_kind() {
    let b = EntityBuilder::new()
        .with_component(Pos::new(1, 1))
        .with_component(Pos::new(2, 2));
    assert_eq!(b.staged(Kind::Pos), Some(CompVal::Pos(Pos { x: 2, y: 2 })));
    assert_eq!(b.staged(Kind::Vel), None);
}

#[test]
fn write_borrow_excludes_everything() {
    let mut w = World::new();
    register_components(&mut w);
    let h = w.get_mut::<Pos>().unwrap();
    assert_eq!(w.get_mut::<Pos>().unwrap_err(), EcsError::BorrowConflict);
    assert_eq!(w.get::<Pos>().unwrap_err(), EcsError::BorrowConflict);
    // A different kind is a different column: no interference.
    let other = w.get_mut::<Vel>().unwrap();
    w.release_mut(other);
    w.release_mut(h);
    // Once released, the column is free again.
    let h = w.get_mut::<Pos>().unwrap();
    w.release_mut(h);
}

#[test]
fn readers_share_but_exclude_writers() {
    let mut w = World::new();
    register_components(&mut w);
    let r1 = w.get::<Pos>().unwrap();
    let r2 = w.get::<Pos>().unwrap();
    assert_eq!(w.get_mut::<Pos>().unwrap_err(), EcsError::BorrowConflict);
    w.release(r1);
    assert_eq!(w.get_mut::<Pos>().unwrap_err(), EcsError::BorrowConflict);
    w.release(r2);
    let h = w.get_mut::<Pos>().unwrap();
    w.release_mut(h);
}

#[test]
fn reading_twice_sees_identical_values() {
    let mut w = World::new();
    register_components(&mut w);
    w.add_entity(EntityBuilder::new().with_component(Pos::new(8, 9))).unwrap();
    w.add_entity(EntityBuilder::new()).unwrap();
    let first = w.get::<Pos>().unwrap();
    let second = w.get::<Pos>().unwrap();
    assert_eq!(first.len(), second.len());
    for i in 0..first.len() {
        assert_eq!(first.read(i), second.read(i));
    }
    w.release(second);
    w.release(first);
}

#[test]
fn systems_run_in_registration_order() {
    // Deceleration before movement cancels the step; after movement it
    // does not.  The two orders must be observably different, and each
    // order must hold again on the next tick.
    let ctx = empty_ctx();

    let mut ad = World::new();
    register_components(&mut ad);
    ad.add_entity(EntityBuilder::new().with_component(Pos::new(0, 0)).with_component(
        Vel::new(1, 1),
    )).unwrap();
    ad.system(SystemKind::ApplyVelocities);
    ad.system(SystemKind::Decelerate);
    ad.tick(&ctx).unwrap();
    let pos = ad.get::<Pos>().unwrap();
    assert_eq!(pos.read(0), Some(CompVal::Pos(Pos { x: 1, y: 1 })));
    ad.release(pos);
    ad.tick(&ctx).unwrap();
    let pos = ad.get::<Pos>().unwrap();
    // The velocity was spent after the first tick, so nothing moves now.
    assert_eq!(pos.read(0), Some(CompVal::Pos(Pos { x: 1, y: 1 })));
    ad.release(pos);

    let mut da = World::new();
    register_components(&mut da);
    da.add_entity(EntityBuilder::new().with_component(Pos::new(0, 0)).with_component(
        Vel::new(1, 1),
    )).unwrap();
    da.system(SystemKind::Decelerate);
    da.system(SystemKind::ApplyVelocities);
    da.tick(&ctx).unwrap();
    let pos = da.get::<Pos>().unwrap();
    assert_eq!(pos.read(0), Some(CompVal::Pos(Pos { x: 0, y: 0 })));
    da.release(pos);
}

#[test]
fn full_schedule_ticks_cleanly() {
    let mut w = World::new();
    register_components(&mut w);
    register_systems(&mut w);
    w.add_entity(
        EntityBuilder::new()
            .with_component(Pos::new(20, 20))
            .with_component(Vel::new(0, 0))
            .with_component(Collider::new(2, 2))
            .with_component(Spr(1))
            .with_component(Player { attack: false }),
    )
    .unwrap();
    let cmds = w.tick(&empty_ctx()).unwrap();
    // The sprite is drawn, and nothing else is: no attack, no health bar.
    assert_eq!(cmds.len(), 1);
}

#[test]
fn register_after_entity_is_fatal() {
    let mut w = World::new();
    w.register::<Pos>().unwrap();
    w.add_entity(EntityBuilder::new().with_component(Pos::new(0, 0))).unwrap();
    assert_eq!(w.register::<Vel>().unwrap_err(), EcsError::RegisterAfterEntities);
}

#[test]
fn unregistered_kind_is_fatal() {
    let mut w = World::new();
    w.register::<Pos>().unwrap();
    assert_eq!(w.get::<Spr>().unwrap_err(), EcsError::UnregisteredKind);
    assert_eq!(w.get_mut::<Spr>().unwrap_err(), EcsError::UnregisteredKind);
}

#[test]
fn construction_under_live_borrow_is_refused() {
    let mut w = World::new();
    register_components(&mut w);
    let h = w.get::<Pos>().unwrap();
    let r = w.add_entity(EntityBuilder::new());
    assert_eq!(r.unwrap_err(), EcsError::BorrowConflict);
    w.release(h);
    assert!(w.add_entity(EntityBuilder::new()).is_ok());
}

#[test]
fn write_handle_edits_reach_the_column_on_release() {
    let mut w = World::new();
    register_components(&mut w);
    w.add_entity(EntityBuilder::new().with_component(Health(5))).unwrap();
    let mut h = w.get_mut::<Health>().unwrap();
    h.write(0, Some(CompVal::Health(Health(2))));
    w.release_mut(h);
    let r = w.get::<Health>().unwrap();
    assert_eq!(r.read(0), Some(CompVal::Health(Health(2))));
    w.release(r);
}

#[test]
fn tick_with_no_systems_draws_nothing() {
    let mut w = World::new();
    register_components(&mut w);
    let cmds = w.tick(&empty_ctx()).unwrap();
    assert!(cmds.is_empty());
}

#[test]
fn tick_aborts_at_the_failing_system() {
    // The first system runs and commits; the second hits a fatal reference
    // error, so the tick stops there with the first system's work in place.
    let mut w = World::new();
    register_components(&mut w);
    w.add_entity(
        EntityBuilder::new()
            .with_component(Pos::new(0, 0))
            .with_component(Vel::new(1, 1))
            .with_component(Follow(1)),
    )
    .unwrap();
    w.add_entity(EntityBuilder::new().with_component(Vel::new(0, 0))).unwrap();
    w.system(SystemKind::ApplyVelocities);
    w.system(SystemKind::MoveFollowers);
    assert_eq!(w.tick(&empty_ctx()).unwrap_err(), EcsError::MissingComponent);
    let pos = w.get::<Pos>().unwrap();
    assert_eq!(pos.read(0), Some(CompVal::Pos(Pos { x: 1, y: 1 })));
    w.release(pos);
}

#[test]
fn draw_commands_come_out_in_schedule_order() {
    let mut w = World::new();
    register_components(&mut w);
    w.add_entity(
        EntityBuilder::new()
            .with_component(Pos::new(40, 40))
            .with_component(Spr(7))
            .with_component(Player { attack: false })
            .with_component(Health(1)),
    )
    .unwrap();
    w.system(SystemKind::DrawSprites);
    w.system(SystemKind::DrawHealth);
    let cmds = w.tick(&empty_ctx()).unwrap();
    assert_eq!(cmds.len(), 6);
    assert_eq!(cmds[0], DrawCmd::Tile { id: 7, x: 40, y: 40 });
    assert_eq!(cmds[1], DrawCmd::Tile { id: 238, x: 0, y: 0 });
    assert_eq!(cmds[5], DrawCmd::Tile { id: 239, x: 56, y: 0 });
}

#[test]
fn tick_aborts_on_missing_column() {
    // A schedule referring to unregistered kinds is a configuration error:
    // the tick stops with it.
    let mut w = World::new();
    w.register::<Pos>().unwrap();
    w.system(SystemKind::ApplyVelocities);
    assert_eq!(w.tick(&empty_ctx()).unwrap_err(), EcsError::UnregisteredKind);
}
