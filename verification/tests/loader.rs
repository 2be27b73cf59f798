//! Scenario tests for content loading: descriptor interpretation and level
//! construction.

use dungeon_oxide::components::{register_components, Collider, CompVal, Follow, Health,
    HealthMod, Player, Pos, Push, Spr, Vel};
use dungeon_oxide::ecs::{EcsError, World};
use dungeon_oxide::loader::{component_from_raw, entity_loader, get_int, load_level, LevelDesc,
    RawComponent, RawField};

fn raw(name: &str, fields: &[(&str, i64)]) -> RawComponent {
    RawComponent {
        name: name.to_string(),
        fields: fields
            .iter()
            .map(|(k, v)| RawField { key: k.to_string(), value: *v })
            .collect(),
    }
}

#[test]
fn every_descriptor_kind_parses() {
    assert_eq!(
        component_from_raw(&raw("pos", &[("x", 3), ("y", 4)])).unwrap(),
        CompVal::Pos(Pos { x: 3, y: 4 })
    );
    assert_eq!(
        component_from_raw(&raw("vel", &[("x", -1), ("y", 2)])).unwrap(),
        CompVal::Vel(Vel { x: -1, y: 2 })
    );
    assert_eq!(component_from_raw(&raw("spr", &[("id", 9)])).unwrap(), CompVal::Spr(Spr(9)));
    assert_eq!(
        component_from_raw(&raw("player", &[])).unwrap(),
        CompVal::Player(Player { attack: false })
    );
    assert_eq!(
        component_from_raw(&raw("collider", &[("w", 2), ("h", 3)])).unwrap(),
        CompVal::Collider(Collider { w: 2, h: 3 })
    );
    assert_eq!(
        component_from_raw(&raw("health", &[("val", 10)])).unwrap(),
        CompVal::Health(Health(10))
    );
    assert_eq!(
        component_from_raw(&raw("healthmod", &[("val", -1)])).unwrap(),
        CompVal::HealthMod(HealthMod { health: -1, cooldown: 0 })
    );
    assert_eq!(
        component_from_raw(&raw("follow", &[("id", 4)])).unwrap(),
        CompVal::Follow(Follow(4))
    );
    assert_eq!(component_from_raw(&raw("push", &[])).unwrap(), CompVal::Push(Push));
}

#[test]
fn unknown_descriptor_name_is_fatal() {
    assert_eq!(
        component_from_raw(&raw("teleporter", &[])).unwrap_err(),
        EcsError::UnknownComponentKind
    );
}

#[test]
fn missing_field_is_fatal() {
    assert_eq!(
        component_from_raw(&raw("pos", &[("x", 3)])).unwrap_err(),
        EcsError::MissingField
    );
    assert_eq!(component_from_raw(&raw("health", &[])).unwrap_err(), EcsError::MissingField);
}

#[test]
fn oversized_field_values_fall_back_to_zero() {
    assert_eq!(
        component_from_raw(&raw("pos", &[("x", i64::MAX), ("y", -4)])).unwrap(),
        CompVal::Pos(Pos { x: 0, y: -4 })
    );
    // A negative follow index cannot be a row number: it falls back too.
    assert_eq!(
        component_from_raw(&raw("follow", &[("id", -5)])).unwrap(),
        CompVal::Follow(Follow(0))
    );
}

#[test]
fn first_matching_field_wins() {
    let fields = vec![
        RawField { key: "x".to_string(), value: 1 },
        RawField { key: "x".to_string(), value: 2 },
    ];
    assert_eq!(get_int(&fields, "x"), Some(1));
    assert_eq!(get_int(&fields, "y"), None);
}

#[test]
fn entity_loader_stages_every_descriptor() {
    let b = entity_loader(&vec![
        raw("pos", &[("x", 3), ("y", 4)]),
        raw("health", &[("val", 10)]),
    ])
    .unwrap();
    assert_eq!(
        b.staged(dungeon_oxide::components::Kind::Pos),
        Some(CompVal::Pos(Pos { x: 3, y: 4 }))
    );
    assert_eq!(
        b.staged(dungeon_oxide::components::Kind::Health),
        Some(CompVal::Health(Health(10)))
    );
    assert_eq!(b.staged(dungeon_oxide::components::Kind::Vel), None);
}

#[test]
fn load_level_builds_every_entity_and_returns_the_map() {
    let mut w = World::new();
    register_components(&mut w);
    let level = LevelDesc {
        map: 1,
        entities: vec![
            vec![
                raw("pos", &[("x", 3), ("y", 4)]),
                raw("vel", &[("x", 1), ("y", 1)]),
                raw("player", &[]),
            ],
            vec![
                raw("health", &[("val", 10)]),
                raw("collider", &[("w", 2), ("h", 2)]),
                raw("pos", &[("x", 9), ("y", 9)]),
            ],
        ],
    };
    assert_eq!(load_level(&mut w, &level).unwrap(), 1);
    assert_eq!(w.entity_count(), 2);
    let pos = w.get::<Pos>().unwrap();
    assert_eq!(pos.read(0), Some(CompVal::Pos(Pos { x: 3, y: 4 })));
    assert_eq!(pos.read(1), Some(CompVal::Pos(Pos { x: 9, y: 9 })));
    w.release(pos);
    let player = w.get::<Player>().unwrap();
    assert!(matches!(player.read(0), Some(CompVal::Player(_))));
    assert_eq!(player.read(1), None);
    w.release(player);
}

#[test]
fn load_level_rejects_unregistered_kinds() {
    let mut w = World::new();
    // Only positions are registered; a sprite descriptor names a kind the
    // world does not hold.
    w.register::<Pos>().unwrap();
    let level = LevelDesc {
        map: 0,
        entities: vec![vec![raw("pos", &[("x", 0), ("y", 0)]), raw("spr", &[("id", 1)])]],
    };
    assert_eq!(load_level(&mut w, &level).unwrap_err(), EcsError::UnregisteredKind);
    assert_eq!(w.entity_count(), 0);
}

#[test]
fn load_level_rejects_unknown_descriptors() {
    let mut w = World::new();
    register_components(&mut w);
    let level = LevelDesc { map: 0, entities: vec![vec![raw("portal", &[])]] };
    assert_eq!(load_level(&mut w, &level).unwrap_err(), EcsError::UnknownComponentKind);
}
