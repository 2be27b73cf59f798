//! Turning level content into entities.
//!
//! Content loading hands the library each entity as an ordered list of
//! descriptors: the kind's name plus its integer fields ([`RawComponent`]).
//! The logic here interprets the descriptors, stages them on an
//! [`EntityBuilder`] and commits them to the [`World`].  A descriptor naming
//! an unknown or unregistered kind, or missing a field its kind needs, is a
//! fatal content error.

use vstd::prelude::*;

verus! {

use crate::components::{kind_of_id, Collider, CompVal, Follow, Health, HealthMod, Player, Pos,
    Push, Spr, Vel, KIND_COUNT};
use crate::ecs::{EcsError, EntityBuilder, World, WorldModel};

/// One integer field of a component descriptor.
pub struct RawField {
    pub key: String,
    pub value: i64,
}

/// A component descriptor: the kind's name and its integer fields, exactly
/// as content loading found them.
pub struct RawComponent {
    pub name: String,
    pub fields: Vec<RawField>,
}

/// A level: the id of its tile map, and one descriptor list per entity.
pub struct LevelDesc {
    pub map: usize,
    pub entities: Vec<Vec<RawComponent>>,
}

/// The first field with the given key, if any.
pub open spec fn field_lookup(fields: Seq<RawField>, key: Seq<char>) -> Option<i64>
    decreases fields.len(),
{
    if fields.len() == 0 {
        None
    } else if fields[0].key@ == key {
        Some(fields[0].value)
    } else {
        field_lookup(fields.drop_first(), key)
    }
}

/// A field value narrowed to `i32`; a value that does not fit falls back to
/// zero.
pub open spec fn i64_as_i32_or_default(v: i64) -> i32 {
    if i32::MIN <= v <= i32::MAX {
        v as i32
    } else {
        0
    }
}

/// A field value narrowed to `usize`; a value that does not fit falls back
/// to zero.
pub open spec fn i64_as_usize_or_default(v: i64) -> usize {
    if 0 <= v <= usize::MAX {
        v as usize
    } else {
        0
    }
}

/// Looks a field up by key.
pub fn get_int(fields: &Vec<RawField>, key: &str) -> (r: Option<i64>)
    ensures
        r == field_lookup(fields@, key@),
{
    let wanted = key.to_owned();
    let n = fields.len();
    proof {
        assert(fields@.skip(0) =~= fields@);
    }
    let mut i: usize = 0;
    while i < n
        invariant
            i <= n,
            n == fields@.len(),
            wanted@ == key@,
            field_lookup(fields@, key@) == field_lookup(fields@.skip(i as int), key@),
        decreases n - i,
    {
        proof {
            assert(fields@.skip(i as int)[0] == fields@[i as int]);
            assert(fields@.skip(i as int).drop_first() =~= fields@.skip(i + 1 as int));
        }
        if fields[i].key == wanted {
            return Some(fields[i].value);
        }
        i += 1;
    }
    proof {
        assert(fields@.skip(n as int).len() == 0);
    }
    None
}

/// Executable form of [`i64_as_i32_or_default`].
fn to_i32_or_default(v: i64) -> (r: i32)
    ensures
        r == i64_as_i32_or_default(v),
{
    if v >= i32::MIN as i64 && v <= i32::MAX as i64 {
        v as i32
    } else {
        0
    }
}

/// Executable form of [`i64_as_usize_or_default`].
fn to_usize_or_default(v: i64) -> (r: usize)
    ensures
        r == i64_as_usize_or_default(v),
{
    if v < 0 {
        0
    } else if (v as u64) <= (usize::MAX as u64) {
        v as usize
    } else {
        0
    }
}

/// The component a descriptor stands for.  An unknown name is fatal, as is a
/// missing integer field; a field value that does not fit its narrower
/// component type falls back to the type's default, zero.
pub open spec fn parse_component(name: Seq<char>, fields: Seq<RawField>) -> Result<
    CompVal,
    EcsError,
> {
    if name == "pos"@ {
        match (field_lookup(fields, "x"@), field_lookup(fields, "y"@)) {
            (Some(x), Some(y)) => Ok(
                CompVal::Pos(Pos { x: i64_as_i32_or_default(x), y: i64_as_i32_or_default(y) }),
            ),
            _ => Err(EcsError::MissingField),
        }
    } else if name == "vel"@ {
        match (field_lookup(fields, "x"@), field_lookup(fields, "y"@)) {
            (Some(x), Some(y)) => Ok(
                CompVal::Vel(Vel { x: i64_as_i32_or_default(x), y: i64_as_i32_or_default(y) }),
            ),
            _ => Err(EcsError::MissingField),
        }
    } else if name == "spr"@ {
        match field_lookup(fields, "id"@) {
            Some(id) => Ok(CompVal::Spr(Spr(i64_as_i32_or_default(id)))),
            None => Err(EcsError::MissingField),
        }
    } else if name == "player"@ {
        Ok(CompVal::Player(Player { attack: false }))
    } else if name == "collider"@ {
        match (field_lookup(fields, "w"@), field_lookup(fields, "h"@)) {
            (Some(w), Some(h)) => Ok(
                CompVal::Collider(
                    Collider { w: i64_as_i32_or_default(w), h: i64_as_i32_or_default(h) },
                ),
            ),
            _ => Err(EcsError::MissingField),
        }
    } else if name == "health"@ {
        match field_lookup(fields, "val"@) {
            Some(v) => Ok(CompVal::Health(Health(i64_as_i32_or_default(v)))),
            None => Err(EcsError::MissingField),
        }
    } else if name == "healthmod"@ {
        match field_lookup(fields, "val"@) {
            Some(v) => Ok(
                CompVal::HealthMod(
                    HealthMod { health: i64_as_i32_or_default(v), cooldown: 0 },
                ),
            ),
            None => Err(EcsError::MissingField),
        }
    } else if name == "follow"@ {
        match field_lookup(fields, "id"@) {
            Some(id) => Ok(CompVal::Follow(Follow(i64_as_usize_or_default(id)))),
            None => Err(EcsError::MissingField),
        }
    } else if name == "push"@ {
        Ok(CompVal::Push(Push))
    } else {
        Err(EcsError::UnknownComponentKind)
    }
}

/// Executable form of [`parse_component`].
pub fn component_from_raw(rc: &RawComponent) -> (r: Result<CompVal, EcsError>)
    ensures
        r == parse_component(rc.name@, rc.fields@),
{
    if rc.name == "pos".to_owned() {
        match (get_int(&rc.fields, "x"), get_int(&rc.fields, "y")) {
            (Some(x), Some(y)) => Ok(
                CompVal::Pos(Pos { x: to_i32_or_default(x), y: to_i32_or_default(y) }),
            ),
            _ => Err(EcsError::MissingField),
        }
    } else if rc.name == "vel".to_owned() {
        match (get_int(&rc.fields, "x"), get_int(&rc.fields, "y")) {
            (Some(x), Some(y)) => Ok(
                CompVal::Vel(Vel { x: to_i32_or_default(x), y: to_i32_or_default(y) }),
            ),
            _ => Err(EcsError::MissingField),
        }
    } else if rc.name == "spr".to_owned() {
        match get_int(&rc.fields, "id") {
            Some(id) => Ok(CompVal::Spr(Spr(to_i32_or_default(id)))),
            None => Err(EcsError::MissingField),
        }
    } else if rc.name == "player".to_owned() {
        Ok(CompVal::Player(Player { attack: false }))
    } else if rc.name == "collider".to_owned() {
        match (get_int(&rc.fields, "w"), get_int(&rc.fields, "h")) {
            (Some(w), Some(h)) => Ok(
                CompVal::Collider(Collider { w: to_i32_or_default(w), h: to_i32_or_default(h) }),
            ),
            _ => Err(EcsError::MissingField),
        }
    } else if rc.name == "health".to_owned() {
        match get_int(&rc.fields, "val") {
            Some(v) => Ok(CompVal::Health(Health(to_i32_or_default(v)))),
            None => Err(EcsError::MissingField),
        }
    } else if rc.name == "healthmod".to_owned() {
        match get_int(&rc.fields, "val") {
            Some(v) => Ok(CompVal::HealthMod(HealthMod { health: to_i32_or_default(v), cooldown: 0 })),
            None => Err(EcsError::MissingField),
        }
    } else if rc.name == "follow".to_owned() {
        match get_int(&rc.fields, "id") {
            Some(id) => Ok(CompVal::Follow(Follow(to_usize_or_default(id)))),
            None => Err(EcsError::MissingField),
        }
    } else if rc.name == "push".to_owned() {
        Ok(CompVal::Push(Push))
    } else {
        Err(EcsError::UnknownComponentKind)
    }
}

/// An empty staged row: one empty slot per kind.
pub open spec fn empty_row() -> Seq<Option<CompVal>> {
    Seq::new(KIND_COUNT as nat, |i: int| None::<CompVal>)
}

/// The staged row after interpreting descriptors `i..`, starting from `b`:
/// each descriptor's component lands in its kind's slot, later descriptors
/// of the same kind replacing earlier ones; the first bad descriptor is
/// fatal.
pub open spec fn load_entity(comps: Seq<RawComponent>, b: Seq<Option<CompVal>>, i: int) -> Result<
    Seq<Option<CompVal>>,
    EcsError,
>
    decreases comps.len() - i,
{
    if i < 0 || i >= comps.len() {
        Ok(b)
    } else {
        match parse_component(comps[i].name@, comps[i].fields@) {
            Ok(v) => load_entity(comps, b.update(v.kind().id_spec(), Some(v)), i + 1),
            Err(e) => Err(e),
        }
    }
}

/// Builds the entity a descriptor list describes.
pub fn entity_loader(components: &Vec<RawComponent>) -> (r: Result<EntityBuilder, EcsError>)
    ensures
        match r {
            Ok(b) => load_entity(components@, empty_row(), 0) == Ok::<_, EcsError>(b@) && b.wf(),
            Err(e) => load_entity(components@, empty_row(), 0) == Err::<Seq<Option<CompVal>>, _>(e),
        },
{
    let mut b = EntityBuilder::new();
    proof {
        assert(b@ =~= empty_row());
    }
    let n = components.len();
    let mut i: usize = 0;
    while i < n
        invariant
            i <= n,
            n == components@.len(),
            b.wf(),
            load_entity(components@, empty_row(), 0) == load_entity(components@, b@, i as int),
        decreases n - i,
    {
        match component_from_raw(&components[i]) {
            Ok(v) => {
                b = b.with_value(v);
            },
            Err(e) => {
                return Err(e);
            },
        }
        i += 1;
    }
    Ok(b)
}

/// Whether every staged slot of a row belongs to a registered kind.
pub open spec fn row_registered(m: WorldModel, row: Seq<Option<CompVal>>) -> bool {
    forall|j: int| 0 <= j < row.len() ==> ((#[trigger] row[j]) is Some ==> m.cols[j].registered)
}

/// The outcome of loading a list of entities: the world model afterward and
/// the fatal error, if one stopped the load.  Entities committed before the
/// error stay committed.
#[verifier::ext_equal]
pub ghost struct LoadOut {
    pub m: WorldModel,
    pub err: Option<EcsError>,
}

/// Loads the entities `i..` in order: each descriptor list is interpreted,
/// checked against the registered kinds, and committed as one new row.
pub open spec fn load_entities_from(m: WorldModel, ents: Seq<Vec<RawComponent>>, i: int) -> LoadOut
    decreases ents.len() - i,
{
    if i < 0 || i >= ents.len() {
        LoadOut { m, err: None }
    } else {
        match load_entity(ents[i]@, empty_row(), 0) {
            Err(e) => LoadOut { m, err: Some(e) },
            Ok(row) => if !row_registered(m, row) {
                LoadOut { m, err: Some(EcsError::UnregisteredKind) }
            } else {
                load_entities_from(m.insert_row(row), ents, i + 1)
            },
        }
    }
}

/// Loads a level's entities into the world and returns the id of the tile
/// map the level plays on.  Each descriptor must name a registered kind;
/// construction fails fatally on the first that does not, leaving the
/// entities already committed in place.
#[verifier::loop_isolation(false)]
pub fn load_level(world: &mut World, level: &LevelDesc) -> (r: Result<usize, EcsError>)
    requires
        old(world)@.wf(),
        old(world)@.all_free(),
        old(world)@.entities + level.entities@.len() <= usize::MAX,
    ensures
        final(world)@.wf(),
        ({
            let o = load_entities_from(old(world)@, level.entities@, 0);
            match r {
                Ok(map_id) => o.err is None && final(world)@ == o.m && map_id == level.map,
                Err(e) => o.err == Some(e) && final(world)@ == o.m,
            }
        }),
{
    let n = level.entities.len();
    let mut i: usize = 0;
    while i < n
        invariant
            i <= n,
            n == level.entities@.len(),
            world@.wf(),
            world@.all_free(),
            world@.entities == old(world)@.entities + i,
            old(world)@.entities + n <= usize::MAX,
            load_entities_from(old(world)@, level.entities@, 0) == load_entities_from(
                world@,
                level.entities@,
                i as int,
            ),
        decreases n - i,
    {
        let b = match entity_loader(&level.entities[i]) {
            Ok(b) => b,
            Err(e) => {
                return Err(e);
            },
        };
        let mut j: usize = 0;
        while j < KIND_COUNT
            invariant
                j <= KIND_COUNT,
                b.wf(),
                world@.wf(),
                forall|t: int| 0 <= t < j ==> ((#[trigger] b@[t]) is Some ==> world@.cols[t].registered),
            decreases KIND_COUNT - j,
        {
            let k = kind_of_id(j);
            if b.staged(k).is_some() && !world.is_registered(k) {
                assert(!row_registered(world@, b@));
                return Err(EcsError::UnregisteredKind);
            }
            j += 1;
        }
        assert(row_registered(world@, b@));
        let ghost pre = world@;
        let ghost row = b@;
        match world.add_entity(b) {
            Ok(_ent) => {},
            Err(e) => {
                return Err(e);
            },
        }
        proof {
            assert(world@ == pre.insert_row(row));
        }
        i += 1;
    }
    Ok(level.map)
}

} // verus!
