//! Component kinds and their data shapes.
//!
//! Every piece of per-entity data is one of a closed set of component kinds.
//! A stored value is erased to the tagged union [`CompVal`]; the [`Component`]
//! trait ties each concrete data shape to its tag so that columns can be
//! addressed uniformly by [`Kind`].

use vstd::prelude::*;

verus! {

use crate::ecs::World;

/// The stable type key identifying one component kind.
#[derive(Clone, Copy, Debug, PartialEq, Eq, Structural)]
pub enum Kind {
    Pos,
    Vel,
    Spr,
    Player,
    Collider,
    Health,
    HealthMod,
    Follow,
    Push,
}

/// Number of component kinds; every registry holds one column slot per kind.
pub const KIND_COUNT: usize = 9;

impl Kind {
    /// The index of this kind in any structure with one entry per kind.
    pub open spec fn id_spec(self) -> int {
        match self {
            Kind::Pos => 0,
            Kind::Vel => 1,
            Kind::Spr => 2,
            Kind::Player => 3,
            Kind::Collider => 4,
            Kind::Health => 5,
            Kind::HealthMod => 6,
            Kind::Follow => 7,
            Kind::Push => 8,
        }
    }

    /// Executable form of [`Kind::id_spec`].
    pub fn id(self) -> (i: usize)
        ensures
            i == self.id_spec(),
            i < KIND_COUNT,
    {
        match self {
            Kind::Pos => 0,
            Kind::Vel => 1,
            Kind::Spr => 2,
            Kind::Player => 3,
            Kind::Collider => 4,
            Kind::Health => 5,
            Kind::HealthMod => 6,
            Kind::Follow => 7,
            Kind::Push => 8,
        }
    }
}

/// The kind whose index in a per-kind structure is `i`.
pub fn kind_of_id(i: usize) -> (k: Kind)
    requires
        i < KIND_COUNT,
    ensures
        k.id_spec() == i,
{
    match i {
        0 => Kind::Pos,
        1 => Kind::Vel,
        2 => Kind::Spr,
        3 => Kind::Player,
        4 => Kind::Collider,
        5 => Kind::Health,
        6 => Kind::HealthMod,
        7 => Kind::Follow,
        _ => Kind::Push,
    }
}

/// A position in world coordinates (pixels).
#[derive(Clone, Copy, Debug, PartialEq, Eq, Structural)]
pub struct Pos {
    pub x: i32,
    pub y: i32,
}

impl Pos {
    pub fn new(x: i32, y: i32) -> (p: Pos)
        ensures
            p == (Pos { x, y }),
    {
        Pos { x, y }
    }
}

/// A velocity in pixels per tick.
#[derive(Clone, Copy, Debug, PartialEq, Eq, Structural)]
pub struct Vel {
    pub x: i32,
    pub y: i32,
}

impl Vel {
    pub fn new(x: i32, y: i32) -> (v: Vel)
        ensures
            v == (Vel { x, y }),
    {
        Vel { x, y }
    }
}

/// A sprite, identified by its tile id in the tileset.
#[derive(Clone, Copy, Debug, PartialEq, Eq, Structural)]
pub struct Spr(pub i32);

/// Marks the player entity and records whether it is attacking this tick.
#[derive(Clone, Copy, Debug, PartialEq, Eq, Structural)]
pub struct Player {
    pub attack: bool,
}

impl Default for Player {
    fn default() -> (p: Player)
        ensures
            p == (Player { attack: false }),
    {
        Player { attack: false }
    }
}

/// An axis-aligned bounding box extent (width and height in pixels).
#[derive(Clone, Copy, Debug, PartialEq, Eq, Structural)]
pub struct Collider {
    pub w: i32,
    pub h: i32,
}

impl Collider {
    pub fn new(w: i32, h: i32) -> (c: Collider)
        ensures
            c == (Collider { w, h }),
    {
        Collider { w, h }
    }
}

/// Hit points.
#[derive(Clone, Copy, Debug, PartialEq, Eq, Structural)]
pub struct Health(pub i32);

/// Applies a health delta to overlapping entities, with a per-source cooldown.
#[derive(Clone, Copy, Debug, PartialEq, Eq, Structural)]
pub struct HealthMod {
    pub health: i32,
    pub cooldown: u32,
}

/// Steers this entity's velocity toward the entity with the stored index.
#[derive(Clone, Copy, Debug, PartialEq, Eq, Structural)]
pub struct Follow(pub usize);

/// Marks an entity the player can push.
#[derive(Clone, Copy, Debug, PartialEq, Eq, Structural)]
pub struct Push;

/// A component value erased to a tagged union, the dynamic-typing device that
/// lets one registry hold columns of every kind.
#[derive(Clone, Copy, Debug, PartialEq, Eq, Structural)]
pub enum CompVal {
    Pos(Pos),
    Vel(Vel),
    Spr(Spr),
    Player(Player),
    Collider(Collider),
    Health(Health),
    HealthMod(HealthMod),
    Follow(Follow),
    Push(Push),
}

impl CompVal {
    /// The kind whose column may hold this value.
    pub open spec fn kind(self) -> Kind {
        match self {
            CompVal::Pos(_) => Kind::Pos,
            CompVal::Vel(_) => Kind::Vel,
            CompVal::Spr(_) => Kind::Spr,
            CompVal::Player(_) => Kind::Player,
            CompVal::Collider(_) => Kind::Collider,
            CompVal::Health(_) => Kind::Health,
            CompVal::HealthMod(_) => Kind::HealthMod,
            CompVal::Follow(_) => Kind::Follow,
            CompVal::Push(_) => Kind::Push,
        }
    }

    /// Executable form of [`CompVal::kind`].
    pub fn kind_of(&self) -> (k: Kind)
        ensures
            k == self.kind(),
    {
        match self {
            CompVal::Pos(_) => Kind::Pos,
            CompVal::Vel(_) => Kind::Vel,
            CompVal::Spr(_) => Kind::Spr,
            CompVal::Player(_) => Kind::Player,
            CompVal::Collider(_) => Kind::Collider,
            CompVal::Health(_) => Kind::Health,
            CompVal::HealthMod(_) => Kind::HealthMod,
            CompVal::Follow(_) => Kind::Follow,
            CompVal::Push(_) => Kind::Push,
        }
    }
}

/// Registers every component kind on a fresh world, leaving each with an
/// empty, unborrowed column.
pub fn register_components(world: &mut World)
    requires
        old(world)@.wf(),
        old(world)@.entities == 0,
        old(world)@.all_free(),
    ensures
        final(world)@.wf(),
        final(world)@.entities == 0,
        final(world)@.systems == old(world)@.systems,
        final(world)@.all_free(),
        forall|k: Kind| #[trigger] final(world)@.registered(k),
        forall|k: Kind| #[trigger] final(world)@.col(k) == Seq::<Option<CompVal>>::empty(),
{
    let _r = world.register::<Pos>();
    let _r = world.register::<Vel>();
    let _r = world.register::<Spr>();
    let _r = world.register::<Player>();
    let _r = world.register::<Collider>();
    let _r = world.register::<Health>();
    let _r = world.register::<HealthMod>();
    let _r = world.register::<Follow>();
    let _r = world.register::<Push>();
    proof {
        assert forall|k: Kind| #[trigger] world@.registered(k) && world@.col(k) == Seq::<
            Option<CompVal>,
        >::empty() by {
            assert(0 <= k.id_spec() < KIND_COUNT);
        }
    }
}

/// A marker trait indicating that a type may be used as component data.
///
/// Each implementor owns one [`Kind`] tag and knows how to erase itself into
/// the corresponding [`CompVal`] variant.
pub trait Component: Sized {
    /// The kind tag owned by this component type.
    spec fn kind_spec() -> Kind;

    /// The erased value this component turns into.
    spec fn erase_spec(self) -> CompVal;

    /// Executable form of [`Component::kind_spec`].
    fn kind_of() -> (k: Kind)
        ensures
            k == Self::kind_spec(),
    ;

    /// Erase this component into its tagged-union form.
    fn erase(self) -> (v: CompVal)
        ensures
            v == self.erase_spec(),
    ;

    /// An erased component always carries its own kind's tag.
    proof fn erase_kind(self)
        ensures
            self.erase_spec().kind() == Self::kind_spec(),
    ;
}

impl Component for Pos {
    open spec fn kind_spec() -> Kind {
        Kind::Pos
    }

    open spec fn erase_spec(self) -> CompVal {
        CompVal::Pos(self)
    }

    fn kind_of() -> Kind {
        Kind::Pos
    }

    fn erase(self) -> CompVal {
        CompVal::Pos(self)
    }

    proof fn erase_kind(self) {
    }
}

impl Component for Vel {
    open spec fn kind_spec() -> Kind {
        Kind::Vel
    }

    open spec fn erase_spec(self) -> CompVal {
        CompVal::Vel(self)
    }

    fn kind_of() -> Kind {
        Kind::Vel
    }

    fn erase(self) -> CompVal {
        CompVal::Vel(self)
    }

    proof fn erase_kind(self) {
    }
}

impl Component for Spr {
    open spec fn kind_spec() -> Kind {
        Kind::Spr
    }

    open spec fn erase_spec(self) -> CompVal {
        CompVal::Spr(self)
    }

    fn kind_of() -> Kind {
        Kind::Spr
    }

    fn erase(self) -> CompVal {
        CompVal::Spr(self)
    }

    proof fn erase_kind(self) {
    }
}

impl Component for Player {
    open spec fn kind_spec() -> Kind {
        Kind::Player
    }

    open spec fn erase_spec(self) -> CompVal {
        CompVal::Player(self)
    }

    fn kind_of() -> Kind {
        Kind::Player
    }

    fn erase(self) -> CompVal {
        CompVal::Player(self)
    }

    proof fn erase_kind(self) {
    }
}

impl Component for Collider {
    open spec fn kind_spec() -> Kind {
        Kind::Collider
    }

    open spec fn erase_spec(self) -> CompVal {
        CompVal::Collider(self)
    }

    fn kind_of() -> Kind {
        Kind::Collider
    }

    fn erase(self) -> CompVal {
        CompVal::Collider(self)
    }

    proof fn erase_kind(self) {
    }
}

impl Component for Health {
    open spec fn kind_spec() -> Kind {
        Kind::Health
    }

    open spec fn erase_spec(self) -> CompVal {
        CompVal::Health(self)
    }

    fn kind_of() -> Kind {
        Kind::Health
    }

    fn erase(self) -> CompVal {
        CompVal::Health(self)
    }

    proof fn erase_kind(self) {
    }
}

impl Component for HealthMod {
    open spec fn kind_spec() -> Kind {
        Kind::HealthMod
    }

    open spec fn erase_spec(self) -> CompVal {
        CompVal::HealthMod(self)
    }

    fn kind_of() -> Kind {
        Kind::HealthMod
    }

    fn erase(self) -> CompVal {
        CompVal::HealthMod(self)
    }

    proof fn erase_kind(self) {
    }
}

impl Component for Follow {
    open spec fn kind_spec() -> Kind {
        Kind::Follow
    }

    open spec fn erase_spec(self) -> CompVal {
        CompVal::Follow(self)
    }

    fn kind_of() -> Kind {
        Kind::Follow
    }

    fn erase(self) -> CompVal {
        CompVal::Follow(self)
    }

    proof fn erase_kind(self) {
    }
}

impl Component for Push {
    open spec fn kind_spec() -> Kind {
        Kind::Push
    }

    open spec fn erase_spec(self) -> CompVal {
        CompVal::Push(self)
    }

    fn kind_of() -> Kind {
        Kind::Push
    }

    fn erase(self) -> CompVal {
        CompVal::Push(self)
    }

    proof fn erase_kind(self) {
    }
}

} // verus!
