//! A super-simple ECS framework.
//!
//! The [`World`] owns one storage column per component kind.  A column is a
//! sparse vector: one `Option<CompVal>` slot per entity, index-aligned across
//! all columns, so an entity is nothing but a row index.  Access goes through
//! a dynamically checked borrow gateway: a column is checked out as a
//! [`ReadHandle`] or [`WriteHandle`] and checked back in with
//! [`World::release`] or [`World::release_mut`]; the per-column
//! [`BorrowState`] enforces many-readers-or-one-writer at the moment a handle
//! is requested.  A read handle carries a snapshot of the column; a write
//! handle carries the column's contents and writes them back on release.
//!
//! Every condition the design treats as a fatal usage error — registering a
//! kind after entities exist, asking for an unregistered kind, requesting a
//! conflicting borrow — is reported as an [`EcsError`]; callers outside the
//! library are expected to treat such an error as unrecoverable and stop.

use vstd::prelude::*;

verus! {

use crate::components::{CompVal, Component, Kind, KIND_COUNT};
use crate::context::{Context, DrawCmd};
use crate::systems::{lemma_sys_step_keeps_systems, run_from, run_system, sys_step, SystemKind,
    TickOut};

/// A fatal usage or content error.  None of these is recoverable by design:
/// they signal a programming or configuration mistake, and the embedding
/// program is expected to terminate loudly when it sees one.
#[derive(Clone, Copy, Debug, PartialEq, Eq, Structural)]
pub enum EcsError {
    /// A component kind was registered after an entity was created.
    RegisterAfterEntities,
    /// A column was requested for a kind that was never registered.
    UnregisteredKind,
    /// A borrow was requested that conflicts with a live borrow on the same
    /// column, or a structural change was attempted while a borrow is live.
    BorrowConflict,
    /// An entity descriptor named a component kind that does not exist.
    UnknownComponentKind,
    /// An entity descriptor lacks an integer field the kind needs.
    MissingField,
    /// A referenced entity lacks a component the behavior assumes it has.
    MissingComponent,
    /// No player entity exists, but a behavior needs one.
    NoPlayer,
    /// A collision lookup stepped outside the tile grid or the solidity table.
    OutOfBounds,
}

/// The dynamic borrow state of one storage column.
#[derive(Clone, Copy, Debug, PartialEq, Eq, Structural)]
pub enum BorrowState {
    /// No live handle.
    Free,
    /// The given number of live read handles.
    Shared(usize),
    /// One live write handle.
    Exclusive,
}

/// The mathematical model of one storage column.
#[verifier::ext_equal]
pub ghost struct ColModel {
    /// Whether the kind owning this column was registered.
    pub registered: bool,
    /// The dynamic borrow state.
    pub borrow: BorrowState,
    /// One slot per entity; `Some` iff the entity carries this kind.
    pub slots: Seq<Option<CompVal>>,
}

impl ColModel {
    /// Column well-formedness: a registered column has one slot per entity
    /// and every stored value carries the tag of the column's kind (`i` is
    /// the column index); an unregistered column is empty and unborrowed; a
    /// shared borrow counts at least one live reader.
    pub open spec fn wf(self, i: int, entities: nat) -> bool {
        &&& self.registered ==> self.slots.len() == entities
        &&& !self.registered ==> self.slots.len() == 0 && self.borrow is Free
        &&& self.borrow matches BorrowState::Shared(n) ==> n >= 1
        &&& forall|j: int|
            0 <= j < self.slots.len() ==> ((#[trigger] self.slots[j]) matches Some(v)
                ==> v.kind().id_spec() == i)
    }
}

/// The mathematical model of a [`World`]: the entity count, one column model
/// per kind (indexed by [`Kind::id_spec`]), and the registered schedule.
#[verifier::ext_equal]
pub ghost struct WorldModel {
    /// Number of entities created so far.
    pub entities: nat,
    /// One column per kind, indexed by `Kind::id_spec`.
    pub cols: Seq<ColModel>,
    /// The systems in registration order.
    pub systems: Seq<SystemKind>,
}

impl WorldModel {
    /// The column model of kind `k`.
    pub open spec fn colm(self, k: Kind) -> ColModel {
        self.cols[k.id_spec()]
    }

    /// Whether kind `k` is registered.
    pub open spec fn registered(self, k: Kind) -> bool {
        self.colm(k).registered
    }

    /// The slots of column `k`.
    pub open spec fn col(self, k: Kind) -> Seq<Option<CompVal>> {
        self.colm(k).slots
    }

    /// The borrow state of column `k`.
    pub open spec fn borrow_of(self, k: Kind) -> BorrowState {
        self.colm(k).borrow
    }

    /// Well-formedness: one column per kind, each column well-formed against
    /// the shared entity count.  This is the column-length invariant: all
    /// registered columns have equal length, the number of entities.
    pub open spec fn wf(self) -> bool {
        &&& self.cols.len() == KIND_COUNT
        &&& forall|i: int| 0 <= i < self.cols.len() ==> (#[trigger] self.cols[i]).wf(i, self.entities)
    }

    /// Whether no column has a live borrow.
    pub open spec fn all_free(self) -> bool {
        forall|i: int| 0 <= i < self.cols.len() ==> (#[trigger] self.cols[i]).borrow is Free
    }

    /// Whether a read borrow on `k` may be granted: the kind is registered,
    /// no write handle is live, and the reader count has room.
    pub open spec fn can_read(self, k: Kind) -> bool {
        self.registered(k) && match self.borrow_of(k) {
            BorrowState::Free => true,
            BorrowState::Shared(n) => n < usize::MAX,
            BorrowState::Exclusive => false,
        }
    }

    /// Whether a write borrow on `k` may be granted: the kind is registered
    /// and no handle at all is live on its column.
    pub open spec fn can_write(self, k: Kind) -> bool {
        self.registered(k) && self.borrow_of(k) is Free
    }

    /// The error reported when a borrow on `k` is refused.
    pub open spec fn acquire_err(self, k: Kind) -> EcsError {
        if !self.registered(k) {
            EcsError::UnregisteredKind
        } else {
            EcsError::BorrowConflict
        }
    }

    /// This model with column `k` replaced.
    pub open spec fn with_col(self, k: Kind, c: ColModel) -> WorldModel {
        WorldModel { cols: self.cols.update(k.id_spec(), c), ..self }
    }

    /// The model after a read borrow on `k` is granted.
    pub open spec fn acquire_read_m(self, k: Kind) -> WorldModel {
        self.with_col(
            k,
            ColModel {
                borrow: match self.borrow_of(k) {
                    BorrowState::Free => BorrowState::Shared(1),
                    BorrowState::Shared(n) => BorrowState::Shared((n + 1) as usize),
                    BorrowState::Exclusive => BorrowState::Exclusive,
                },
                ..self.colm(k)
            },
        )
    }

    /// The model after a read handle on `k` is returned.
    pub open spec fn release_read_m(self, k: Kind) -> WorldModel {
        self.with_col(
            k,
            ColModel {
                borrow: match self.borrow_of(k) {
                    BorrowState::Shared(n) => if n == 1 {
                        BorrowState::Free
                    } else {
                        BorrowState::Shared((n - 1) as usize)
                    },
                    _ => self.borrow_of(k),
                },
                ..self.colm(k)
            },
        )
    }

    /// The model after a write borrow on `k` is granted.
    pub open spec fn acquire_write_m(self, k: Kind) -> WorldModel {
        self.with_col(k, ColModel { borrow: BorrowState::Exclusive, ..self.colm(k) })
    }

    /// The model after a write handle on `k` is returned: the handle's slots
    /// become the column and the column is free again.
    pub open spec fn release_write_m(self, k: Kind, slots: Seq<Option<CompVal>>) -> WorldModel {
        self.with_col(
            k,
            ColModel { registered: self.registered(k), borrow: BorrowState::Free, slots },
        )
    }

    /// The model after kind `k` is registered: an empty, free column.
    pub open spec fn register_m(self, k: Kind) -> WorldModel {
        self.with_col(
            k,
            ColModel {
                registered: true,
                borrow: BorrowState::Free,
                slots: Seq::<Option<CompVal>>::empty(),
            },
        )
    }

    /// This model with the slots of column `k` replaced; registration and
    /// borrow state stay as they are.
    pub open spec fn set_col(self, k: Kind, slots: Seq<Option<CompVal>>) -> WorldModel {
        self.with_col(k, ColModel { slots, ..self.colm(k) })
    }

    /// The model after one entity row is appended: every registered column
    /// grows by exactly one slot, taken from `row` at the column's index;
    /// entries of `row` at unregistered kinds are dropped.
    pub open spec fn insert_row(self, row: Seq<Option<CompVal>>) -> WorldModel {
        WorldModel {
            entities: self.entities + 1,
            cols: Seq::new(
                self.cols.len(),
                |i: int|
                    if self.cols[i].registered {
                        ColModel { slots: self.cols[i].slots.push(row[i]), ..self.cols[i] }
                    } else {
                        self.cols[i]
                    },
            ),
            systems: self.systems,
        }
    }

    /// The model after a system is appended to the schedule.
    pub open spec fn push_system(self, s: SystemKind) -> WorldModel {
        WorldModel { systems: self.systems.push(s), ..self }
    }
}

/// Column-length invariant: in a well-formed world — and every operation of
/// this module keeps the world well-formed — all registered columns have the
/// same length, the number of entities created so far.
pub proof fn lemma_columns_aligned(m: WorldModel)
    requires
        m.wf(),
    ensures
        forall|k: Kind| m.registered(k) ==> #[trigger] m.col(k).len() == m.entities,
{
}

/// Slot correctness: committing a staged row appends exactly one slot to
/// every registered column, holding the staged value of that column's kind —
/// occupied for the kinds the builder carried, empty for the rest — while
/// every existing slot stays as it was.  The new row's index is the old
/// entity count.
pub proof fn lemma_slot_correctness(m: WorldModel, row: Seq<Option<CompVal>>, k: Kind)
    requires
        m.wf(),
        m.registered(k),
    ensures
        m.insert_row(row).col(k).len() == m.entities + 1,
        m.insert_row(row).col(k)[m.entities as int] == row[k.id_spec()],
        forall|i: int| 0 <= i < m.entities ==> m.insert_row(row).col(k)[i] == m.col(k)[i],
{
}

/// Borrow exclusivity: while a write borrow on a column is live, no further
/// borrow of that column can be granted, and while any borrow is live, no
/// write borrow can; borrows on distinct kinds never interfere with each
/// other.
pub proof fn lemma_borrow_exclusivity(m: WorldModel, k: Kind, other: Kind)
    requires
        m.wf(),
    ensures
        m.can_write(k) ==> !m.acquire_write_m(k).can_read(k) && !m.acquire_write_m(k).can_write(k),
        m.can_read(k) ==> !m.acquire_read_m(k).can_write(k),
        k.id_spec() != other.id_spec() ==> m.acquire_write_m(k).can_read(other) == m.can_read(other)
            && m.acquire_write_m(k).can_write(other) == m.can_write(other) && m.acquire_read_m(
            k,
        ).can_read(other) == m.can_read(other) && m.acquire_read_m(k).can_write(other)
            == m.can_write(other),
{
}

/// Idempotent read: granting a read borrow changes no column's contents and
/// no registration, so two reads of a column with no mutation between them
/// see identical contents.
pub proof fn lemma_idempotent_read(m: WorldModel, k: Kind, other: Kind)
    requires
        m.wf(),
    ensures
        m.acquire_read_m(k).col(other) == m.col(other),
        m.acquire_read_m(k).registered(other) == m.registered(other),
        m.acquire_read_m(k).entities == m.entities,
{
}

/// In a well-formed world, every stored value of column `k` carries tag `k`.
pub proof fn lemma_col_tags(m: WorldModel, k: Kind)
    requires
        m.wf(),
    ensures
        forall|j: int|
            0 <= j < m.col(k).len() ==> ((#[trigger] m.col(k)[j]) matches Some(v) ==> v.kind()
                == k),
{
    assert forall|j: int|
        0 <= j < m.col(k).len() implies ((#[trigger] m.col(k)[j]) matches Some(v) ==> v.kind()
        == k) by {
        if m.col(k)[j] is Some {
            let v = m.col(k)[j]->0;
            assert(v.kind().id_spec() == k.id_spec());
        }
    }
}

/// One storage column: the registered flag, the live-borrow state, and the
/// sparse vector of slots.
struct Column {
    registered: bool,
    borrow: BorrowState,
    slots: Vec<Option<CompVal>>,
}

/// A representation of a single object in the game.
/// Modelled internally as a single index into the component storage columns.
#[derive(Clone, Copy, Debug, PartialEq, Eq, Structural)]
pub struct Entity(pub usize);

/// A scoped read borrow of one column: a snapshot of the column's slots,
/// taken while the column's reader count is held.  Return it with
/// [`World::release`].
#[derive(Debug)]
pub struct ReadHandle {
    kind: Kind,
    slots: Vec<Option<CompVal>>,
}

impl View for ReadHandle {
    type V = Seq<Option<CompVal>>;

    closed spec fn view(&self) -> Seq<Option<CompVal>> {
        self.slots@
    }
}

impl ReadHandle {
    /// The kind whose column this handle reads.
    pub closed spec fn kind(&self) -> Kind {
        self.kind
    }

    /// Number of slots, equal to the world's entity count at acquisition.
    pub fn len(&self) -> (n: usize)
        ensures
            n == self@.len(),
    {
        self.slots.len()
    }

    /// The slot of entity `i`: `Some` iff the entity carries this kind.
    pub fn read(&self, i: usize) -> (v: Option<CompVal>)
        requires
            i < self@.len(),
        ensures
            v == self@[i as int],
    {
        self.slots[i]
    }
}

/// A scoped write borrow of one column: holds the column's contents while the
/// column is marked exclusive.  Slot updates happen on the handle; they reach
/// the world when the handle is returned with [`World::release_mut`].
#[derive(Debug)]
pub struct WriteHandle {
    kind: Kind,
    slots: Vec<Option<CompVal>>,
}

impl View for WriteHandle {
    type V = Seq<Option<CompVal>>;

    closed spec fn view(&self) -> Seq<Option<CompVal>> {
        self.slots@
    }
}

impl WriteHandle {
    /// The kind whose column this handle writes.
    pub closed spec fn kind(&self) -> Kind {
        self.kind
    }

    /// Number of slots, equal to the world's entity count at acquisition.
    pub fn len(&self) -> (n: usize)
        ensures
            n == self@.len(),
    {
        self.slots.len()
    }

    /// The slot of entity `i`: `Some` iff the entity carries this kind.
    pub fn read(&self, i: usize) -> (v: Option<CompVal>)
        requires
            i < self@.len(),
        ensures
            v == self@[i as int],
    {
        self.slots[i]
    }

    /// A copy of the handle's slots.
    pub fn snapshot(&self) -> (v: Vec<Option<CompVal>>)
        ensures
            v@ == self@,
    {
        copy_slots(&self.slots)
    }

    /// Overwrite the slot of entity `i` in place.  The value must carry this
    /// column's tag; clearing a slot to `None` models component removal
    /// without ever removing the row.
    pub fn write(&mut self, i: usize, v: Option<CompVal>)
        requires
            i < old(self)@.len(),
            v matches Some(c) ==> c.kind() == old(self).kind(),
        ensures
            final(self)@ == old(self)@.update(i as int, v),
            final(self).kind() == old(self).kind(),
    {
        self.slots[i] = v;
    }

    /// Overwrite every slot from a computed column of the same length, all
    /// of whose values carry this column's tag.
    pub fn store(&mut self, v: &Vec<Option<CompVal>>)
        requires
            v@.len() == old(self)@.len(),
            forall|j: int|
                0 <= j < v@.len() ==> ((#[trigger] v@[j]) matches Some(c) ==> c.kind() == old(
                    self,
                ).kind()),
        ensures
            final(self)@ == v@,
            final(self).kind() == old(self).kind(),
    {
        let n = v.len();
        let mut i: usize = 0;
        while i < n
            invariant
                n == v@.len(),
                self@.len() == n,
                self.kind() == old(self).kind(),
                i <= n,
                forall|t: int| 0 <= t < i ==> #[trigger] self@[t] == v@[t],
                forall|t: int|
                    0 <= t < n ==> ((#[trigger] v@[t]) matches Some(c) ==> c.kind() == self.kind()),
            decreases n - i,
        {
            self.write(i, v[i]);
            i += 1;
        }
        proof {
            assert(self@ =~= v@);
        }
    }
}

/// A helper struct for constructing new entities: one staged slot per kind,
/// filled by [`EntityBuilder::with_component`] and consumed by
/// [`World::add_entity`].
pub struct EntityBuilder {
    slots: Vec<Option<CompVal>>,
}

impl View for EntityBuilder {
    type V = Seq<Option<CompVal>>;

    closed spec fn view(&self) -> Seq<Option<CompVal>> {
        self.slots@
    }
}

impl EntityBuilder {
    /// Builder well-formedness: one staged slot per kind, each staged value
    /// tagged with the kind whose position it occupies.
    pub open spec fn wf(&self) -> bool {
        &&& self@.len() == KIND_COUNT
        &&& forall|j: int|
            0 <= j < self@.len() ==> ((#[trigger] self@[j]) matches Some(v)
                ==> v.kind().id_spec() == j)
    }

    /// An empty builder: no component staged.
    pub fn new() -> (b: EntityBuilder)
        ensures
            b.wf(),
            b@.len() == KIND_COUNT,
            forall|j: int| 0 <= j < b@.len() ==> (#[trigger] b@[j]) is None,
    {
        let mut slots: Vec<Option<CompVal>> = Vec::new();
        let mut i: usize = 0;
        while i < KIND_COUNT
            invariant
                i == slots@.len(),
                i <= KIND_COUNT,
                forall|j: int| 0 <= j < slots@.len() ==> (#[trigger] slots@[j]) is None,
            decreases KIND_COUNT - i,
        {
            slots.push(None);
            i += 1;
        }
        EntityBuilder { slots }
    }

    /// Adds a component to the entity, replacing any staged value of the same
    /// kind.
    pub fn with_component<T: Component>(self, component: T) -> (b: EntityBuilder)
        requires
            self.wf(),
        ensures
            b.wf(),
            b@ == self@.update(T::kind_spec().id_spec(), Some(component.erase_spec())),
    {
        proof {
            component.erase_kind();
        }
        let mut slots = self.slots;
        let i = T::kind_of().id();
        slots[i] = Some(component.erase());
        EntityBuilder { slots }
    }

    /// Adds an already erased component value, replacing any staged value of
    /// its kind.
    pub fn with_value(self, v: CompVal) -> (b: EntityBuilder)
        requires
            self.wf(),
        ensures
            b.wf(),
            b@ == self@.update(v.kind().id_spec(), Some(v)),
    {
        let mut slots = self.slots;
        let i = v.kind_of().id();
        slots[i] = Some(v);
        EntityBuilder { slots }
    }

    /// The staged value of kind `k`, if any.
    pub fn staged(&self, k: Kind) -> (v: Option<CompVal>)
        requires
            self.wf(),
        ensures
            v == self@[k.id_spec()],
    {
        let i = k.id();
        self.slots[i]
    }
}

impl Default for EntityBuilder {
    /// Same as [`EntityBuilder::new`].
    fn default() -> (b: EntityBuilder)
        ensures
            b.wf(),
            b@.len() == KIND_COUNT,
            forall|j: int| 0 <= j < b@.len() ==> (#[trigger] b@[j]) is None,
    {
        EntityBuilder::new()
    }
}

/// A container to store all components and systems in use at any point.
pub struct World {
    /// The storage columns, one per kind, indexed by [`Kind::id_spec`].
    cols: Vec<Column>,
    /// The current number of entities stored.
    entities: usize,
    /// The registered systems, in registration order.
    systems: Vec<SystemKind>,
}

impl View for World {
    type V = WorldModel;

    closed spec fn view(&self) -> WorldModel {
        WorldModel {
            entities: self.entities as nat,
            cols: Seq::new(
                self.cols@.len(),
                |i: int|
                    ColModel {
                        registered: self.cols@[i].registered,
                        borrow: self.cols@[i].borrow,
                        slots: self.cols@[i].slots@,
                    },
            ),
            systems: self.systems@,
        }
    }
}

/// Copies a column snapshot slot by slot.
fn copy_slots(v: &Vec<Option<CompVal>>) -> (r: Vec<Option<CompVal>>)
    ensures
        r@ == v@,
{
    let mut r: Vec<Option<CompVal>> = Vec::new();
    let mut i: usize = 0;
    while i < v.len()
        invariant
            i <= v@.len(),
            r@ =~= v@.subrange(0, i as int),
        decreases v@.len() - i,
    {
        r.push(v[i]);
        proof {
            assert(v@.subrange(0, i + 1 as int) =~= v@.subrange(0, i as int).push(v@[i as int]));
        }
        i += 1;
    }
    proof {
        assert(r@ =~= v@);
    }
    r
}

impl World {
    /// Constructs a new, empty `World`: no kind registered, no entity, no
    /// system.
    pub fn new() -> (w: World)
        ensures
            w@.wf(),
            w@.entities == 0,
            w@.systems == Seq::<SystemKind>::empty(),
            w@.all_free(),
            forall|k: Kind| !w@.registered(k),
    {
        let mut cols: Vec<Column> = Vec::new();
        let mut i: usize = 0;
        while i < KIND_COUNT
            invariant
                i == cols@.len(),
                i <= KIND_COUNT,
                forall|j: int|
                    0 <= j < cols@.len() ==> !(#[trigger] cols@[j]).registered
                        && cols@[j].borrow is Free && cols@[j].slots@.len() == 0,
            decreases KIND_COUNT - i,
        {
            cols.push(Column { registered: false, borrow: BorrowState::Free, slots: Vec::new() });
            i += 1;
        }
        World { cols, entities: 0, systems: Vec::new() }
    }

    /// Creates storage in the `World` for a specific [`Component`] type.
    ///
    /// Registration is only legal while the world has no entities; doing it
    /// later reports [`EcsError::RegisterAfterEntities`].  Registering a kind
    /// twice before any entity exists just resets the (still empty) column,
    /// so repeated registration is harmless rather than fatal.
    pub fn register<T: Component>(&mut self) -> (r: Result<(), EcsError>)
        requires
            old(self)@.wf(),
        ensures
            final(self)@.wf(),
            match r {
                Ok(()) => old(self)@.entities == 0 && old(self)@.borrow_of(T::kind_spec()) is Free
                    && final(self)@ == old(self)@.register_m(T::kind_spec()),
                Err(e) => final(self)@ == old(self)@ && ((e == EcsError::RegisterAfterEntities
                    && old(self)@.entities > 0) || (e == EcsError::BorrowConflict && old(
                    self,
                )@.entities == 0 && !(old(self)@.borrow_of(T::kind_spec()) is Free))),
            },
    {
        if self.entities > 0 {
            return Err(EcsError::RegisterAfterEntities);
        }
        let i = T::kind_of().id();
        assert(self.cols@.len() == KIND_COUNT);
        match self.cols[i].borrow {
            BorrowState::Free => {
                self.cols[i] = Column {
                    registered: true,
                    borrow: BorrowState::Free,
                    slots: Vec::new(),
                };
                proof {
                    assert(self@ =~~= old(self)@.register_m(T::kind_spec()));
                }
                Ok(())
            },
            _ => Err(EcsError::BorrowConflict),
        }
    }

    /// Whether kind `k` has been registered.
    pub fn is_registered(&self, k: Kind) -> (b: bool)
        requires
            self@.wf(),
        ensures
            b == self@.registered(k),
    {
        let i = k.id();
        assert(self.cols@.len() == KIND_COUNT);
        self.cols[i].registered
    }

    /// The number of entities created so far.
    pub fn entity_count(&self) -> (n: usize)
        ensures
            n == self@.entities,
    {
        self.entities
    }

    /// Inserts a new entity from a populated builder and returns its index.
    ///
    /// Appends exactly one slot to every registered column in lockstep — the
    /// staged value where the builder holds one, `None` everywhere else — so
    /// the column-length invariant is preserved atomically.  Staged values of
    /// unregistered kinds are dropped.  Refused with
    /// [`EcsError::BorrowConflict`] while any handle is live, since a checked
    /// out column cannot grow.
    pub fn add_entity(&mut self, builder: EntityBuilder) -> (r: Result<Entity, EcsError>)
        requires
            old(self)@.wf(),
            builder.wf(),
            old(self)@.entities < usize::MAX,
        ensures
            final(self)@.wf(),
            match r {
                Ok(ent) => old(self)@.all_free() && ent.0 == old(self)@.entities && final(self)@
                    == old(self)@.insert_row(builder@),
                Err(e) => e == EcsError::BorrowConflict && !old(self)@.all_free() && final(self)@
                    == old(self)@,
            },
    {
        assert(self.cols@.len() == KIND_COUNT);
        let mut i: usize = 0;
        while i < KIND_COUNT
            invariant
                self == old(self),
                old(self)@.wf(),
                i <= KIND_COUNT,
                self.cols@.len() == KIND_COUNT,
                forall|j: int| 0 <= j < i ==> (#[trigger] self@.cols[j]).borrow is Free,
            decreases KIND_COUNT - i,
        {
            match self.cols[i].borrow {
                BorrowState::Free => {},
                _ => {
                    assert(!(self@.cols[i as int].borrow is Free));
                    assert(!self@.all_free());
                    return Err(EcsError::BorrowConflict);
                },
            }
            i += 1;
        }
        assert(self@.all_free());
        let ent = Entity(self.entities);
        self.entities = self.entities + 1;
        let mut j: usize = 0;
        while j < KIND_COUNT
            invariant
                j <= KIND_COUNT,
                old(self)@.wf(),
                self.cols@.len() == KIND_COUNT,
                self.entities == old(self).entities + 1,
                self.systems@ == old(self).systems@,
                builder.wf(),
                forall|t: int|
                    j <= t < KIND_COUNT ==> #[trigger] self@.cols[t] == old(self)@.cols[t],
                forall|t: int|
                    0 <= t < j ==> #[trigger] self@.cols[t] == (if old(self)@.cols[t].registered {
                        ColModel {
                            slots: old(self)@.cols[t].slots.push(builder@[t]),
                            ..old(self)@.cols[t]
                        }
                    } else {
                        old(self)@.cols[t]
                    }),
            decreases KIND_COUNT - j,
        {
            let ghost prev = self@;
            if self.cols[j].registered {
                let v = builder.slots[j];
                self.cols[j].slots.push(v);
                proof {
                    // Only column `j` changed, and it grew by the staged slot.
                    assert(self@.cols[j as int] =~= (ColModel {
                        slots: prev.cols[j as int].slots.push(builder@[j as int]),
                        ..prev.cols[j as int]
                    }));
                    assert(forall|t: int|
                        0 <= t < KIND_COUNT && t != j ==> #[trigger] self@.cols[t] == prev.cols[t]);
                }
            }
            j += 1;
        }
        proof {
            assert(self@ =~~= old(self)@.insert_row(builder@));
        }
        Ok(ent)
    }

    /// Returns a read handle over the column of component type `T`.
    ///
    /// Succeeds iff `T` is registered and no write handle on its column is
    /// live; the handle then mirrors the column exactly.  On failure the
    /// world is unchanged and the error says why: unregistered kind, or a
    /// conflicting live borrow.
    pub fn get<T: Component>(&mut self) -> (r: Result<ReadHandle, EcsError>)
        requires
            old(self)@.wf(),
        ensures
            final(self)@.wf(),
            match r {
                Ok(h) => old(self)@.can_read(T::kind_spec()) && h.kind() == T::kind_spec() && h@
                    == old(self)@.col(T::kind_spec()) && final(self)@ == old(
                    self,
                )@.acquire_read_m(T::kind_spec()),
                Err(e) => final(self)@ == old(self)@ && !old(self)@.can_read(T::kind_spec()) && e
                    == old(self)@.acquire_err(T::kind_spec()),
            },
    {
        let k = T::kind_of();
        let i = k.id();
        assert(self.cols@.len() == KIND_COUNT);
        if !self.cols[i].registered {
            return Err(EcsError::UnregisteredKind);
        }
        let nb = match self.cols[i].borrow {
            BorrowState::Free => BorrowState::Shared(1),
            BorrowState::Shared(n) => {
                if n == usize::MAX {
                    return Err(EcsError::BorrowConflict);
                }
                BorrowState::Shared(n + 1)
            },
            BorrowState::Exclusive => {
                return Err(EcsError::BorrowConflict);
            },
        };
        let slots = copy_slots(&self.cols[i].slots);
        self.cols[i].borrow = nb;
        proof {
            assert(self@ =~~= old(self)@.acquire_read_m(T::kind_spec()));
        }
        Ok(ReadHandle { kind: k, slots })
    }

    /// Returns a write handle over the column of component type `T`.
    ///
    /// Succeeds iff `T` is registered and no handle at all on its column is
    /// live; the handle then holds the column's contents.  On failure the
    /// world is unchanged and the error says why.
    pub fn get_mut<T: Component>(&mut self) -> (r: Result<WriteHandle, EcsError>)
        requires
            old(self)@.wf(),
        ensures
            final(self)@.wf(),
            match r {
                Ok(h) => old(self)@.can_write(T::kind_spec()) && h.kind() == T::kind_spec() && h@
                    == old(self)@.col(T::kind_spec()) && final(self)@ == old(
                    self,
                )@.acquire_write_m(T::kind_spec()),
                Err(e) => final(self)@ == old(self)@ && !old(self)@.can_write(T::kind_spec()) && e
                    == old(self)@.acquire_err(T::kind_spec()),
            },
    {
        let k = T::kind_of();
        let i = k.id();
        assert(self.cols@.len() == KIND_COUNT);
        if !self.cols[i].registered {
            return Err(EcsError::UnregisteredKind);
        }
        match self.cols[i].borrow {
            BorrowState::Free => {},
            _ => {
                return Err(EcsError::BorrowConflict);
            },
        }
        let slots = copy_slots(&self.cols[i].slots);
        self.cols[i].borrow = BorrowState::Exclusive;
        proof {
            assert(self@ =~~= old(self)@.acquire_write_m(T::kind_spec()));
        }
        Ok(WriteHandle { kind: k, slots })
    }

    /// Returns a read handle, decrementing the column's reader count.
    pub fn release(&mut self, h: ReadHandle)
        requires
            old(self)@.wf(),
            old(self)@.borrow_of(h.kind()) is Shared,
        ensures
            final(self)@.wf(),
            final(self)@ == old(self)@.release_read_m(h.kind()),
    {
        let i = h.kind.id();
        assert(self.cols@.len() == KIND_COUNT);
        match self.cols[i].borrow {
            BorrowState::Shared(n) => {
                if n == 1 {
                    self.cols[i].borrow = BorrowState::Free;
                } else {
                    self.cols[i].borrow = BorrowState::Shared(n - 1);
                }
            },
            _ => {},
        }
        proof {
            assert(self@ =~~= old(self)@.release_read_m(h.kind()));
        }
    }

    /// Returns a write handle: the handle's slots become the column's
    /// contents and the column is free again.  The handle must still hold
    /// one correctly tagged slot per entity, which every [`WriteHandle`]
    /// operation preserves.
    pub fn release_mut(&mut self, h: WriteHandle)
        requires
            old(self)@.wf(),
            old(self)@.borrow_of(h.kind()) is Exclusive,
            h@.len() == old(self)@.entities,
            forall|j: int|
                0 <= j < h@.len() ==> ((#[trigger] h@[j]) matches Some(v) ==> v.kind()
                    == h.kind()),
        ensures
            final(self)@.wf(),
            final(self)@ == old(self)@.release_write_m(h.kind(), h@),
    {
        let i = h.kind.id();
        assert(self.cols@.len() == KIND_COUNT);
        assert(self@.registered(h.kind()));
        self.cols[i] = Column { registered: true, borrow: BorrowState::Free, slots: h.slots };
        proof {
            assert(self@ =~~= old(self)@.release_write_m(h.kind(), h@));
        }
    }

    /// Adds a system to the world.  No deduplication, no priority: strict
    /// registration order is the execution order, permanently.
    pub fn system(&mut self, s: SystemKind)
        requires
            old(self)@.wf(),
        ensures
            final(self)@.wf(),
            final(self)@ == old(self)@.push_system(s),
    {
        self.systems.push(s);
        proof {
            assert(self@ =~~= old(self)@.push_system(s));
        }
    }

    /// Calls all systems in order, collecting everything they draw.
    ///
    /// The result is exactly [`run_from`] applied to the registered schedule:
    /// the systems run one after the other, in registration order, each
    /// seeing the world the previous one left.  A fatal error in one system
    /// aborts the whole tick with that error, leaving the world as the
    /// failing system found it.  The schedule itself is never changed by a
    /// tick, so the order is stable from tick to tick.
    pub fn tick(&mut self, ctx: &Context) -> (r: Result<Vec<DrawCmd>, EcsError>)
        requires
            old(self)@.wf(),
        ensures
            final(self)@.wf(),
            final(self)@.systems == old(self)@.systems,
            ({
                let t = run_from(old(self)@, ctx@, old(self)@.systems, 0);
                match r {
                    Ok(cmds) => t.err is None && final(self)@ == t.m && cmds@ == t.cmds,
                    Err(e) => t.err == Some(e) && final(self)@ == t.m,
                }
            }),
    {
        let ghost ss = old(self)@.systems;
        let ghost t = run_from(old(self)@, ctx@, ss, 0);
        let n = self.systems.len();
        let mut out: Vec<DrawCmd> = Vec::new();
        let mut i: usize = 0;
        while i < n
            invariant
                self@.wf(),
                i <= n,
                ss == old(self)@.systems,
                t == run_from(old(self)@, ctx@, ss, 0),
                self@.systems == ss,
                n == ss.len(),
                ({
                    let rest = run_from(self@, ctx@, ss, i as int);
                    t == (TickOut { m: rest.m, cmds: out@ + rest.cmds, err: rest.err })
                }),
            decreases n - i,
        {
            let s = self.systems[i];
            let ghost pre = self@;
            let ghost out_pre = out@;
            let r = run_system(self, ctx, s, &mut out);
            proof {
                lemma_sys_step_keeps_systems(pre, ctx@, s);
            }
            match r {
                Ok(()) => {
                    proof {
                        let o = sys_step(pre, ctx@, s);
                        let rest_next = run_from(self@, ctx@, ss, i + 1 as int);
                        assert(run_from(pre, ctx@, ss, i as int) == (TickOut {
                            m: rest_next.m,
                            cmds: o.cmds + rest_next.cmds,
                            err: rest_next.err,
                        }));
                        assert(out_pre + (o.cmds + rest_next.cmds) =~= out@ + rest_next.cmds);
                        assert(t =~~= (TickOut {
                            m: rest_next.m,
                            cmds: out@ + rest_next.cmds,
                            err: rest_next.err,
                        }));
                    }
                },
                Err(e) => {
                    proof {
                        let o = sys_step(pre, ctx@, s);
                        assert(run_from(pre, ctx@, ss, i as int) == (TickOut {
                            m: o.m,
                            cmds: o.cmds,
                            err: Some(e),
                        }));
                        assert(out_pre + o.cmds =~= out@);
                        assert(t =~~= (TickOut { m: self@, cmds: out@, err: Some(e) }));
                    }
                    return Err(e);
                },
            }
            i += 1;
        }
        proof {
            let rest = run_from(self@, ctx@, ss, n as int);
            assert(rest == (TickOut { m: self@, cmds: Seq::<DrawCmd>::empty(), err: None::<
                EcsError,
            > }));
            assert(out@ + rest.cmds =~= out@);
        }
        Ok(out)
    }
}

} // verus!
