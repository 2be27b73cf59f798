//! The shared read-only data every system receives each tick: the tile grid,
//! the tile solidity table, and the sampled input state.  The draw systems
//! report their output as [`DrawCmd`] values for the embedding program to
//! render.

use vstd::prelude::*;

verus! {

/// The keys sampled once per tick.
#[derive(Clone, Copy, Debug, PartialEq, Eq, Structural)]
pub struct Input {
    pub up: bool,
    pub down: bool,
    pub left: bool,
    pub right: bool,
    pub attack: bool,
}

/// Global data passed to all systems.
pub struct Context {
    /// The level's tile ids, row-major with [`crate::util::LEVEL_WIDTH`]
    /// tiles per row.
    pub level: Vec<u8>,
    /// For each tile id, whether that tile blocks movement.
    pub solid: Vec<bool>,
    /// The input sampled for this tick.
    pub input: Input,
}

/// The mathematical view of a [`Context`].
#[verifier::ext_equal]
pub ghost struct CtxView {
    pub level: Seq<u8>,
    pub solid: Seq<bool>,
    pub input: Input,
}

impl View for Context {
    type V = CtxView;

    open spec fn view(&self) -> CtxView {
        CtxView { level: self.level@, solid: self.solid@, input: self.input }
    }
}

impl Context {
    /// Assembles a context from its parts.
    pub fn new(level: Vec<u8>, solid: Vec<bool>, input: Input) -> (c: Context)
        ensures
            c@ == (CtxView { level: level@, solid: solid@, input }),
    {
        Context { level, solid, input }
    }
}

/// One drawing instruction emitted by a render system.  Fractional offsets,
/// colors and texture choices are the renderer's business; the systems only
/// decide what to draw and where.
#[derive(Clone, Copy, Debug, PartialEq, Eq, Structural)]
pub enum DrawCmd {
    /// Draw tile `id` of the tileset with its top-left corner at `(x, y)`.
    Tile { id: i32, x: i32, y: i32 },
    /// Draw the attack circle around the sprite whose top-left corner is at
    /// `(x, y)`.
    AttackCircle { x: i32, y: i32 },
}

} // verus!
