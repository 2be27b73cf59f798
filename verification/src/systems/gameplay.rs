//! The gameplay systems: movement, collision, steering, pushing, damage and
//! death.
//!
//! Each system has a step function describing its effect on a world model and
//! an executable form proved against it.  A system checks columns out of the
//! borrow gateway, computes, and checks them back in; when it hits a fatal
//! condition it reports the error and leaves the world exactly as it found
//! it.

use vstd::prelude::*;

verus! {

use vstd::math::abs;

use crate::components::{Collider, CompVal, Follow, Health, HealthMod, Kind, Player, Pos, Push,
    Spr, Vel};
use crate::context::{Context, CtxView, Input};
use crate::ecs::{lemma_col_tags, EcsError, ReadHandle, World, WorldModel, WriteHandle};
use crate::systems::{sys_fail, sys_ok, SysOut};
use crate::util::{aabb, aabb_spec, div_trunc, i32_div3, i32_wadd, i32_wdouble, i32_wsub, signum,
    signum_i64, tile_coord, wrap_i32, LEVEL_WIDTH, TILE_SIZE};

/// The cooldown, in ticks, imposed on a health modifier when it fires.
pub const DAMAGE_COOLDOWN: u32 = 20;

/// How hard the player's key presses push its velocity, in pixels per tick.
pub const PLAYER_SPEED: i32 = 2;

/// Whether the tile under pixel `(x, y)` blocks movement.  A pixel outside
/// the grid, or a tile id beyond the solidity table, is a content error.
pub open spec fn corner_solid(x: int, y: int, ctx: CtxView) -> Result<bool, EcsError> {
    let tx = div_trunc(x, TILE_SIZE as int);
    let ty = div_trunc(y, TILE_SIZE as int);
    if tx < 0 || ty < 0 || ty * (LEVEL_WIDTH as int) + tx >= ctx.level.len() {
        Err(EcsError::OutOfBounds)
    } else {
        let id = ctx.level[ty * (LEVEL_WIDTH as int) + tx] as int;
        if id >= ctx.solid.len() {
            Err(EcsError::OutOfBounds)
        } else {
            Ok(ctx.solid[id])
        }
    }
}

/// Whether a box at `(x1, y1)` touches any solid tile: its four corners are
/// probed in a fixed order, stopping at the first solid one.
pub open spec fn collide_spec(x1: int, y1: int, coll: Collider, ctx: CtxView) -> Result<
    bool,
    EcsError,
> {
    let x2 = wrap_i32(x1 + coll.w);
    let y2 = wrap_i32(y1 + coll.h);
    match corner_solid(x1, y1, ctx) {
        Err(e) => Err(e),
        Ok(true) => Ok(true),
        Ok(false) => match corner_solid(x2, y1, ctx) {
            Err(e) => Err(e),
            Ok(true) => Ok(true),
            Ok(false) => match corner_solid(x1, y2, ctx) {
                Err(e) => Err(e),
                Ok(true) => Ok(true),
                Ok(false) => corner_solid(x2, y2, ctx),
            },
        },
    }
}

/// Executable form of [`corner_solid`].
fn corner_solid_at(x: i32, y: i32, ctx: &Context) -> (r: Result<bool, EcsError>)
    ensures
        r == corner_solid(x as int, y as int, ctx@),
{
    let tx = tile_coord(x);
    let ty = tile_coord(y);
    if tx < 0 || ty < 0 {
        return Err(EcsError::OutOfBounds);
    }
    let idx: i64 = (ty as i64) * (LEVEL_WIDTH as i64) + (tx as i64);
    if idx as u64 >= ctx.level.len() as u64 {
        return Err(EcsError::OutOfBounds);
    }
    let id = ctx.level[idx as usize] as usize;
    if id >= ctx.solid.len() {
        return Err(EcsError::OutOfBounds);
    }
    Ok(ctx.solid[id])
}

/// Probes the four corners of a box against the tile grid, reporting the
/// first solid hit or the first out-of-grid corner.
pub fn collide(pos: (i32, i32), collider: Collider, ctx: &Context) -> (r: Result<bool, EcsError>)
    ensures
        r == collide_spec(pos.0 as int, pos.1 as int, collider, ctx@),
{
    let (x1, y1) = pos;
    let x2 = i32_wadd(x1, collider.w);
    let y2 = i32_wadd(y1, collider.h);
    match corner_solid_at(x1, y1, ctx) {
        Err(e) => Err(e),
        Ok(true) => Ok(true),
        Ok(false) => match corner_solid_at(x2, y1, ctx) {
            Err(e) => Err(e),
            Ok(true) => Ok(true),
            Ok(false) => match corner_solid_at(x1, y2, ctx) {
                Err(e) => Err(e),
                Ok(true) => Ok(true),
                Ok(false) => corner_solid_at(x2, y2, ctx),
            },
        },
    }
}

/// One position slot after velocity integration.  An entity with a collider
/// moves per axis only where the moved box hits no solid tile; one without a
/// collider moves freely; anything else is untouched.
pub open spec fn av_slot(
    p: Option<CompVal>,
    v: Option<CompVal>,
    c: Option<CompVal>,
    ctx: CtxView,
) -> Result<Option<CompVal>, EcsError> {
    match (p, v) {
        (Some(CompVal::Pos(pp)), Some(CompVal::Vel(vv))) => match c {
            Some(CompVal::Collider(cc)) => {
                let x_try = wrap_i32(pp.x + vv.x);
                match collide_spec(x_try, pp.y as int, cc, ctx) {
                    Err(e) => Err(e),
                    Ok(bx) => {
                        let nx = if !bx {
                            x_try
                        } else {
                            pp.x as int
                        };
                        let y_try = wrap_i32(pp.y + vv.y);
                        match collide_spec(nx, y_try, cc, ctx) {
                            Err(e) => Err(e),
                            Ok(by) => {
                                let ny = if !by {
                                    y_try
                                } else {
                                    pp.y as int
                                };
                                Ok(Some(CompVal::Pos(Pos { x: nx as i32, y: ny as i32 })))
                            },
                        }
                    },
                }
            },
            _ => Ok(
                Some(
                    CompVal::Pos(
                        Pos { x: wrap_i32(pp.x + vv.x) as i32, y: wrap_i32(pp.y + vv.y) as i32 },
                    ),
                ),
            ),
        },
        _ => Ok(p),
    }
}

/// The position column after velocity integration, or the first collision
/// lookup error.
pub open spec fn av_cols(
    pos: Seq<Option<CompVal>>,
    vel: Seq<Option<CompVal>>,
    coll: Seq<Option<CompVal>>,
    ctx: CtxView,
) -> Result<Seq<Option<CompVal>>, EcsError> {
    if exists|i: int| 0 <= i < pos.len() && (#[trigger] av_slot(pos[i], vel[i], coll[i], ctx))
        is Err {
        Err(EcsError::OutOfBounds)
    } else {
        Ok(Seq::new(pos.len(), |i: int| av_slot(pos[i], vel[i], coll[i], ctx)->Ok_0))
    }
}

/// The effect of [`apply_velocities`] on a world model.
pub open spec fn apply_velocities_step(m: WorldModel, ctx: CtxView) -> SysOut {
    if !m.can_write(Kind::Pos) {
        sys_fail(m, m.acquire_err(Kind::Pos))
    } else if !m.can_read(Kind::Vel) {
        sys_fail(m, m.acquire_err(Kind::Vel))
    } else if !m.can_read(Kind::Collider) {
        sys_fail(m, m.acquire_err(Kind::Collider))
    } else {
        match av_cols(m.col(Kind::Pos), m.col(Kind::Vel), m.col(Kind::Collider), ctx) {
            Ok(s) => sys_ok(m.set_col(Kind::Pos, s), Seq::empty()),
            Err(e) => sys_fail(m, e),
        }
    }
}

/// Computes the integrated position column into the write handle.  On error
/// the handle is left untouched.
fn apply_velocities_core(
    pos_h: &mut WriteHandle,
    vel_h: &ReadHandle,
    coll_h: &ReadHandle,
    ctx: &Context,
) -> (r: Result<(), EcsError>)
    requires
        old(pos_h)@.len() == vel_h@.len(),
        old(pos_h)@.len() == coll_h@.len(),
        old(pos_h).kind() == Kind::Pos,
        forall|t: int|
            0 <= t < old(pos_h)@.len() ==> ((#[trigger] old(pos_h)@[t]) matches Some(c) ==> c.kind()
                == Kind::Pos),
    ensures
        final(pos_h).kind() == old(pos_h).kind(),
        match r {
            Ok(()) => av_cols(old(pos_h)@, vel_h@, coll_h@, ctx@) == Ok::<_, EcsError>(
                final(pos_h)@,
            ),
            Err(e) => av_cols(old(pos_h)@, vel_h@, coll_h@, ctx@) == Err::<Seq<Option<CompVal>>,
                _,
            >(e) && final(pos_h)@ == old(pos_h)@,
        },
{
    let ghost p0 = pos_h@;
    let n = pos_h.len();
    let mut out: Vec<Option<CompVal>> = Vec::new();
    let mut i: usize = 0;
    while i < n
        invariant
            n == p0.len(),
            pos_h@ == p0,
            pos_h.kind() == Kind::Pos,
            vel_h@.len() == n,
            coll_h@.len() == n,
            i <= n,
            out@.len() == i,
            forall|t: int|
                0 <= t < i ==> (#[trigger] av_slot(p0[t], vel_h@[t], coll_h@[t], ctx@)) is Ok,
            forall|t: int|
                0 <= t < i ==> out@[t] == av_slot(p0[t], vel_h@[t], coll_h@[t], ctx@)->Ok_0,
            forall|t: int|
                0 <= t < p0.len() ==> ((#[trigger] p0[t]) matches Some(c) ==> c.kind()
                    == Kind::Pos),
        decreases n - i,
    {
        let p = pos_h.read(i);
        let v = vel_h.read(i);
        let c = coll_h.read(i);
        let slot: Option<CompVal> = match (p, v) {
            (Some(CompVal::Pos(pp)), Some(CompVal::Vel(vv))) => match c {
                Some(CompVal::Collider(cc)) => {
                    let x_try = i32_wadd(pp.x, vv.x);
                    let bx = match collide((x_try, pp.y), cc, ctx) {
                        Ok(b) => b,
                        Err(e) => {
                            assert(av_slot(p0[i as int], vel_h@[i as int], coll_h@[i as int], ctx@)
                                is Err);
                            return Err(e);
                        },
                    };
                    let nx = if !bx {
                        x_try
                    } else {
                        pp.x
                    };
                    let y_try = i32_wadd(pp.y, vv.y);
                    let by = match collide((nx, y_try), cc, ctx) {
                        Ok(b) => b,
                        Err(e) => {
                            assert(av_slot(p0[i as int], vel_h@[i as int], coll_h@[i as int], ctx@)
                                is Err);
                            return Err(e);
                        },
                    };
                    let ny = if !by {
                        y_try
                    } else {
                        pp.y
                    };
                    Some(CompVal::Pos(Pos { x: nx, y: ny }))
                },
                _ => Some(CompVal::Pos(Pos { x: i32_wadd(pp.x, vv.x), y: i32_wadd(pp.y, vv.y) })),
            },
            _ => p,
        };
        out.push(slot);
        i += 1;
    }
    let mut j: usize = 0;
    while j < n
        invariant
            n == p0.len(),
            pos_h@.len() == n,
            pos_h.kind() == Kind::Pos,
            out@.len() == n,
            j <= n,
            forall|t: int| 0 <= t < j ==> #[trigger] pos_h@[t] == out@[t],
            forall|t: int| j <= t < n ==> #[trigger] pos_h@[t] == p0[t],
            forall|t: int|
                0 <= t < n ==> ((#[trigger] out@[t]) matches Some(c) ==> c.kind() == Kind::Pos),
            forall|t: int|
                0 <= t < n ==> (#[trigger] av_slot(p0[t], vel_h@[t], coll_h@[t], ctx@)) is Ok,
            forall|t: int|
                0 <= t < n ==> out@[t] == av_slot(p0[t], vel_h@[t], coll_h@[t], ctx@)->Ok_0,
        decreases n - j,
    {
        pos_h.write(j, out[j]);
        j += 1;
    }
    proof {
        assert(av_cols(p0, vel_h@, coll_h@, ctx@) matches Ok(s) && pos_h@ =~= s);
    }
    Ok(())
}

/// Integrates velocities into positions, blocking per-axis movement that
/// would push an entity's collider into a solid tile; entities without a
/// collider move unchecked.
pub fn apply_velocities(world: &mut World, ctx: &Context) -> (r: Result<(), EcsError>)
    requires
        old(world)@.wf(),
    ensures
        final(world)@.wf(),
        ({
            let o = apply_velocities_step(old(world)@, ctx@);
            match r {
                Ok(()) => o.err is None && final(world)@ == o.m,
                Err(e) => o.err == Some(e) && final(world)@ == o.m,
            }
        }),
{
    let mut pos = match world.get_mut::<Pos>() {
        Ok(h) => h,
        Err(e) => {
            return Err(e);
        },
    };
    let vel = match world.get::<Vel>() {
        Ok(h) => h,
        Err(e) => {
            world.release_mut(pos);
            proof {
                assert(world@ =~~= old(world)@);
            }
            return Err(e);
        },
    };
    let coll = match world.get::<Collider>() {
        Ok(h) => h,
        Err(e) => {
            world.release(vel);
            world.release_mut(pos);
            proof {
                assert(world@ =~~= old(world)@);
            }
            return Err(e);
        },
    };
    proof {
        lemma_col_tags(old(world)@, Kind::Pos);
    }
    let res = apply_velocities_core(&mut pos, &vel, &coll, ctx);
    world.release(coll);
    world.release(vel);
    world.release_mut(pos);
    match res {
        Ok(()) => {
            proof {
                assert(world@ =~~= apply_velocities_step(old(world)@, ctx@).m);
            }
            Ok(())
        },
        Err(e) => {
            proof {
                assert(world@ =~~= old(world)@);
            }
            Err(e)
        },
    }
}

/// One slot of a column after the death sweep: cleared where the entity's
/// health has dropped to zero or below, untouched otherwise.
pub open spec fn rd_clear_slot(s: Option<CompVal>, h: Option<CompVal>) -> Option<CompVal> {
    if h matches Some(CompVal::Health(hh)) && hh.0 <= 0 {
        None
    } else {
        s
    }
}

/// A column after the death sweep against the health column.
pub open spec fn rd_cols(s: Seq<Option<CompVal>>, h: Seq<Option<CompVal>>) -> Seq<
    Option<CompVal>,
> {
    Seq::new(s.len(), |i: int| rd_clear_slot(s[i], h[i]))
}

/// The effect of [`remove_dead`] on a world model.
pub open spec fn remove_dead_step(m: WorldModel, ctx: CtxView) -> SysOut {
    if !m.can_write(Kind::Spr) {
        sys_fail(m, m.acquire_err(Kind::Spr))
    } else if !m.can_write(Kind::Collider) {
        sys_fail(m, m.acquire_err(Kind::Collider))
    } else if !m.can_read(Kind::Health) {
        sys_fail(m, m.acquire_err(Kind::Health))
    } else {
        sys_ok(
            m.set_col(Kind::Spr, rd_cols(m.col(Kind::Spr), m.col(Kind::Health))).set_col(
                Kind::Collider,
                rd_cols(m.col(Kind::Collider), m.col(Kind::Health)),
            ),
            Seq::empty(),
        )
    }
}

/// Clears the sprite and collider of every entity whose health is gone;
/// downstream systems treat such a row as despawned without the row ever
/// being removed.
pub fn remove_dead(world: &mut World, _ctx: &Context) -> (r: Result<(), EcsError>)
    requires
        old(world)@.wf(),
    ensures
        final(world)@.wf(),
        ({
            let o = remove_dead_step(old(world)@, _ctx@);
            match r {
                Ok(()) => o.err is None && final(world)@ == o.m,
                Err(e) => o.err == Some(e) && final(world)@ == o.m,
            }
        }),
{
    let mut spr = match world.get_mut::<Spr>() {
        Ok(h) => h,
        Err(e) => {
            return Err(e);
        },
    };
    let mut coll = match world.get_mut::<Collider>() {
        Ok(h) => h,
        Err(e) => {
            world.release_mut(spr);
            proof {
                assert(world@ =~~= old(world)@);
            }
            return Err(e);
        },
    };
    let health = match world.get::<Health>() {
        Ok(h) => h,
        Err(e) => {
            world.release_mut(coll);
            world.release_mut(spr);
            proof {
                assert(world@ =~~= old(world)@);
            }
            return Err(e);
        },
    };
    let ghost s0 = spr@;
    let ghost c0 = coll@;
    let n = spr.len();
    let mut i: usize = 0;
    while i < n
        invariant
            n == s0.len(),
            c0.len() == n,
            health@.len() == n,
            spr@.len() == n,
            coll@.len() == n,
            i <= n,
            spr.kind() == Kind::Spr,
            coll.kind() == Kind::Collider,
            forall|t: int| 0 <= t < i ==> #[trigger] spr@[t] == rd_clear_slot(s0[t], health@[t]),
            forall|t: int| 0 <= t < i ==> #[trigger] coll@[t] == rd_clear_slot(c0[t], health@[t]),
            forall|t: int| i <= t < n ==> #[trigger] spr@[t] == s0[t],
            forall|t: int| i <= t < n ==> #[trigger] coll@[t] == c0[t],
        decreases n - i,
    {
        match health.read(i) {
            Some(CompVal::Health(hh)) => {
                if hh.0 <= 0 {
                    spr.write(i, None);
                    coll.write(i, None);
                }
            },
            _ => {},
        }
        i += 1;
    }
    proof {
        assert(spr@ =~= rd_cols(s0, health@));
        assert(coll@ =~= rd_cols(c0, health@));
    }
    world.release(health);
    world.release_mut(coll);
    world.release_mut(spr);
    proof {
        assert(world@ =~~= remove_dead_step(old(world)@, _ctx@).m);
    }
    Ok(())
}

/// One velocity slot after follower steering: where an entity has a
/// position, a velocity and a follow target, each velocity axis becomes the
/// sign of the distance to the target unless the current axis speed already
/// dominates it.  A target without a position is a fatal reference error.
pub open spec fn mf_slot(
    p: Option<CompVal>,
    v: Option<CompVal>,
    f: Option<CompVal>,
    pos: Seq<Option<CompVal>>,
) -> Result<Option<CompVal>, EcsError> {
    match (p, v, f) {
        (Some(CompVal::Pos(my)), Some(CompVal::Vel(vv)), Some(CompVal::Follow(fo))) => {
            if fo.0 >= pos.len() {
                Err(EcsError::MissingComponent)
            } else {
                match pos[fo.0 as int] {
                    Some(CompVal::Pos(op)) => {
                        let sx = signum(op.x - my.x);
                        let sy = signum(op.y - my.y);
                        let nvx = if abs(sx) > abs(vv.x as int) {
                            sx
                        } else {
                            vv.x as int
                        };
                        let nvy = if abs(sy) > abs(vv.y as int) {
                            sy
                        } else {
                            vv.y as int
                        };
                        Ok(Some(CompVal::Vel(Vel { x: nvx as i32, y: nvy as i32 })))
                    },
                    _ => Err(EcsError::MissingComponent),
                }
            }
        },
        _ => Ok(v),
    }
}

/// The velocity column after follower steering, or the reference error.
pub open spec fn mf_cols(
    pos: Seq<Option<CompVal>>,
    vel: Seq<Option<CompVal>>,
    fol: Seq<Option<CompVal>>,
) -> Result<Seq<Option<CompVal>>, EcsError> {
    if exists|i: int| 0 <= i < vel.len() && (#[trigger] mf_slot(pos[i], vel[i], fol[i], pos))
        is Err {
        Err(EcsError::MissingComponent)
    } else {
        Ok(Seq::new(vel.len(), |i: int| mf_slot(pos[i], vel[i], fol[i], pos)->Ok_0))
    }
}

/// The effect of [`move_followers`] on a world model.
pub open spec fn move_followers_step(m: WorldModel, ctx: CtxView) -> SysOut {
    if !m.can_read(Kind::Pos) {
        sys_fail(m, m.acquire_err(Kind::Pos))
    } else if !m.can_write(Kind::Vel) {
        sys_fail(m, m.acquire_err(Kind::Vel))
    } else if !m.can_read(Kind::Follow) {
        sys_fail(m, m.acquire_err(Kind::Follow))
    } else {
        match mf_cols(m.col(Kind::Pos), m.col(Kind::Vel), m.col(Kind::Follow)) {
            Ok(s) => sys_ok(m.set_col(Kind::Vel, s), Seq::empty()),
            Err(e) => sys_fail(m, e),
        }
    }
}

/// Computes the steered velocity column into the write handle.  On error the
/// handle is left untouched.
fn move_followers_core(vel_h: &mut WriteHandle, pos_h: &ReadHandle, fol_h: &ReadHandle) -> (r:
    Result<(), EcsError>)
    requires
        old(vel_h)@.len() == pos_h@.len(),
        old(vel_h)@.len() == fol_h@.len(),
        old(vel_h).kind() == Kind::Vel,
        forall|t: int|
            0 <= t < old(vel_h)@.len() ==> ((#[trigger] old(vel_h)@[t]) matches Some(c) ==> c.kind()
                == Kind::Vel),
    ensures
        final(vel_h).kind() == old(vel_h).kind(),
        match r {
            Ok(()) => mf_cols(pos_h@, old(vel_h)@, fol_h@) == Ok::<_, EcsError>(final(vel_h)@),
            Err(e) => mf_cols(pos_h@, old(vel_h)@, fol_h@) == Err::<Seq<Option<CompVal>>, _>(e)
                && final(vel_h)@ == old(vel_h)@,
        },
{
    let ghost v0 = vel_h@;
    let n = vel_h.len();
    let mut out: Vec<Option<CompVal>> = Vec::new();
    let mut i: usize = 0;
    while i < n
        invariant
            n == v0.len(),
            vel_h@ == v0,
            vel_h.kind() == Kind::Vel,
            pos_h@.len() == n,
            fol_h@.len() == n,
            i <= n,
            out@.len() == i,
            forall|t: int| 0 <= t < i ==> (#[trigger] mf_slot(pos_h@[t], v0[t], fol_h@[t], pos_h@))
                is Ok,
            forall|t: int|
                0 <= t < i ==> out@[t] == mf_slot(pos_h@[t], v0[t], fol_h@[t], pos_h@)->Ok_0,
            forall|t: int|
                0 <= t < n ==> ((#[trigger] v0[t]) matches Some(c) ==> c.kind() == Kind::Vel),
        decreases n - i,
    {
        let p = pos_h.read(i);
        let v = vel_h.read(i);
        let f = fol_h.read(i);
        let slot: Option<CompVal> = match (p, v, f) {
            (Some(CompVal::Pos(my)), Some(CompVal::Vel(vv)), Some(CompVal::Follow(fo))) => {
                if fo.0 >= n {
                    assert(mf_slot(pos_h@[i as int], v0[i as int], fol_h@[i as int], pos_h@)
                        is Err);
                    return Err(EcsError::MissingComponent);
                }
                match pos_h.read(fo.0) {
                    Some(CompVal::Pos(op)) => {
                        let sx = signum_i64(op.x as i64 - my.x as i64);
                        let sy = signum_i64(op.y as i64 - my.y as i64);
                        let nvx = if vv.x == 0 {
                            sx
                        } else {
                            vv.x
                        };
                        let nvy = if vv.y == 0 {
                            sy
                        } else {
                            vv.y
                        };
                        Some(CompVal::Vel(Vel { x: nvx, y: nvy }))
                    },
                    _ => {
                        assert(mf_slot(pos_h@[i as int], v0[i as int], fol_h@[i as int], pos_h@)
                            is Err);
                        return Err(EcsError::MissingComponent);
                    },
                }
            },
            _ => v,
        };
        out.push(slot);
        i += 1;
    }
    let mut j: usize = 0;
    while j < n
        invariant
            n == v0.len(),
            vel_h@.len() == n,
            vel_h.kind() == Kind::Vel,
            out@.len() == n,
            j <= n,
            forall|t: int| 0 <= t < j ==> #[trigger] vel_h@[t] == out@[t],
            forall|t: int| j <= t < n ==> #[trigger] vel_h@[t] == v0[t],
            forall|t: int|
                0 <= t < n ==> ((#[trigger] out@[t]) matches Some(c) ==> c.kind() == Kind::Vel),
            forall|t: int| 0 <= t < n ==> (#[trigger] mf_slot(pos_h@[t], v0[t], fol_h@[t], pos_h@))
                is Ok,
            forall|t: int|
                0 <= t < n ==> out@[t] == mf_slot(pos_h@[t], v0[t], fol_h@[t], pos_h@)->Ok_0,
        decreases n - j,
    {
        vel_h.write(j, out[j]);
        j += 1;
    }
    proof {
        assert(mf_cols(pos_h@, v0, fol_h@) matches Ok(s) && vel_h@ =~= s);
    }
    Ok(())
}

/// Steers every following entity's velocity toward its target's position.
pub fn move_followers(world: &mut World, _ctx: &Context) -> (r: Result<(), EcsError>)
    requires
        old(world)@.wf(),
    ensures
        final(world)@.wf(),
        ({
            let o = move_followers_step(old(world)@, _ctx@);
            match r {
                Ok(()) => o.err is None && final(world)@ == o.m,
                Err(e) => o.err == Some(e) && final(world)@ == o.m,
            }
        }),
{
    let pos = match world.get::<Pos>() {
        Ok(h) => h,
        Err(e) => {
            return Err(e);
        },
    };
    let mut vel = match world.get_mut::<Vel>() {
        Ok(h) => h,
        Err(e) => {
            world.release(pos);
            proof {
                assert(world@ =~~= old(world)@);
            }
            return Err(e);
        },
    };
    let fol = match world.get::<Follow>() {
        Ok(h) => h,
        Err(e) => {
            world.release_mut(vel);
            world.release(pos);
            proof {
                assert(world@ =~~= old(world)@);
            }
            return Err(e);
        },
    };
    proof {
        lemma_col_tags(old(world)@, Kind::Vel);
    }
    let res = move_followers_core(&mut vel, &pos, &fol);
    world.release(fol);
    world.release_mut(vel);
    world.release(pos);
    match res {
        Ok(()) => {
            proof {
                assert(world@ =~~= move_followers_step(old(world)@, _ctx@).m);
            }
            Ok(())
        },
        Err(e) => {
            proof {
                assert(world@ =~~= old(world)@);
            }
            Err(e)
        },
    }
}

/// The index of the first occupied slot of a column, starting at `i`; the
/// column's length if every slot from `i` on is empty.
pub open spec fn first_some_from(s: Seq<Option<CompVal>>, i: int) -> int
    decreases s.len() - i,
{
    if i < 0 || i >= s.len() {
        s.len() as int
    } else if s[i] is Some {
        i
    } else {
        first_some_from(s, i + 1)
    }
}

/// Skipping an empty prefix does not change where the first occupied slot
/// is.
pub proof fn lemma_first_some_prefix(s: Seq<Option<CompVal>>, j: int)
    requires
        0 <= j <= s.len(),
        forall|t: int| 0 <= t < j ==> (#[trigger] s[t]) is None,
    ensures
        first_some_from(s, 0) == first_some_from(s, j),
    decreases j,
{
    if j > 0 {
        lemma_first_some_prefix(s, j - 1);
        assert(first_some_from(s, j - 1) == first_some_from(s, j));
    }
}

/// One knockback axis: two thirds of the wrapped distance between attacker
/// and victim, truncating toward zero.
pub open spec fn knock_axis(a: int, b: int) -> int {
    div_trunc(wrap_i32(2 * wrap_i32(a - b)), 3)
}

/// Executable form of [`knock_axis`].
fn knock(a: i32, b: i32) -> (r: i32)
    ensures
        r as int == knock_axis(a as int, b as int),
{
    i32_div3(i32_wdouble(i32_wsub(a, b)))
}

/// The damage sweep's working state: the three columns it mutates, and the
/// fatal error if it hit one.
#[verifier::ext_equal]
pub ghost struct UhState {
    pub health: Seq<Option<CompVal>>,
    pub mods: Seq<Option<CompVal>>,
    pub vel: Seq<Option<CompVal>>,
    pub err: Option<EcsError>,
}

/// One victim–modifier pair `(i, j)` of the damage sweep.  A modifier with a
/// collider and no cooldown that overlaps the victim applies its health
/// delta, starts its cooldown, and knocks both entities back; a victim or
/// modifier row without a position is a fatal reference error.
pub open spec fn uh_pair(
    st: UhState,
    pos: Seq<Option<CompVal>>,
    coll: Seq<Option<CompVal>>,
    i: int,
    j: int,
) -> UhState {
    if i == j {
        st
    } else {
        match (st.mods[j], coll[j]) {
            (Some(CompVal::HealthMod(md)), Some(CompVal::Collider(cj))) => {
                if md.cooldown > 0 {
                    st
                } else {
                    match (pos[i], coll[i], pos[j]) {
                        (
                            Some(CompVal::Pos(vp)),
                            Some(CompVal::Collider(vc)),
                            Some(CompVal::Pos(mp)),
                        ) => {
                            if aabb_spec(vp, vc, mp, cj) {
                                let health2 = match st.health[i] {
                                    Some(CompVal::Health(hh)) => st.health.update(
                                        i,
                                        Some(
                                            CompVal::Health(
                                                Health(wrap_i32(hh.0 + md.health) as i32),
                                            ),
                                        ),
                                    ),
                                    _ => st.health,
                                };
                                let mods2 = st.mods.update(
                                    j,
                                    Some(
                                        CompVal::HealthMod(
                                            HealthMod {
                                                health: md.health,
                                                cooldown: DAMAGE_COOLDOWN,
                                            },
                                        ),
                                    ),
                                );
                                let vel2 = if st.vel[i] matches Some(CompVal::Vel(_)) {
                                    st.vel.update(
                                        i,
                                        Some(
                                            CompVal::Vel(
                                                Vel {
                                                    x: knock_axis(vp.x as int, mp.x as int) as i32,
                                                    y: knock_axis(vp.y as int, mp.y as int) as i32,
                                                },
                                            ),
                                        ),
                                    )
                                } else {
                                    st.vel
                                };
                                let vel3 = if vel2[j] matches Some(CompVal::Vel(_)) {
                                    vel2.update(
                                        j,
                                        Some(
                                            CompVal::Vel(
                                                Vel {
                                                    x: knock_axis(mp.x as int, vp.x as int) as i32,
                                                    y: knock_axis(mp.y as int, vp.y as int) as i32,
                                                },
                                            ),
                                        ),
                                    )
                                } else {
                                    vel2
                                };
                                UhState { health: health2, mods: mods2, vel: vel3, err: st.err }
                            } else {
                                st
                            }
                        },
                        _ => (UhState { err: Some(EcsError::MissingComponent), ..st }),
                    }
                }
            },
            _ => st,
        }
    }
}

/// Whether row `i` takes part in the damage sweep: it has health and a
/// collider.
pub open spec fn uh_row_guard(
    health: Seq<Option<CompVal>>,
    coll: Seq<Option<CompVal>>,
    i: int,
) -> bool {
    health[i] is Some && coll[i] is Some
}

/// The damage sweep over modifiers `j..n` for victim row `i`, stopping at
/// the first fatal error.
pub open spec fn uh_inner(
    st: UhState,
    pos: Seq<Option<CompVal>>,
    coll: Seq<Option<CompVal>>,
    i: int,
    j: int,
    n: int,
) -> UhState
    decreases n - j,
{
    if st.err is Some || j >= n {
        st
    } else {
        uh_inner(uh_pair(st, pos, coll, i, j), pos, coll, i, j + 1, n)
    }
}

/// The damage sweep over victim rows `i..n`.
pub open spec fn uh_outer(
    st: UhState,
    pos: Seq<Option<CompVal>>,
    coll: Seq<Option<CompVal>>,
    i: int,
    n: int,
) -> UhState
    decreases n - i,
{
    if st.err is Some || i >= n {
        st
    } else {
        let st1 = if uh_row_guard(st.health, coll, i) {
            uh_inner(st, pos, coll, i, 0, n)
        } else {
            st
        };
        uh_outer(st1, pos, coll, i + 1, n)
    }
}

/// One modifier slot after the cooldown pass: a running cooldown counts
/// down by one.
pub open spec fn cd_slot(m: Option<CompVal>) -> Option<CompVal> {
    match m {
        Some(CompVal::HealthMod(md)) => if md.cooldown > 0 {
            Some(
                CompVal::HealthMod(
                    HealthMod { health: md.health, cooldown: (md.cooldown - 1) as u32 },
                ),
            )
        } else {
            m
        },
        _ => m,
    }
}

/// The modifier column after the cooldown pass.
pub open spec fn cd_cols(mods: Seq<Option<CompVal>>) -> Seq<Option<CompVal>> {
    Seq::new(mods.len(), |j: int| cd_slot(mods[j]))
}

/// The effect of [`update_health`] on a world model.
pub open spec fn update_health_step(m: WorldModel, ctx: CtxView) -> SysOut {
    if !m.can_write(Kind::Health) {
        sys_fail(m, m.acquire_err(Kind::Health))
    } else if !m.can_write(Kind::HealthMod) {
        sys_fail(m, m.acquire_err(Kind::HealthMod))
    } else if !m.can_read(Kind::Pos) {
        sys_fail(m, m.acquire_err(Kind::Pos))
    } else if !m.can_write(Kind::Vel) {
        sys_fail(m, m.acquire_err(Kind::Vel))
    } else if !m.can_read(Kind::Collider) {
        sys_fail(m, m.acquire_err(Kind::Collider))
    } else {
        let st0 = UhState {
            health: m.col(Kind::Health),
            mods: m.col(Kind::HealthMod),
            vel: m.col(Kind::Vel),
            err: None,
        };
        let st = uh_outer(
            st0,
            m.col(Kind::Pos),
            m.col(Kind::Collider),
            0,
            m.col(Kind::Health).len() as int,
        );
        match st.err {
            Some(e) => sys_fail(m, e),
            None => sys_ok(
                m.set_col(Kind::Health, st.health).set_col(Kind::HealthMod, cd_cols(st.mods)).set_col(
                    Kind::Vel,
                    st.vel,
                ),
                Seq::empty(),
            ),
        }
    }
}

/// Runs the damage sweep and the cooldown pass on the checked-out columns.
/// On error every handle is left untouched.
#[verifier::loop_isolation(false)]
fn update_health_core(
    health_h: &mut WriteHandle,
    mods_h: &mut WriteHandle,
    vel_h: &mut WriteHandle,
    pos_h: &ReadHandle,
    coll_h: &ReadHandle,
) -> (r: Result<(), EcsError>)
    requires
        old(health_h)@.len() == old(mods_h)@.len(),
        old(health_h)@.len() == old(vel_h)@.len(),
        old(health_h)@.len() == pos_h@.len(),
        old(health_h)@.len() == coll_h@.len(),
        old(health_h).kind() == Kind::Health,
        old(mods_h).kind() == Kind::HealthMod,
        old(vel_h).kind() == Kind::Vel,
        forall|t: int|
            0 <= t < old(health_h)@.len() ==> ((#[trigger] old(health_h)@[t]) matches Some(c)
                ==> c.kind() == Kind::Health),
        forall|t: int|
            0 <= t < old(mods_h)@.len() ==> ((#[trigger] old(mods_h)@[t]) matches Some(c)
                ==> c.kind() == Kind::HealthMod),
        forall|t: int|
            0 <= t < old(vel_h)@.len() ==> ((#[trigger] old(vel_h)@[t]) matches Some(c) ==> c.kind()
                == Kind::Vel),
    ensures
        final(health_h).kind() == old(health_h).kind(),
        final(mods_h).kind() == old(mods_h).kind(),
        final(vel_h).kind() == old(vel_h).kind(),
        final(health_h)@.len() == old(health_h)@.len(),
        final(mods_h)@.len() == old(mods_h)@.len(),
        final(vel_h)@.len() == old(vel_h)@.len(),
        forall|t: int|
            0 <= t < final(health_h)@.len() ==> ((#[trigger] final(health_h)@[t]) matches Some(c)
                ==> c.kind() == Kind::Health),
        forall|t: int|
            0 <= t < final(mods_h)@.len() ==> ((#[trigger] final(mods_h)@[t]) matches Some(c)
                ==> c.kind() == Kind::HealthMod),
        forall|t: int|
            0 <= t < final(vel_h)@.len() ==> ((#[trigger] final(vel_h)@[t]) matches Some(c)
                ==> c.kind() == Kind::Vel),
        ({
            let st0 = UhState {
                health: old(health_h)@,
                mods: old(mods_h)@,
                vel: old(vel_h)@,
                err: None,
            };
            let st = uh_outer(st0, pos_h@, coll_h@, 0, old(health_h)@.len() as int);
            match r {
                Ok(()) => st.err is None && final(health_h)@ == st.health && final(mods_h)@
                    == cd_cols(st.mods) && final(vel_h)@ == st.vel,
                Err(e) => st.err == Some(e) && final(health_h)@ == old(health_h)@ && final(mods_h)@
                    == old(mods_h)@ && final(vel_h)@ == old(vel_h)@,
            }
        }),
{
    let ghost st0 = UhState {
        health: health_h@,
        mods: mods_h@,
        vel: vel_h@,
        err: None,
    };
    let n = health_h.len();
    let mut hl = health_h.snapshot();
    let mut md = mods_h.snapshot();
    let mut vl = vel_h.snapshot();
    let mut i: usize = 0;
    while i < n
        invariant
            n == st0.health.len(),
            st0.mods.len() == n,
            st0.vel.len() == n,
            pos_h@.len() == n,
            coll_h@.len() == n,
            hl@.len() == n,
            md@.len() == n,
            vl@.len() == n,
            i <= n,
            uh_outer(st0, pos_h@, coll_h@, 0, n as int) == uh_outer(
                (UhState { health: hl@, mods: md@, vel: vl@, err: None }),
                pos_h@,
                coll_h@,
                i as int,
                n as int,
            ),
            forall|t: int|
                0 <= t < n ==> ((#[trigger] hl@[t]) matches Some(c) ==> c.kind() == Kind::Health),
            forall|t: int|
                0 <= t < n ==> ((#[trigger] md@[t]) matches Some(c) ==> c.kind()
                    == Kind::HealthMod),
            forall|t: int|
                0 <= t < n ==> ((#[trigger] vl@[t]) matches Some(c) ==> c.kind() == Kind::Vel),
            forall|t: int| 0 <= t < n ==> #[trigger] hl@[t] is Some == st0.health[t] is Some,
        decreases n - i,
    {
        let row_ok = match (hl[i], coll_h.read(i)) {
            (Some(_), Some(_)) => true,
            _ => false,
        };
        let ghost st_row = UhState { health: hl@, mods: md@, vel: vl@, err: None };
        proof {
            assert(uh_row_guard(st_row.health, coll_h@, i as int) == row_ok);
        }
        if row_ok {
            let mut j: usize = 0;
            while j < n
                invariant
                    n == st0.health.len(),
                    st0.mods.len() == n,
                    st0.vel.len() == n,
                    pos_h@.len() == n,
                    coll_h@.len() == n,
                    hl@.len() == n,
                    md@.len() == n,
                    vl@.len() == n,
                    i < n,
                    j <= n,
                    uh_outer(st0, pos_h@, coll_h@, 0, n as int) == uh_outer(
                        uh_inner(
                            (UhState { health: hl@, mods: md@, vel: vl@, err: None }),
                            pos_h@,
                            coll_h@,
                            i as int,
                            j as int,
                            n as int,
                        ),
                        pos_h@,
                        coll_h@,
                        i as int + 1,
                        n as int,
                    ),
                    forall|t: int|
                        0 <= t < n ==> ((#[trigger] hl@[t]) matches Some(c) ==> c.kind()
                            == Kind::Health),
                    forall|t: int|
                        0 <= t < n ==> ((#[trigger] md@[t]) matches Some(c) ==> c.kind()
                            == Kind::HealthMod),
                    forall|t: int|
                        0 <= t < n ==> ((#[trigger] vl@[t]) matches Some(c) ==> c.kind()
                            == Kind::Vel),
                    forall|t: int| 0 <= t < n ==> #[trigger] hl@[t] is Some == st0.health[t]
                        is Some,
                decreases n - j,
            {
                let ghost prev = UhState { health: hl@, mods: md@, vel: vl@, err: None };
                if i != j {
                    match (md[j], coll_h.read(j)) {
                        (Some(CompVal::HealthMod(mdj)), Some(CompVal::Collider(cj))) => {
                            if mdj.cooldown == 0 {
                                match (pos_h.read(i), coll_h.read(i), pos_h.read(j)) {
                                    (
                                        Some(CompVal::Pos(vp)),
                                        Some(CompVal::Collider(vc)),
                                        Some(CompVal::Pos(mp)),
                                    ) => {
                                        if aabb(vp, vc, mp, cj) {
                                            match hl[i] {
                                                Some(CompVal::Health(hh)) => {
                                                    hl[i] = Some(
                                                        CompVal::Health(
                                                            Health(i32_wadd(hh.0, mdj.health)),
                                                        ),
                                                    );
                                                },
                                                _ => {},
                                            }
                                            md[j] = Some(
                                                CompVal::HealthMod(
                                                    HealthMod {
                                                        health: mdj.health,
                                                        cooldown: DAMAGE_COOLDOWN,
                                                    },
                                                ),
                                            );
                                            match vl[i] {
                                                Some(CompVal::Vel(_)) => {
                                                    vl[i] = Some(
                                                        CompVal::Vel(
                                                            Vel {
                                                                x: knock(vp.x, mp.x),
                                                                y: knock(vp.y, mp.y),
                                                            },
                                                        ),
                                                    );
                                                },
                                                _ => {},
                                            }
                                            match vl[j] {
                                                Some(CompVal::Vel(_)) => {
                                                    vl[j] = Some(
                                                        CompVal::Vel(
                                                            Vel {
                                                                x: knock(mp.x, vp.x),
                                                                y: knock(mp.y, vp.y),
                                                            },
                                                        ),
                                                    );
                                                },
                                                _ => {},
                                            }
                                        }
                                    },
                                    _ => {
                                        proof {
                                            let bad = uh_pair(
                                                prev,
                                                pos_h@,
                                                coll_h@,
                                                i as int,
                                                j as int,
                                            );
                                            assert(bad.err == Some(EcsError::MissingComponent));
                                            assert(uh_inner(
                                                bad,
                                                pos_h@,
                                                coll_h@,
                                                i as int,
                                                j as int + 1,
                                                n as int,
                                            ) == bad);
                                            assert(uh_inner(
                                                prev,
                                                pos_h@,
                                                coll_h@,
                                                i as int,
                                                j as int,
                                                n as int,
                                            ) == bad);
                                            assert(uh_outer(
                                                bad,
                                                pos_h@,
                                                coll_h@,
                                                i as int + 1,
                                                n as int,
                                            ) == bad);
                                        }
                                        return Err(EcsError::MissingComponent);
                                    },
                                }
                            }
                        },
                        _ => {},
                    }
                }
                proof {
                    let cur = UhState { health: hl@, mods: md@, vel: vl@, err: None };
                    assert(cur =~~= uh_pair(prev, pos_h@, coll_h@, i as int, j as int));
                }
                j += 1;
            }
        }
        i += 1;
    }
    let ghost st = uh_outer(st0, pos_h@, coll_h@, 0, n as int);
    proof {
        assert(st == (UhState { health: hl@, mods: md@, vel: vl@, err: None }));
    }
    let ghost md_pre = md@;
    let mut j: usize = 0;
    while j < n
        invariant
            n == md_pre.len(),
            md@.len() == n,
            j <= n,
            forall|t: int| 0 <= t < j ==> #[trigger] md@[t] == cd_slot(md_pre[t]),
            forall|t: int| j <= t < n ==> #[trigger] md@[t] == md_pre[t],
            forall|t: int|
                0 <= t < n ==> ((#[trigger] md_pre[t]) matches Some(c) ==> c.kind()
                    == Kind::HealthMod),
        decreases n - j,
    {
        match md[j] {
            Some(CompVal::HealthMod(mdj)) => {
                if mdj.cooldown > 0 {
                    md[j] = Some(
                        CompVal::HealthMod(
                            HealthMod { health: mdj.health, cooldown: mdj.cooldown - 1 },
                        ),
                    );
                }
            },
            _ => {},
        }
        j += 1;
    }
    proof {
        assert(md@ =~= cd_cols(md_pre));
        assert(forall|t: int|
            0 <= t < n ==> ((#[trigger] md@[t]) matches Some(c) ==> c.kind() == Kind::HealthMod));
    }
    health_h.store(&hl);
    mods_h.store(&md);
    vel_h.store(&vl);
    Ok(())
}

/// Applies every overlapping health modifier to every health-bearing entity,
/// knocking both apart, then counts all running cooldowns down by one.
pub fn update_health(world: &mut World, _ctx: &Context) -> (r: Result<(), EcsError>)
    requires
        old(world)@.wf(),
    ensures
        final(world)@.wf(),
        ({
            let o = update_health_step(old(world)@, _ctx@);
            match r {
                Ok(()) => o.err is None && final(world)@ == o.m,
                Err(e) => o.err == Some(e) && final(world)@ == o.m,
            }
        }),
{
    let mut health = match world.get_mut::<Health>() {
        Ok(h) => h,
        Err(e) => {
            return Err(e);
        },
    };
    let mut mods = match world.get_mut::<HealthMod>() {
        Ok(h) => h,
        Err(e) => {
            world.release_mut(health);
            proof {
                assert(world@ =~~= old(world)@);
            }
            return Err(e);
        },
    };
    let pos = match world.get::<Pos>() {
        Ok(h) => h,
        Err(e) => {
            world.release_mut(mods);
            world.release_mut(health);
            proof {
                assert(world@ =~~= old(world)@);
            }
            return Err(e);
        },
    };
    let mut vel = match world.get_mut::<Vel>() {
        Ok(h) => h,
        Err(e) => {
            world.release(pos);
            world.release_mut(mods);
            world.release_mut(health);
            proof {
                assert(world@ =~~= old(world)@);
            }
            return Err(e);
        },
    };
    let coll = match world.get::<Collider>() {
        Ok(h) => h,
        Err(e) => {
            world.release_mut(vel);
            world.release(pos);
            world.release_mut(mods);
            world.release_mut(health);
            proof {
                assert(world@ =~~= old(world)@);
            }
            return Err(e);
        },
    };
    proof {
        lemma_col_tags(old(world)@, Kind::Health);
        lemma_col_tags(old(world)@, Kind::HealthMod);
        lemma_col_tags(old(world)@, Kind::Vel);
    }
    let res = update_health_core(&mut health, &mut mods, &mut vel, &pos, &coll);
    world.release(coll);
    world.release_mut(vel);
    world.release(pos);
    world.release_mut(mods);
    world.release_mut(health);
    match res {
        Ok(()) => {
            proof {
                assert(world@ =~~= update_health_step(old(world)@, _ctx@).m);
            }
            Ok(())
        },
        Err(e) => {
            proof {
                assert(world@ =~~= old(world)@);
            }
            Err(e)
        },
    }
}

/// One velocity slot after deceleration: each axis moves one step toward
/// zero.
pub open spec fn dec_slot(v: Option<CompVal>) -> Option<CompVal> {
    match v {
        Some(CompVal::Vel(vv)) => Some(
            CompVal::Vel(
                Vel {
                    x: (vv.x - signum(vv.x as int)) as i32,
                    y: (vv.y - signum(vv.y as int)) as i32,
                },
            ),
        ),
        _ => v,
    }
}

/// The velocity column after deceleration.
pub open spec fn dec_cols(v: Seq<Option<CompVal>>) -> Seq<Option<CompVal>> {
    Seq::new(v.len(), |i: int| dec_slot(v[i]))
}

/// The effect of [`decelerate`] on a world model.
pub open spec fn decelerate_step(m: WorldModel, ctx: CtxView) -> SysOut {
    if !m.can_write(Kind::Vel) {
        sys_fail(m, m.acquire_err(Kind::Vel))
    } else {
        sys_ok(m.set_col(Kind::Vel, dec_cols(m.col(Kind::Vel))), Seq::empty())
    }
}

/// Eases every velocity toward zero by one pixel per axis per tick.
pub fn decelerate(world: &mut World, _ctx: &Context) -> (r: Result<(), EcsError>)
    requires
        old(world)@.wf(),
    ensures
        final(world)@.wf(),
        ({
            let o = decelerate_step(old(world)@, _ctx@);
            match r {
                Ok(()) => o.err is None && final(world)@ == o.m,
                Err(e) => o.err == Some(e) && final(world)@ == o.m,
            }
        }),
{
    let mut vel = match world.get_mut::<Vel>() {
        Ok(h) => h,
        Err(e) => {
            return Err(e);
        },
    };
    proof {
        lemma_col_tags(old(world)@, Kind::Vel);
    }
    let ghost v0 = vel@;
    let n = vel.len();
    let mut i: usize = 0;
    while i < n
        invariant
            n == vel@.len(),
            v0.len() == n,
            i <= n,
            vel.kind() == Kind::Vel,
            forall|t: int| 0 <= t < i ==> #[trigger] vel@[t] == dec_slot(v0[t]),
            forall|t: int| i <= t < n ==> #[trigger] vel@[t] == v0[t],
            forall|t: int|
                0 <= t < n ==> ((#[trigger] v0[t]) matches Some(c) ==> c.kind() == Kind::Vel),
        decreases n - i,
    {
        match vel.read(i) {
            Some(CompVal::Vel(vv)) => {
                let sx = signum_i64(vv.x as i64);
                let sy = signum_i64(vv.y as i64);
                vel.write(i, Some(CompVal::Vel(Vel { x: vv.x - sx, y: vv.y - sy })));
            },
            _ => {},
        }
        i += 1;
    }
    proof {
        assert(vel@ =~= dec_cols(v0));
    }
    world.release_mut(vel);
    proof {
        assert(world@ =~~= decelerate_step(old(world)@, _ctx@).m);
    }
    Ok(())
}

/// Whether a squared distance of `(dx, dy)` lies inside the attack radius
/// without being zero.
pub open spec fn attack_in_range(dx: int, dy: int) -> bool {
    0 < dx * dx + dy * dy < 400
}

/// Executable form of [`attack_in_range`].
fn in_attack_range(dx: i32, dy: i32) -> (b: bool)
    ensures
        b == attack_in_range(dx as int, dy as int),
{
    if dx > -20 && dx < 20 && dy > -20 && dy < 20 {
        proof {
            assert(-400 < (dx as int) * (dx as int) < 400 && -400 < (dy as int) * (dy as int)
                < 400) by (nonlinear_arith)
                requires
                    -20 < dx < 20,
                    -20 < dy < 20,
            ;
        }
        let d: i64 = (dx as i64) * (dx as i64) + (dy as i64) * (dy as i64);
        d > 0 && d < 400
    } else {
        proof {
            assert((dx as int) * (dx as int) + (dy as int) * (dy as int) >= 400)
                by (nonlinear_arith)
                requires
                    dx <= -20 || dx >= 20 || dy <= -20 || dy >= 20,
            ;
        }
        false
    }
}

/// One health slot after a single attack pass centered on `ppos`: any entity
/// with a position and health inside the attack radius loses one point.
pub open spec fn pi_hit_slot(h: Option<CompVal>, p: Option<CompVal>, ppos: Pos) -> Option<
    CompVal,
> {
    match (p, h) {
        (Some(CompVal::Pos(pk)), Some(CompVal::Health(hk))) => {
            let dx = wrap_i32(ppos.x - pk.x);
            let dy = wrap_i32(ppos.y - pk.y);
            if attack_in_range(dx, dy) {
                Some(CompVal::Health(Health(wrap_i32(hk.0 - 1) as i32)))
            } else {
                h
            }
        },
        _ => h,
    }
}

/// The health column after a single attack pass.
pub open spec fn pi_hit_cols(
    health: Seq<Option<CompVal>>,
    pos: Seq<Option<CompVal>>,
    ppos: Pos,
) -> Seq<Option<CompVal>> {
    Seq::new(health.len(), |k: int| pi_hit_slot(health[k], pos[k], ppos))
}

/// A velocity after the key adjustments: each held arrow pushes the matching
/// axis to at least the player speed.  (The rightward key, like everything
/// here, mirrors the exact arithmetic of the running game, which feeds the
/// vertical speed into the horizontal axis.)
pub open spec fn pi_vel(v: Vel, input: Input) -> Vel {
    let y1: int = if input.up {
        if v.y < -PLAYER_SPEED {
            v.y as int
        } else {
            -PLAYER_SPEED as int
        }
    } else {
        v.y as int
    };
    let y2: int = if input.down {
        if y1 > PLAYER_SPEED {
            y1
        } else {
            PLAYER_SPEED as int
        }
    } else {
        y1
    };
    let x1: int = if input.left {
        if v.x < -PLAYER_SPEED {
            v.x as int
        } else {
            -PLAYER_SPEED as int
        }
    } else {
        v.x as int
    };
    let x2: int = if input.right {
        if y2 > PLAYER_SPEED {
            y2
        } else {
            PLAYER_SPEED as int
        }
    } else {
        x1
    };
    Vel { x: x2 as i32, y: y2 as i32 }
}

/// The input system's working state: the three columns it mutates.
#[verifier::ext_equal]
pub ghost struct PiState {
    pub vel: Seq<Option<CompVal>>,
    pub player: Seq<Option<CompVal>>,
    pub health: Seq<Option<CompVal>>,
}

/// One row of the input system: a row with a velocity and a player marker
/// takes the key adjustments; while the attack key is held it also marks the
/// attack and runs one attack pass over every entity.
pub open spec fn pi_row(
    st: PiState,
    pos: Seq<Option<CompVal>>,
    ppos: Pos,
    input: Input,
    i: int,
) -> PiState {
    match (st.vel[i], st.player[i]) {
        (Some(CompVal::Vel(vv)), Some(CompVal::Player(_))) => {
            let vel2 = st.vel.update(i, Some(CompVal::Vel(pi_vel(vv, input))));
            if input.attack {
                PiState {
                    vel: vel2,
                    player: st.player.update(i, Some(CompVal::Player(Player { attack: true }))),
                    health: pi_hit_cols(st.health, pos, ppos),
                }
            } else {
                PiState {
                    vel: vel2,
                    player: st.player.update(i, Some(CompVal::Player(Player { attack: false }))),
                    health: st.health,
                }
            }
        },
        _ => st,
    }
}

/// The input system's sweep over rows `i..n`.
pub open spec fn pi_outer(
    st: PiState,
    pos: Seq<Option<CompVal>>,
    ppos: Pos,
    input: Input,
    i: int,
    n: int,
) -> PiState
    decreases n - i,
{
    if i >= n {
        st
    } else {
        pi_outer(pi_row(st, pos, ppos, input, i), pos, ppos, input, i + 1, n)
    }
}

/// The effect of [`player_input`] on a world model.
pub open spec fn player_input_step(m: WorldModel, ctx: CtxView) -> SysOut {
    if !m.can_read(Kind::Pos) {
        sys_fail(m, m.acquire_err(Kind::Pos))
    } else if !m.can_write(Kind::Health) {
        sys_fail(m, m.acquire_err(Kind::Health))
    } else if !m.can_write(Kind::Vel) {
        sys_fail(m, m.acquire_err(Kind::Vel))
    } else if !m.can_write(Kind::Player) {
        sys_fail(m, m.acquire_err(Kind::Player))
    } else {
        let player = m.col(Kind::Player);
        let pi = first_some_from(player, 0);
        if pi == player.len() {
            sys_fail(m, EcsError::NoPlayer)
        } else {
            match m.col(Kind::Pos)[pi] {
                Some(CompVal::Pos(ppos)) => {
                    let st0 = PiState {
                        vel: m.col(Kind::Vel),
                        player,
                        health: m.col(Kind::Health),
                    };
                    let st = pi_outer(
                        st0,
                        m.col(Kind::Pos),
                        ppos,
                        ctx.input,
                        0,
                        player.len() as int,
                    );
                    sys_ok(
                        m.set_col(Kind::Health, st.health).set_col(Kind::Vel, st.vel).set_col(
                            Kind::Player,
                            st.player,
                        ),
                        Seq::empty(),
                    )
                },
                _ => sys_fail(m, EcsError::MissingComponent),
            }
        }
    }
}

/// Runs the key adjustments and attack passes on the checked-out columns.
/// On error every handle is left untouched.
#[verifier::loop_isolation(false)]
fn player_input_core(
    pos_h: &ReadHandle,
    health_h: &mut WriteHandle,
    vel_h: &mut WriteHandle,
    player_h: &mut WriteHandle,
    input: Input,
) -> (r: Result<(), EcsError>)
    requires
        old(health_h)@.len() == pos_h@.len(),
        old(vel_h)@.len() == pos_h@.len(),
        old(player_h)@.len() == pos_h@.len(),
        old(health_h).kind() == Kind::Health,
        old(vel_h).kind() == Kind::Vel,
        old(player_h).kind() == Kind::Player,
        forall|t: int|
            0 <= t < old(health_h)@.len() ==> ((#[trigger] old(health_h)@[t]) matches Some(c)
                ==> c.kind() == Kind::Health),
        forall|t: int|
            0 <= t < old(vel_h)@.len() ==> ((#[trigger] old(vel_h)@[t]) matches Some(c) ==> c.kind()
                == Kind::Vel),
        forall|t: int|
            0 <= t < old(player_h)@.len() ==> ((#[trigger] old(player_h)@[t]) matches Some(c)
                ==> c.kind() == Kind::Player),
    ensures
        final(health_h).kind() == old(health_h).kind(),
        final(vel_h).kind() == old(vel_h).kind(),
        final(player_h).kind() == old(player_h).kind(),
        final(health_h)@.len() == old(health_h)@.len(),
        final(vel_h)@.len() == old(vel_h)@.len(),
        final(player_h)@.len() == old(player_h)@.len(),
        forall|t: int|
            0 <= t < final(health_h)@.len() ==> ((#[trigger] final(health_h)@[t]) matches Some(c)
                ==> c.kind() == Kind::Health),
        forall|t: int|
            0 <= t < final(vel_h)@.len() ==> ((#[trigger] final(vel_h)@[t]) matches Some(c)
                ==> c.kind() == Kind::Vel),
        forall|t: int|
            0 <= t < final(player_h)@.len() ==> ((#[trigger] final(player_h)@[t]) matches Some(c)
                ==> c.kind() == Kind::Player),
        ({
            let pi = first_some_from(old(player_h)@, 0);
            match r {
                Ok(()) => pi < old(player_h)@.len() && (pos_h@[pi] matches Some(CompVal::Pos(ppos))
                    && {
                    let st0 = PiState {
                        vel: old(vel_h)@,
                        player: old(player_h)@,
                        health: old(health_h)@,
                    };
                    let st = pi_outer(st0, pos_h@, ppos, input, 0, old(player_h)@.len() as int);
                    final(vel_h)@ == st.vel && final(player_h)@ == st.player && final(health_h)@
                        == st.health
                }),
                Err(e) => final(health_h)@ == old(health_h)@ && final(vel_h)@ == old(vel_h)@
                    && final(player_h)@ == old(player_h)@ && ((e == EcsError::NoPlayer && pi
                    == old(player_h)@.len()) || (e == EcsError::MissingComponent && pi < old(
                    player_h,
                )@.len() && !(pos_h@[pi] matches Some(CompVal::Pos(_))))),
            }
        }),
{
    let n = player_h.len();
    let mut pidx: usize = 0;
    let mut found = false;
    while !found && pidx < n
        invariant
            pidx <= n,
            forall|t: int| 0 <= t < pidx ==> (#[trigger] player_h@[t]) is None,
            found ==> pidx < n && player_h@[pidx as int] is Some,
        decreases
            (if found {
                0int
            } else {
                1int
            }),
            n - pidx,
    {
        match player_h.read(pidx) {
            Some(_) => {
                found = true;
            },
            None => {
                pidx += 1;
            },
        }
    }
    proof {
        lemma_first_some_prefix(player_h@, pidx as int);
    }
    if !found {
        return Err(EcsError::NoPlayer);
    }
    let ppos = match pos_h.read(pidx) {
        Some(CompVal::Pos(pp)) => pp,
        _ => {
            return Err(EcsError::MissingComponent);
        },
    };
    let ghost st0 = PiState { vel: vel_h@, player: player_h@, health: health_h@ };
    let mut i: usize = 0;
    while i < n
        invariant
            i <= n,
            vel_h@.len() == n,
            player_h@.len() == n,
            health_h@.len() == n,
            vel_h.kind() == Kind::Vel,
            player_h.kind() == Kind::Player,
            health_h.kind() == Kind::Health,
            pi_outer(st0, pos_h@, ppos, input, 0, n as int) == pi_outer(
                (PiState { vel: vel_h@, player: player_h@, health: health_h@ }),
                pos_h@,
                ppos,
                input,
                i as int,
                n as int,
            ),
            forall|t: int|
                0 <= t < n ==> ((#[trigger] health_h@[t]) matches Some(c) ==> c.kind()
                    == Kind::Health),
            forall|t: int|
                0 <= t < n ==> ((#[trigger] vel_h@[t]) matches Some(c) ==> c.kind() == Kind::Vel),
            forall|t: int|
                0 <= t < n ==> ((#[trigger] player_h@[t]) matches Some(c) ==> c.kind()
                    == Kind::Player),
        decreases n - i,
    {
        let ghost prev = PiState { vel: vel_h@, player: player_h@, health: health_h@ };
        match (vel_h.read(i), player_h.read(i)) {
            (Some(CompVal::Vel(vv)), Some(CompVal::Player(_))) => {
                let mut ny = vv.y;
                if input.up {
                    if ny >= -PLAYER_SPEED {
                        ny = -PLAYER_SPEED;
                    }
                }
                if input.down {
                    if ny <= PLAYER_SPEED {
                        ny = PLAYER_SPEED;
                    }
                }
                let mut nx = vv.x;
                if input.left {
                    if nx >= -PLAYER_SPEED {
                        nx = -PLAYER_SPEED;
                    }
                }
                if input.right {
                    nx = if ny > PLAYER_SPEED {
                        ny
                    } else {
                        PLAYER_SPEED
                    };
                }
                assert(Vel { x: nx, y: ny } == pi_vel(vv, input));
                vel_h.write(i, Some(CompVal::Vel(Vel { x: nx, y: ny })));
                if input.attack {
                    player_h.write(i, Some(CompVal::Player(Player { attack: true })));
                    let ghost hstart = health_h@;
                    let mut k: usize = 0;
                    while k < n
                        invariant
                            k <= n,
                            health_h@.len() == n,
                            health_h.kind() == Kind::Health,
                            hstart.len() == n,
                            forall|t: int|
                                0 <= t < k ==> #[trigger] health_h@[t] == pi_hit_slot(
                                    hstart[t],
                                    pos_h@[t],
                                    ppos,
                                ),
                            forall|t: int| k <= t < n ==> #[trigger] health_h@[t] == hstart[t],
                            forall|t: int|
                                0 <= t < n ==> ((#[trigger] hstart[t]) matches Some(c) ==> c.kind()
                                    == Kind::Health),
                        decreases n - k,
                    {
                        match (pos_h.read(k), health_h.read(k)) {
                            (Some(CompVal::Pos(pk)), Some(CompVal::Health(hk))) => {
                                let dx = i32_wsub(ppos.x, pk.x);
                                let dy = i32_wsub(ppos.y, pk.y);
                                if in_attack_range(dx, dy) {
                                    health_h.write(
                                        k,
                                        Some(CompVal::Health(Health(i32_wsub(hk.0, 1)))),
                                    );
                                }
                            },
                            _ => {},
                        }
                        k += 1;
                    }
                    proof {
                        assert(health_h@ =~= pi_hit_cols(hstart, pos_h@, ppos));
                    }
                } else {
                    player_h.write(i, Some(CompVal::Player(Player { attack: false })));
                }
                proof {
                    let cur = PiState { vel: vel_h@, player: player_h@, health: health_h@ };
                    assert(cur =~~= pi_row(prev, pos_h@, ppos, input, i as int));
                }
            },
            _ => {},
        }
        i += 1;
    }
    Ok(())
}

/// Adjusts the player's velocity from the held keys and, while the attack
/// key is down, marks the attack and damages every entity within its radius
/// of the player once per player-marked row.
pub fn player_input(world: &mut World, ctx: &Context) -> (r: Result<(), EcsError>)
    requires
        old(world)@.wf(),
    ensures
        final(world)@.wf(),
        ({
            let o = player_input_step(old(world)@, ctx@);
            match r {
                Ok(()) => o.err is None && final(world)@ == o.m,
                Err(e) => o.err == Some(e) && final(world)@ == o.m,
            }
        }),
{
    let pos = match world.get::<Pos>() {
        Ok(h) => h,
        Err(e) => {
            return Err(e);
        },
    };
    let mut health = match world.get_mut::<Health>() {
        Ok(h) => h,
        Err(e) => {
            world.release(pos);
            proof {
                assert(world@ =~~= old(world)@);
            }
            return Err(e);
        },
    };
    let mut vel = match world.get_mut::<Vel>() {
        Ok(h) => h,
        Err(e) => {
            world.release_mut(health);
            world.release(pos);
            proof {
                assert(world@ =~~= old(world)@);
            }
            return Err(e);
        },
    };
    let mut player = match world.get_mut::<Player>() {
        Ok(h) => h,
        Err(e) => {
            world.release_mut(vel);
            world.release_mut(health);
            world.release(pos);
            proof {
                assert(world@ =~~= old(world)@);
            }
            return Err(e);
        },
    };
    proof {
        lemma_col_tags(old(world)@, Kind::Health);
        lemma_col_tags(old(world)@, Kind::Vel);
        lemma_col_tags(old(world)@, Kind::Player);
    }
    let res = player_input_core(&pos, &mut health, &mut vel, &mut player, ctx.input);
    world.release_mut(player);
    world.release_mut(vel);
    world.release_mut(health);
    world.release(pos);
    match res {
        Ok(()) => {
            proof {
                assert(world@ =~~= player_input_step(old(world)@, ctx@).m);
            }
            Ok(())
        },
        Err(e) => {
            proof {
                assert(world@ =~~= old(world)@);
            }
            Err(e)
        },
    }
}

/// The staged move of one pushable row: a pushed box that can advance by the
/// player's velocity yields its moved position; one that is blocked, does
/// not overlap the player, or is not pushable yields nothing.
pub open spec fn mp_stage(
    p: Option<CompVal>,
    c: Option<CompVal>,
    pu: Option<CompVal>,
    ppos: Pos,
    pcoll: Collider,
    pvel: Vel,
    ctx: CtxView,
) -> Result<Option<CompVal>, EcsError> {
    match (p, c, pu) {
        (Some(CompVal::Pos(pp)), Some(CompVal::Collider(pc)), Some(CompVal::Push(_))) => {
            if aabb_spec(pp, pc, ppos, pcoll) {
                let nx = wrap_i32(pp.x + pvel.x);
                let ny = wrap_i32(pp.y + pvel.y);
                match collide_spec(nx, ny, pc, ctx) {
                    Err(e) => Err(e),
                    Ok(true) => Ok(None),
                    Ok(false) => Ok(Some(CompVal::Pos(Pos { x: nx as i32, y: ny as i32 }))),
                }
            } else {
                Ok(None)
            }
        },
        _ => Ok(None),
    }
}

/// Whether a pushable row overlaps the player but cannot advance; any such
/// row pushes the player back instead.
pub open spec fn mp_blocked(
    p: Option<CompVal>,
    c: Option<CompVal>,
    pu: Option<CompVal>,
    ppos: Pos,
    pcoll: Collider,
    pvel: Vel,
    ctx: CtxView,
) -> bool {
    match (p, c, pu) {
        (Some(CompVal::Pos(pp)), Some(CompVal::Collider(pc)), Some(CompVal::Push(_))) => {
            aabb_spec(pp, pc, ppos, pcoll) && collide_spec(
                wrap_i32(pp.x + pvel.x),
                wrap_i32(pp.y + pvel.y),
                pc,
                ctx,
            ) == Ok::<bool, EcsError>(true)
        },
        _ => false,
    }
}

/// The position column after the push pass, or the fatal error: no player,
/// a player row missing its position, collider or velocity, or a collision
/// lookup outside the grid.
pub open spec fn mp_cols(
    pos: Seq<Option<CompVal>>,
    vel: Seq<Option<CompVal>>,
    coll: Seq<Option<CompVal>>,
    push: Seq<Option<CompVal>>,
    player: Seq<Option<CompVal>>,
    ctx: CtxView,
) -> Result<Seq<Option<CompVal>>, EcsError> {
    let pi = first_some_from(player, 0);
    if pi == player.len() {
        Err(EcsError::NoPlayer)
    } else {
        match (pos[pi], coll[pi], vel[pi]) {
            (Some(CompVal::Pos(pp)), Some(CompVal::Collider(pc)), Some(CompVal::Vel(pv))) => {
                if exists|i: int|
                    0 <= i < pos.len() && (#[trigger] mp_stage(
                        pos[i],
                        coll[i],
                        push[i],
                        pp,
                        pc,
                        pv,
                        ctx,
                    )) is Err {
                    Err(EcsError::OutOfBounds)
                } else {
                    let npp = if exists|i: int|
                        0 <= i < pos.len() && #[trigger] mp_blocked(
                            pos[i],
                            coll[i],
                            push[i],
                            pp,
                            pc,
                            pv,
                            ctx,
                        ) {
                        Pos { x: wrap_i32(pp.x - pv.x) as i32, y: wrap_i32(pp.y - pv.y) as i32 }
                    } else {
                        pp
                    };
                    Ok(
                        Seq::new(
                            pos.len(),
                            |i: int|
                                if mp_stage(pos[i], coll[i], push[i], pp, pc, pv, ctx)->Ok_0
                                    is Some {
                                    mp_stage(pos[i], coll[i], push[i], pp, pc, pv, ctx)->Ok_0
                                } else if i == pi {
                                    Some(CompVal::Pos(npp))
                                } else {
                                    pos[i]
                                },
                        ),
                    )
                }
            },
            _ => Err(EcsError::MissingComponent),
        }
    }
}

/// The effect of [`move_pushables`] on a world model.
pub open spec fn move_pushables_step(m: WorldModel, ctx: CtxView) -> SysOut {
    if !m.can_write(Kind::Pos) {
        sys_fail(m, m.acquire_err(Kind::Pos))
    } else if !m.can_read(Kind::Vel) {
        sys_fail(m, m.acquire_err(Kind::Vel))
    } else if !m.can_read(Kind::Collider) {
        sys_fail(m, m.acquire_err(Kind::Collider))
    } else if !m.can_read(Kind::Push) {
        sys_fail(m, m.acquire_err(Kind::Push))
    } else if !m.can_read(Kind::Player) {
        sys_fail(m, m.acquire_err(Kind::Player))
    } else {
        match mp_cols(
            m.col(Kind::Pos),
            m.col(Kind::Vel),
            m.col(Kind::Collider),
            m.col(Kind::Push),
            m.col(Kind::Player),
            ctx,
        ) {
            Ok(s) => sys_ok(m.set_col(Kind::Pos, s), Seq::empty()),
            Err(e) => sys_fail(m, e),
        }
    }
}

/// Computes the pushed position column into the write handle.  On error the
/// handle is left untouched.
#[verifier::loop_isolation(false)]
fn move_pushables_core(
    pos_h: &mut WriteHandle,
    vel_h: &ReadHandle,
    coll_h: &ReadHandle,
    push_h: &ReadHandle,
    player_h: &ReadHandle,
    ctx: &Context,
) -> (r: Result<(), EcsError>)
    requires
        old(pos_h)@.len() == vel_h@.len(),
        old(pos_h)@.len() == coll_h@.len(),
        old(pos_h)@.len() == push_h@.len(),
        old(pos_h)@.len() == player_h@.len(),
        old(pos_h).kind() == Kind::Pos,
        forall|t: int|
            0 <= t < old(pos_h)@.len() ==> ((#[trigger] old(pos_h)@[t]) matches Some(c) ==> c.kind()
                == Kind::Pos),
    ensures
        final(pos_h).kind() == old(pos_h).kind(),
        match r {
            Ok(()) => mp_cols(old(pos_h)@, vel_h@, coll_h@, push_h@, player_h@, ctx@) == Ok::<
                _,
                EcsError,
            >(final(pos_h)@),
            Err(e) => mp_cols(old(pos_h)@, vel_h@, coll_h@, push_h@, player_h@, ctx@) == Err::<
                Seq<Option<CompVal>>,
                _,
            >(e) && final(pos_h)@ == old(pos_h)@,
        },
{
    let ghost p0 = pos_h@;
    let n = pos_h.len();
    let mut pidx: usize = 0;
    let mut found = false;
    while !found && pidx < n
        invariant
            pidx <= n,
            forall|t: int| 0 <= t < pidx ==> (#[trigger] player_h@[t]) is None,
            found ==> pidx < n && player_h@[pidx as int] is Some,
        decreases
            (if found {
                0int
            } else {
                1int
            }),
            n - pidx,
    {
        match player_h.read(pidx) {
            Some(_) => {
                found = true;
            },
            None => {
                pidx += 1;
            },
        }
    }
    proof {
        lemma_first_some_prefix(player_h@, pidx as int);
    }
    if !found {
        return Err(EcsError::NoPlayer);
    }
    let pp = match pos_h.read(pidx) {
        Some(CompVal::Pos(v)) => v,
        _ => {
            return Err(EcsError::MissingComponent);
        },
    };
    let pc = match coll_h.read(pidx) {
        Some(CompVal::Collider(v)) => v,
        _ => {
            return Err(EcsError::MissingComponent);
        },
    };
    let pv = match vel_h.read(pidx) {
        Some(CompVal::Vel(v)) => v,
        _ => {
            return Err(EcsError::MissingComponent);
        },
    };
    let mut staged: Vec<Option<CompVal>> = Vec::new();
    let mut any_blocked = false;
    let mut i: usize = 0;
    while i < n
        invariant
            i <= n,
            pos_h@ == p0,
            staged@.len() == i,
            forall|t: int|
                0 <= t < i ==> (#[trigger] mp_stage(p0[t], coll_h@[t], push_h@[t], pp, pc, pv, ctx@))
                    is Ok,
            forall|t: int|
                0 <= t < i ==> staged@[t] == mp_stage(
                    p0[t],
                    coll_h@[t],
                    push_h@[t],
                    pp,
                    pc,
                    pv,
                    ctx@,
                )->Ok_0,
            any_blocked == exists|t: int|
                0 <= t < i && #[trigger] mp_blocked(p0[t], coll_h@[t], push_h@[t], pp, pc, pv, ctx@),
        decreases n - i,
    {
        let slot: Option<CompVal> = match (pos_h.read(i), coll_h.read(i), push_h.read(i)) {
            (Some(CompVal::Pos(bp)), Some(CompVal::Collider(bc)), Some(CompVal::Push(_))) => {
                if aabb(bp, bc, pp, pc) {
                    let nx = i32_wadd(bp.x, pv.x);
                    let ny = i32_wadd(bp.y, pv.y);
                    match collide((nx, ny), bc, ctx) {
                        Err(e) => {
                            assert(mp_stage(p0[i as int], coll_h@[i as int], push_h@[i as int], pp,
                                pc, pv, ctx@) is Err);
                            return Err(e);
                        },
                        Ok(true) => {
                            any_blocked = true;
                            assert(mp_blocked(p0[i as int], coll_h@[i as int], push_h@[i as int],
                                pp, pc, pv, ctx@));
                            None
                        },
                        Ok(false) => Some(CompVal::Pos(Pos { x: nx, y: ny })),
                    }
                } else {
                    assert(!mp_blocked(p0[i as int], coll_h@[i as int], push_h@[i as int], pp, pc,
                        pv, ctx@));
                    None
                }
            },
            _ => {
                assert(!mp_blocked(p0[i as int], coll_h@[i as int], push_h@[i as int], pp, pc, pv,
                    ctx@));
                None
            },
        };
        staged.push(slot);
        i += 1;
    }
    let npp = if any_blocked {
        Pos { x: i32_wsub(pp.x, pv.x), y: i32_wsub(pp.y, pv.y) }
    } else {
        pp
    };
    let ghost target = mp_cols(p0, vel_h@, coll_h@, push_h@, player_h@, ctx@)->Ok_0;
    proof {
        assert(mp_cols(p0, vel_h@, coll_h@, push_h@, player_h@, ctx@) is Ok);
    }
    let mut j: usize = 0;
    while j < n
        invariant
            j <= n,
            pos_h@.len() == n,
            pos_h.kind() == Kind::Pos,
            target.len() == n,
            forall|t: int| 0 <= t < j ==> #[trigger] pos_h@[t] == target[t],
            forall|t: int| j <= t < n ==> #[trigger] pos_h@[t] == p0[t],
        decreases n - j,
    {
        let cur = pos_h.read(j);
        let v: Option<CompVal> = match staged[j] {
            Some(s) => Some(s),
            None => if j == pidx {
                Some(CompVal::Pos(npp))
            } else {
                cur
            },
        };
        assert(v == target[j as int]);
        pos_h.write(j, v);
        j += 1;
    }
    proof {
        assert(pos_h@ =~= target);
    }
    Ok(())
}

/// Moves every pushable box the player's velocity can shove along, and
/// pushes the player back off any box that cannot move.
pub fn move_pushables(world: &mut World, ctx: &Context) -> (r: Result<(), EcsError>)
    requires
        old(world)@.wf(),
    ensures
        final(world)@.wf(),
        ({
            let o = move_pushables_step(old(world)@, ctx@);
            match r {
                Ok(()) => o.err is None && final(world)@ == o.m,
                Err(e) => o.err == Some(e) && final(world)@ == o.m,
            }
        }),
{
    let mut pos = match world.get_mut::<Pos>() {
        Ok(h) => h,
        Err(e) => {
            return Err(e);
        },
    };
    let vel = match world.get::<Vel>() {
        Ok(h) => h,
        Err(e) => {
            world.release_mut(pos);
            proof {
                assert(world@ =~~= old(world)@);
            }
            return Err(e);
        },
    };
    let coll = match world.get::<Collider>() {
        Ok(h) => h,
        Err(e) => {
            world.release(vel);
            world.release_mut(pos);
            proof {
                assert(world@ =~~= old(world)@);
            }
            return Err(e);
        },
    };
    let push = match world.get::<Push>() {
        Ok(h) => h,
        Err(e) => {
            world.release(coll);
            world.release(vel);
            world.release_mut(pos);
            proof {
                assert(world@ =~~= old(world)@);
            }
            return Err(e);
        },
    };
    let player = match world.get::<Player>() {
        Ok(h) => h,
        Err(e) => {
            world.release(push);
            world.release(coll);
            world.release(vel);
            world.release_mut(pos);
            proof {
                assert(world@ =~~= old(world)@);
            }
            return Err(e);
        },
    };
    proof {
        lemma_col_tags(old(world)@, Kind::Pos);
    }
    let res = move_pushables_core(&mut pos, &vel, &coll, &push, &player, ctx);
    world.release(player);
    world.release(push);
    world.release(coll);
    world.release(vel);
    world.release_mut(pos);
    match res {
        Ok(()) => {
            proof {
                assert(world@ =~~= move_pushables_step(old(world)@, ctx@).m);
            }
            Ok(())
        },
        Err(e) => {
            proof {
                assert(world@ =~~= old(world)@);
            }
            Err(e)
        },
    }
}

} // verus!
