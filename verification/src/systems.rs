//! System identifiers and the per-tick schedule.

pub mod gameplay;
pub mod graphics;

use vstd::prelude::*;

verus! {

use crate::context::{Context, CtxView, DrawCmd};
use crate::ecs::{EcsError, World, WorldModel};
use crate::systems::gameplay::{apply_velocities, apply_velocities_step, decelerate,
    decelerate_step, move_followers, move_followers_step, move_pushables, move_pushables_step,
    player_input, player_input_step, remove_dead, remove_dead_step, update_health,
    update_health_step};
use crate::systems::graphics::{draw_attack, draw_attack_step, draw_health, draw_health_step,
    draw_sprites, draw_sprites_step};

/// Identifies one system: an update or render routine the world can schedule.
///
/// The scheduler stores these tags in registration order; running a tick
/// dispatches on the tag.  This is the tagged-union counterpart of a list of
/// opaque callables.
#[derive(Clone, Copy, Debug, PartialEq, Eq, Structural)]
pub enum SystemKind {
    DrawSprites,
    DrawAttack,
    DrawHealth,
    PlayerInput,
    MoveFollowers,
    ApplyVelocities,
    MovePushables,
    UpdateHealth,
    Decelerate,
    RemoveDead,
}

/// The outcome of running one system on a world model: the world afterward,
/// the drawing instructions it emitted, and the fatal error if it hit one.
/// A failing system leaves the world as it found it.
#[verifier::ext_equal]
pub ghost struct SysOut {
    pub m: WorldModel,
    pub cmds: Seq<DrawCmd>,
    pub err: Option<EcsError>,
}

/// A system run that stops with a fatal error changes nothing and draws
/// nothing.
pub open spec fn sys_fail(m: WorldModel, e: EcsError) -> SysOut {
    SysOut { m, cmds: Seq::<DrawCmd>::empty(), err: Some(e) }
}

/// A successful system run.
pub open spec fn sys_ok(m: WorldModel, cmds: Seq<DrawCmd>) -> SysOut {
    SysOut { m, cmds, err: None }
}

/// The effect of one system on a world model.
pub open spec fn sys_step(m: WorldModel, ctx: CtxView, s: SystemKind) -> SysOut {
    match s {
        SystemKind::DrawSprites => draw_sprites_step(m, ctx),
        SystemKind::DrawAttack => draw_attack_step(m, ctx),
        SystemKind::DrawHealth => draw_health_step(m, ctx),
        SystemKind::PlayerInput => player_input_step(m, ctx),
        SystemKind::MoveFollowers => move_followers_step(m, ctx),
        SystemKind::ApplyVelocities => apply_velocities_step(m, ctx),
        SystemKind::MovePushables => move_pushables_step(m, ctx),
        SystemKind::UpdateHealth => update_health_step(m, ctx),
        SystemKind::Decelerate => decelerate_step(m, ctx),
        SystemKind::RemoveDead => remove_dead_step(m, ctx),
    }
}

/// No system touches the schedule it runs under.
pub proof fn lemma_sys_step_keeps_systems(m: WorldModel, ctx: CtxView, s: SystemKind)
    ensures
        sys_step(m, ctx, s).m.systems == m.systems,
{
}

/// The outcome of one whole tick: the world after the systems that ran, the
/// drawing instructions they emitted in order, and the error that aborted
/// the tick, if any.
#[verifier::ext_equal]
pub ghost struct TickOut {
    pub m: WorldModel,
    pub cmds: Seq<DrawCmd>,
    pub err: Option<EcsError>,
}

/// Runs the systems `ss[i..]` in order on a world model, stopping at the
/// first fatal error.  This is the meaning of one tick: the scheduled
/// systems applied one after the other, in exactly their registration
/// order.
pub open spec fn run_from(m: WorldModel, ctx: CtxView, ss: Seq<SystemKind>, i: int) -> TickOut
    decreases ss.len() - i,
{
    if i < 0 || i >= ss.len() {
        TickOut { m, cmds: Seq::empty(), err: None }
    } else {
        let o = sys_step(m, ctx, ss[i]);
        match o.err {
            Some(e) => TickOut { m: o.m, cmds: o.cmds, err: Some(e) },
            None => {
                let rest = run_from(o.m, ctx, ss, i + 1);
                TickOut { m: rest.m, cmds: o.cmds + rest.cmds, err: rest.err }
            },
        }
    }
}

/// Scheduling order: a tick applies the scheduled systems strictly in
/// registration order — the first system runs on the incoming world, and the
/// rest of the tick runs on the world that system leaves behind, its output
/// drawn first.  Together with the schedule surviving every tick unchanged,
/// the order is the same on every tick.
pub proof fn lemma_tick_runs_in_order(m: WorldModel, ctx: CtxView, ss: Seq<SystemKind>)
    requires
        ss.len() > 0,
        sys_step(m, ctx, ss[0]).err is None,
    ensures
        run_from(m, ctx, ss, 0).m == run_from(sys_step(m, ctx, ss[0]).m, ctx, ss, 1).m,
        run_from(m, ctx, ss, 0).cmds == sys_step(m, ctx, ss[0]).cmds + run_from(
            sys_step(m, ctx, ss[0]).m,
            ctx,
            ss,
            1,
        ).cmds,
        run_from(m, ctx, ss, 0).err == run_from(sys_step(m, ctx, ss[0]).m, ctx, ss, 1).err,
{
}

/// A tick leaves the schedule itself untouched, wherever it stops.
pub proof fn lemma_run_from_keeps_systems(m: WorldModel, ctx: CtxView, ss: Seq<SystemKind>, i: int)
    ensures
        run_from(m, ctx, ss, i).m.systems == m.systems,
    decreases ss.len() - i,
{
    if 0 <= i < ss.len() {
        lemma_sys_step_keeps_systems(m, ctx, ss[i]);
        let o = sys_step(m, ctx, ss[i]);
        if o.err is None {
            lemma_run_from_keeps_systems(o.m, ctx, ss, i + 1);
        }
    }
}

/// Runs one system, appending whatever it draws to `out`.
pub fn run_system(world: &mut World, ctx: &Context, s: SystemKind, out: &mut Vec<DrawCmd>) -> (r:
    Result<(), EcsError>)
    requires
        old(world)@.wf(),
    ensures
        final(world)@.wf(),
        ({
            let o = sys_step(old(world)@, ctx@, s);
            match r {
                Ok(()) => o.err is None && final(world)@ == o.m && final(out)@ == old(out)@
                    + o.cmds,
                Err(e) => o.err == Some(e) && final(world)@ == o.m && final(out)@ == old(out)@
                    + o.cmds,
            }
        }),
{
    match s {
        SystemKind::DrawSprites => match draw_sprites(world, ctx) {
            Ok(mut cmds) => {
                out.append(&mut cmds);
                Ok(())
            },
            Err(e) => {
                proof {
                    assert(out@ =~= old(out)@ + sys_step(old(world)@, ctx@, s).cmds);
                }
                Err(e)
            },
        },
        SystemKind::DrawAttack => match draw_attack(world, ctx) {
            Ok(mut cmds) => {
                out.append(&mut cmds);
                Ok(())
            },
            Err(e) => {
                proof {
                    assert(out@ =~= old(out)@ + sys_step(old(world)@, ctx@, s).cmds);
                }
                Err(e)
            },
        },
        SystemKind::DrawHealth => match draw_health(world, ctx) {
            Ok(mut cmds) => {
                out.append(&mut cmds);
                Ok(())
            },
            Err(e) => {
                proof {
                    assert(out@ =~= old(out)@ + sys_step(old(world)@, ctx@, s).cmds);
                }
                Err(e)
            },
        },
        SystemKind::PlayerInput => {
            let r = player_input(world, ctx);
            proof {
                assert(out@ =~= old(out)@ + sys_step(old(world)@, ctx@, s).cmds);
            }
            r
        },
        SystemKind::MoveFollowers => {
            let r = move_followers(world, ctx);
            proof {
                assert(out@ =~= old(out)@ + sys_step(old(world)@, ctx@, s).cmds);
            }
            r
        },
        SystemKind::ApplyVelocities => {
            let r = apply_velocities(world, ctx);
            proof {
                assert(out@ =~= old(out)@ + sys_step(old(world)@, ctx@, s).cmds);
            }
            r
        },
        SystemKind::MovePushables => {
            let r = move_pushables(world, ctx);
            proof {
                assert(out@ =~= old(out)@ + sys_step(old(world)@, ctx@, s).cmds);
            }
            r
        },
        SystemKind::UpdateHealth => {
            let r = update_health(world, ctx);
            proof {
                assert(out@ =~= old(out)@ + sys_step(old(world)@, ctx@, s).cmds);
            }
            r
        },
        SystemKind::Decelerate => {
            let r = decelerate(world, ctx);
            proof {
                assert(out@ =~= old(out)@ + sys_step(old(world)@, ctx@, s).cmds);
            }
            r
        },
        SystemKind::RemoveDead => {
            let r = remove_dead(world, ctx);
            proof {
                assert(out@ =~= old(out)@ + sys_step(old(world)@, ctx@, s).cmds);
            }
            r
        },
    }
}

/// Registers the full schedule: render first, then input, steering,
/// movement, pushing, damage, deceleration and the death sweep, in that
/// order.
pub fn register_systems(world: &mut World)
    requires
        old(world)@.wf(),
    ensures
        final(world)@.wf(),
        final(world)@.cols == old(world)@.cols,
        final(world)@.entities == old(world)@.entities,
        final(world)@.systems == old(world)@.systems + seq![
            SystemKind::DrawSprites,
            SystemKind::DrawAttack,
            SystemKind::DrawHealth,
            SystemKind::PlayerInput,
            SystemKind::MoveFollowers,
            SystemKind::ApplyVelocities,
            SystemKind::MovePushables,
            SystemKind::UpdateHealth,
            SystemKind::Decelerate,
            SystemKind::RemoveDead,
        ],
{
    world.system(SystemKind::DrawSprites);
    world.system(SystemKind::DrawAttack);
    world.system(SystemKind::DrawHealth);
    world.system(SystemKind::PlayerInput);
    world.system(SystemKind::MoveFollowers);
    world.system(SystemKind::ApplyVelocities);
    world.system(SystemKind::MovePushables);
    world.system(SystemKind::UpdateHealth);
    world.system(SystemKind::Decelerate);
    world.system(SystemKind::RemoveDead);
    proof {
        assert(world@.systems =~= old(world)@.systems + seq![
            SystemKind::DrawSprites,
            SystemKind::DrawAttack,
            SystemKind::DrawHealth,
            SystemKind::PlayerInput,
            SystemKind::MoveFollowers,
            SystemKind::ApplyVelocities,
            SystemKind::MovePushables,
            SystemKind::UpdateHealth,
            SystemKind::Decelerate,
            SystemKind::RemoveDead,
        ]);
    }
}

} // verus!
