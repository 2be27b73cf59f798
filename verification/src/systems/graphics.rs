//! The render systems.  Each one reads columns and reports what to draw as
//! [`DrawCmd`] values; the embedding program turns those into actual drawing
//! calls.  The world itself is never changed by a render system.

use vstd::prelude::*;

verus! {

use crate::components::{CompVal, Health, Kind, Player, Pos, Spr};
use crate::context::{Context, CtxView, DrawCmd};
use crate::ecs::{EcsError, World, WorldModel};
use crate::systems::{sys_fail, sys_ok, SysOut};

/// The tile commands for the sprites of rows `0..i`: one tile per row with
/// both a position and a sprite.
pub open spec fn ds_cmds(pos: Seq<Option<CompVal>>, spr: Seq<Option<CompVal>>, i: int) -> Seq<
    DrawCmd,
>
    decreases i,
{
    if i <= 0 {
        Seq::empty()
    } else {
        ds_cmds(pos, spr, i - 1) + (match (pos[i - 1], spr[i - 1]) {
            (Some(CompVal::Pos(pp)), Some(CompVal::Spr(ss))) => seq![
                DrawCmd::Tile { id: ss.0, x: pp.x, y: pp.y },
            ],
            _ => Seq::empty(),
        })
    }
}

/// The effect of [`draw_sprites`] on a world model: no change, one tile per
/// visible sprite.
pub open spec fn draw_sprites_step(m: WorldModel, ctx: CtxView) -> SysOut {
    if !m.can_read(Kind::Pos) {
        sys_fail(m, m.acquire_err(Kind::Pos))
    } else if !m.can_read(Kind::Spr) {
        sys_fail(m, m.acquire_err(Kind::Spr))
    } else {
        sys_ok(m, ds_cmds(m.col(Kind::Pos), m.col(Kind::Spr), m.col(Kind::Pos).len() as int))
    }
}

/// Reports one tile per entity that has both a position and a sprite, in
/// entity order.
pub fn draw_sprites(world: &mut World, _ctx: &Context) -> (r: Result<Vec<DrawCmd>, EcsError>)
    requires
        old(world)@.wf(),
    ensures
        final(world)@.wf(),
        ({
            let o = draw_sprites_step(old(world)@, _ctx@);
            match r {
                Ok(cmds) => o.err is None && final(world)@ == o.m && cmds@ == o.cmds,
                Err(e) => o.err == Some(e) && final(world)@ == o.m,
            }
        }),
{
    let pos = match world.get::<Pos>() {
        Ok(h) => h,
        Err(e) => {
            return Err(e);
        },
    };
    let spr = match world.get::<Spr>() {
        Ok(h) => h,
        Err(e) => {
            world.release(pos);
            proof {
                assert(world@ =~~= old(world)@);
            }
            return Err(e);
        },
    };
    let n = pos.len();
    let mut cmds: Vec<DrawCmd> = Vec::new();
    let mut i: usize = 0;
    while i < n
        invariant
            n == pos@.len(),
            spr@.len() == n,
            i <= n,
            cmds@ == ds_cmds(pos@, spr@, i as int),
        decreases n - i,
    {
        match (pos.read(i), spr.read(i)) {
            (Some(CompVal::Pos(pp)), Some(CompVal::Spr(ss))) => {
                cmds.push(DrawCmd::Tile { id: ss.0, x: pp.x, y: pp.y });
            },
            _ => {},
        }
        proof {
            assert(cmds@ =~= ds_cmds(pos@, spr@, i + 1 as int));
        }
        i += 1;
    }
    world.release(spr);
    world.release(pos);
    proof {
        assert(world@ =~~= old(world)@);
    }
    Ok(cmds)
}

/// The attack-circle commands for rows `0..i`: one circle per row whose
/// player marker is attacking and has a position.
pub open spec fn da_cmds(pos: Seq<Option<CompVal>>, player: Seq<Option<CompVal>>, i: int) -> Seq<
    DrawCmd,
>
    decreases i,
{
    if i <= 0 {
        Seq::empty()
    } else {
        da_cmds(pos, player, i - 1) + (match (pos[i - 1], player[i - 1]) {
            (Some(CompVal::Pos(pp)), Some(CompVal::Player(pl))) => if pl.attack {
                seq![DrawCmd::AttackCircle { x: pp.x, y: pp.y }]
            } else {
                Seq::empty()
            },
            _ => Seq::empty(),
        })
    }
}

/// The effect of [`draw_attack`] on a world model.
pub open spec fn draw_attack_step(m: WorldModel, ctx: CtxView) -> SysOut {
    if !m.can_read(Kind::Pos) {
        sys_fail(m, m.acquire_err(Kind::Pos))
    } else if !m.can_read(Kind::Player) {
        sys_fail(m, m.acquire_err(Kind::Player))
    } else {
        sys_ok(m, da_cmds(m.col(Kind::Pos), m.col(Kind::Player), m.col(Kind::Pos).len() as int))
    }
}

/// Reports an attack circle around every attacking player entity.
pub fn draw_attack(world: &mut World, _ctx: &Context) -> (r: Result<Vec<DrawCmd>, EcsError>)
    requires
        old(world)@.wf(),
    ensures
        final(world)@.wf(),
        ({
            let o = draw_attack_step(old(world)@, _ctx@);
            match r {
                Ok(cmds) => o.err is None && final(world)@ == o.m && cmds@ == o.cmds,
                Err(e) => o.err == Some(e) && final(world)@ == o.m,
            }
        }),
{
    let pos = match world.get::<Pos>() {
        Ok(h) => h,
        Err(e) => {
            return Err(e);
        },
    };
    let player = match world.get::<Player>() {
        Ok(h) => h,
        Err(e) => {
            world.release(pos);
            proof {
                assert(world@ =~~= old(world)@);
            }
            return Err(e);
        },
    };
    let n = pos.len();
    let mut cmds: Vec<DrawCmd> = Vec::new();
    let mut i: usize = 0;
    while i < n
        invariant
            n == pos@.len(),
            player@.len() == n,
            i <= n,
            cmds@ == da_cmds(pos@, player@, i as int),
        decreases n - i,
    {
        match (pos.read(i), player.read(i)) {
            (Some(CompVal::Pos(pp)), Some(CompVal::Player(pl))) => {
                if pl.attack {
                    cmds.push(DrawCmd::AttackCircle { x: pp.x, y: pp.y });
                }
            },
            _ => {},
        }
        proof {
            assert(cmds@ =~= da_cmds(pos@, player@, i + 1 as int));
        }
        i += 1;
    }
    world.release(player);
    world.release(pos);
    proof {
        assert(world@ =~~= old(world)@);
    }
    Ok(cmds)
}

/// The five heart tiles of the health bar for a health value `h`: full
/// hearts up to `h`, empty ones after, laid out along the top edge.
pub open spec fn dh_row(h: int) -> Seq<DrawCmd> {
    seq![
        DrawCmd::Tile {
            id: if h > 0 {
                238
            } else {
                239
            },
            x: 0,
            y: 0,
        },
        DrawCmd::Tile {
            id: if h > 1 {
                238
            } else {
                239
            },
            x: 14,
            y: 0,
        },
        DrawCmd::Tile {
            id: if h > 2 {
                238
            } else {
                239
            },
            x: 28,
            y: 0,
        },
        DrawCmd::Tile {
            id: if h > 3 {
                238
            } else {
                239
            },
            x: 42,
            y: 0,
        },
        DrawCmd::Tile {
            id: if h > 4 {
                238
            } else {
                239
            },
            x: 56,
            y: 0,
        },
    ]
}

/// The health-bar commands for rows `0..i`: five heart tiles per row that
/// has both a player marker and health.
pub open spec fn dh_cmds(player: Seq<Option<CompVal>>, health: Seq<Option<CompVal>>, i: int) -> Seq<
    DrawCmd,
>
    decreases i,
{
    if i <= 0 {
        Seq::empty()
    } else {
        dh_cmds(player, health, i - 1) + (match (player[i - 1], health[i - 1]) {
            (Some(CompVal::Player(_)), Some(CompVal::Health(hh))) => dh_row(hh.0 as int),
            _ => Seq::empty(),
        })
    }
}

/// The effect of [`draw_health`] on a world model.
pub open spec fn draw_health_step(m: WorldModel, ctx: CtxView) -> SysOut {
    if !m.can_read(Kind::Player) {
        sys_fail(m, m.acquire_err(Kind::Player))
    } else if !m.can_read(Kind::Health) {
        sys_fail(m, m.acquire_err(Kind::Health))
    } else {
        sys_ok(
            m,
            dh_cmds(m.col(Kind::Player), m.col(Kind::Health), m.col(Kind::Player).len() as int),
        )
    }
}

/// Reports the player's health bar: five heart tiles, full up to the
/// current health.
pub fn draw_health(world: &mut World, _ctx: &Context) -> (r: Result<Vec<DrawCmd>, EcsError>)
    requires
        old(world)@.wf(),
    ensures
        final(world)@.wf(),
        ({
            let o = draw_health_step(old(world)@, _ctx@);
            match r {
                Ok(cmds) => o.err is None && final(world)@ == o.m && cmds@ == o.cmds,
                Err(e) => o.err == Some(e) && final(world)@ == o.m,
            }
        }),
{
    let player = match world.get::<Player>() {
        Ok(h) => h,
        Err(e) => {
            return Err(e);
        },
    };
    let health = match world.get::<Health>() {
        Ok(h) => h,
        Err(e) => {
            world.release(player);
            proof {
                assert(world@ =~~= old(world)@);
            }
            return Err(e);
        },
    };
    let n = player.len();
    let mut cmds: Vec<DrawCmd> = Vec::new();
    let mut i: usize = 0;
    while i < n
        invariant
            n == player@.len(),
            health@.len() == n,
            i <= n,
            cmds@ == dh_cmds(player@, health@, i as int),
        decreases n - i,
    {
        match (player.read(i), health.read(i)) {
            (Some(CompVal::Player(_)), Some(CompVal::Health(hh))) => {
                let h = hh.0;
                cmds.push(DrawCmd::Tile {
                    id: if h > 0 {
                        238
                    } else {
                        239
                    },
                    x: 0,
                    y: 0,
                });
                cmds.push(DrawCmd::Tile {
                    id: if h > 1 {
                        238
                    } else {
                        239
                    },
                    x: 14,
                    y: 0,
                });
                cmds.push(DrawCmd::Tile {
                    id: if h > 2 {
                        238
                    } else {
                        239
                    },
                    x: 28,
                    y: 0,
                });
                cmds.push(DrawCmd::Tile {
                    id: if h > 3 {
                        238
                    } else {
                        239
                    },
                    x: 42,
                    y: 0,
                });
                cmds.push(DrawCmd::Tile {
                    id: if h > 4 {
                        238
                    } else {
                        239
                    },
                    x: 56,
                    y: 0,
                });
            },
            _ => {},
        }
        proof {
            assert(cmds@ =~= dh_cmds(player@, health@, i + 1 as int));
        }
        i += 1;
    }
    world.release(health);
    world.release(player);
    proof {
        assert(world@ =~~= old(world)@);
    }
    Ok(cmds)
}

} // verus!
