//! The simulation: world, player, weapon, and the per-tick step.
//!
//! One tick runs the components in a fixed order — player movement from the
//! sampled keys, then the aim controller, then the firing machine, then the
//! kinematic integrator over every object — exactly the order the per-frame
//! schedule prescribes, so a shot launches along the weapon's facing as
//! updated this very tick.

use vstd::prelude::*;
use crate::asset_loader::{MissingSprite, SpriteAtlas, SpriteData};
use crate::gun::{
    BulletAssets, BulletSpawn, Gun, ReloadTimer, aim_after, aim_facing, bullet_sprite_name,
    fire_gate, fire_sprite, gun_offset_pos, gun_wf, initial_gun, player_pos, ready_to_fire,
    sat_add, shoot_bullet_from_gun, spawn_gun, update_gun_transform, update_reload_timer,
    BULLET_SPEED, GUN_OFFSET,
};
use crate::movement::{
    MovingObject, World, integrated_world, lemma_world_sane_step_ok, obj_at, obj_sane, world_sane,
    MAX_DT_MS,
};
use crate::player::{handle_player_movement, movement_velocity, spawn_player, MOVEMENT_SPEED};
use crate::vec2::{Vec2, coord_in_bounds, dir_in_bounds, dir_scaled, lemma_dir_scaled_bounds};

verus! {

/// The input the surrounding layer samples once per tick: elapsed frame
/// time, the held movement keys, the pointer's world position together with
/// whether it is within the input surface, and the fire trigger.
#[derive(Clone, Copy, Debug, PartialEq, Eq, Structural)]
pub struct TickInput {
    pub dt_ms: u64,
    pub up: bool,
    pub down: bool,
    pub left: bool,
    pub right: bool,
    pub pointer: Vec2,
    pub pointer_in_surface: bool,
    pub trigger_held: bool,
}

impl Default for TickInput {
    /// The snapshot before any input was sampled: no time elapsed, nothing
    /// held, and the pointer at the best-effort default world point
    /// `(100, 100)` units, not within the input surface.
    fn default() -> (r: TickInput)
        ensures
            r.dt_ms == 0,
            !r.up && !r.down && !r.left && !r.right,
            r.pointer == (Vec2 { x: 100_000, y: 100_000 }),
            !r.pointer_in_surface,
            !r.trigger_held,
    {
        TickInput {
            dt_ms: 0,
            up: false,
            down: false,
            left: false,
            right: false,
            pointer: Vec2 { x: 100_000, y: 100_000 },
            pointer_in_surface: false,
            trigger_held: false,
        }
    }
}

/// What one tick hands back: the transient-absence warnings the aim and
/// movement steps surfaced, and the spawn request of the shot, if one fired.
#[derive(Clone, Copy, Debug, PartialEq, Eq, Structural)]
pub struct TickReport {
    pub movement_warning: bool,
    pub aim_warning: bool,
    pub shot: Option<BulletSpawn>,
}

/// The whole simulation state.
pub struct Game {
    pub world: World,
    pub player: Option<usize>,
    pub gun: Option<Gun>,
    pub bullet_assets: BulletAssets,
}

/// The mathematical picture of a game state.
pub struct GameModel {
    pub world: Seq<Option<MovingObject>>,
    pub player: Option<usize>,
    pub gun: Option<Gun>,
    pub bullet_cache: Option<SpriteData>,
}

impl View for Game {
    type V = GameModel;

    open spec fn view(&self) -> GameModel {
        GameModel {
            world: self.world@,
            player: self.player,
            gun: self.gun,
            bullet_cache: self.bullet_assets.bullet_sprite,
        }
    }
}

/// The weapon state, wherever there is one, is well formed.
pub open spec fn game_wf(m: GameModel) -> bool {
    m.gun matches Some(g) ==> gun_wf(g)
}

/// The movement step: the player's velocity follows the held keys; a
/// missing player skips the step with a warning.
pub open spec fn movement_stage(m: GameModel, input: TickInput) -> (GameModel, bool) {
    if player_pos(m.world, m.player) is None {
        (m, true)
    } else {
        (
            GameModel {
                world: m.world.update(
                    m.player.unwrap() as int,
                    Some(
                        MovingObject {
                            velocity: movement_velocity(input.up, input.down, input.left, input.right),
                            ..obj_at(m.world, m.player.unwrap() as int).unwrap()
                        },
                    ),
                ),
                ..m
            },
            false,
        )
    }
}

/// The aim step: the weapon turns toward the pointer (or holds its stored
/// direction) and is placed at the radial offset from the subject; a
/// missing subject or weapon skips the step with a warning.
pub open spec fn aim_stage(m: GameModel, input: TickInput) -> (GameModel, bool) {
    match m.gun {
        None => (m, true),
        Some(g) => {
            if player_pos(m.world, m.player) is None || obj_at(m.world, g.object as int) is None {
                (m, true)
            } else {
                let s = player_pos(m.world, m.player).unwrap();
                let f = aim_facing(g.aim, s, input.pointer, input.pointer_in_surface);
                let go = obj_at(m.world, g.object as int).unwrap();
                (
                    GameModel {
                        world: m.world.update(
                            g.object as int,
                            Some(MovingObject { position: gun_offset_pos(s, f), ..go }),
                        ),
                        gun: Some(
                            Gun {
                                aim: aim_after(g.aim, s, input.pointer, input.pointer_in_surface),
                                facing: f,
                                ..g
                            },
                        ),
                        ..m
                    },
                    false,
                )
            }
        },
    }
}

/// The reload step: the weapon's timer accumulates this tick's frame time.
pub open spec fn reload_stage(m: GameModel, dt_ms: u64) -> GameModel {
    match m.gun {
        Some(g) => GameModel {
            gun: Some(
                Gun { reload: ReloadTimer { elapsed_ms: sat_add(g.reload.elapsed_ms, dt_ms) }, ..g },
            ),
            ..m
        },
        None => m,
    }
}

/// Whether the firing gate opens this tick: a weapon exists, the trigger is
/// held, and its timer is strictly past the reload threshold.
pub open spec fn gate_open(m: GameModel, trigger_held: bool) -> bool {
    m.gun matches Some(g) && fire_gate(trigger_held, g.reload.elapsed_ms)
}

/// The firing step: with the trigger held, the timer strictly past the
/// reload threshold and the weapon's object alive,
/// a projectile spawns at the weapon along its facing and the timer resets;
/// a missing weapon object skips the shot silently; a missing shot sprite
/// is fatal and is reported by name.
pub open spec fn fire_stage(m: GameModel, atlas: Map<Seq<u8>, SpriteData>, trigger_held: bool) -> (
    GameModel,
    Option<BulletSpawn>,
    Option<Seq<u8>>,
) {
    if !gate_open(m, trigger_held) {
        (m, None, None)
    } else {
        let g = m.gun.unwrap();
        if obj_at(m.world, g.object as int) is None {
            (m, None, None)
        } else {
            let go = obj_at(m.world, g.object as int).unwrap();
            match fire_sprite(m.bullet_cache, atlas) {
                None => (m, None, Some(bullet_sprite_name())),
                Some(sp) => {
                    let v = dir_scaled(g.facing, BULLET_SPEED as int);
                    let b = BulletSpawn {
                        object: m.world.len() as usize,
                        position: go.position,
                        facing: g.facing,
                        speed: BULLET_SPEED,
                        velocity: v,
                        sprite: sp,
                    };
                    (
                        GameModel {
                            world: m.world.push(
                                Some(
                                    MovingObject {
                                        position: go.position,
                                        velocity: v,
                                        acceleration: Vec2 { x: 0, y: 0 },
                                    },
                                ),
                            ),
                            gun: Some(Gun { reload: ReloadTimer { elapsed_ms: 0 }, ..g }),
                            bullet_cache: Some(sp),
                            ..m
                        },
                        Some(b),
                        None,
                    )
                },
            }
        }
    }
}

/// One whole tick over the model: movement, aim, reload, firing, then the
/// two-pass integration — unless the firing step failed fatally, in which
/// case the integration does not run and the missing name is reported.
pub open spec fn tick_model(m: GameModel, atlas: Map<Seq<u8>, SpriteData>, input: TickInput) -> (
    GameModel,
    TickReport,
    Option<Seq<u8>>,
) {
    let s1 = movement_stage(m, input);
    let s2 = aim_stage(s1.0, input);
    let m3 = reload_stage(s2.0, input.dt_ms);
    let s4 = fire_stage(m3, atlas, input.trigger_held);
    let report = TickReport { movement_warning: s1.1, aim_warning: s2.1, shot: s4.1 };
    if s4.2 is Some {
        (s4.0, report, s4.2)
    } else {
        (GameModel { world: integrated_world(s4.0.world, input.dt_ms as int), ..s4.0 }, report, None)
    }
}

impl Game {
    /// A fresh simulation: an empty world, nothing spawned, nothing cached.
    pub fn new() -> (r: Game)
        ensures
            r@.world == Seq::<Option<MovingObject>>::empty(),
            r@.player is None,
            r@.gun is None,
            r@.bullet_cache is None,
    {
        Game {
            world: World::new(),
            player: None,
            gun: None,
            bullet_assets: BulletAssets { bullet_sprite: None },
        }
    }

    /// Create the player from the registry and remember its handle; a
    /// missing player sprite is fatal at startup.
    pub fn spawn_player(&mut self, atlas: &SpriteAtlas) -> (r: Result<SpriteData, MissingSprite>)
        ensures
            atlas@.contains_key(crate::player::player_sprite_name()) ==> ({
                &&& r matches Ok(sp) && sp == atlas@[crate::player::player_sprite_name()]
                &&& final(self)@.player == Some(old(self)@.world.len() as usize)
                &&& final(self)@.world == old(self)@.world.push(
                    Some(
                        MovingObject {
                            position: Vec2 { x: 0, y: 0 },
                            velocity: Vec2 { x: 0, y: 0 },
                            acceleration: Vec2 { x: 0, y: 0 },
                        },
                    ),
                )
                &&& final(self)@.gun == old(self)@.gun
                &&& final(self)@.bullet_cache == old(self)@.bullet_cache
            }),
            !atlas@.contains_key(crate::player::player_sprite_name()) ==> (r matches Err(e)
                && e.name@ == crate::player::player_sprite_name()) && final(self)@ == old(self)@,
    {
        match spawn_player(&mut self.world, atlas) {
            Ok((h, sp)) => {
                self.player = Some(h);
                Ok(sp)
            },
            Err(e) => Err(e),
        }
    }

    /// Create the weapon from the registry and remember it; a missing
    /// weapon sprite is fatal at startup.
    pub fn spawn_gun(&mut self, atlas: &SpriteAtlas) -> (r: Result<SpriteData, MissingSprite>)
        ensures
            atlas@.contains_key(crate::gun::weapon_sprite_name()) ==> ({
                &&& r matches Ok(sp) && sp == atlas@[crate::gun::weapon_sprite_name()]
                &&& final(self)@.gun == Some(initial_gun(old(self)@.world.len() as usize))
                &&& final(self)@.world == old(self)@.world.push(
                    Some(
                        MovingObject {
                            position: Vec2 { x: 0, y: 0 },
                            velocity: Vec2 { x: 0, y: 0 },
                            acceleration: Vec2 { x: 0, y: 0 },
                        },
                    ),
                )
                &&& final(self)@.player == old(self)@.player
                &&& final(self)@.bullet_cache == old(self)@.bullet_cache
                &&& game_wf(final(self)@)
            }),
            !atlas@.contains_key(crate::gun::weapon_sprite_name()) ==> (r matches Err(e) && e.name@
                == crate::gun::weapon_sprite_name()) && final(self)@ == old(self)@,
    {
        match spawn_gun(&mut self.world, atlas) {
            Ok((g, sp)) => {
                self.gun = Some(g);
                Ok(sp)
            },
            Err(e) => Err(e),
        }
    }

    /// Run one simulated tick: player movement, aim, firing, integration,
    /// in that fixed order. Returns the tick's report, or the name of the
    /// missing shot sprite on a fatal configuration error.
    pub fn tick(&mut self, atlas: &SpriteAtlas, input: &TickInput) -> (r: Result<
        TickReport,
        MissingSprite,
    >)
        requires
            input.dt_ms <= MAX_DT_MS,
            coord_in_bounds(input.pointer),
            game_wf(old(self)@),
            world_sane(old(self)@.world),
            player_pos(old(self)@.world, old(self)@.player) matches Some(s) ==> coord_in_bounds(s),
        ensures
            ({
                let t = tick_model(old(self)@, atlas@, *input);
                match t.2 {
                    None => r matches Ok(rep) && rep == t.1 && final(self)@ == t.0,
                    Some(nm) => (r matches Err(e) && e.name@ == nm) && final(self)@ == t.0,
                }
            }),
            game_wf(final(self)@),
    {
        let ghost m0 = self@;
        let ghost t = tick_model(m0, atlas@, *input);

        // Movement.
        let movement_warning = handle_player_movement(
            &mut self.world,
            self.player,
            input.up,
            input.down,
            input.left,
            input.right,
        );
        let ghost m1 = movement_stage(m0, *input).0;
        proof {
            assert(self@ == m1);
            assert(player_pos(m1.world, m1.player) == player_pos(m0.world, m0.player));
        }

        // Aim.
        let aim_warning = match self.gun {
            Some(g) => {
                let mut g2 = g;
                let w = update_gun_transform(
                    &mut self.world,
                    &mut g2,
                    self.player,
                    input.pointer,
                    input.pointer_in_surface,
                );
                self.gun = Some(g2);
                w
            },
            None => true,
        };
        let ghost m2 = aim_stage(m1, *input).0;
        proof {
            assert(self@ == m2);
        }

        // Reload, then the firing gate.
        let mut shot: Option<BulletSpawn> = None;
        match self.gun {
            Some(g) => {
                let mut g2 = g;
                update_reload_timer(&mut g2.reload, input.dt_ms);
                self.gun = Some(g2);
                let ghost m3 = reload_stage(m2, input.dt_ms);
                proof {
                    assert(self@ == m3);
                }
                if ready_to_fire(input.trigger_held, &g2.reload) {
                    let mut g3 = g2;
                    match shoot_bullet_from_gun(
                        &mut self.world,
                        &mut g3,
                        &mut self.bullet_assets,
                        atlas,
                    ) {
                        Ok(s) => {
                            self.gun = Some(g3);
                            shot = s;
                            proof {
                                assert(self@ == fire_stage(m3, atlas@, input.trigger_held).0);
                            }
                        },
                        Err(e) => {
                            self.gun = Some(g3);
                            proof {
                                assert(self@ == t.0);
                            }
                            return Err(e);
                        },
                    }
                }
            },
            None => {},
        }
        let ghost m3 = reload_stage(m2, input.dt_ms);
        let ghost s4 = fire_stage(m3, atlas@, input.trigger_held);
        proof {
            assert(self@ == s4.0);
            assert(shot == s4.1);
            assert(s4.2 is None);
        }

        // Integration: a sane staged world cannot leave the machine's range.
        proof {
            lemma_staged_world_sane(m0, atlas@, *input);
            lemma_world_sane_step_ok(s4.0.world, input.dt_ms as int);
        }
        self.world.integrate(input.dt_ms);
        proof {
            assert(self@ == t.0);
        }
        Ok(TickReport { movement_warning, aim_warning, shot })
    }
}

/// Every shot a tick emits moves at exactly the bullet speed along exactly
/// the weapon's facing as the aim step of that same tick set it — never a
/// stale facing — and its arena object starts with the fixed-point
/// realization of that velocity at the weapon's position.
pub proof fn lemma_shot_speed_and_direction(
    m: GameModel,
    atlas: Map<Seq<u8>, SpriteData>,
    input: TickInput,
)
    requires
        tick_model(m, atlas, input).1.shot is Some,
    ensures
        ({
            let b = tick_model(m, atlas, input).1.shot.unwrap();
            let staged = aim_stage(movement_stage(m, input).0, input).0;
            &&& b.speed == BULLET_SPEED
            &&& staged.gun is Some
            &&& b.facing == staged.gun.unwrap().facing
            &&& b.velocity == dir_scaled(b.facing, BULLET_SPEED as int)
        }),
{
}

/// The staged world — after movement, aim, reload and firing, before the
/// integration — is still sane: the movement step writes a velocity far
/// below the sane speed, the aim step places the weapon near the bounded
/// subject, and a fired projectile starts at the weapon with the fixed
/// bullet speed.
proof fn lemma_staged_world_sane(m0: GameModel, atlas: Map<Seq<u8>, SpriteData>, input: TickInput)
    requires
        game_wf(m0),
        world_sane(m0.world),
        coord_in_bounds(input.pointer),
        player_pos(m0.world, m0.player) matches Some(s) ==> coord_in_bounds(s),
    ensures
        world_sane(fire_stage(reload_stage(aim_stage(movement_stage(m0, input).0, input).0, input.dt_ms), atlas, input.trigger_held).0.world),
{
    let m1 = movement_stage(m0, input).0;
    assert(world_sane(m1.world)) by {
        if player_pos(m0.world, m0.player) is Some {
            let h = m0.player.unwrap() as int;
            let o = obj_at(m0.world, h).unwrap();
            lemma_dir_scaled_bounds(
                crate::player::key_dir(input.up, input.down, input.left, input.right),
                MOVEMENT_SPEED as int,
            );
            assert(obj_sane(
                MovingObject {
                    velocity: movement_velocity(input.up, input.down, input.left, input.right),
                    ..o
                },
            ));
            assert forall|j: int|
                0 <= j < m1.world.len() ==> (#[trigger] m1.world[j]) is Some ==> obj_sane(
                    m1.world[j].unwrap(),
                ) by {}
        }
    }
    let m2 = aim_stage(m1, input).0;
    assert(world_sane(m2.world)) by {
        if m1.gun is Some {
            let g = m1.gun.unwrap();
            if player_pos(m1.world, m1.player) is Some && obj_at(m1.world, g.object as int)
                is Some {
                let s = player_pos(m1.world, m1.player).unwrap();
                let f = aim_facing(g.aim, s, input.pointer, input.pointer_in_surface);
                let go = obj_at(m1.world, g.object as int).unwrap();
                assert(dir_in_bounds(f));
                lemma_dir_scaled_bounds(f, GUN_OFFSET as int);
                assert(coord_in_bounds(s));
                assert(obj_sane(MovingObject { position: gun_offset_pos(s, f), ..go }));
                assert forall|j: int|
                    0 <= j < m2.world.len() ==> (#[trigger] m2.world[j]) is Some ==> obj_sane(
                        m2.world[j].unwrap(),
                    ) by {}
            }
        }
    }
    let m3 = reload_stage(m2, input.dt_ms);
    assert(m3.world == m2.world);
    let m4 = fire_stage(m3, atlas, input.trigger_held).0;
    assert(world_sane(m4.world)) by {
        if gate_open(m3, input.trigger_held) {
            let g = m3.gun.unwrap();
            if obj_at(m3.world, g.object as int) is Some && fire_sprite(m3.bullet_cache, atlas)
                is Some {
                let go = obj_at(m3.world, g.object as int).unwrap();
                let v = dir_scaled(g.facing, BULLET_SPEED as int);
                assert(dir_in_bounds(g.facing));
                lemma_dir_scaled_bounds(g.facing, BULLET_SPEED as int);
                assert(obj_sane(
                    MovingObject {
                        position: go.position,
                        velocity: v,
                        acceleration: Vec2 { x: 0, y: 0 },
                    },
                ));
                assert forall|j: int|
                    0 <= j < m4.world.len() ==> (#[trigger] m4.world[j]) is Some ==> obj_sane(
                        m4.world[j].unwrap(),
                    ) by {}
            }
        }
    }
}

} // verus!
