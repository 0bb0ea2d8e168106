//! The aim controller and the firing state machine.
//!
//! The weapon's orientation is carried as an exact direction vector rather
//! than a floating-point angle: the controller stores `pointer - subject`,
//! which encodes precisely the angle `atan2(subject.y - pointer.y,
//! subject.x - pointer.x) + pi` that the screen math uses, with no rounding.
//! A renderer that needs the angle recovers it from the vector (and applies
//! its asset's fixed quarter-turn offset) outside the core.

use vstd::prelude::*;
use crate::asset_loader::{MissingSprite, SpriteAtlas, SpriteData};
use crate::movement::{MovingObject, World, obj_at};
use crate::vec2::{
    Vec2, UNIT, coord_in_bounds, dir_in_bounds, dir_len, dir_scaled, scale_to_length,
    scaled_component,
};

verus! {

/// A shot may fire only when strictly more than this many milliseconds of
/// frame time have accumulated since the last shot.
pub const RELOAD_TIME_MS: u64 = 100;

/// Speed of a fired shot, in raw steps per millisecond — which is exactly
/// 400 world units per second.
pub const BULLET_SPEED: i64 = 400;

/// Radial distance from the subject at which the weapon is placed, in raw
/// steps: 95 world units along the aim direction.
pub const GUN_OFFSET: i64 = 95_000;

/// Fixed downward shift of the weapon's placement, in raw steps: 20 world
/// units, compensating for the visual pivot of the asset.
pub const GUN_VERTICAL_BIAS: i64 = 20_000;

/// Held-state memory of the aim controller: the direction stored the last
/// time the pointer was usable, if it ever was.
#[derive(Clone, Copy, Debug, PartialEq, Eq, Structural)]
pub struct AimState {
    pub last_dir: Option<Vec2>,
}

/// Reload bookkeeping of the firing machine: frame time accumulated since
/// the last shot, saturating only at the far end of the machine word.
#[derive(Clone, Copy, Debug, PartialEq, Eq, Structural)]
pub struct ReloadTimer {
    pub elapsed_ms: u64,
}

/// The weapon: its arena object (whose position the aim controller derives
/// each tick), its aim memory, its reload timer and its current facing.
#[derive(Clone, Copy, Debug, PartialEq, Eq, Structural)]
pub struct Gun {
    pub object: usize,
    pub aim: AimState,
    pub reload: ReloadTimer,
    pub facing: Vec2,
}

/// Cached atlas data for shots, looked up once on the first shot.
#[derive(Clone, Copy, Debug, PartialEq, Eq, Structural)]
pub struct BulletAssets {
    pub bullet_sprite: Option<SpriteData>,
}

/// The spawn request a successful shot emits: where the projectile starts,
/// its exact facing and speed, the fixed-point velocity its arena object
/// was given, and its sprite.
#[derive(Clone, Copy, Debug, PartialEq, Eq, Structural)]
pub struct BulletSpawn {
    pub object: usize,
    pub position: Vec2,
    pub facing: Vec2,
    pub speed: i64,
    pub velocity: Vec2,
    pub sprite: SpriteData,
}

/// A stored aim direction is never zero and fits the directional window.
pub open spec fn aim_wf(a: AimState) -> bool {
    a.last_dir matches Some(d) ==> dir_in_bounds(d) && !(d.x == 0 && d.y == 0)
}

/// The whole weapon state is well formed.
pub open spec fn gun_wf(g: Gun) -> bool {
    aim_wf(g.aim) && dir_in_bounds(g.facing)
}

/// The direction from the subject toward the pointer. When the two
/// coincide the angle `atan2(0, 0) + pi` of the screen math is `pi`, so the
/// weapon faces the negative x axis.
pub open spec fn aim_dir(subject: Vec2, pointer: Vec2) -> Vec2 {
    if pointer.x == subject.x && pointer.y == subject.y {
        Vec2 { x: (-UNIT) as i64, y: 0 }
    } else {
        Vec2 { x: (pointer.x - subject.x) as i64, y: (pointer.y - subject.y) as i64 }
    }
}

/// The facing the aim controller settles on: the fresh direction whenever
/// the pointer is usable; otherwise the held direction, if one exists;
/// otherwise the fresh direction computed from the pointer value the caller
/// still holds.
pub open spec fn aim_facing(a: AimState, subject: Vec2, pointer: Vec2, in_surface: bool) -> Vec2 {
    if in_surface {
        aim_dir(subject, pointer)
    } else {
        match a.last_dir {
            Some(d) => d,
            None => aim_dir(subject, pointer),
        }
    }
}

/// The aim memory after one controller step: unchanged while holding an
/// earlier direction, freshly stored otherwise.
pub open spec fn aim_after(a: AimState, subject: Vec2, pointer: Vec2, in_surface: bool) -> AimState {
    if !in_surface && a.last_dir is Some {
        a
    } else {
        AimState { last_dir: Some(aim_facing(a, subject, pointer, in_surface)) }
    }
}

/// Where the weapon is placed: at the fixed radial offset from the subject
/// along the facing, shifted down by the fixed vertical bias.
pub open spec fn gun_offset_pos(subject: Vec2, facing: Vec2) -> Vec2 {
    Vec2 {
        x: (subject.x + scaled_component(facing.x as int, GUN_OFFSET as int, dir_len(facing))) as i64,
        y: (subject.y + scaled_component(facing.y as int, GUN_OFFSET as int, dir_len(facing))
            - GUN_VERTICAL_BIAS) as i64,
    }
}

/// The position of the player's object, if the handle addresses one.
pub open spec fn player_pos(w: Seq<Option<MovingObject>>, player: Option<usize>) -> Option<Vec2> {
    match player {
        Some(h) => match obj_at(w, h as int) {
            Some(o) => Some(o.position),
            None => None,
        },
        None => None,
    }
}

/// Compute the aim direction from concrete positions.
fn compute_aim_dir(subject: Vec2, pointer: Vec2) -> (d: Vec2)
    requires
        coord_in_bounds(subject),
        coord_in_bounds(pointer),
    ensures
        d == aim_dir(subject, pointer),
        dir_in_bounds(d),
        !(d.x == 0 && d.y == 0),
{
    if pointer.x == subject.x && pointer.y == subject.y {
        Vec2 { x: -UNIT, y: 0 }
    } else {
        Vec2 { x: pointer.x - subject.x, y: pointer.y - subject.y }
    }
}

/// One step of the aim controller. Orients the weapon toward the pointer
/// (or along the held direction while the pointer is outside the input
/// surface) and places its object at the radial offset from the subject.
/// When the subject or the weapon's object is missing the step is skipped
/// and reported, for the caller to surface as a warning.
pub fn update_gun_transform(
    world: &mut World,
    gun: &mut Gun,
    player: Option<usize>,
    pointer: Vec2,
    pointer_in_surface: bool,
) -> (warned: bool)
    requires
        coord_in_bounds(pointer),
        aim_wf(old(gun).aim),
        player_pos(old(world)@, player) matches Some(s) ==> coord_in_bounds(s),
    ensures
        warned == (player_pos(old(world)@, player) is None || obj_at(
            old(world)@,
            old(gun).object as int,
        ) is None),
        warned ==> final(world)@ == old(world)@ && *final(gun) == *old(gun),
        !warned ==> ({
            let s = player_pos(old(world)@, player).unwrap();
            let f = aim_facing(old(gun).aim, s, pointer, pointer_in_surface);
            let go = obj_at(old(world)@, old(gun).object as int).unwrap();
            &&& final(gun).aim == aim_after(old(gun).aim, s, pointer, pointer_in_surface)
            &&& final(gun).facing == f
            &&& final(gun).object == old(gun).object
            &&& final(gun).reload == old(gun).reload
            &&& final(world)@ == old(world)@.update(
                old(gun).object as int,
                Some(MovingObject { position: gun_offset_pos(s, f), ..go }),
            )
        }),
        gun_wf(*final(gun)) || !gun_wf(*old(gun)),
{
    let subject = match player {
        Some(h) => match world.get(h) {
            Some(o) => o.position,
            None => {
                return true;
            },
        },
        None => {
            return true;
        },
    };
    let gun_obj = match world.get(gun.object) {
        Some(o) => o,
        None => {
            return true;
        },
    };
    let facing: Vec2 = if pointer_in_surface {
        let d = compute_aim_dir(subject, pointer);
        gun.aim = AimState { last_dir: Some(d) };
        d
    } else {
        match gun.aim.last_dir {
            Some(d) => d,
            None => {
                let d = compute_aim_dir(subject, pointer);
                gun.aim = AimState { last_dir: Some(d) };
                d
            },
        }
    };
    gun.facing = facing;
    let radial = scale_to_length(facing, GUN_OFFSET);
    let pos = Vec2 { x: subject.x + radial.x, y: subject.y + radial.y - GUN_VERTICAL_BIAS };
    world.set(gun.object, MovingObject { position: pos, ..gun_obj });
    proof {
        assert(pos == gun_offset_pos(subject, facing));
    }
    false
}

/// Saturating accumulation of frame time.
pub open spec fn sat_add(a: u64, b: u64) -> u64 {
    if a + b <= u64::MAX {
        (a + b) as u64
    } else {
        u64::MAX
    }
}

/// Accumulate one tick's frame time on the reload timer.
pub fn update_reload_timer(timer: &mut ReloadTimer, dt_ms: u64)
    ensures
        final(timer).elapsed_ms == sat_add(old(timer).elapsed_ms, dt_ms),
{
    if dt_ms <= u64::MAX - timer.elapsed_ms {
        timer.elapsed_ms = timer.elapsed_ms + dt_ms;
    } else {
        timer.elapsed_ms = u64::MAX;
    }
}

/// The firing gate: a shot may fire exactly when the trigger is held and
/// strictly more frame time than the reload threshold has accumulated.
pub open spec fn fire_gate(trigger_held: bool, elapsed_ms: u64) -> bool {
    trigger_held && elapsed_ms > RELOAD_TIME_MS
}

/// Evaluate the firing gate: the trigger first, then the timer.
pub fn ready_to_fire(trigger_held: bool, timer: &ReloadTimer) -> (r: bool)
    ensures
        r == fire_gate(trigger_held, timer.elapsed_ms),
{
    trigger_held && timer.elapsed_ms > RELOAD_TIME_MS
}

/// The name under which the shot sprite is filed in the atlas: `bullet`.
pub open spec fn bullet_sprite_name() -> Seq<u8> {
    seq![98u8, 117u8, 108u8, 108u8, 101u8, 116u8]
}

/// Build the shot sprite's name.
pub fn bullet_name_bytes() -> (r: Vec<u8>)
    ensures
        r@ == bullet_sprite_name(),
{
    let mut r: Vec<u8> = Vec::new();
    r.push(98);
    r.push(117);
    r.push(108);
    r.push(108);
    r.push(101);
    r.push(116);
    proof {
        assert(r@ =~= bullet_sprite_name());
    }
    r
}

/// The sprite a shot would use: the cached one, or the atlas entry under
/// the shot sprite's name.
pub open spec fn fire_sprite(
    cache: Option<SpriteData>,
    atlas: Map<Seq<u8>, SpriteData>,
) -> Option<SpriteData> {
    match cache {
        Some(d) => Some(d),
        None => if atlas.contains_key(bullet_sprite_name()) {
            Some(atlas[bullet_sprite_name()])
        } else {
            None
        },
    }
}

/// Look the shot sprite up, caching it after the first successful lookup
/// so later shots do not search the registry again.
pub fn bullet_sprite(bullets: &mut BulletAssets, atlas: &SpriteAtlas) -> (r: Option<SpriteData>)
    ensures
        r == fire_sprite(old(bullets).bullet_sprite, atlas@),
        final(bullets).bullet_sprite == r,
{
    match bullets.bullet_sprite {
        Some(d) => Some(d),
        None => {
            let name = bullet_name_bytes();
            let found = atlas.lookup(name.as_slice());
            bullets.bullet_sprite = found;
            found
        },
    }
}

/// Fire one shot from the weapon, spawning its projectile.
///
/// The projectile starts at the weapon's position, faces exactly along the
/// weapon's current facing, and moves at exactly [`BULLET_SPEED`] raw steps
/// per millisecond along that facing — its arena velocity is the fixed-point
/// realization of that vector — with zero acceleration. The reload timer
/// restarts from zero. A missing weapon object skips the shot silently (a
/// normal startup transient); a missing shot sprite is a fatal configuration
/// error reported by name.
pub fn shoot_bullet_from_gun(
    world: &mut World,
    gun: &mut Gun,
    bullets: &mut BulletAssets,
    atlas: &SpriteAtlas,
) -> (r: Result<Option<BulletSpawn>, MissingSprite>)
    requires
        gun_wf(*old(gun)),
    ensures
        obj_at(old(world)@, old(gun).object as int) is None ==> r == Ok::<
            Option<BulletSpawn>,
            MissingSprite,
        >(None) && final(world)@ == old(world)@ && *final(gun) == *old(gun) && *final(bullets)
            == *old(bullets),
        obj_at(old(world)@, old(gun).object as int) is Some && fire_sprite(
            old(bullets).bullet_sprite,
            atlas@,
        ) is None ==> (r matches Err(e) && e.name@ == bullet_sprite_name()) && final(world)@ == old(
            world,
        )@ && *final(gun) == *old(gun) && final(bullets).bullet_sprite == old(
            bullets,
        ).bullet_sprite,
        obj_at(old(world)@, old(gun).object as int) is Some && fire_sprite(
            old(bullets).bullet_sprite,
            atlas@,
        ) is Some ==> ({
            let go = obj_at(old(world)@, old(gun).object as int).unwrap();
            let sp = fire_sprite(old(bullets).bullet_sprite, atlas@).unwrap();
            let v = dir_scaled(old(gun).facing, BULLET_SPEED as int);
            &&& r matches Ok(Some(b))
            &&& b == (BulletSpawn {
                object: old(world)@.len() as usize,
                position: go.position,
                facing: old(gun).facing,
                speed: BULLET_SPEED,
                velocity: v,
                sprite: sp,
            })
            &&& final(world)@ == old(world)@.push(
                Some(
                    MovingObject {
                        position: go.position,
                        velocity: v,
                        acceleration: Vec2 { x: 0, y: 0 },
                    },
                ),
            )
            &&& *final(gun) == (Gun { reload: ReloadTimer { elapsed_ms: 0 }, ..*old(gun) })
            &&& final(bullets).bullet_sprite == Some(sp)
        }),
{
    let gun_obj = match world.get(gun.object) {
        Some(o) => o,
        None => {
            return Ok(None);
        },
    };
    let sprite = match bullet_sprite(bullets, atlas) {
        Some(sp) => sp,
        None => {
            return Err(MissingSprite { name: bullet_name_bytes() });
        },
    };
    gun.reload = ReloadTimer { elapsed_ms: 0 };
    let velocity = scale_to_length(gun.facing, BULLET_SPEED);
    let object = world.spawn(
        MovingObject { position: gun_obj.position, velocity, acceleration: Vec2 { x: 0, y: 0 } },
    );
    Ok(
        Some(
            BulletSpawn {
                object,
                position: gun_obj.position,
                facing: gun.facing,
                speed: BULLET_SPEED,
                velocity,
                sprite,
            },
        ),
    )
}

/// The name under which the weapon sprite is filed: `weapon_knife`.
pub open spec fn weapon_sprite_name() -> Seq<u8> {
    seq![119u8, 101u8, 97u8, 112u8, 111u8, 110u8, 95u8, 107u8, 110u8, 105u8, 102u8, 101u8]
}

/// Build the weapon sprite's name.
pub fn weapon_name_bytes() -> (r: Vec<u8>)
    ensures
        r@ == weapon_sprite_name(),
{
    let mut r: Vec<u8> = Vec::new();
    r.push(119);
    r.push(101);
    r.push(97);
    r.push(112);
    r.push(111);
    r.push(110);
    r.push(95);
    r.push(107);
    r.push(110);
    r.push(105);
    r.push(102);
    r.push(101);
    proof {
        assert(r@ =~= weapon_sprite_name());
    }
    r
}

/// The weapon as freshly spawned: no aim memory, a spent reload timer that
/// must first accumulate the threshold, and the documented default facing
/// along the positive x axis until the first controller step.
pub open spec fn initial_gun(object: usize) -> Gun {
    Gun {
        object,
        aim: AimState { last_dir: None },
        reload: ReloadTimer { elapsed_ms: 0 },
        facing: Vec2 { x: UNIT, y: 0 },
    }
}

/// Create the weapon: look its sprite up (a missing weapon sprite is a
/// fatal configuration error named in the result) and give it a fresh arena
/// object at the origin, which the aim controller will place every tick.
pub fn spawn_gun(world: &mut World, atlas: &SpriteAtlas) -> (r: Result<
    (Gun, SpriteData),
    MissingSprite,
>)
    ensures
        atlas@.contains_key(weapon_sprite_name()) ==> ({
            &&& r matches Ok(p)
            &&& p.0 == initial_gun(old(world)@.len() as usize)
            &&& gun_wf(p.0)
            &&& p.1 == atlas@[weapon_sprite_name()]
            &&& final(world)@ == old(world)@.push(
                Some(
                    MovingObject {
                        position: Vec2 { x: 0, y: 0 },
                        velocity: Vec2 { x: 0, y: 0 },
                        acceleration: Vec2 { x: 0, y: 0 },
                    },
                ),
            )
        }),
        !atlas@.contains_key(weapon_sprite_name()) ==> (r matches Err(e) && e.name@
            == weapon_sprite_name()) && final(world)@ == old(world)@,
{
    let name = weapon_name_bytes();
    let sprite = match atlas.lookup(name.as_slice()) {
        Some(sp) => sp,
        None => {
            return Err(MissingSprite { name });
        },
    };
    let zero = Vec2 { x: 0, y: 0 };
    let object = world.spawn(
        MovingObject { position: zero, velocity: zero, acceleration: zero },
    );
    Ok(
        (
            Gun {
                object,
                aim: AimState { last_dir: None },
                reload: ReloadTimer { elapsed_ms: 0 },
                facing: Vec2 { x: UNIT, y: 0 },
            },
            sprite,
        ),
    )
}

/// With the pointer within the input surface, the controller faces the
/// weapon along exactly the vector from the subject to the pointer — the
/// direction whose angle is precisely `atan2(subject.y - pointer.y,
/// subject.x - pointer.x) + pi` — and stores that direction as the held
/// angle, whatever was held before.
pub proof fn lemma_tracking_stores_pointer_direction(a: AimState, s: Vec2, p: Vec2)
    ensures
        aim_facing(a, s, p, true) == aim_dir(s, p),
        aim_after(a, s, p, true) == (AimState { last_dir: Some(aim_dir(s, p)) }),
        !(p.x == s.x && p.y == s.y) ==> aim_dir(s, p) == (Vec2 {
            x: (p.x - s.x) as i64,
            y: (p.y - s.y) as i64,
        }),
{
}

/// While the pointer stays outside the input surface, the controller keeps
/// the held direction: however the subject and the pointer then move, the
/// facing stays the direction stored when the pointer was last usable, the
/// memory is untouched, and the weapon's placement is computed from that
/// held direction and the subject alone — until the pointer re-enters the
/// surface.
pub proof fn lemma_held_angle_persists(a: AimState, d: Vec2, s1: Vec2, p1: Vec2, s2: Vec2, p2: Vec2)
    requires
        a.last_dir == Some(d),
    ensures
        aim_facing(a, s1, p1, false) == d,
        aim_after(a, s1, p1, false) == a,
        aim_facing(aim_after(a, s1, p1, false), s2, p2, false) == d,
        aim_after(aim_after(a, s1, p1, false), s2, p2, false) == a,
{
}

/// Frame time a run of ticks accumulates on a freshly reset reload timer.
pub open spec fn elapsed_after(dts: Seq<u64>) -> u64
    decreases dts.len(),
{
    if dts.len() == 0 {
        0
    } else {
        sat_add(elapsed_after(dts.drop_last()), dts.last())
    }
}

/// The mathematical sum of a run of frame times.
pub open spec fn total_time(dts: Seq<u64>) -> int
    decreases dts.len(),
{
    if dts.len() == 0 {
        0
    } else {
        total_time(dts.drop_last()) + dts.last()
    }
}

/// The accumulated timer never exceeds the mathematical sum.
proof fn lemma_elapsed_le_total(dts: Seq<u64>)
    ensures
        elapsed_after(dts) <= total_time(dts),
    decreases dts.len(),
{
    if dts.len() > 0 {
        lemma_elapsed_le_total(dts.drop_last());
    }
}

/// The accumulated timer reaches the sum wherever the sum fits the word.
proof fn lemma_elapsed_ge_total(dts: Seq<u64>)
    ensures
        total_time(dts) <= u64::MAX ==> elapsed_after(dts) == total_time(dts),
        total_time(dts) > u64::MAX ==> elapsed_after(dts) == u64::MAX,
    decreases dts.len(),
{
    if dts.len() > 0 {
        lemma_elapsed_ge_total(dts.drop_last());
    }
}

/// After a shot resets the reload timer, no second shot can fire within any
/// run of ticks whose frame time sums to at most the reload threshold —
/// whatever the trigger does meanwhile, a release and re-press included.
pub proof fn lemma_no_shot_within_reload(dts: Seq<u64>, trigger_held: bool)
    requires
        total_time(dts) <= RELOAD_TIME_MS as int,
    ensures
        !fire_gate(trigger_held, elapsed_after(dts)),
{
    lemma_elapsed_le_total(dts);
}

/// Once a run of ticks has accumulated strictly more than the reload
/// threshold, a tick that still finds the trigger held fires its shot.
pub proof fn lemma_shot_when_armed(dts: Seq<u64>)
    requires
        total_time(dts) > RELOAD_TIME_MS as int,
    ensures
        fire_gate(true, elapsed_after(dts)),
{
    lemma_elapsed_ge_total(dts);
}

} // verus!
