//! Moving objects and the kinematic integrator.
//!
//! Every simulated entity lives in a [`World`]: an arena of moving objects
//! addressed by stable handles. Once per tick the integrator advances every
//! object in two ordered passes — all velocities first, then all positions —
//! so each object's position step uses its own velocity as already updated
//! for the same tick.

use vstd::prelude::*;
use crate::vec2::Vec2;

verus! {

/// Longest frame time, in milliseconds, that one tick accepts. A whole
/// minute is far beyond any real frame and keeps every product of the
/// integration inside a machine word.
pub const MAX_DT_MS: u64 = 60_000;

/// A simulated entity: a position, a velocity and an acceleration, all in
/// raw fixed-point steps, velocities per millisecond of frame time.
#[derive(Clone, Copy, Debug, PartialEq, Eq, Structural)]
pub struct MovingObject {
    pub position: Vec2,
    pub velocity: Vec2,
    pub acceleration: Vec2,
}

/// The arena of moving objects. A handle stays valid until its object is
/// despawned and is never reused afterward, so existence is a plain check.
pub struct World {
    objects: Vec<Option<MovingObject>>,
}

impl View for World {
    type V = Seq<Option<MovingObject>>;

    closed spec fn view(&self) -> Seq<Option<MovingObject>> {
        self.objects@
    }
}

/// The object a handle addresses, if the handle is in range and alive.
pub open spec fn obj_at(w: Seq<Option<MovingObject>>, h: int) -> Option<MovingObject> {
    if 0 <= h < w.len() {
        w[h]
    } else {
        None
    }
}

/// One velocity step of the integrator does not overflow for this object.
pub open spec fn vel_step_ok(o: MovingObject, dt: int) -> bool {
    &&& i64::MIN <= o.velocity.x + o.acceleration.x * dt <= i64::MAX
    &&& i64::MIN <= o.velocity.y + o.acceleration.y * dt <= i64::MAX
}

/// One position step of the integrator, applied after the velocity step,
/// does not overflow for this object.
pub open spec fn pos_step_ok(o: MovingObject, dt: int) -> bool {
    &&& i64::MIN <= o.position.x + (o.velocity.x + o.acceleration.x * dt) * dt <= i64::MAX
    &&& i64::MIN <= o.position.y + (o.velocity.y + o.acceleration.y * dt) * dt <= i64::MAX
}

/// A whole integration step fits the machine for this object.
pub open spec fn step_ok(o: MovingObject, dt: int) -> bool {
    vel_step_ok(o, dt) && pos_step_ok(o, dt)
}

/// Every live object of the world can take the step.
pub open spec fn world_step_ok(w: Seq<Option<MovingObject>>, dt: int) -> bool {
    forall|h: int| 0 <= h < w.len() ==> (#[trigger] w[h]) is Some ==> step_ok(w[h].unwrap(), dt)
}

/// The object after one whole integration step: velocity from this tick's
/// acceleration first, then position from that updated velocity.
pub open spec fn integrated_obj(o: MovingObject, dt: int) -> MovingObject {
    MovingObject {
        position: Vec2 {
            x: (o.position.x + (o.velocity.x + o.acceleration.x * dt) * dt) as i64,
            y: (o.position.y + (o.velocity.y + o.acceleration.y * dt) * dt) as i64,
        },
        velocity: Vec2 {
            x: (o.velocity.x + o.acceleration.x * dt) as i64,
            y: (o.velocity.y + o.acceleration.y * dt) as i64,
        },
        acceleration: o.acceleration,
    }
}

/// The whole world after one integration step.
pub open spec fn integrated_world(w: Seq<Option<MovingObject>>, dt: int) -> Seq<
    Option<MovingObject>,
> {
    Seq::new(
        w.len(),
        |h: int|
            match w[h] {
                Some(o) => Some(integrated_obj(o, dt)),
                None => None,
            },
    )
}

/// Largest position component a sane world holds, about a trillion world
/// units out: years of travel at game speeds, yet leaving ample headroom
/// below the machine word for one more integration step.
pub const MAX_POS: i64 = 0x4_0000_0000_0000;

/// Largest velocity component a sane world holds: a thousand world units
/// per second, far above any speed the core assigns.
pub const MAX_SPEED: i64 = 1_000_000;

/// Largest acceleration component a sane world holds.
pub const MAX_ACCEL: i64 = 1_000;

/// One object is within the sane bounds.
pub open spec fn obj_sane(o: MovingObject) -> bool {
    &&& -MAX_POS <= o.position.x <= MAX_POS && -MAX_POS <= o.position.y <= MAX_POS
    &&& -MAX_SPEED <= o.velocity.x <= MAX_SPEED && -MAX_SPEED <= o.velocity.y <= MAX_SPEED
    &&& -MAX_ACCEL <= o.acceleration.x <= MAX_ACCEL && -MAX_ACCEL <= o.acceleration.y <= MAX_ACCEL
}

/// Every live object of the world is within the sane bounds.
pub open spec fn world_sane(w: Seq<Option<MovingObject>>) -> bool {
    forall|h: int| 0 <= h < w.len() ==> (#[trigger] w[h]) is Some ==> obj_sane(w[h].unwrap())
}

/// A sane object can take any accepted step without leaving the machine's
/// integer range.
pub proof fn lemma_sane_step_ok(o: MovingObject, dt: int)
    requires
        obj_sane(o),
        0 <= dt <= MAX_DT_MS,
    ensures
        step_ok(o, dt),
{
    assert(-0x4_0000_0000 <= o.acceleration.x * dt <= 0x4_0000_0000) by (nonlinear_arith)
        requires -1_000 <= o.acceleration.x <= 1_000, 0 <= dt <= 60_000,
    ;
    assert(-0x4_0000_0000 <= o.acceleration.y * dt <= 0x4_0000_0000) by (nonlinear_arith)
        requires -1_000 <= o.acceleration.y <= 1_000, 0 <= dt <= 60_000,
    ;
    let vx = o.velocity.x + o.acceleration.x * dt;
    let vy = o.velocity.y + o.acceleration.y * dt;
    assert(-0x8_0000_0000_0000 <= vx * dt <= 0x8_0000_0000_0000) by (nonlinear_arith)
        requires -0x5_0000_0000 <= vx <= 0x5_0000_0000, 0 <= dt <= 60_000,
    ;
    assert(-0x8_0000_0000_0000 <= vy * dt <= 0x8_0000_0000_0000) by (nonlinear_arith)
        requires -0x5_0000_0000 <= vy <= 0x5_0000_0000, 0 <= dt <= 60_000,
    ;
}

/// A sane world can take any accepted step.
pub proof fn lemma_world_sane_step_ok(w: Seq<Option<MovingObject>>, dt: int)
    requires
        world_sane(w),
        0 <= dt <= MAX_DT_MS,
    ensures
        world_step_ok(w, dt),
{
    assert forall|h: int| 0 <= h < w.len() implies (#[trigger] w[h]) is Some ==> step_ok(
        w[h].unwrap(),
        dt,
    ) by {
        if w[h] is Some {
            lemma_sane_step_ok(w[h].unwrap(), dt);
        }
    }
}

/// The product of a machine-word value and a frame time stays far inside
/// the wide intermediate range.
proof fn lemma_i64_times_dt(a: int, dt: int)
    requires
        i64::MIN <= a <= i64::MAX,
        0 <= dt <= MAX_DT_MS,
    ensures
        -0x8000_0000_0000_0000 * 60_000 <= a * dt <= 0x8000_0000_0000_0000 * 60_000,
{
    assert(-0x8000_0000_0000_0000 * 60_000 <= a * dt <= 0x8000_0000_0000_0000 * 60_000)
        by (nonlinear_arith)
        requires -0x8000_0000_0000_0000 <= a <= 0x8000_0000_0000_0000, 0 <= dt <= 60_000,
    ;
}

impl World {
    /// An empty arena.
    pub fn new() -> (r: World)
        ensures
            r@ == Seq::<Option<MovingObject>>::empty(),
    {
        World { objects: Vec::new() }
    }

    /// How many slots the arena holds, dead ones included.
    pub fn slot_count(&self) -> (n: usize)
        ensures
            n == self@.len(),
    {
        self.objects.len()
    }

    /// Add an object; the returned handle addresses it from now on.
    pub fn spawn(&mut self, obj: MovingObject) -> (h: usize)
        ensures
            h == old(self)@.len(),
            final(self)@ == old(self)@.push(Some(obj)),
    {
        let h = self.objects.len();
        self.objects.push(Some(obj));
        h
    }

    /// Remove the object a handle addresses; a dead or out-of-range handle
    /// changes nothing.
    pub fn despawn(&mut self, h: usize)
        ensures
            final(self)@ == (if h < old(self)@.len() {
                old(self)@.update(h as int, None)
            } else {
                old(self)@
            }),
    {
        if h < self.objects.len() {
            self.objects[h] = None;
        } else {
            proof {
                assert(final(self)@ =~= old(self)@);
            }
        }
    }

    /// Whether a handle currently addresses a live object.
    pub fn alive(&self, h: usize) -> (r: bool)
        ensures
            r == (obj_at(self@, h as int) is Some),
    {
        h < self.objects.len() && self.objects[h].is_some()
    }

    /// Read the object a handle addresses.
    pub fn get(&self, h: usize) -> (r: Option<MovingObject>)
        ensures
            r == obj_at(self@, h as int),
    {
        if h < self.objects.len() {
            self.objects[h]
        } else {
            None
        }
    }

    /// Overwrite the object a live handle addresses; a dead or out-of-range
    /// handle changes nothing.
    pub fn set(&mut self, h: usize, obj: MovingObject)
        ensures
            final(self)@ == (if obj_at(old(self)@, h as int) is Some {
                old(self)@.update(h as int, Some(obj))
            } else {
                old(self)@
            }),
    {
        if h < self.objects.len() && self.objects[h].is_some() {
            self.objects[h] = Some(obj);
        } else {
            proof {
                assert(final(self)@ =~= old(self)@);
            }
        }
    }

    /// Whether every live object is within the sane bounds that one tick
    /// accepts.
    pub fn is_sane(&self) -> (r: bool)
        ensures
            r == world_sane(self@),
    {
        let mut h: usize = 0;
        while h < self.objects.len()
            invariant
                0 <= h <= self@.len(),
                forall|j: int|
                    0 <= j < h ==> (#[trigger] self@[j]) is Some ==> obj_sane(self@[j].unwrap()),
            decreases self@.len() - h,
        {
            if let Some(o) = self.objects[h] {
                if o.position.x < -MAX_POS || o.position.x > MAX_POS || o.position.y < -MAX_POS
                    || o.position.y > MAX_POS || o.velocity.x < -MAX_SPEED || o.velocity.x
                    > MAX_SPEED || o.velocity.y < -MAX_SPEED || o.velocity.y > MAX_SPEED
                    || o.acceleration.x < -MAX_ACCEL || o.acceleration.x > MAX_ACCEL
                    || o.acceleration.y < -MAX_ACCEL || o.acceleration.y > MAX_ACCEL {
                    return false;
                }
            }
            h += 1;
        }
        true
    }

    /// Whether every live object can take a step of `dt_ms` without leaving
    /// the machine's integer range.
    pub fn step_fits(&self, dt_ms: u64) -> (r: bool)
        requires
            dt_ms <= MAX_DT_MS,
        ensures
            r == world_step_ok(self@, dt_ms as int),
    {
        let dt = dt_ms as i128;
        let mut h: usize = 0;
        while h < self.objects.len()
            invariant
                0 <= h <= self@.len(),
                dt == dt_ms as int,
                0 <= dt <= MAX_DT_MS,
                forall|j: int|
                    0 <= j < h ==> (#[trigger] self@[j]) is Some ==> step_ok(
                        self@[j].unwrap(),
                        dt as int,
                    ),
            decreases self@.len() - h,
        {
            if let Some(o) = self.objects[h] {
                proof {
                    lemma_i64_times_dt(o.acceleration.x as int, dt as int);
                    lemma_i64_times_dt(o.acceleration.y as int, dt as int);
                }
                let vx = o.velocity.x as i128 + o.acceleration.x as i128 * dt;
                let vy = o.velocity.y as i128 + o.acceleration.y as i128 * dt;
                if vx < i64::MIN as i128 || vx > i64::MAX as i128 || vy < i64::MIN as i128 || vy
                    > i64::MAX as i128 {
                    return false;
                }
                proof {
                    lemma_i64_times_dt(vx as int, dt as int);
                    lemma_i64_times_dt(vy as int, dt as int);
                }
                let px = o.position.x as i128 + vx * dt;
                let py = o.position.y as i128 + vy * dt;
                if px < i64::MIN as i128 || px > i64::MAX as i128 || py < i64::MIN as i128 || py
                    > i64::MAX as i128 {
                    return false;
                }
            }
            h += 1;
        }
        true
    }

    /// First pass: every live object's velocity takes this tick's
    /// acceleration.
    pub fn update_velocity(&mut self, dt_ms: u64)
        requires
            dt_ms <= MAX_DT_MS,
            world_step_ok(old(self)@, dt_ms as int),
        ensures
            final(self)@.len() == old(self)@.len(),
            forall|h: int|
                0 <= h < old(self)@.len() ==> final(self)@[h] == (match old(self)@[h] {
                    Some(o) => Some(
                        MovingObject {
                            velocity: Vec2 {
                                x: (o.velocity.x + o.acceleration.x * dt_ms) as i64,
                                y: (o.velocity.y + o.acceleration.y * dt_ms) as i64,
                            },
                            ..o
                        },
                    ),
                    None => None,
                }),
    {
        let dt = dt_ms as i64;
        let mut h: usize = 0;
        while h < self.objects.len()
            invariant
                0 <= h <= self@.len(),
                self@.len() == old(self)@.len(),
                dt == dt_ms as int,
                0 <= dt <= MAX_DT_MS,
                world_step_ok(old(self)@, dt as int),
                forall|j: int| h <= j < self@.len() ==> self@[j] == old(self)@[j],
                forall|j: int|
                    0 <= j < h ==> self@[j] == (match old(self)@[j] {
                        Some(o) => Some(
                            MovingObject {
                                velocity: Vec2 {
                                    x: (o.velocity.x + o.acceleration.x * dt) as i64,
                                    y: (o.velocity.y + o.acceleration.y * dt) as i64,
                                },
                                ..o
                            },
                        ),
                        None => None,
                    }),
            decreases self@.len() - h,
        {
            if let Some(o) = self.objects[h] {
                assert(step_ok(o, dt as int));
                proof {
                    lemma_i64_times_dt(o.acceleration.x as int, dt as int);
                    lemma_i64_times_dt(o.acceleration.y as int, dt as int);
                }
                let nv = Vec2 {
                    x: (o.velocity.x as i128 + o.acceleration.x as i128 * dt as i128) as i64,
                    y: (o.velocity.y as i128 + o.acceleration.y as i128 * dt as i128) as i64,
                };
                self.objects[h] = Some(MovingObject { velocity: nv, ..o });
            }
            h += 1;
        }
    }

    /// Second pass: every live object's position takes its (already
    /// updated) velocity.
    pub fn update_position(&mut self, dt_ms: u64)
        requires
            dt_ms <= MAX_DT_MS,
            forall|h: int|
                0 <= h < old(self)@.len() ==> (#[trigger] old(self)@[h]) is Some ==> {
                    let o = old(self)@[h].unwrap();
                    &&& i64::MIN <= o.position.x + o.velocity.x * dt_ms <= i64::MAX
                    &&& i64::MIN <= o.position.y + o.velocity.y * dt_ms <= i64::MAX
                },
        ensures
            final(self)@.len() == old(self)@.len(),
            forall|h: int|
                0 <= h < old(self)@.len() ==> final(self)@[h] == (match old(self)@[h] {
                    Some(o) => Some(
                        MovingObject {
                            position: Vec2 {
                                x: (o.position.x + o.velocity.x * dt_ms) as i64,
                                y: (o.position.y + o.velocity.y * dt_ms) as i64,
                            },
                            ..o
                        },
                    ),
                    None => None,
                }),
    {
        let dt = dt_ms as i64;
        let mut h: usize = 0;
        while h < self.objects.len()
            invariant
                0 <= h <= self@.len(),
                self@.len() == old(self)@.len(),
                dt == dt_ms as int,
                0 <= dt <= MAX_DT_MS,
                forall|j: int|
                    0 <= j < old(self)@.len() ==> (#[trigger] old(self)@[j]) is Some ==> {
                        let o = old(self)@[j].unwrap();
                        &&& i64::MIN <= o.position.x + o.velocity.x * dt <= i64::MAX
                        &&& i64::MIN <= o.position.y + o.velocity.y * dt <= i64::MAX
                    },
                forall|j: int| h <= j < self@.len() ==> self@[j] == old(self)@[j],
                forall|j: int|
                    0 <= j < h ==> self@[j] == (match old(self)@[j] {
                        Some(o) => Some(
                            MovingObject {
                                position: Vec2 {
                                    x: (o.position.x + o.velocity.x * dt) as i64,
                                    y: (o.position.y + o.velocity.y * dt) as i64,
                                },
                                ..o
                            },
                        ),
                        None => None,
                    }),
            decreases self@.len() - h,
        {
            if let Some(o) = self.objects[h] {
                proof {
                    lemma_i64_times_dt(o.velocity.x as int, dt as int);
                    lemma_i64_times_dt(o.velocity.y as int, dt as int);
                }
                let np = Vec2 {
                    x: (o.position.x as i128 + o.velocity.x as i128 * dt as i128) as i64,
                    y: (o.position.y as i128 + o.velocity.y as i128 * dt as i128) as i64,
                };
                self.objects[h] = Some(MovingObject { position: np, ..o });
            }
            h += 1;
        }
    }

    /// One whole integration step: all velocities first, then all
    /// positions, so each object's position step sees this tick's velocity.
    pub fn integrate(&mut self, dt_ms: u64)
        requires
            dt_ms <= MAX_DT_MS,
            world_step_ok(old(self)@, dt_ms as int),
        ensures
            final(self)@ == integrated_world(old(self)@, dt_ms as int),
    {
        self.update_velocity(dt_ms);
        self.update_position(dt_ms);
        proof {
            assert(final(self)@ =~= integrated_world(old(self)@, dt_ms as int));
        }
    }
}

} // verus!
