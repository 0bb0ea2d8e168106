//! The player: spawning and keyboard-driven movement.

use vstd::prelude::*;
use crate::asset_loader::{MissingSprite, SpriteAtlas, SpriteData};
use crate::gun::player_pos;
use crate::movement::{MovingObject, World, obj_at};
use crate::vec2::{Vec2, UNIT, dir_scaled, scale_to_length};

verus! {

/// The player's speed while a movement key is held, in raw steps per
/// millisecond — 150 world units per second.
pub const MOVEMENT_SPEED: i64 = 150;

/// The direction the held movement keys point at, one unit per axis;
/// opposite keys cancel.
pub open spec fn key_dir(up: bool, down: bool, left: bool, right: bool) -> Vec2 {
    Vec2 {
        x: (((if right { 1int } else { 0int }) - (if left { 1int } else { 0int })) * UNIT) as i64,
        y: (((if up { 1int } else { 0int }) - (if down { 1int } else { 0int })) * UNIT) as i64,
    }
}

/// The velocity the held keys demand: the key direction normalized to the
/// movement speed, or rest when no direction is held.
pub open spec fn movement_velocity(up: bool, down: bool, left: bool, right: bool) -> Vec2 {
    dir_scaled(key_dir(up, down, left, right), MOVEMENT_SPEED as int)
}

/// Set the player's velocity from the held movement keys. When the player
/// is missing the step is skipped and reported, for the caller to surface
/// as a warning.
pub fn handle_player_movement(
    world: &mut World,
    player: Option<usize>,
    up: bool,
    down: bool,
    left: bool,
    right: bool,
) -> (warned: bool)
    ensures
        warned == (player_pos(old(world)@, player) is None),
        warned ==> final(world)@ == old(world)@,
        !warned ==> final(world)@ == old(world)@.update(
            player.unwrap() as int,
            Some(
                MovingObject {
                    velocity: movement_velocity(up, down, left, right),
                    ..obj_at(old(world)@, player.unwrap() as int).unwrap()
                },
            ),
        ),
{
    let h = match player {
        Some(h) => h,
        None => {
            return true;
        },
    };
    let o = match world.get(h) {
        Some(o) => o,
        None => {
            return true;
        },
    };
    let dx: i64 = if right && !left {
        UNIT
    } else if left && !right {
        -UNIT
    } else {
        0
    };
    let dy: i64 = if up && !down {
        UNIT
    } else if down && !up {
        -UNIT
    } else {
        0
    };
    let dir = Vec2 { x: dx, y: dy };
    proof {
        assert(dir == key_dir(up, down, left, right));
    }
    let vel = scale_to_length(dir, MOVEMENT_SPEED);
    world.set(h, MovingObject { velocity: vel, ..o });
    false
}

/// The name under which the player sprite is filed: `doc_idle_anim_f0`.
pub open spec fn player_sprite_name() -> Seq<u8> {
    seq![
        100u8, 111u8, 99u8, 95u8, 105u8, 100u8, 108u8, 101u8, 95u8, 97u8, 110u8, 105u8, 109u8,
        95u8, 102u8, 48u8,
    ]
}

/// Build the player sprite's name.
pub fn player_name_bytes() -> (r: Vec<u8>)
    ensures
        r@ == player_sprite_name(),
{
    let mut r: Vec<u8> = Vec::new();
    r.push(100);
    r.push(111);
    r.push(99);
    r.push(95);
    r.push(105);
    r.push(100);
    r.push(108);
    r.push(101);
    r.push(95);
    r.push(97);
    r.push(110);
    r.push(105);
    r.push(109);
    r.push(95);
    r.push(102);
    r.push(48);
    proof {
        assert(r@ =~= player_sprite_name());
    }
    r
}

/// Create the player: look its sprite up (a missing player sprite is a
/// fatal configuration error named in the result) and give it a fresh arena
/// object at the origin, at rest and unaccelerated.
pub fn spawn_player(world: &mut World, atlas: &SpriteAtlas) -> (r: Result<
    (usize, SpriteData),
    MissingSprite,
>)
    ensures
        atlas@.contains_key(player_sprite_name()) ==> ({
            &&& r matches Ok(p)
            &&& p.0 == old(world)@.len() as usize
            &&& p.1 == atlas@[player_sprite_name()]
            &&& final(world)@ == old(world)@.push(
                Some(
                    MovingObject {
                        position: Vec2 { x: 0, y: 0 },
                        velocity: Vec2 { x: 0, y: 0 },
                        acceleration: Vec2 { x: 0, y: 0 },
                    },
                ),
            )
        }),
        !atlas@.contains_key(player_sprite_name()) ==> (r matches Err(e) && e.name@
            == player_sprite_name()) && final(world)@ == old(world)@,
{
    let name = player_name_bytes();
    let sprite = match atlas.lookup(name.as_slice()) {
        Some(sp) => sp,
        None => {
            return Err(MissingSprite { name });
        },
    };
    let zero = Vec2 { x: 0, y: 0 };
    let object = world.spawn(
        MovingObject { position: zero, velocity: zero, acceleration: zero },
    );
    Ok((object, sprite))
}

} // verus!
