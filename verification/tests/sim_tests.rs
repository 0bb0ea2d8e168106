use topdown_sim::asset_loader::{parse_spritesheet_data, SpriteAtlas, SpriteData};
use topdown_sim::game::{Game, TickInput};
use topdown_sim::gun::{ready_to_fire, ReloadTimer, BULLET_SPEED, RELOAD_TIME_MS};
use topdown_sim::movement::{MovingObject, World};
use topdown_sim::player::MOVEMENT_SPEED;
use topdown_sim::vec2::{scale_to_length, Vec2, UNIT};

fn v(x: i64, y: i64) -> Vec2 {
    Vec2 { x, y }
}

fn full_atlas() -> SpriteAtlas {
    let (atlas, diags) =
        parse_spritesheet_data(b"doc_idle_anim_f0 0 0 16 16\nweapon_knife 128 0 32 32\nbullet 160 0 8 8");
    assert!(diags.is_empty());
    atlas
}

fn idle(dt_ms: u64) -> TickInput {
    TickInput {
        dt_ms,
        up: false,
        down: false,
        left: false,
        right: false,
        pointer: v(10_000, 0),
        pointer_in_surface: true,
        trigger_held: false,
    }
}

fn ready_game() -> Game {
    let atlas = full_atlas();
    let mut game = Game::new();
    game.spawn_player(&atlas).expect("player sprite present");
    game.spawn_gun(&atlas).expect("weapon sprite present");
    game
}

#[test]
fn scale_to_length_axis_and_diagonal() {
    assert_eq!(scale_to_length(v(2_000, 0), 400), v(400, 0));
    assert_eq!(scale_to_length(v(0, -5), 400), v(0, -400));
    assert_eq!(scale_to_length(v(0, 0), 400), v(0, 0));
    // |(1000, 1000)| floors to 1414, so each component is 150_000 / 1414.
    assert_eq!(scale_to_length(v(1_000, 1_000), MOVEMENT_SPEED), v(106, 106));
}

#[test]
fn integrator_velocity_update_precedes_position_update() {
    let mut w = World::new();
    let h = w.spawn(MovingObject {
        position: v(10, 20),
        velocity: v(3, 4),
        acceleration: v(1, 2),
    });
    w.integrate(10);
    let o = w.get(h).expect("object alive");
    // v' = v0 + a * dt; p' = p0 + v' * dt, with this tick's velocity.
    assert_eq!(o.velocity, v(13, 24));
    assert_eq!(o.position, v(140, 260));
    assert_eq!(o.acceleration, v(1, 2));
}

#[test]
fn integrator_two_passes_separately() {
    let mut w = World::new();
    let h = w.spawn(MovingObject {
        position: v(0, 0),
        velocity: v(5, 0),
        acceleration: v(1, 0),
    });
    w.update_velocity(4);
    assert_eq!(w.get(h).unwrap().velocity, v(9, 0));
    assert_eq!(w.get(h).unwrap().position, v(0, 0));
    w.update_position(4);
    assert_eq!(w.get(h).unwrap().position, v(36, 0));
}

#[test]
fn arena_handles_stay_stable() {
    let mut w = World::new();
    let a = w.spawn(MovingObject { position: v(1, 1), velocity: v(0, 0), acceleration: v(0, 0) });
    let b = w.spawn(MovingObject { position: v(2, 2), velocity: v(0, 0), acceleration: v(0, 0) });
    assert!(w.alive(a) && w.alive(b));
    w.despawn(a);
    assert!(!w.alive(a));
    assert_eq!(w.get(a), None);
    assert_eq!(w.get(b).unwrap().position, v(2, 2));
    let c = w.spawn(MovingObject { position: v(3, 3), velocity: v(0, 0), acceleration: v(0, 0) });
    assert_ne!(b, c);
    assert!(!w.alive(a));
}

#[test]
fn aim_tracks_pointer_and_places_gun() {
    let mut game = ready_game();
    let atlas = full_atlas();
    let report = game.tick(&atlas, &idle(16)).expect("no fatal error");
    assert!(!report.movement_warning);
    assert!(!report.aim_warning);
    let gun = game.gun.expect("gun exists");
    // Facing is the exact vector from the subject toward the pointer.
    assert_eq!(gun.facing, v(10_000, 0));
    assert_eq!(gun.aim.last_dir, Some(v(10_000, 0)));
    // Placed 95 units along the facing, 20 units down.
    let gun_obj = game.world.get(gun.object).expect("gun object alive");
    assert_eq!(gun_obj.position, v(95_000, -20_000));
}

#[test]
fn aim_degenerate_pointer_on_subject_faces_left() {
    let mut game = ready_game();
    let atlas = full_atlas();
    let mut input = idle(16);
    input.pointer = v(0, 0); // exactly on the subject
    game.tick(&atlas, &input).expect("no fatal error");
    let gun = game.gun.unwrap();
    assert_eq!(gun.facing, v(-UNIT, 0));
    let gun_obj = game.world.get(gun.object).unwrap();
    assert_eq!(gun_obj.position, v(-95_000, -20_000));
}

#[test]
fn aim_holds_last_angle_while_pointer_outside() {
    let mut game = ready_game();
    let atlas = full_atlas();
    // Store a direction while the pointer is usable.
    game.tick(&atlas, &idle(16)).unwrap();
    assert_eq!(game.gun.unwrap().facing, v(10_000, 0));
    // Pointer leaves the surface and moves; the subject starts moving up.
    let mut held = idle(1_000);
    held.pointer = v(0, 999_999);
    held.pointer_in_surface = false;
    held.up = true;
    game.tick(&atlas, &held).unwrap();
    let gun = game.gun.unwrap();
    assert_eq!(gun.facing, v(10_000, 0));
    assert_eq!(gun.aim.last_dir, Some(v(10_000, 0)));
    // The subject moved 150 units up during that tick's integration; the
    // next held tick places the weapon from the held direction and the new
    // subject position.
    let mut held2 = held;
    held2.up = false;
    game.tick(&atlas, &held2).unwrap();
    let player_obj = game.world.get(game.player.unwrap()).unwrap();
    assert_eq!(player_obj.position, v(0, 150_000));
    let gun_obj = game.world.get(game.gun.unwrap().object).unwrap();
    assert_eq!(gun_obj.position, v(95_000, 130_000));
    assert_eq!(game.gun.unwrap().facing, v(10_000, 0));
}

#[test]
fn aim_without_memory_uses_current_pointer_value() {
    let mut game = ready_game();
    let atlas = full_atlas();
    let mut input = idle(16);
    input.pointer = v(0, 5_000);
    input.pointer_in_surface = false; // never seen the pointer inside
    game.tick(&atlas, &input).unwrap();
    let gun = game.gun.unwrap();
    assert_eq!(gun.facing, v(0, 5_000));
    assert_eq!(gun.aim.last_dir, Some(v(0, 5_000)));
}

#[test]
fn default_input_aims_from_default_pointer() {
    let mut game = ready_game();
    let atlas = full_atlas();
    let input = TickInput::default();
    assert_eq!(input.dt_ms, 0);
    assert!(!input.pointer_in_surface && !input.trigger_held);
    let report = game.tick(&atlas, &input).unwrap();
    assert!(report.shot.is_none());
    // No angle was ever stored, so the controller computes one from the
    // default pointer value it was handed.
    assert_eq!(game.gun.unwrap().facing, v(100_000, 100_000));
}

#[test]
fn player_movement_sets_velocity_from_keys() {
    let mut game = ready_game();
    let atlas = full_atlas();
    let mut input = idle(1_000);
    input.right = true;
    input.up = true;
    game.tick(&atlas, &input).unwrap();
    let player_obj = game.world.get(game.player.unwrap()).unwrap();
    // Diagonal movement is normalized to the movement speed (floored).
    assert_eq!(player_obj.velocity, v(106, 106));
    assert_eq!(player_obj.position, v(106_000, 106_000));
}

#[test]
fn firing_gate_needs_trigger_and_elapsed_reload() {
    assert!(!ready_to_fire(false, &ReloadTimer { elapsed_ms: 10_000 }));
    assert!(!ready_to_fire(true, &ReloadTimer { elapsed_ms: RELOAD_TIME_MS }));
    assert!(ready_to_fire(true, &ReloadTimer { elapsed_ms: RELOAD_TIME_MS + 1 }));
}

#[test]
fn exactly_one_shot_per_reload_window() {
    let mut game = ready_game();
    let atlas = full_atlas();
    let mut held = idle(50);
    held.trigger_held = true;
    // 50 ms accumulated: gate closed.
    let report = game.tick(&atlas, &held).unwrap();
    assert!(report.shot.is_none());
    // 101 ms accumulated: the shot fires and the timer resets.
    held.dt_ms = 51;
    let report = game.tick(&atlas, &held).unwrap();
    assert!(report.shot.is_some());
    assert_eq!(game.gun.unwrap().reload.elapsed_ms, 0);
    // A release and re-press within the cooling period fires nothing.
    let mut released = held;
    released.trigger_held = false;
    released.dt_ms = 40;
    assert!(game.tick(&atlas, &released).unwrap().shot.is_none());
    let mut pressed = held;
    pressed.dt_ms = 30;
    assert!(game.tick(&atlas, &pressed).unwrap().shot.is_none());
    pressed.dt_ms = 30; // exactly 100 ms since the shot: still closed
    assert!(game.tick(&atlas, &pressed).unwrap().shot.is_none());
    pressed.dt_ms = 1; // 101 ms: the next window opens
    assert!(game.tick(&atlas, &pressed).unwrap().shot.is_some());
}

#[test]
fn shot_inherits_current_facing_with_fixed_speed() {
    let mut game = ready_game();
    let atlas = full_atlas();
    let mut held = idle(200);
    held.trigger_held = true;
    let report = game.tick(&atlas, &held).unwrap();
    let shot = report.shot.expect("gate open after 200 ms");
    assert_eq!(shot.speed, BULLET_SPEED);
    assert_eq!(shot.facing, v(10_000, 0));
    assert_eq!(shot.velocity, v(400, 0));
    assert_eq!(shot.position, v(95_000, -20_000));
    assert_eq!(shot.sprite, SpriteData { x: 160, y: 0, width: 8, height: 8 });
    // The projectile's arena object was created at the weapon with that
    // velocity and no acceleration, and was integrated this same tick.
    let bullet = game.world.get(shot.object).expect("bullet alive");
    assert_eq!(bullet.velocity, v(400, 0));
    assert_eq!(bullet.acceleration, v(0, 0));
    assert_eq!(bullet.position, v(95_000 + 400 * 200, -20_000));
}

#[test]
fn shot_velocity_is_fixed_point_along_diagonal_facing() {
    let mut game = ready_game();
    let atlas = full_atlas();
    let mut held = idle(200);
    held.pointer = v(1_000, 1_000);
    held.trigger_held = true;
    let shot = game.tick(&atlas, &held).unwrap().shot.unwrap();
    assert_eq!(shot.speed, BULLET_SPEED);
    assert_eq!(shot.facing, v(1_000, 1_000));
    // 400_000 / isqrt(2_000_000) = 400_000 / 1414, floored per component.
    assert_eq!(shot.velocity, v(282, 282));
}

#[test]
fn missing_bullet_sprite_is_fatal_by_name() {
    let (atlas, _) = parse_spritesheet_data(b"doc_idle_anim_f0 0 0 16 16\nweapon_knife 128 0 32 32");
    let mut game = Game::new();
    game.spawn_player(&atlas).unwrap();
    game.spawn_gun(&atlas).unwrap();
    let mut held = idle(200);
    held.trigger_held = true;
    let err = game.tick(&atlas, &held).expect_err("bullet sprite missing");
    assert_eq!(err.name, b"bullet".to_vec());
}

#[test]
fn missing_player_or_weapon_sprite_fails_spawn() {
    let (atlas, _) = parse_spritesheet_data(b"bullet 160 0 8 8");
    let mut game = Game::new();
    let err = game.spawn_player(&atlas).expect_err("player sprite missing");
    assert_eq!(err.name, b"doc_idle_anim_f0".to_vec());
    let err = game.spawn_gun(&atlas).expect_err("weapon sprite missing");
    assert_eq!(err.name, b"weapon_knife".to_vec());
}

#[test]
fn empty_game_ticks_with_warnings_and_no_shot() {
    let atlas = full_atlas();
    let mut game = Game::new();
    let mut held = idle(200);
    held.trigger_held = true;
    let report = game.tick(&atlas, &held).unwrap();
    assert!(report.movement_warning);
    assert!(report.aim_warning);
    assert!(report.shot.is_none());
}

#[test]
fn bullet_sprite_lookup_is_cached_after_first_shot() {
    let mut game = ready_game();
    let atlas = full_atlas();
    let mut held = idle(200);
    held.trigger_held = true;
    assert!(game.bullet_assets.bullet_sprite.is_none());
    game.tick(&atlas, &held).unwrap();
    assert_eq!(
        game.bullet_assets.bullet_sprite,
        Some(SpriteData { x: 160, y: 0, width: 8, height: 8 })
    );
}

#[test]
fn sanity_checks_hold_on_a_running_game() {
    let mut game = ready_game();
    let atlas = full_atlas();
    assert!(game.world.is_sane());
    assert!(game.world.step_fits(16));
    let mut held = idle(16);
    held.trigger_held = true;
    for _ in 0..30 {
        game.tick(&atlas, &held).unwrap();
        assert!(game.world.is_sane());
    }
}
