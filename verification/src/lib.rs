//! Simulation core of a top-down action prototype.
//!
//! The crate covers the aiming, firing and kinematic-integration subsystem of
//! such a game, together with the sprite-atlas registry that object creation
//! draws on. All world geometry is carried in fixed-point integers: one world
//! distance unit is [`vec2::UNIT`] raw steps, and one tick of simulated time
//! is measured in whole milliseconds. Velocities are raw steps per
//! millisecond, which makes one raw velocity step equal to one world unit per
//! second.
//!
//! Rendering, windowing, input-device polling and camera control are outside
//! the core: a caller samples input into a [`game::TickInput`] snapshot, runs
//! [`game::Game::tick`] once per frame, and hands the emitted
//! [`gun::BulletSpawn`] requests and updated positions to its engine.

pub mod asset_loader;
pub mod game;
pub mod gun;
pub mod math;
pub mod movement;
pub mod player;
pub mod vec2;
