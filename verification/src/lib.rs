//! The decision logic of the Daedalus RoboMaster simulator, verified with Verus.
//!
//! The simulator proper renders a field, drives robots on it and publishes what its cameras see.
//! This crate holds the part that can be stated and proved: pixel packing, shared memory
//! hand-over, light programs, collision bookkeeping, input sampling and scene planning. The engine,
//! the operating system and the floating point geometry live in the application around it.
use vstd::prelude::*;

pub mod armor;
pub mod async_world;
pub mod capture;
pub mod controller;
pub mod gimbal_sender;
pub mod hierarchy;
pub mod ipc;
pub mod json;
pub mod metalfx;
pub mod mock_server;
pub mod observation;
pub mod platform;
pub mod projectile;
pub mod rate_limiter;
pub mod ros2;
pub mod scene;
pub mod tech_core;
pub mod text;
pub mod vehicle;

verus! {

/// The engine's handle for an object of the scene.
pub type EntityId = u64;

} // verus!
