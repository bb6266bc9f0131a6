//! A 2D kinematic simulator for mobile robots in an obstacle-filled scene,
//! with verified fixed-point arithmetic throughout.
//!
//! World quantities are fixed-point integers (see [`fp`]): positions and
//! lengths in micro-units, angles in micro-radians, times in micro-seconds.
//! The crate covers kinematic integration for several drive models,
//! shape-based static and swept collision detection, a beam range sensor,
//! and the handle-based scene registry that ties them together.

pub mod fp;
pub mod trig;
pub mod parameter;
pub mod collision;
pub mod collidable;
pub mod sweep;
pub mod ray;
pub mod utils;
pub mod noise;
pub mod robot;
pub mod kinematics;
pub mod sensors;
pub mod parser;
pub mod wall;
pub mod static_obj;
pub mod dynamic_obj;
pub mod handler;
pub mod comms;
pub mod controller;
pub mod sampler;

pub use fp::SCALE;
