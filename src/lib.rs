//! A fixed-point 2D motion-and-collision engine for a space trading game:
//! force-driven motion bodies, a uniform spatial grid for the broad phase,
//! and a sub-stepped narrow phase that finds contacts between fast bodies;
//! with the plain game data that gameplay systems attach to entities.

pub mod body;
pub mod collision;
pub mod entity;
pub mod fixed;
pub mod frame;
pub mod game;
pub mod grid;
pub mod indicators;
pub mod pickups;
pub mod system;
pub mod vector;
