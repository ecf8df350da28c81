//! Rotation of Niri window animations: which animation file is active, how long
//! each one plays, and how the daemon reacts to compositor events and control
//! commands.
pub mod text;
pub mod duration;
pub mod order;
pub mod animation;
pub mod config;
pub mod daemon;
