//! Core logic of the LiDart robot server: the serial drive protocol, the
//! line framing of the motor controller's replies, the registries of video
//! connections and landmarks, and the index arithmetic of the pose math.

pub mod drive;
pub mod serial_lines;
pub mod registry;
pub mod landmarks;
pub mod math;
pub mod frame;
pub mod health;
