//! Verified core of an immersive-audio decoding bridge.

pub mod auro;
pub mod bridge;
pub mod eac3;
pub mod level;
pub mod text;
pub mod truehd;
