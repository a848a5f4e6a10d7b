//! Verified core of the JetKVM RDP console daemon.

pub mod protocol;
pub mod video;
pub mod egfx;
pub mod gfx;
pub mod bridge;
pub mod scancode;
pub mod pointer;
pub mod input;
pub mod display;
pub mod h264;
pub mod hexdump;
pub mod probe;
