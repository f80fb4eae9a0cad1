//! Archive formats.

pub mod ar;
