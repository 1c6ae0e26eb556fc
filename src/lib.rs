//! Diagnostics support: a decimal order-of-magnitude latency histogram,
//! plus small formatting helpers for bounding and redacting debug output.

pub mod debug_squeezer;
pub mod doomgram;
pub mod ellipsis;
pub mod gram_utils;
pub mod password;
mod text;
