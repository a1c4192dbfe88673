//! Verified core of a screen locker for X11.

pub mod config;
pub mod keys;
pub mod lockscreen;
pub mod password;
pub mod prompt;
pub mod structs;
