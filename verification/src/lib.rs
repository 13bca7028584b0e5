//! A terminal screensaver core: rectangular text sprites ("logos") bounce
//! inside the current terminal bounds, reflecting off the edges and
//! optionally changing color on each bounce.
//!
//! The simulation, geometry, measurement and rendering decisions are
//! verified; terminal I/O, argument parsing and the event loop live in the
//! surrounding binary.

pub mod app;
pub mod config;
pub mod error;
pub mod render;
pub mod text;
pub mod util;
