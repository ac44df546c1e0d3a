//! Core of a timed drawing-practice slideshow: the session state machine,
//! saved image sets, and the small text routines the screens need.

pub mod app;
pub mod config;
pub mod order;
pub mod picture;
pub mod set_map;
pub mod text;
pub mod laws;
