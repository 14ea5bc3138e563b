//! Verified core of a terminal memory monitor: focus navigation, process
//! ordering and selection, key handling and the screen layout.

pub mod app;
pub mod collector;
pub mod config;
pub mod input;
pub mod ordering;
pub mod ui;
