//! A minimal layer-shell panel framework: per-output surface lifecycle,
//! coalesced redraw scheduling, and unification of pointer and touch input
//! into one abstract gesture protocol, shared by a button bar and a
//! scrollable selection menu.

pub mod args;
pub mod bar;
pub mod click;
pub mod menu;
pub mod config;
pub mod panel;
pub mod runtime;
pub mod surface;
