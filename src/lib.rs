//! The dock of a desktop-like web shell: a bar of fixed-size slots whose
//! order the user changes by dragging icons, with the reorder rules, the
//! intent queue and the animation arithmetic verified.

pub mod ids;
pub mod order;
pub mod geometry;
pub mod intent;
pub mod engine;
pub mod laws;
pub mod animation;
pub mod topbar;
pub mod shell;
pub mod processes;
