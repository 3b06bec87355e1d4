//! A centre-anchored selection grid: labels are placed on a square grid by
//! a diamond-shaped spiral, a cursor moves over the occupied cells, and a
//! redraw planner decides how much of the screen must be repainted after
//! each step.
//!
//! - [`spiral`] produces the canonical ordering of relative coordinates;
//! - [`grid`] builds the fixed square grid from a label list and answers
//!   coordinate queries;
//! - [`state`] is the cursor/selection state machine driven by navigation
//!   commands;
//! - [`redraw`] decides between a full repaint, a two-cell repaint and no
//!   repaint;
//! - [`layout`] maps grid coordinates to screen rectangles;
//! - [`colour`], [`config`] and [`render`] carry the deterministic
//!   appearance rules: packed colours, their defaults, and the per-item
//!   colour cycling.

pub mod colour;
pub mod config;
pub mod grid;
pub mod layout;
pub mod redraw;
pub mod render;
pub mod spiral;
pub mod state;
