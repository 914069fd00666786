//! Verified core of a set of small interactive 2D prototypes: axis-aligned
//! overlap geometry, a click-and-drag board, a collector pick-up/drop-off
//! loop, a timed conveyor belt, an item spawner, and a camera zoom level.
//!
//! Entities live in explicit per-prototype worlds: plain records on an
//! integer grid, indexed by stable identifiers, advanced by per-frame
//! update functions with exact contracts. Windowing, rendering, asset
//! handling and input polling are left to a host program; each world takes
//! plain values (positions, button edges, elapsed milliseconds) and returns
//! plain values.

pub mod geometry;

pub mod conveyor;

pub mod spawner;

pub mod zoom;

pub mod collector;

pub mod drag;
