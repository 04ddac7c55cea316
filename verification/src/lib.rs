//! Surface presentation and input arbitration for a spatial window
//! compositor client.
//!
//! Remote application windows arrive as pixel-addressed panels. This crate
//! holds the exact, integer model of that subsystem: how a window's pixel
//! geometry becomes a panel in space, which spatial input source speaks for
//! a surface in a frame, which pointer events follow from it, and how the
//! tree of surfaces of every session is kept.
//!
//! The crate never talks to the host. Callers hand in what the host reported
//! and carry out what the crate decided.

pub mod arbitration;
pub mod input;
pub mod plane;
pub mod sphereland;
pub mod surface;
pub mod toplevel;
pub mod units;
