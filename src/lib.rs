//! Composition of autonomous robot paths: an ordered list of motion segments
//! whose control points are kept consistent by a forward propagation pass, and
//! sampled into point sequences for display and export.
//!
//! All geometry is exact integer arithmetic: positions are thousandths of an
//! inch, and a heading is the direction vector `(cos, sin)` scaled by
//! `HEADING_UNIT`.
//!
//! - `geometry`: poses, headings, displacement and the heading between points.
//! - `field`: the map between field positions and screen pixels.
//! - `movement`: the segment variants and their constructors.
//! - `propagate`: the propagation pass, `repopulate`.
//! - `laws`: what the propagation pass guarantees, proved.
//! - `curve`: Bezier sampling by de Casteljau's construction.
//! - `tessellate`: sampling a whole path for display, `redraw`.
//! - `record`: the stored form of a segment.
//! - `export`: what the motion controller is sent.
//! - `editor`: the edit commands over the editor state.

pub mod geometry;
pub mod movement;
pub mod propagate;
pub mod laws;
pub mod curve;
pub mod field;
pub mod tessellate;
pub mod editor;
pub mod export;
pub mod record;
