//! A first-person grid-world renderer for character-cell displays, with a
//! small UDP position-synchronization protocol.
//!
//! Continuous quantities are modelled as [`fx::Fx`] fixed-point numbers, so
//! the geometry, the rendering pipeline and the wire protocol are ordinary
//! integer logic with exact contracts.  Trigonometric values (cosines,
//! sines, tangents, bearings) cannot be computed here and are taken as
//! inputs wherever a component needs them.
pub mod angles;
pub mod client;
pub mod codec;
pub mod compositor;
pub mod fx;
pub mod grid;
pub mod player;
pub mod projection;
pub mod sprite;
pub mod raycast;
pub mod server;
pub mod sprite_sheet;
