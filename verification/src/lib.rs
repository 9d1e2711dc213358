//! Time-synchronised replay of recorded telemetry onto a fixed grid of lights.
//!
//! A recorded session is a sequence of events, each placing one entity on one
//! grid cell a given number of milliseconds after the previous event. The
//! playback engine walks that sequence in step with the wall clock, and the
//! compositor turns the part already walked into one colour per grid point and
//! one draw instruction per grid point.
//!
//! All instants are whole milliseconds since the Unix epoch, and all
//! coordinates are fixed-point integers (track units times
//! [`geometry::COORDINATE_SCALE`]).
//!
//! - [`events`]: the recorded session and its cumulative delays.
//! - [`playback`]: the engine that moves a cursor through the session.
//! - [`geometry`]: the grid points and their place on the canvas.
//! - [`color`]: colours and the table that assigns them to entities.
//! - [`compositor`]: the lit state and the frame for a cursor position.
//! - [`clock`]: the wall clock and the text of a time of day.

pub mod clock;
pub mod color;
pub mod compositor;
pub mod events;
pub mod geometry;
pub mod playback;
