//! The verified frame of a two-dimensional flocking simulation.
//!
//! A flock is an ordered collection of agents that a driver advances tick by
//! tick and whose positions it streams to a telemetry sink as addressed
//! messages.  This crate holds the parts of that loop that do not compute
//! with coordinates:
//!
//! - [`flock`]: the flock itself, generic in the vector type, with the shape
//!   of a tick (velocities from the state before the tick, then positions
//!   from each agent alone), the refusal of a tick that must not start, and
//!   the choice of the agents that act on a given agent;
//! - [`telemetry`]: the messages that a tick sends, their order and their
//!   addresses, for both encodings;
//! - [`exporter`]: the fire-and-forget delivery of those messages;
//! - [`decimal`]: the notation of channel numbers.
//!
//! The arithmetic on positions and velocities is the caller's and enters the
//! flock as two rules.

pub mod decimal;
pub mod exporter;
pub mod flock;
pub mod telemetry;
