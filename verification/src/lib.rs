//! Event-selection kernel for a kinetic Monte Carlo simulation.
//!
//! A catalog holds a dynamically changing set of physical events, each with a
//! unique key and a non-negative rate, and draws one event at random with
//! probability proportional to its rate. Rates are carried as fixed-point
//! integer weights; the physical rate formula that produces them lives with
//! the (unverified) driver around this library.

pub mod add_remove_list;
pub mod catalog;
pub mod listdict;
pub mod rng_source;
