//! The host side of a model: its parameters, where its files lie, and what
//! is decided when its sources change.

pub mod parameters;
pub mod paths;
pub mod error;
pub mod model;
pub mod watch;
