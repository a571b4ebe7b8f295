//! Chooses the primary output of an X11 display.
//!
//! The library decides; it runs no command and reads no file. Its caller
//! queries the display server, reads the configuration file, asks the
//! compositor for its outputs and reads the user's selection, and hands
//! each result to a [`session::Session`], which says what is to be done
//! next.
//!
//! - [`outputs`] reads the answer of a display query into the connected
//!   outputs.
//! - [`config`] finds the preferred output in a configuration file.
//! - [`hint`] resolves a preference to a connector's name.
//! - [`select`] chooses the output to make primary, one way for each mode.
//! - [`session`] leads a run from its start to its end.
//! - [`pattern`], [`text`] and [`search`] hold what the others share.

pub mod config;
pub mod failure;
pub mod hint;
pub mod outputs;
pub mod pattern;
pub mod search;
pub mod select;
pub mod session;
pub mod text;
