//! Typed access to the output of a network device's management shell.
//!
//! The shell is run elsewhere; this library turns what it printed into
//! records: the date of the saved configuration and the tables of
//! neighbours that the discovery protocols report.

pub mod calendar;
pub mod command;
pub mod configuration;
pub mod error;
pub mod json;
pub mod text;
pub mod timestamp;
pub mod xdp;
