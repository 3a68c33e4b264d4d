//! Verified core of a local-network remote control: a list of named shell
//! commands is published as one web page with a button per command, and a
//! press of a button asks for the matching command to be launched.
//!
//! Everything in this crate works on plain values. The surrounding program
//! owns the sockets, the files and the child processes; it asks the functions
//! here what to answer and what to launch.

pub mod assets;
pub mod bootstrap;
pub mod config;
pub mod dispatch;
pub mod ident;
pub mod marks;
pub mod occurrence;
pub mod page;
pub mod routes;
pub mod session;
pub mod startup;
pub mod status;
pub mod text;
