//! The reconciliation core of a launcher that keeps the browser of each
//! profile in the mode its user wants: always on, always off, suspended
//! while out of focus, or left alone.
//!
//! The crate decides and never acts. Its callers read the process table,
//! the lock links and the display, hand the plain facts in, and carry out
//! the actions that come back.
//!
//! - [`firefox`]: the managed instance and its state machine
//! - [`probe`]: from a reading of the process table to a lifecycle state
//! - [`xwindow`]: the snapshot of windows and focus
//! - [`registry`], [`config`]: the profiles and the modes wanted
//! - [`fleet`]: the table of instances
//! - [`launcher`]: commands, and the decision of the loop
//! - [`help`], [`proc`], [`text`]: help text, launch command, string utilities

pub mod config;
pub mod firefox;
pub mod fleet;
pub mod help;
pub mod launcher;
pub mod probe;
pub mod proc;
pub mod registry;
pub mod text;
pub mod xwindow;
