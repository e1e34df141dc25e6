//! The core of a terminal dashboard for containers: which keys do what in
//! which mode, how the list of containers follows what the engine reports,
//! how the log buffer scrolls and searches, and when the one background task
//! is replaced. The crate performs no input or output of its own; every step
//! returns what its caller has to carry out.

pub mod actions;
pub mod app;
mod clock;
pub mod container;
pub mod io;
pub mod key;
pub mod lifecycle;
pub mod logs;
pub mod management;
pub mod reconcile;
pub mod refresh;
pub mod release;
pub mod session;
pub mod state;
pub mod supervisor;
pub mod text;
pub mod view;
