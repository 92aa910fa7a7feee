//! A file index kept in step with live filesystem activity.
//!
//! The crate is the deciding half of the system: it never touches a disk, a
//! database or the operating system's watch facility.  A caller performs that
//! work and hands the library what came back; the library says what the
//! answer means and what has to be done next.
//!
//! * [`fdb`] is the index store: one record per tracked file, keyed by name.
//! * [`monitor`] is the watch source: the watched roots and the vocabulary of
//!   filesystem events.
//! * [`sync`] is the engine that turns events into index operations.
//! * [`error`] gathers the failures of the components.

pub mod error;
pub mod fdb;
pub mod monitor;
pub mod sync;
