//! Orchestration rules of a remote LaTeX compiler front-end: which files of a
//! project are sent to the compilation service and in what order, how the
//! service's answers are judged, and how a watch session reacts to changes on
//! disk. Everything here computes on plain values; reading files, talking to the
//! network and printing are left to the caller.

pub mod bundle;
pub mod files;
pub mod installer;
pub mod outcome;
pub mod paths;
pub mod pipeline;
pub mod preview;
pub mod target;
pub mod text;
pub mod watch;
