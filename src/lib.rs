//! Coordination of the file paths that reach a desktop application at launch:
//! a pending-file store, the paths taken from a launch's arguments or from a
//! platform open-files event, and the decisions made on each launch event.
pub mod launch;
pub mod opened;
pub mod store;
