//! Child processes that do not outlive their owner.
//!
//! A child is put into a group of its own together with all its descendants: a
//! Linux control group, a Unix session, or a Windows job. A watchdog holds one
//! end of a lifeline whose other end the owner holds; once that is closed, even
//! because the owner itself died, the watchdog kills the group.
//!
//! The modules decide what to ask of the operating system next, from what it
//! answered before. They ask nothing themselves.

pub mod cgroup;
pub mod cgroup_location;
pub mod child;
pub mod command;
pub mod error;
pub mod join;
pub mod setup;
pub mod trusted_executable;
pub mod unix_path;
