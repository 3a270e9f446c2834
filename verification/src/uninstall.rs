//! The uninstaller's logic: its command line, its guards, its plan, and the
//! reports it prints. The file system, registry and process work is the
//! caller's; every deletion it makes is decided here first.
pub mod args;
pub mod guards;
pub mod host;
pub mod plan;
pub mod report;
