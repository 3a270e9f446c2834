use vstd::prelude::*;

pub mod browser;
pub mod buildinfo;
pub mod cli;
pub mod config;
pub mod crash;
pub mod dialog;
pub mod dsh;
pub mod harness;
pub mod icon;
pub mod json;
pub mod log;
pub mod launcher;
pub mod logfile;
pub mod maintenance;
pub mod paths;
pub mod port;
pub mod probe;
pub mod process;
pub mod service;
pub mod service_record;
pub mod settings;
pub mod single_instance;
pub mod text;
pub mod tray;
pub mod uninstall;
pub mod winpath;

verus! {

/// Internal application identifier (directory names, mutex names, registry key).
pub const APP_NAME: &'static str = "DSHLauncher";

/// User-visible product name.
pub const PRODUCT_NAME: &'static str = "DeepSeek Harness Launcher";

} // verus!
