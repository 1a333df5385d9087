//! Verified core of a dotfile manager: module dependency resolution, module
//! configuration checks, the review of diverged files, log rotation and the
//! small formatting and parsing helpers the deployment relies on.

pub mod text;
pub mod resolver;
pub mod review;
pub mod logs;
pub mod perms;
pub mod actions;
pub mod backup;
pub mod checksum;
pub mod paths;
pub mod module;
pub mod module_config;
pub mod deployed;
pub mod errors;
pub mod cli;
pub mod conditions;
pub mod console;
pub mod config;
pub mod packages;
pub mod plan;
pub mod session;
pub mod tasks;
pub mod steps;
