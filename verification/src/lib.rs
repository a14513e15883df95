//! zipline: the logic behind a friendly wizard that locks files with one password.

pub mod app;
pub mod archive;
pub mod backend;
pub mod browser;
pub mod cli;
pub mod commands;
pub mod order;
pub mod paths;
pub mod pty;
pub mod steps;
pub mod text;
pub mod ui;
pub mod update;

use vstd::prelude::*;

verus! {

/// The release of zipline this library belongs to.
pub const VERSION: &'static str = "0.1.0";

} // verus!
