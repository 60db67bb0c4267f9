//! What the app keeps between runs: its settings, and where they live.
use vstd::prelude::*;

use crate::app_data::config::Config;

pub mod config;
pub mod dirs;

verus! {

/// What the app is started with.
pub struct AppData {
    pub config: Config,
}

} // verus!
