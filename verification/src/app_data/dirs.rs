//! Where the app keeps its files: a settings directory and a saves directory
//! beside the program.
use vstd::prelude::*;

verus! {

pub struct AppDirectories {
    config: String,
    saves: String,
}

/// The two directories' paths.
pub struct AppDirectoriesView {
    pub config: Seq<char>,
    pub saves: Seq<char>,
}

impl View for AppDirectories {
    type V = AppDirectoriesView;

    closed spec fn view(&self) -> AppDirectoriesView {
        AppDirectoriesView { config: self.config@, saves: self.saves@ }
    }
}

impl AppDirectories {
    pub fn new(config: String, saves: String) -> (r: Self)
        ensures
            r@ == (AppDirectoriesView { config: config@, saves: saves@ }),
    {
        AppDirectories { config, saves }
    }

    /// The settings directory.
    pub fn config(&self) -> (r: &str)
        ensures
            r@ == self@.config,
    {
        self.config.as_str()
    }

    /// The saves directory, where the log goes.
    pub fn saves(&self) -> (r: &str)
        ensures
            r@ == self@.saves,
    {
        self.saves.as_str()
    }
}

} // verus!
