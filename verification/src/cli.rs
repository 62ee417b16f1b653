//! The older command-line front end, which loads plugins as shared libraries.
use vstd::prelude::*;

verus! {

/// Its command line.
#[derive(Debug, Clone, PartialEq, Eq)]
pub struct Args {
    pub command: Command,
}

/// Its commands.
#[derive(Debug, Clone, Copy, PartialEq, Eq, Structural)]
pub enum Command {
    List,
}

/// Its configuration: the plugins to load.
#[derive(Debug, Clone, PartialEq, Eq)]
pub struct Config {
    pub plugins: Vec<String>,
}

impl Default for Config {
    fn default() -> (c: Self)
        ensures
            c.plugins@.len() == 0,
    {
        Config { plugins: Vec::new() }
    }
}

} // verus!
