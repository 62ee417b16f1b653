//! The configuration of `unipac`.
use vstd::prelude::*;

verus! {

/// The configuration.
#[derive(Debug, Clone, PartialEq, Eq)]
pub struct Config {
    pub general: ConfigGeneral,
}

/// The `[general]` section of the configuration.
#[derive(Debug, Clone, PartialEq, Eq)]
pub struct ConfigGeneral {
    /// The paths of the plugin programs.
    pub plugins: Vec<String>,
}

impl Default for ConfigGeneral {
    fn default() -> (g: Self)
        ensures
            g.plugins@.len() == 0,
    {
        ConfigGeneral { plugins: Vec::new() }
    }
}

impl Default for Config {
    fn default() -> (c: Self)
        ensures
            c.general.plugins@.len() == 0,
    {
        Config { general: ConfigGeneral::default() }
    }
}

/// Where the configuration comes from.
#[derive(Debug, Clone, PartialEq, Eq)]
pub enum ConfigSource {
    /// No file: the default configuration.
    Defaults,
    /// The file at this path.
    File(String),
}

impl Config {
    /// Where the configuration is read from: the file given, else the default file when it
    /// exists, else nowhere. A file that was given is read even if it does not exist, so
    /// that its absence is reported.
    pub fn from_opt_file(path: Option<String>, default_path: String, default_exists: bool) -> (s: ConfigSource)
        ensures
            match path {
                Some(p) => s matches ConfigSource::File(f) && f == p,
                None => if default_exists {
                    s matches ConfigSource::File(f) && f == default_path
                } else {
                    s is Defaults
                },
            },
    {
        match path {
            Some(p) => ConfigSource::File(p),
            None => {
                if default_exists {
                    ConfigSource::File(default_path)
                } else {
                    ConfigSource::Defaults
                }
            },
        }
    }
}

} // verus!
