//! The settings of the program.

use vstd::prelude::*;
use crate::text::owned;

verus! {

/// The settings that the program runs with.
#[derive(Debug, Clone)]
pub struct Config {
    pub output_dir: String,
    pub concurrent_downloads: usize,
    pub user_agent: String,
    pub timeout: u64,
    pub retries: usize,
}

/// The settings as plain values.
pub struct ConfigView {
    pub output_dir: Seq<char>,
    pub concurrent_downloads: usize,
    pub user_agent: Seq<char>,
    pub timeout: u64,
    pub retries: usize,
}

/// Why the settings could not be loaded.
#[derive(Debug, Clone, Copy, PartialEq, Eq, Structural)]
pub enum ConfigError {
    /// The stored settings could not be read.
    Unreadable,
}

impl View for Config {
    type V = ConfigView;

    open spec fn view(&self) -> ConfigView {
        ConfigView {
            output_dir: self.output_dir@,
            concurrent_downloads: self.concurrent_downloads,
            user_agent: self.user_agent@,
            timeout: self.timeout,
            retries: self.retries,
        }
    }
}

/// The settings used where none are stored: the current directory, one
/// transfer at a time, 30 seconds for a request, 3 attempts.
pub open spec fn default_settings() -> ConfigView {
    ConfigView {
        output_dir: "."@,
        concurrent_downloads: 1,
        user_agent: "yt-dlp-ng/0.1.0"@,
        timeout: 30,
        retries: 3,
    }
}

impl Default for Config {
    fn default() -> (r: Self)
        ensures
            r@ == default_settings(),
    {
        Self {
            output_dir: owned("."),
            concurrent_downloads: 1,
            user_agent: owned("yt-dlp-ng/0.1.0"),
            timeout: 30,
            retries: 3,
        }
    }
}

impl Config {
    /// The settings of the program. Nothing is stored yet, so these are the
    /// default settings.
    pub fn load() -> (r: Result<Self, ConfigError>)
        ensures
            r is Ok,
            r->Ok_0@ == default_settings(),
    {
        Ok(Self::default())
    }
}

} // verus!
