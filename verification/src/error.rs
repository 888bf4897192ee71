//! What can go wrong before any file or network is touched.

use vstd::prelude::*;

verus! {

/// A property of the host that no retry can mend.
#[derive(Clone, Copy, Debug, PartialEq, Eq, Structural)]
pub enum ConfigError {
    /// No releases are published for the host's operating system.
    UnsupportedPlatform,
    /// The user has no home directory to keep the store under.
    NoHomeDirectory,
}

/// Why an install request could not be turned into a plan.
#[derive(Clone, Debug, PartialEq, Eq)]
pub enum InstallError {
    /// The host cannot be served at all.
    Config(ConfigError),
    /// The catalog holds an identifier that is not three dot-separated
    /// numbers, so the releases cannot be put in order.
    MalformedVersion(String),
}

impl ConfigError {
    /// A sentence for the user.
    pub fn message(&self) -> (text: &'static str)
        ensures
            text@ == match *self {
                ConfigError::UnsupportedPlatform => "Unsupported platform."@,
                ConfigError::NoHomeDirectory => "failed to get home folder"@,
            },
    {
        match self {
            ConfigError::UnsupportedPlatform => "Unsupported platform.",
            ConfigError::NoHomeDirectory => "failed to get home folder",
        }
    }
}

} // verus!
