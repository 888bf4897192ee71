//! The host platform, and the key under which releases for it are published.

use crate::error::ConfigError;
use crate::text::same_text;
use vstd::prelude::*;

verus! {

/// A platform that releases are published for.
#[derive(Clone, Copy, Debug, PartialEq, Eq, Structural)]
pub enum Platform {
    LinuxAmd64,
    MacosxAmd64,
}

/// The error that `sys_info` reports when it cannot tell the host's system.
#[verifier::external_type_specification]
#[verifier::external_body]
pub struct ExSysInfoError(sys_info::Error);

impl Platform {
    /// The path segment that names this platform on the release server.
    pub open spec fn key(self) -> Seq<char> {
        match self {
            Platform::LinuxAmd64 => "linux-amd64"@,
            Platform::MacosxAmd64 => "macosx-amd64"@,
        }
    }

    /// The path segment that names this platform on the release server.
    pub fn catalog_key(&self) -> (key: &'static str)
        ensures
            key@ == self.key(),
    {
        match self {
            Platform::LinuxAmd64 => "linux-amd64",
            Platform::MacosxAmd64 => "macosx-amd64",
        }
    }
}

/// The platform that serves a host whose operating system reports the name
/// `os`: Linux and Darwin are served, spelled exactly so; nothing else is.
pub open spec fn platform_named(os: Seq<char>) -> Option<Platform> {
    if os == "Linux"@ {
        Some(Platform::LinuxAmd64)
    } else if os == "Darwin"@ {
        Some(Platform::MacosxAmd64)
    } else {
        None
    }
}

/// The platform for a host from what it reported about itself. A host that
/// could not name its system is unsupported, like one with an unknown name.
pub open spec fn platform_reported(report: Result<String, sys_info::Error>) -> Result<
    Platform,
    ConfigError,
> {
    match report {
        Ok(name) => match platform_named(name@) {
            Some(platform) => Ok(platform),
            None => Err(ConfigError::UnsupportedPlatform),
        },
        Err(_) => Err(ConfigError::UnsupportedPlatform),
    }
}

/// Asks `sys_info::os_type` for the name of the host's operating system,
/// such as `Linux` or `Darwin`. Nothing is claimed of the answer: it is a
/// fact about the machine.
#[verifier::external_body]
fn os_type() -> (report: Result<String, sys_info::Error>) {
    sys_info::os_type()
}

/// Chooses the platform for a host from what it reported about itself.
pub fn platform_for_report(report: Result<String, sys_info::Error>) -> (result: Result<
    Platform,
    ConfigError,
>)
    ensures
        result == platform_reported(report),
{
    match report {
        Ok(name) => {
            if same_text(name.as_str(), "Linux") {
                Ok(Platform::LinuxAmd64)
            } else if same_text(name.as_str(), "Darwin") {
                Ok(Platform::MacosxAmd64)
            } else {
                Err(ConfigError::UnsupportedPlatform)
            }
        },
        Err(_) => Err(ConfigError::UnsupportedPlatform),
    }
}

/// Resolves the platform of the host this process runs on.
///
/// The only failure is an unsupported host; which platform comes back is
/// decided by the machine.
pub fn soliditylang_platform() -> (result: Result<Platform, ConfigError>)
    ensures
        result is Err ==> result == Err::<Platform, ConfigError>(ConfigError::UnsupportedPlatform),
{
    platform_for_report(os_type())
}

} // verus!
