use solc_select::{
    artifact_url, catalog_url, platform_for_report, soliditylang_platform, ConfigError, Platform,
};

#[test]
fn linux_and_darwin_are_served() {
    assert_eq!(platform_for_report(Ok("Linux".to_string())), Ok(Platform::LinuxAmd64));
    assert_eq!(platform_for_report(Ok("Darwin".to_string())), Ok(Platform::MacosxAmd64));
}

#[test]
fn other_systems_are_unsupported() {
    for name in ["Windows", "linux", "LINUX", "Linux\n", "", "freebsd", "Darwin "] {
        assert_eq!(
            platform_for_report(Ok(name.to_string())),
            Err(ConfigError::UnsupportedPlatform)
        );
    }
}

#[test]
fn a_host_that_cannot_name_itself_is_unsupported() {
    assert_eq!(
        platform_for_report(Err(sys_info::Error::UnsupportedSystem)),
        Err(ConfigError::UnsupportedPlatform)
    );
    assert_eq!(
        platform_for_report(Err(sys_info::Error::Unknown)),
        Err(ConfigError::UnsupportedPlatform)
    );
}

#[test]
fn platform_keys() {
    assert_eq!(Platform::LinuxAmd64.catalog_key(), "linux-amd64");
    assert_eq!(Platform::MacosxAmd64.catalog_key(), "macosx-amd64");
}

#[test]
fn the_host_platform_follows_its_report() {
    assert_eq!(soliditylang_platform(), platform_for_report(sys_info::os_type()));
    if let Err(e) = soliditylang_platform() {
        assert_eq!(e, ConfigError::UnsupportedPlatform);
    }
}

#[test]
fn catalog_url_names_the_platform() {
    assert_eq!(
        catalog_url(Platform::LinuxAmd64),
        "https://binaries.soliditylang.org/linux-amd64/list.json"
    );
    assert_eq!(
        catalog_url(Platform::MacosxAmd64),
        "https://binaries.soliditylang.org/macosx-amd64/list.json"
    );
}

#[test]
fn artifact_url_names_platform_and_file() {
    assert_eq!(
        artifact_url(Platform::LinuxAmd64, "solc-linux-amd64-v0.8.4+commit.c7e474f2"),
        "https://binaries.soliditylang.org/linux-amd64/solc-linux-amd64-v0.8.4+commit.c7e474f2"
    );
    assert_eq!(
        artifact_url(Platform::MacosxAmd64, ""),
        "https://binaries.soliditylang.org/macosx-amd64/"
    );
}

#[test]
fn config_errors_have_messages() {
    assert_eq!(ConfigError::UnsupportedPlatform.message(), "Unsupported platform.");
    assert_eq!(ConfigError::NoHomeDirectory.message(), "failed to get home folder");
}
