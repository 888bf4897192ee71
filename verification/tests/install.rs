use solc_select::{
    artifact_dir_in, catalog_url, get_available_versions, install_step_for, install_versions,
    list_available, plan_downloads, platform_for_report, ConfigError, Download, DownloadPlan,
    InstallError, InstallStep, Platform, ARTIFACT_MODE,
};

fn requests(items: &[&str]) -> Vec<String> {
    items.iter().map(|s| s.to_string()).collect()
}

fn server(items: &[(&str, &str)]) -> Vec<(String, String)> {
    items.iter().map(|(v, a)| (v.to_string(), a.to_string())).collect()
}

const DIR: &str = "/home/alice/.solc-select/artifacts";

#[test]
fn an_empty_request_lists_newest_first() {
    let catalog = get_available_versions(server(&[
        ("0.8.4", "a"),
        ("0.8.10", "b"),
        ("0.7.6", "c"),
    ]));
    assert_eq!(list_available(&catalog), Ok(requests(&["0.8.10", "0.8.4", "0.7.6"])));
}

#[test]
fn listing_an_empty_catalog() {
    let catalog = get_available_versions(Vec::new());
    assert_eq!(list_available(&catalog), Ok(Vec::new()));
}

#[test]
fn listing_fails_on_a_malformed_identifier() {
    let catalog = get_available_versions(server(&[
        ("0.8.4", "a"),
        ("0.8", "b"),
        ("nightly", "c"),
    ]));
    assert_eq!(list_available(&catalog), Err(InstallError::MalformedVersion("0.8".to_string())));
}

#[test]
fn a_named_release_is_downloaded() {
    let catalog = get_available_versions(server(&[
        ("0.8.4", "solc-linux-amd64-v0.8.4+commit.c7e474f2"),
        ("0.7.6", "solc-linux-amd64-v0.7.6+commit.7338295f"),
    ]));
    let plan = plan_downloads(&requests(&["0.7.6"]), &catalog, Platform::LinuxAmd64, DIR);
    assert_eq!(
        plan,
        DownloadPlan {
            downloads: vec![Download {
                version: "0.7.6".to_string(),
                url: "https://binaries.soliditylang.org/linux-amd64/solc-linux-amd64-v0.7.6+commit.7338295f".to_string(),
                path: "/home/alice/.solc-select/artifacts/solc-0.7.6".to_string(),
                mode: 0o775,
            }],
            unmatched: Vec::new(),
        }
    );
}

#[test]
fn all_downloads_every_release_in_catalog_order() {
    let catalog = get_available_versions(server(&[("0.8.4", "x"), ("0.7.6", "y"), ("0.5.0", "z")]));
    let plan = plan_downloads(&requests(&["all"]), &catalog, Platform::MacosxAmd64, DIR);
    let versions: Vec<&str> = plan.downloads.iter().map(|d| d.version.as_str()).collect();
    assert_eq!(versions, vec!["0.8.4", "0.7.6", "0.5.0"]);
    let urls: Vec<&str> = plan.downloads.iter().map(|d| d.url.as_str()).collect();
    assert_eq!(
        urls,
        vec![
            "https://binaries.soliditylang.org/macosx-amd64/x",
            "https://binaries.soliditylang.org/macosx-amd64/y",
            "https://binaries.soliditylang.org/macosx-amd64/z",
        ]
    );
    assert_eq!(plan.unmatched, Vec::<String>::new());
}

#[test]
fn all_together_with_names_downloads_each_once() {
    let catalog = get_available_versions(server(&[("0.8.4", "x"), ("0.7.6", "y")]));
    let plan = plan_downloads(&requests(&["0.8.4", "all", "0.8.4"]), &catalog, Platform::LinuxAmd64, DIR);
    assert_eq!(plan.downloads.len(), 2);
    assert_eq!(plan.unmatched, Vec::<String>::new());
}

#[test]
fn a_release_requested_twice_is_downloaded_once() {
    let catalog = get_available_versions(server(&[("0.8.4", "x"), ("0.7.6", "y")]));
    let plan = plan_downloads(&requests(&["0.7.6", "0.7.6"]), &catalog, Platform::LinuxAmd64, DIR);
    assert_eq!(plan.downloads.len(), 1);
    assert_eq!(plan.downloads[0].version, "0.7.6");
}

#[test]
fn unmatched_requests_lead_to_no_download() {
    let catalog = get_available_versions(server(&[("0.8.4", "x")]));
    let plan = plan_downloads(&requests(&["9.9.9", "0.8.4", "0.8"]), &catalog, Platform::LinuxAmd64, DIR);
    assert_eq!(plan.downloads.len(), 1);
    assert_eq!(plan.downloads[0].version, "0.8.4");
    assert_eq!(plan.unmatched, requests(&["9.9.9", "0.8"]));

    let nothing = plan_downloads(&requests(&["9.9.9"]), &catalog, Platform::LinuxAmd64, DIR);
    assert_eq!(nothing.downloads, Vec::new());
    assert_eq!(nothing.unmatched, requests(&["9.9.9"]));
}

#[test]
fn every_download_is_made_executable() {
    let catalog = get_available_versions(server(&[("0.8.4", "x"), ("0.7.6", "y")]));
    let plan = plan_downloads(&requests(&["all"]), &catalog, Platform::LinuxAmd64, DIR);
    assert_eq!(ARTIFACT_MODE, 0o775);
    for download in &plan.downloads {
        assert_eq!(download.mode, 0o775);
        assert_eq!(download.mode & 0o111, 0o111);
    }
}

#[test]
fn downloads_need_no_well_formed_identifiers() {
    let catalog = get_available_versions(server(&[("nightly", "n"), ("0.8.4", "x")]));
    let plan = plan_downloads(&requests(&["nightly"]), &catalog, Platform::LinuxAmd64, DIR);
    assert_eq!(plan.downloads.len(), 1);
    assert_eq!(plan.downloads[0].path, "/home/alice/.solc-select/artifacts/solc-nightly");
}

#[test]
fn an_empty_request_only_fetches_the_catalog() {
    match platform_for_report(sys_info::os_type()) {
        Ok(platform) => assert_eq!(
            install_versions(&Vec::new()),
            Ok(InstallStep::FetchToList { catalog_url: catalog_url(platform) })
        ),
        Err(e) => assert_eq!(install_versions(&Vec::new()), Err(InstallError::Config(e))),
    }
}

#[test]
fn a_request_prepares_the_directory_of_this_host() {
    let wanted = requests(&["0.8.4", "1.2.3"]);
    let platform = platform_for_report(sys_info::os_type());
    let home = dirs::home_dir().and_then(|p| p.to_str().map(|s| s.to_string()));
    match (platform, home) {
        (Ok(platform), Some(home)) => assert_eq!(
            install_versions(&wanted),
            Ok(InstallStep::FetchToInstall {
                directory: artifact_dir_in(&home),
                catalog_url: catalog_url(platform),
                platform,
            })
        ),
        (Err(e), _) => assert_eq!(install_versions(&wanted), Err(InstallError::Config(e))),
        (Ok(_), None) => assert_eq!(
            install_versions(&wanted),
            Err(InstallError::Config(ConfigError::NoHomeDirectory))
        ),
    }
}

#[test]
fn the_first_step_of_a_listing_needs_no_home() {
    let expected = Ok(InstallStep::FetchToList {
        catalog_url: "https://binaries.soliditylang.org/macosx-amd64/list.json".to_string(),
    });
    assert_eq!(install_step_for(&Vec::new(), Platform::MacosxAmd64, None), expected);
    assert_eq!(install_step_for(&Vec::new(), Platform::MacosxAmd64, Some("/tmp/home")), expected);
}

#[test]
fn the_first_step_of_an_install_names_the_directory() {
    assert_eq!(
        install_step_for(&requests(&["0.8.4"]), Platform::LinuxAmd64, Some("/tmp/home")),
        Ok(InstallStep::FetchToInstall {
            directory: "/tmp/home/.solc-select/artifacts".to_string(),
            catalog_url: "https://binaries.soliditylang.org/linux-amd64/list.json".to_string(),
            platform: Platform::LinuxAmd64,
        })
    );
}

#[test]
fn an_install_without_a_home_fails() {
    assert_eq!(
        install_step_for(&requests(&["all"]), Platform::LinuxAmd64, None),
        Err(InstallError::Config(ConfigError::NoHomeDirectory))
    );
}
