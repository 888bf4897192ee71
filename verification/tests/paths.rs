use solc_select::{
    artifact_dir_in, artifact_file_name, artifact_path, get_artifact_dir,
    get_global_version_path, global_version_path_in, join, ConfigError,
};
use std::path::PathBuf;

fn pushed(base: &str, name: &str) -> String {
    let mut path = PathBuf::from(base);
    path.push(name);
    path.to_str().unwrap().to_string()
}

#[test]
fn join_puts_one_separator_between() {
    assert_eq!(join("/home/alice", ".solc-select"), "/home/alice/.solc-select");
    assert_eq!(join("/home/alice/", ".solc-select"), "/home/alice/.solc-select");
    assert_eq!(join("/", "tmp"), "/tmp");
    assert_eq!(join("", "tmp"), "tmp");
    assert_eq!(join("relative", ""), "relative/");
}

#[test]
fn join_agrees_with_pushing_onto_a_path() {
    for base in ["/home/alice", "/home/alice/", "/", "", "a/b", "/tmp/ü"] {
        for name in [".solc-select", "artifacts", "solc-0.8.4", "global-version"] {
            assert_eq!(join(base, name), pushed(base, name));
        }
    }
}

#[test]
fn artifact_dir_is_under_the_store_root() {
    assert_eq!(artifact_dir_in("/home/alice"), "/home/alice/.solc-select/artifacts");
    assert_eq!(artifact_dir_in("/"), "/.solc-select/artifacts");
}

#[test]
fn pointer_file_is_under_the_store_root() {
    assert_eq!(global_version_path_in("/home/alice"), "/home/alice/.solc-select/global-version");
}

#[test]
fn artifact_file_name_has_the_prefix() {
    assert_eq!(artifact_file_name("0.8.4"), "solc-0.8.4");
    assert_eq!(artifact_file_name(""), "solc-");
}

#[test]
fn artifact_path_is_inside_the_directory() {
    assert_eq!(
        artifact_path("/home/alice/.solc-select/artifacts", "0.8.4"),
        "/home/alice/.solc-select/artifacts/solc-0.8.4"
    );
}

#[test]
fn host_paths_follow_the_home_directory() {
    let home = dirs::home_dir().and_then(|p| p.to_str().map(|s| s.to_string()));
    match home {
        Some(home) => {
            assert_eq!(get_artifact_dir(), Ok(artifact_dir_in(&home)));
            assert_eq!(get_global_version_path(), Ok(global_version_path_in(&home)));
            assert_eq!(get_artifact_dir().unwrap(), pushed(&pushed(&home, ".solc-select"), "artifacts"));
        }
        None => {
            assert_eq!(get_artifact_dir(), Err(ConfigError::NoHomeDirectory));
            assert_eq!(get_global_version_path(), Err(ConfigError::NoHomeDirectory));
        }
    }
}
