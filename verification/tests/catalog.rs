use solc_select::{get_available_versions, Catalog};

fn published(items: &[(&str, &str)]) -> Vec<(String, String)> {
    items.iter().map(|(v, a)| (v.to_string(), a.to_string())).collect()
}

#[test]
fn a_new_catalog_is_empty() {
    let catalog = Catalog::new();
    assert_eq!(catalog.len(), 0);
    assert!(!catalog.contains_version("0.8.4"));
    assert_eq!(catalog.artifact("0.8.4"), None);
    assert_eq!(catalog.version_list(), Vec::<String>::new());
}

#[test]
fn catalog_holds_what_was_published() {
    let catalog = get_available_versions(published(&[
        ("0.8.4", "solc-linux-amd64-v0.8.4+commit.c7e474f2"),
        ("0.7.6", "solc-linux-amd64-v0.7.6+commit.7338295f"),
    ]));
    assert_eq!(catalog.len(), 2);
    assert!(catalog.contains_version("0.8.4"));
    assert!(catalog.contains_version("0.7.6"));
    assert!(!catalog.contains_version("0.8"));
    assert!(!catalog.contains_version("0.8.40"));
    assert_eq!(
        catalog.artifact("0.7.6"),
        Some(&"solc-linux-amd64-v0.7.6+commit.7338295f".to_string())
    );
    assert_eq!(catalog.artifact("9.9.9"), None);
    assert_eq!(catalog.version_list(), vec!["0.8.4".to_string(), "0.7.6".to_string()]);
    assert_eq!(catalog.position("0.7.6"), Some(1));
    assert_eq!(catalog.position("1.0.0"), None);
    assert_eq!(catalog.release(0).version, "0.8.4");
    assert_eq!(catalog.release(1).artifact, "solc-linux-amd64-v0.7.6+commit.7338295f");
}

#[test]
fn a_later_pair_overrides_an_earlier_one() {
    let catalog = get_available_versions(published(&[
        ("0.8.4", "first"),
        ("0.7.6", "other"),
        ("0.8.4", "second"),
    ]));
    assert_eq!(catalog.len(), 2);
    assert_eq!(catalog.artifact("0.8.4"), Some(&"second".to_string()));
    assert_eq!(catalog.version_list(), vec!["0.8.4".to_string(), "0.7.6".to_string()]);
}

#[test]
fn insert_records_and_replaces() {
    let mut catalog = Catalog::new();
    catalog.insert("0.8.4".to_string(), "a".to_string());
    assert_eq!(catalog.len(), 1);
    assert_eq!(catalog.artifact("0.8.4"), Some(&"a".to_string()));
    catalog.insert("0.8.5".to_string(), "b".to_string());
    assert_eq!(catalog.len(), 2);
    catalog.insert("0.8.4".to_string(), "c".to_string());
    assert_eq!(catalog.len(), 2);
    assert_eq!(catalog.artifact("0.8.4"), Some(&"c".to_string()));
    assert_eq!(catalog.artifact("0.8.5"), Some(&"b".to_string()));
}

#[test]
fn identifiers_are_matched_exactly() {
    let catalog = get_available_versions(published(&[("0.8.4", "a")]));
    assert!(!catalog.contains_version(" 0.8.4"));
    assert!(!catalog.contains_version("0.8.04"));
    assert!(!catalog.contains_version("v0.8.4"));
    assert!(!catalog.contains_version(""));
}
