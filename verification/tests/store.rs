use solc_select::{
    artifact_file_name, get_current_version, installed_version, installed_versions, whitespace,
};

fn names(items: &[&str]) -> Vec<String> {
    items.iter().map(|s| s.to_string()).collect()
}

#[test]
fn installed_versions_strips_the_prefix() {
    let entries = names(&["solc-0.8.4", "solc-0.7.6"]);
    assert_eq!(installed_versions(&entries), names(&["0.8.4", "0.7.6"]));
}

#[test]
fn installed_versions_skips_other_entries() {
    let entries = names(&["README", "solc-0.8.4", "solc", "Solc-0.1.0", ".solc-0.2.0", "solc-", "solc-x"]);
    assert_eq!(installed_versions(&entries), names(&["0.8.4", "", "x"]));
}

#[test]
fn installed_versions_of_an_empty_directory() {
    assert_eq!(installed_versions(&Vec::new()), Vec::<String>::new());
}

#[test]
fn installed_versions_keeps_characters_outside_ascii() {
    let entries = names(&["solc-ü.1", "sölc-1", "solc-0.8.4\u{2003}"]);
    assert_eq!(installed_versions(&entries), names(&["ü.1", "0.8.4\u{2003}"]));
}

#[test]
fn installed_version_reads_one_name() {
    assert_eq!(installed_version("solc-0.8.4"), Some("0.8.4".to_string()));
    assert_eq!(installed_version("solc-"), Some(String::new()));
    assert_eq!(installed_version("solc"), None);
    assert_eq!(installed_version(""), None);
    assert_eq!(installed_version("global-version"), None);
}

#[test]
fn an_artifact_name_reads_back_as_its_version() {
    for version in ["0.8.4", "", "all", "solc-1", "ü"] {
        let name = artifact_file_name(version);
        assert_eq!(installed_version(&name), Some(version.to_string()));
        assert_eq!(Some(version), name.strip_prefix("solc-"));
    }
}

#[test]
fn current_version_is_the_trimmed_contents() {
    assert_eq!(get_current_version("0.8.4"), "0.8.4");
    assert_eq!(get_current_version("0.8.4\n"), "0.8.4");
    assert_eq!(get_current_version("  \t0.8.4 \r\n"), "0.8.4");
    assert_eq!(get_current_version("0.8.4 beta"), "0.8.4 beta");
    assert_eq!(get_current_version(""), "");
    assert_eq!(get_current_version(" \n\t"), "");
    assert_eq!(get_current_version("\u{a0}0.8.4\u{3000}"), "0.8.4");
}

#[test]
fn current_version_agrees_with_the_standard_trim() {
    for text in ["", " ", "a", " a", "a ", " a b ", "\u{2028}x\u{85}", "é \u{1680}", "\u{200b}a\u{200b}", "\u{feff}a"] {
        assert_eq!(get_current_version(text), text.trim());
    }
}

#[test]
fn trimming_twice_changes_nothing() {
    for text in ["  0.8.4 ", "\n", "x y", ""] {
        let once = get_current_version(text);
        assert_eq!(get_current_version(&once), once);
    }
}

#[test]
fn whitespace_agrees_with_the_standard_library() {
    let mut code: u32 = 0;
    while code <= 0x10FFFF {
        if let Some(c) = char::from_u32(code) {
            assert_eq!(whitespace(c), c.is_whitespace(), "U+{:04X}", code);
        }
        code += 1;
    }
}
