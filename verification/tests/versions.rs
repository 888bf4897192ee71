use solc_select::{exceeds, sort_newest_first, split_version};

fn strings(items: &[&str]) -> Vec<String> {
    items.iter().map(|s| s.to_string()).collect()
}

#[test]
fn split_version_reads_three_numbers() {
    assert_eq!(split_version("0.8.4"), Some((0, 8, 4)));
    assert_eq!(split_version("0.8.10"), Some((0, 8, 10)));
    assert_eq!(split_version("12.0.345"), Some((12, 0, 345)));
    assert_eq!(split_version("0.0.0"), Some((0, 0, 0)));
}

#[test]
fn split_version_accepts_what_an_unsigned_parse_accepts() {
    assert_eq!(split_version("+1.02.0003"), Some((1, 2, 3)));
    assert_eq!(split_version("4294967295.0.0"), Some((u32::MAX, 0, 0)));
    assert_eq!(split_version("00000000000000000000001.2.3"), Some((1, 2, 3)));
}

#[test]
fn split_version_agrees_with_the_standard_parse() {
    for field in ["0", "7", "+7", "-7", "", "+", "++1", "1+", " 1", "1 ", "4294967295", "4294967296", "99999999999", "0x1", "١"] {
        let text = format!("{}.1.2", field);
        let expected = field.parse::<u32>().ok().map(|n| (n, 1, 2));
        assert_eq!(split_version(&text), expected, "field {:?}", field);
    }
}

#[test]
fn split_version_rejects_other_shapes() {
    assert_eq!(split_version(""), None);
    assert_eq!(split_version("0"), None);
    assert_eq!(split_version("0.8"), None);
    assert_eq!(split_version("0.8.4.1"), None);
    assert_eq!(split_version("0.8."), None);
    assert_eq!(split_version(".8.4"), None);
    assert_eq!(split_version("0..4"), None);
    assert_eq!(split_version("a.b.c"), None);
    assert_eq!(split_version("0.8.4-nightly"), None);
    assert_eq!(split_version("-1.0.0"), None);
    assert_eq!(split_version("4294967296.0.0"), None);
    assert_eq!(split_version("all"), None);
}

#[test]
fn exceeds_compares_major_then_minor_then_patch() {
    assert!(exceeds((0, 8, 10), (0, 8, 4)));
    assert!(exceeds((0, 8, 4), (0, 7, 6)));
    assert!(exceeds((1, 0, 0), (0, 99, 99)));
    assert!(!exceeds((0, 8, 4), (0, 8, 4)));
    assert!(!exceeds((0, 8, 4), (0, 8, 10)));
    assert!(!exceeds((0, 7, 6), (0, 8, 4)));
}

#[test]
fn listing_is_numeric_not_lexicographic() {
    let sorted = sort_newest_first(&strings(&["0.8.4", "0.8.10", "0.7.6"]));
    assert_eq!(sorted, Ok(strings(&["0.8.10", "0.8.4", "0.7.6"])));
}

#[test]
fn listing_is_the_same_for_every_input_order() {
    let expected = Ok(strings(&["0.8.10", "0.8.4", "0.7.6"]));
    assert_eq!(sort_newest_first(&strings(&["0.7.6", "0.8.4", "0.8.10"])), expected);
    assert_eq!(sort_newest_first(&strings(&["0.8.10", "0.7.6", "0.8.4"])), expected);
    assert_eq!(sort_newest_first(&strings(&["0.8.10", "0.8.4", "0.7.6"])), expected);
}

#[test]
fn listing_keeps_equal_releases_in_input_order() {
    let sorted = sort_newest_first(&strings(&["0.8.4", "1.0.0", "0.08.4", "+0.8.4", "0.9.0"]));
    assert_eq!(sorted, Ok(strings(&["1.0.0", "0.9.0", "0.8.4", "0.08.4", "+0.8.4"])));
}

#[test]
fn listing_of_nothing_is_empty() {
    assert_eq!(sort_newest_first(&Vec::new()), Ok(Vec::new()));
}

#[test]
fn listing_keeps_every_identifier() {
    let input = strings(&["0.4.11", "0.4.2", "0.5.0", "0.4.2", "0.10.0", "0.4.26"]);
    let sorted = sort_newest_first(&input).unwrap();
    let mut a = input.clone();
    let mut b = sorted.clone();
    a.sort();
    b.sort();
    assert_eq!(a, b);
    for pair in sorted.windows(2) {
        let newer = split_version(&pair[0]).unwrap();
        let older = split_version(&pair[1]).unwrap();
        assert!(!exceeds(older, newer));
    }
}

#[test]
fn listing_fails_at_the_first_malformed_identifier() {
    assert_eq!(sort_newest_first(&strings(&["0.8.4", "nightly", "0.7", "0.7.6"])), Err(1));
    assert_eq!(sort_newest_first(&strings(&["0.8"])), Err(0));
}
