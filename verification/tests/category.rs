use wikidot_normalize::merge_multi_categories;

#[test]
fn test_multi_category() {
    let cases = [
        ("", ""),
        ("alpha", "alpha"),
        ("alpha:beta", "alpha:beta"),
        ("alpha:beta:gamma", "alpha-beta:gamma"),
        ("alpha:beta:gamma:delta", "alpha-beta-gamma:delta"),
        (
            "alpha:beta:gamma:delta:epsilon",
            "alpha-beta-gamma-delta:epsilon",
        ),
    ];

    for (input, expected) in cases {
        let mut text = String::from(input);
        merge_multi_categories(&mut text);
        assert_eq!(
            text, expected,
            "Merged multiple categories doesn't match expected",
        );
    }
}

#[test]
fn merge_keeps_a_single_trailing_or_leading_colon() {
    let cases = [(":", ":"), ("::", "-:"), (":a:", "-a:"), ("a::b", "a-:b")];

    for (input, expected) in cases {
        let mut text = String::from(input);
        merge_multi_categories(&mut text);
        assert_eq!(text, expected);
    }
}

#[test]
fn merge_counts_characters_not_bytes() {
    let mut text = String::from("五:é:ß");
    merge_multi_categories(&mut text);
    assert_eq!(text, "五-é:ß");
}
