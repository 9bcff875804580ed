use wikidot_normalize::collapse::{
    collapse_chars, drop_beside_chars, squeeze_chars, strip_ends_chars,
};
use wikidot_normalize::filter::filter_chars;
use wikidot_normalize::normal::slug_chars;
use wikidot_normalize::shape::{check_shape, starts_with_chars, strip_default_chars};
use wikidot_normalize::text::{from_chars, same_chars, to_chars};

fn chars(text: &str) -> Vec<char> {
    text.chars().collect()
}

fn text(chars: &Vec<char>) -> String {
    chars.iter().collect()
}

#[test]
fn text_round_trip_keeps_every_character() {
    let source = "a五🚗-é";
    let split = to_chars(source);
    assert_eq!(split, vec!['a', '五', '🚗', '-', 'é']);
    assert_eq!(from_chars(&split), source);
    assert_eq!(to_chars(""), Vec::<char>::new());
    assert_eq!(from_chars(&Vec::new()), "");
}

#[test]
fn same_chars_compares_length_and_content() {
    assert!(same_chars(&chars(""), &chars("")));
    assert!(same_chars(&chars("abc"), &chars("abc")));
    assert!(!same_chars(&chars("abc"), &chars("abd")));
    assert!(!same_chars(&chars("abc"), &chars("ab")));
    assert!(!same_chars(&chars("ab"), &chars("abc")));
}

#[test]
fn filter_replaces_each_run_by_one_dash() {
    let input = chars("a  b!c??");
    let keep = vec![true, false, false, true, false, true, false, false];
    assert_eq!(text(&filter_chars(&input, &keep)), "a-b-c-");
}

#[test]
fn filter_keeps_marked_characters_and_existing_dashes() {
    let input = chars(" -x- ");
    let keep = vec![false, true, true, true, false];
    assert_eq!(text(&filter_chars(&input, &keep)), "--x--");

    let all = chars("abc");
    assert_eq!(text(&filter_chars(&all, &vec![true, true, true])), "abc");
    assert_eq!(text(&filter_chars(&all, &vec![false, false, false])), "-");
    assert_eq!(text(&filter_chars(&Vec::new(), &Vec::new())), "");
}

#[test]
fn strip_ends_removes_whole_runs_at_both_ends() {
    let cases = [
        ("", ""),
        ("-", ""),
        ("----", ""),
        ("--a--", "a"),
        ("a", "a"),
        ("-a-b-", "a-b"),
        (":-a-:", ":-a-:"),
    ];
    for (input, expected) in cases {
        assert_eq!(text(&strip_ends_chars(&chars(input), '-')), expected);
    }
    assert_eq!(text(&strip_ends_chars(&chars("::a:b::"), ':')), "a:b");
}

#[test]
fn squeeze_collapses_runs_of_one_character_only() {
    let cases = [
        ("", ""),
        ("-", "-"),
        ("--", "-"),
        ("a--b---c", "a-b-c"),
        ("--a::b--", "-a::b-"),
    ];
    for (input, expected) in cases {
        assert_eq!(text(&squeeze_chars(&chars(input), '-')), expected);
    }
    assert_eq!(text(&squeeze_chars(&chars("a:::b--c"), ':')), "a:b--c");
}

#[test]
fn drop_beside_removes_the_dash_on_either_side() {
    let cases = [
        ("", ""),
        ("a-:b", "a:b"),
        ("a:-b", "a:b"),
        ("a-:-b", "a:b"),
        ("a-b", "a-b"),
        ("-:", ":"),
        (":-", ":"),
        ("-", "-"),
    ];
    for (input, expected) in cases {
        assert_eq!(text(&drop_beside_chars(&chars(input), '-', ':')), expected);
    }
    assert_eq!(text(&drop_beside_chars(&chars("_-a-:b"), '-', '_')), "_a-:b");
}

#[test]
fn collapse_applies_the_rules_in_order() {
    let cases = [
        ("", ""),
        ("---", ""),
        (":", ""),
        ("--a---b--", "a-b"),
        ("a-:-b", "a:b"),
        ("_-a", "_a"),
        (":_-a-", "_a"),
        ("-:a:-", "a"),
        ("a--:b", "a:b"),
    ];
    for (input, expected) in cases {
        assert_eq!(text(&collapse_chars(&chars(input))), expected);
    }
}

#[test]
fn default_category_is_stripped_only_as_a_prefix() {
    let cases = [
        ("_default:page", "page"),
        ("_default:_template", "_template"),
        ("_default:", ""),
        ("_default", "_default"),
        ("default:page", "default:page"),
        ("x_default:page", "x_default:page"),
        ("", ""),
    ];
    for (input, expected) in cases {
        assert_eq!(text(&strip_default_chars(&chars(input))), expected);
    }
}

#[test]
fn starts_with_compares_character_by_character() {
    assert!(starts_with_chars(&chars("abc"), &chars("")));
    assert!(starts_with_chars(&chars("abc"), &chars("ab")));
    assert!(starts_with_chars(&chars("abc"), &chars("abc")));
    assert!(!starts_with_chars(&chars("abc"), &chars("abcd")));
    assert!(!starts_with_chars(&chars("abc"), &chars("ac")));
}

#[test]
fn shape_accepts_what_the_rules_produce() {
    for name in ["", "a", "a-b", "a:b", "_a", "a:_b", "_a:_b", "_", "a-b:c-d"] {
        assert!(check_shape(&chars(name)), "{}", name);
    }
}

#[test]
fn shape_rejects_each_kind_of_defect() {
    let defects = [
        "a--b", "a::b", "a:-b", "a-:b", "_-a", "a-_b", "-a", "a-", ":a", "a:", "a_b", "__a",
        "a:b:c", "_default:a",
    ];
    for name in defects {
        assert!(!check_shape(&chars(name)), "{}", name);
    }
}

#[test]
fn slug_runs_every_stage_on_classified_text() {
    let input = chars("a b:c:_d_");
    let keep = vec![true, false, true, true, true, true, true, true, true];
    assert_eq!(text(&slug_chars(&input, &keep)), "a-b-c:_d");

    let input = chars("_default:_x y");
    let keep = vec![
        true, true, true, true, true, true, true, true, true, true, true, false, true,
    ];
    assert_eq!(text(&slug_chars(&input, &keep)), "_x-y");
}
