use wikidot_normalize::{is_normal, is_normal_with, normalize, normalize_with, WordClass};

fn normalized(input: &str) -> String {
    let mut text = String::from(input);
    normalize(&mut text);
    text
}

const SAMPLES: [&str; 40] = [
    "",
    "a",
    "A",
    "big-cheese-horace",
    "Big Cheese Horace",
    "bottom--Text",
    "--TEST--",
    ":test:",
    "fragment::scp-4447-2",
    "fragment:scp-4447-2",
    "protected::fragment::_template",
    "protected-fragment:_template",
    "_default:_template",
    "_template",
    "__template",
    "/fragment:_template",
    "/_default:x",
    " a ",
    "a b",
    "a_b",
    "a-_b",
    "_-a",
    "a:-b",
    "a-:b",
    "a:b:c",
    "-",
    ":",
    "_",
    "_:_",
    "_default",
    "_default:",
    "default:x",
    "\u{fb01}",
    "fi",
    "ÄÀ-áö ðñæ_þß*řƒŦ",
    "äà-áö-ðñæ-þß-řƒŧ",
    "Site-五",
    "🚗A‱B⁜C",
    "\u{130}stanbul",
    "tufto's  proposal",
];

#[test]
fn canonical_inputs_are_normal() {
    assert!(is_normal(""));
    assert!(is_normal("big-cheese-horace"));
}

#[test]
fn predicate_accepts_exactly_the_fixed_points() {
    for input in SAMPLES {
        assert_eq!(is_normal(input), normalized(input) == input, "{:?}", input);
    }
}

#[test]
fn predicate_rejects_each_kind_of_defect() {
    let defects = [
        "a b", "a/b", "A", "Äb", "a--b", "a::b", "a:-b", "a-:b", "_-a", "a-_b", "-a", "a-", ":a",
        "a:", "a_b", "__a", "a:b:c", "_default:a", " a", "a ", "/a", "\u{fb01}", "%41",
    ];
    for name in defects {
        assert!(!is_normal(name), "{:?}", name);
    }
}

#[test]
fn predicate_accepts_normal_names() {
    let names = [
        "a", "a-b", "cat:page", "_template", "cat:_template", "100-is-a-lot", "site-五",
        "äà-áö", "_", "_:_",
    ];
    for name in names {
        assert!(is_normal(name), "{:?}", name);
    }
}

#[test]
fn normalize_is_idempotent() {
    for input in SAMPLES {
        let once = normalized(input);
        let twice = normalized(&once);
        assert_eq!(twice, once, "{:?}", input);
        assert!(is_normal(&once), "{:?}", input);
    }
}

#[test]
fn normal_forms_hold_only_allowed_characters() {
    let class = WordClass::new().expect("the word class compiles");
    for input in SAMPLES {
        for c in normalized(input).chars() {
            assert!(c == '-' || c == ':' || c == '_' || class.contains(c), "{:?}", input);
            let lower: String = c.to_lowercase().collect();
            assert_eq!(lower, c.to_string(), "{:?}", input);
        }
    }
}

#[test]
fn normal_forms_hold_no_forbidden_neighbours() {
    for input in SAMPLES {
        let out = normalized(input);
        for pair in ["--", "::", ":-", "-:", "_-", "-_"] {
            assert!(!out.contains(pair), "{:?} gives {:?}", input, out);
        }
    }
}

#[test]
fn normal_forms_have_clean_ends() {
    for input in SAMPLES {
        let out = normalized(input);
        assert!(!out.starts_with('-') && !out.starts_with(':'), "{:?}", input);
        assert!(!out.ends_with('-') && !out.ends_with(':'), "{:?}", input);
    }
}

#[test]
fn normal_forms_hold_at_most_one_colon_and_placed_underscores() {
    for input in SAMPLES {
        let out: Vec<char> = normalized(input).chars().collect();
        assert!(out.iter().filter(|c| **c == ':').count() <= 1, "{:?}", input);
        for i in 0..out.len() {
            if out[i] == '_' {
                assert!(i == 0 || out[i - 1] == ':', "{:?}", input);
            }
        }
    }
}

#[test]
fn concrete_scenarios() {
    let cases = [
        ("Big Cheese Horace", "big-cheese-horace"),
        ("bottom--Text", "bottom-text"),
        ("--TEST--", "test"),
        (":test:", "test"),
        ("fragment::scp-4447-2", "fragment:scp-4447-2"),
        ("_default:_template", "_template"),
        ("__template", "_template"),
        ("/fragment:_template", "fragment:_template"),
    ];
    for (input, expected) in cases {
        assert_eq!(normalized(input), expected);
    }
}

#[test]
fn earlier_categories_merge_into_the_name() {
    assert_eq!(
        normalized("protected::fragment::_template"),
        "protected-fragment:_template"
    );
    assert_eq!(normalized("a:b:c"), "a-b:c");
    assert_eq!(normalized("a:b:"), "a-b");
}

#[test]
fn only_one_leading_slash_is_a_path_separator() {
    assert_eq!(normalized("/_template"), "_template");
    assert_eq!(normalized("//_template"), "template");
    assert_eq!(normalized(" /page"), "page");
    assert_eq!(normalized("/ page"), "page");
    assert_eq!(normalized("a/_b"), "a-b");
}

#[test]
fn shared_word_class_gives_the_same_results() {
    let class = WordClass::new().expect("the word class compiles");
    for input in SAMPLES {
        let mut text = String::from(input);
        normalize_with(&class, &mut text);
        assert_eq!(text, normalized(input), "{:?}", input);
        assert_eq!(is_normal_with(&class, input), is_normal(input), "{:?}", input);
    }
}

#[test]
fn unicode_edge_cases() {
    let cases = [
        ("\u{fb01}sh", "fish"),
        ("\u{130}stanbul", "i-stanbul"),
        ("Ｆｕｌｌ　Ｗｉｄｔｈ", "full-width"),
        ("e\u{301}", "é"),
        ("x\u{301}\u{301}", "x"),
        ("\u{a0}page\u{2003}", "page"),
        ("ǅ", "dž"),
    ];
    for (input, expected) in cases {
        assert_eq!(normalized(input), expected, "{:?}", input);
    }
}
