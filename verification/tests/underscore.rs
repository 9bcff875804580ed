use wikidot_normalize::replace_underscores;

#[test]
fn test_replace_underscores() {
    let cases = [
        ("", ""),
        ("a", "a"),
        ("_a", "_a"),
        ("a_", "a-"),
        ("page-name", "page-name"),
        ("_template", "_template"),
        ("__template", "_-template"),
        ("_template_", "_template-"),
        ("_special_page", "_special-page"),
        ("_special__page", "_special--page"),
        ("fragment:page-name", "fragment:page-name"),
        ("fragment:_template", "fragment:_template"),
        ("fragment:__template", "fragment:_-template"),
        ("fragment:_template_", "fragment:_template-"),
        ("fragment:_special_page", "fragment:_special-page"),
        ("fragment:_special__page", "fragment:_special--page"),
        ("_default:page-name", "_default:page-name"),
        ("_default:_template", "_default:_template"),
        ("_default:__template", "_default:_-template"),
        ("_default:_template_", "_default:_template-"),
        ("_default:_special_page", "_default:_special-page"),
        ("_default:_special__page", "_default:_special--page"),
        (
            "protected:fragment:page-name",
            "protected:fragment:page-name",
        ),
        (
            "protected:fragment:_template",
            "protected:fragment:_template",
        ),
        (
            "protected:fragment:__template",
            "protected:fragment:_-template",
        ),
        (
            "protected:fragment:_template_",
            "protected:fragment:_template-",
        ),
        (
            "protected:fragment:_special_page",
            "protected:fragment:_special-page",
        ),
        (
            "protected:fragment:_special__page",
            "protected:fragment:_special--page",
        ),
    ];

    for (input, expected) in cases {
        let mut text = String::from(input);
        replace_underscores(&mut text);
        assert_eq!(
            &text, expected,
            "Underscore replacement didn't match expected (input: '{}')",
            input,
        );
    }
}

#[test]
fn underscore_is_judged_by_the_character_before_it() {
    let cases = [("_", "_"), ("__", "_-"), (":_", ":_"), (":__", ":_-"), ("é_:_", "é-:_")];

    for (input, expected) in cases {
        let mut text = String::from(input);
        replace_underscores(&mut text);
        assert_eq!(text, expected);
    }
}
