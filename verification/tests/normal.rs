use wikidot_normalize::normalize;

#[test]
fn normal_test_normalize() {
    let cases = [
        ("", ""),
        ("Big Cheese Horace", "big-cheese-horace"),
        ("bottom--Text", "bottom-text"),
        ("Tufto's Proposal", "tufto-s-proposal"),
        (" - Test - ", "test"),
        ("--TEST--", "test"),
        ("-test-", "test"),
        (":test", "test"),
        ("test:", "test"),
        (":test:", "test"),
        ("/Some Page", "some-page"),
        ("some/Page", "some-page"),
        ("some,Page", "some-page"),
        ("End of Death Hub", "end-of-death-hub"),
        ("$100 is a lot of money", "100-is-a-lot-of-money"),
        ("snake_case", "snake-case"),
        ("long__snake__case", "long-snake-case"),
        ("_template", "_template"),
        ("_template_", "_template"),
        ("__template", "_template"),
        ("__template_", "_template"),
        ("template_", "template"),
        ("template__", "template"),
        ("_Template", "_template"),
        ("_Template_", "_template"),
        ("__Template", "_template"),
        ("__Template_", "_template"),
        ("Template_", "template"),
        ("Template__", "template"),
        (" <[ TEST ]> ", "test"),
        ("ÄÀ-áö ðñæ_þß*řƒŦ", "äà-áö-ðñæ-þß-řƒŧ"),
        ("Site-五", "site-五"),
        ("ᒥᐢᑕᓇᐢᑯᐍᐤ--1", "ᒥᐢᑕᓇᐢᑯᐍᐤ-1"),
        ("ᒥᐢᑕᓇᐢᑯᐍᐤ:_template", "ᒥᐢᑕᓇᐢᑯᐍᐤ:_template"),
        ("🚗A‱B⁜C", "a-b-c"),
        ("Ⰰ_á_X", "ⰰ-á-x"),
        ("!!!!!!!!!!!!!!!!!!!!!!!!!!!!!!!!!!!!!!", ""),
        ("Component:image block", "component:image-block"),
        ("fragment:scp-4447-2", "fragment:scp-4447-2"),
        ("fragment::scp-4447-2", "fragment:scp-4447-2"),
        ("FRAGMENT:SCP-4447 (2)", "fragment:scp-4447-2"),
        ("protected_:fragment_:page", "protected-fragment:page"),
        ("protected:_fragment_:page", "protected-fragment:page"),
        ("fragment:_template", "fragment:_template"),
        ("fragment:__template", "fragment:_template"),
        ("fragment:_template_", "fragment:_template"),
        ("fragment::_template", "fragment:_template"),
        ("_default:_template", "_template"),
        ("_default:__template", "_template"),
        ("_default:_template_", "_template"),
        ("_default::_template", "_template"),
        ("/fragment:_template", "fragment:_template"),
        ("/fragment:__template", "fragment:_template"),
        ("/fragment:_template_", "fragment:_template"),
        ("/fragment::_template", "fragment:_template"),
        ("/_default:_template", "_template"),
        ("/_default:__template", "_template"),
        ("/_default:_template_", "_template"),
        ("/_default::_template", "_template"),
        (
            "protected:fragment:_template",
            "protected-fragment:_template",
        ),
        (
            "protected:fragment:__template",
            "protected-fragment:_template",
        ),
        (
            "protected:fragment:_template_",
            "protected-fragment:_template",
        ),
        (
            "protected:fragment::_template",
            "protected-fragment:_template",
        ),
        (
            "protected::fragment:_template",
            "protected-fragment:_template",
        ),
        (
            "protected::fragment::_template",
            "protected-fragment:_template",
        ),
    ];

    for (input, expected) in cases {
        let mut text = String::from(input);
        normalize(&mut text);
        assert_eq!(text, expected, "Normalized text doesn't match expected");
    }
}

#[test]
fn test_test_normalize() {
    let cases = [
        ("", ""),
        ("Big Cheese Horace", "big-cheese-horace"),
        ("bottom--Text", "bottom-text"),
        ("Tufto's Proposal", "tufto-s-proposal"),
        ("-test-", "test"),
        ("End of Death Hub", "end-of-death-hub"),
        ("$100 is a lot of money", "100-is-a-lot-of-money"),
        ("snake_case", "snake-case"),
        ("long__snake__case", "long-snake-case"),
        ("_template", "_template"),
        ("__template", "_template"),
        ("template_", "template"),
        ("template__", "template"),
        (" <[ TEST ]> ", "test"),
        ("!!!!!!!!!!!!!!!!!!!!!!!!!!!!!!!!!!!!!!", ""),
        ("Component:image block", "component:image-block"),
        ("fragment:scp-4447-2", "fragment:scp-4447-2"),
        ("fragment::scp-4447-2", "fragment:scp-4447-2"),
    ];

    for (input, expected) in cases {
        let mut text = String::from(input);
        normalize(&mut text);
        assert_eq!(text, expected, "Normalized text doesn't match expected");
    }
}
