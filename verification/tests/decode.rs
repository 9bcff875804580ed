use wikidot_normalize::normalize_decode;

#[test]
fn decode_then_normalize() {
    let cases = [
        ("", ""),
        ("Big%20Cheese%20Horace", "big-cheese-horace"),
        ("fragment%3Ascp-4447-2", "fragment:scp-4447-2"),
        ("%E4%BA%94", "五"),
        ("%e4%ba%94", "五"),
        ("%5Ftemplate", "_template"),
        ("no escapes", "no-escapes"),
        ("100%", "100"),
        ("a%2", "a-2"),
        ("a%zzb", "a-zzb"),
        ("%2541", "41"),
    ];
    for (input, expected) in cases {
        let mut text = String::from(input);
        let decoded = normalize_decode(&mut text);
        assert!(decoded, "{}", input);
        assert_eq!(text, expected, "{}", input);
    }
}

#[test]
fn decode_failure_falls_back_to_the_text_itself() {
    let cases = [("%FF", "ff"), ("a%C3b", "a-c3b"), ("Page%E4%BA", "page-e4-ba")];
    for (input, expected) in cases {
        let mut text = String::from(input);
        let decoded = normalize_decode(&mut text);
        assert!(!decoded, "{}", input);
        assert_eq!(text, expected, "{}", input);
    }
}
