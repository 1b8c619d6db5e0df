use xpui_rp2040::settings::{same_settings, settings, whitespace};

#[test]
fn whitespace_is_what_trim_strips() {
    for u in 0..=0x10ffffu32 {
        if let Some(c) = char::from_u32(u) {
            assert_eq!(whitespace(c), c.is_whitespace(), "{:#x}", u);
        }
    }
}

#[test]
fn settings_are_trimmed_lines_without_blanks_or_comments() {
    let text = "# the msrv\nmsrv = \"1.85\"\n\n   too-many-arguments-threshold = 9  \r\n\t# another\n";
    assert_eq!(
        settings(text),
        vec![
            "msrv = \"1.85\"".to_string(),
            "too-many-arguments-threshold = 9".to_string()
        ]
    );
}

#[test]
fn settings_match_the_standard_library_reading() {
    let texts = [
        "",
        "\n\n",
        "a",
        "a\nb",
        "a\r\nb\r\n",
        "  # not\n x \n#y\nz#",
        "\u{a0}k = 1\u{3000}\n",
    ];
    for text in texts {
        let expected: Vec<String> = text
            .lines()
            .map(str::trim)
            .filter(|l| !l.is_empty() && !l.starts_with('#'))
            .map(str::to_string)
            .collect();
        assert_eq!(settings(text), expected, "{:?}", text);
    }
}

#[test]
fn settings_compare_in_order() {
    let a = vec!["x".to_string(), "y".to_string()];
    let b = vec!["x".to_string(), "y".to_string()];
    let c = vec!["y".to_string(), "x".to_string()];
    let d = vec!["x".to_string()];
    assert!(same_settings(&a, &b));
    assert!(!same_settings(&a, &c));
    assert!(!same_settings(&a, &d));
}

#[test]
fn blank_lines_comments_and_padding_change_no_setting() {
    let plain = "msrv = \"1.85\"\navoid-breaking-exported-api = false";
    let padded = "\n# the organisation's\n   msrv = \"1.85\"\t\n\n  # kept apart\n avoid-breaking-exported-api = false  \n\n";
    assert_eq!(settings(plain), settings(padded));
}
