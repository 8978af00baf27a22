use cargo_license_template::config::CliArgs;
use cargo_license_template::matcher::compile_template;
use cargo_license_template::paths::is_rust_code;
use cargo_license_template::template::assemble_pattern;
use cargo_license_template::template::escape_literal;
use cargo_license_template::template::scan_template;
use cargo_license_template::template::to_char_vec;
use cargo_license_template::template::PlaceholderKind;
use cargo_license_template::template::Segment;

fn chars(s: &str) -> Vec<char> {
    s.chars().collect()
}

fn string_of(v: &[char]) -> String {
    v.iter().collect()
}

#[test]
fn year_token_becomes_year_sub_pattern() {
    let m = compile_template("Copyright {{year}} Example Corp").unwrap();
    assert_eq!(
        m.pattern_str(),
        "Copyright [0-9]{4}(-[0-9]{4})? Example Corp"
    );
}

#[test]
fn meta_characters_are_escaped_in_pattern() {
    let m = compile_template("a.b*c(d)e").unwrap();
    assert_eq!(m.pattern_str(), "a\\.b\\*c\\(d\\)e");
}

#[test]
fn escape_literal_escapes_every_meta_character() {
    let out = escape_literal(&chars("\\.+*?()|[]{}^$#&-~"));
    assert_eq!(
        string_of(&out),
        "\\\\\\.\\+\\*\\?\\(\\)\\|\\[\\]\\{\\}\\^\\$\\#\\&\\-\\~"
    );
}

#[test]
fn escape_literal_keeps_plain_text() {
    let out = escape_literal(&chars("MIT License 2020\n"));
    assert_eq!(string_of(&out), "MIT License 2020\n");
}

#[test]
fn scanned_pattern_of_plain_text_equals_escaped_text() {
    let text = "All rights reserved.";
    let segments = scan_template(&chars(text));
    assert_eq!(
        string_of(&assemble_pattern(&segments)),
        string_of(&escape_literal(&chars(text)))
    );
}

#[test]
fn scan_alternates_literals_and_placeholders() {
    let segments = scan_template(&chars("Copyright {{year}} Corp"));
    assert_eq!(segments.len(), 3);
    assert!(matches!(&segments[0], Segment::Literal(v) if string_of(v) == "Copyright "));
    assert!(matches!(&segments[1], Segment::Placeholder(PlaceholderKind::Year)));
    assert!(matches!(&segments[2], Segment::Literal(v) if string_of(v) == " Corp"));
}

#[test]
fn assemble_pattern_substitutes_each_kind() {
    let segments = vec![
        Segment::Literal(chars("(c) ")),
        Segment::Placeholder(PlaceholderKind::Year),
    ];
    assert_eq!(string_of(&assemble_pattern(&segments)), "\\(c\\) [0-9]{4}(-[0-9]{4})?");
}

#[test]
fn unknown_placeholder_is_literal_text() {
    let m = compile_template("{{author}}").unwrap();
    assert_eq!(m.pattern_str(), "\\{\\{author\\}\\}");
}

#[test]
fn year_token_found_after_extra_brace() {
    let m = compile_template("{{{year}}}").unwrap();
    assert_eq!(m.pattern_str(), "\\{[0-9]{4}(-[0-9]{4})?\\}");
}

#[test]
fn adjacent_year_tokens_each_substituted() {
    let m = compile_template("{{year}}{{year}}").unwrap();
    assert_eq!(
        m.pattern_str(),
        "[0-9]{4}(-[0-9]{4})?[0-9]{4}(-[0-9]{4})?"
    );
}

#[test]
fn to_char_vec_preserves_characters() {
    assert_eq!(to_char_vec("a\u{00e9}\u{4e16}!"), vec!['a', '\u{00e9}', '\u{4e16}', '!']);
    assert_eq!(to_char_vec(""), Vec::<char>::new());
}

#[test]
fn rust_files_are_recognized_by_extension() {
    assert!(is_rust_code("src/lib.rs", true));
    assert!(is_rust_code("a/b/c.rs", true));
    assert!(is_rust_code("x.rs", true));
    assert!(is_rust_code("a/b.tar.rs", true));
}

#[test]
fn non_rust_paths_are_rejected() {
    assert!(!is_rust_code("src/lib.rs", false)); // a directory of that name
    assert!(!is_rust_code("README.md", true));
    assert!(!is_rust_code("foo.rc", true));
    assert!(!is_rust_code("foo.rsx", true));
    assert!(!is_rust_code(".rs", true));
    assert!(!is_rust_code("a/.rs", true));
    assert!(!is_rust_code("rs", true));
    assert!(!is_rust_code("", true));
}

#[test]
fn config_carries_the_run_settings() {
    let args = CliArgs {
        template: String::from("LICENSE.tpl"),
        manifest_path: None,
        verbose: true,
        color: false,
        ignore: Some(String::from(".licenseignore")),
    };
    assert_eq!(args.template, "LICENSE.tpl");
    assert!(args.manifest_path.is_none());
    assert!(args.verbose);
    assert!(!args.color);
    assert_eq!(args.ignore.as_deref(), Some(".licenseignore"));
}
