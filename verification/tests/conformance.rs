use cargo_license_template::matcher::check;
use cargo_license_template::matcher::compile_template;
use cargo_license_template::Conformance;

#[test]
fn determinism_same_template_same_content() {
    let m1 = compile_template("Copyright {{year}} Example Corp").unwrap();
    let m2 = compile_template("Copyright {{year}} Example Corp").unwrap();
    let content = "Copyright 2020 Example Corp";
    let first = check(&m1, content);
    for _ in 0..10 {
        assert_eq!(check(&m1, content), first);
        assert_eq!(check(&m2, content), first);
    }
}

#[test]
fn shared_matcher_interleaved_checks_agree_with_sequential() {
    let m = compile_template("Copyright {{year}}").unwrap();
    let contents = ["Copyright 2020", "none", "Copyright 1999-2001", ""];
    let sequential: Vec<Conformance> = contents.iter().map(|c| check(&m, c)).collect();
    for (i, c) in contents.iter().enumerate() {
        for other in contents.iter() {
            let _ = check(&m, other);
        }
        assert_eq!(check(&m, c), sequential[i]);
    }
}

#[test]
fn placeholder_accepts_single_year() {
    let m = compile_template("Copyright {{year}} Example Corp").unwrap();
    assert_eq!(check(&m, "Copyright 2020 Example Corp"), Conformance::Conform);
}

#[test]
fn placeholder_accepts_year_range() {
    let m = compile_template("Copyright {{year}} Example Corp").unwrap();
    assert_eq!(
        check(&m, "Copyright 2020-2024 Example Corp"),
        Conformance::Conform
    );
}

#[test]
fn placeholder_rejects_spelled_out_year() {
    let m = compile_template("Copyright {{year}} Example Corp").unwrap();
    assert_eq!(
        check(&m, "Copyright twenty-twenty Example Corp"),
        Conformance::Conflict
    );
}

#[test]
fn placeholder_rejects_short_year() {
    let m = compile_template("Copyright {{year}} Example Corp").unwrap();
    assert_eq!(check(&m, "Copyright 202 Example Corp"), Conformance::Conflict);
}

#[test]
fn match_found_anywhere_in_content() {
    let m = compile_template("MIT License").unwrap();
    assert_eq!(
        check(&m, "#!/usr/bin/env foo\n// MIT License\nfn main(){}"),
        Conformance::Conform
    );
}

#[test]
fn no_match_reports_conflict() {
    let m = compile_template("Apache License").unwrap();
    assert_eq!(check(&m, "MIT License"), Conformance::Conflict);
}

#[test]
fn empty_content_conflicts_with_nonempty_template() {
    for template in ["MIT License", "x", "{{year}}", ".", "\n"] {
        let m = compile_template(template).unwrap();
        assert_eq!(check(&m, ""), Conformance::Conflict, "template {:?}", template);
    }
}

#[test]
fn empty_template_matches_anything() {
    let m = compile_template("").unwrap();
    assert_eq!(check(&m, ""), Conformance::Conform);
    assert_eq!(check(&m, "anything at all"), Conformance::Conform);
}

#[test]
fn literal_dot_matches_only_a_dot() {
    let m = compile_template("Version 1.0 of the License").unwrap();
    assert_eq!(check(&m, "Version 1.0 of the License"), Conformance::Conform);
    assert_eq!(check(&m, "Version 1X0 of the License"), Conformance::Conflict);
}

#[test]
fn literal_star_is_not_repetition() {
    let m = compile_template("a*b").unwrap();
    assert_eq!(check(&m, "see a*b here"), Conformance::Conform);
    assert_eq!(check(&m, "aaab"), Conformance::Conflict);
}

#[test]
fn literal_brackets_and_parens_match_verbatim() {
    let m = compile_template("(c) [Example] {Corp}").unwrap();
    assert_eq!(check(&m, "(c) [Example] {Corp}"), Conformance::Conform);
    assert_eq!(check(&m, "c [Example] {Corp}"), Conformance::Conflict);
    assert_eq!(check(&m, "(c) E {Corp}"), Conformance::Conflict);
}

#[test]
fn literal_question_mark_and_plus() {
    let m = compile_template("why? a+b").unwrap();
    assert_eq!(check(&m, "why? a+b"), Conformance::Conform);
    // with an unescaped `?` the `y` would be optional, and `wh a+b` would pass
    assert_eq!(check(&m, "wh a+b"), Conformance::Conflict);
}

#[test]
fn multiline_template_matches_multiline_header() {
    let m = compile_template("// Copyright {{year}} Example Corp\n// All rights reserved.").unwrap();
    let content = "// Copyright 2019-2023 Example Corp\n// All rights reserved.\n\nfn lib() {}\n";
    assert_eq!(check(&m, content), Conformance::Conform);
    let altered = "// Copyright 2019-2023 Example Corp\n// All rights rescinded.\n";
    assert_eq!(check(&m, altered), Conformance::Conflict);
}

#[test]
fn year_must_immediately_precede_following_literal() {
    let m = compile_template("{{year}} Example").unwrap();
    assert_eq!(check(&m, "2020-20xy Example"), Conformance::Conflict);
    assert_eq!(check(&m, "20 Example"), Conformance::Conflict);
    assert_eq!(check(&m, "1999 2020 Example"), Conformance::Conform);
}
