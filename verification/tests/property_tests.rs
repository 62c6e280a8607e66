use stencil::apply_template;
use stencil::validate_template;
use stencil::Diag;
use stencil::DiagKind;
use stencil::FieldMap;
use stencil::Template;

#[test]
fn escape_round_trip_with_matching_name_in_mapping() {
    let mut content = FieldMap::new();
    content.insert("literal", "ignored");
    let out = apply_template(r"\{literal\}", &content);
    assert_eq!(out, "{literal}\n");
}

#[test]
fn escape_round_trip_with_empty_mapping() {
    let content = FieldMap::new();
    let out = apply_template(r"\{literal\}", &content);
    assert_eq!(out, "{literal}\n");
}

#[test]
fn missing_field_degrades_with_one_warning() {
    let template = Template::build("<p>{unknown}</p>").unwrap();
    let content = FieldMap::new();
    let (out, warnings) = template.apply_template_with_warnings(&content);
    assert_eq!(out, "<p></p>\n");
    assert_eq!(warnings.len(), 1);
    assert_eq!(warnings[0].line, 0);
    assert_eq!(warnings[0].col, 3);
    assert_eq!(warnings[0].name, "unknown");
}

#[test]
fn warnings_come_in_scan_order() {
    let template = Template::build("{a}{b}\n{c}").unwrap();
    let content = FieldMap::new();
    let (out, warnings) = template.apply_template_with_warnings(&content);
    assert_eq!(out, "\n\n");
    assert_eq!(warnings.len(), 3);
    assert_eq!(warnings[0].name, "a");
    assert_eq!(warnings[0].line, 0);
    assert_eq!(warnings[0].col, 0);
    assert_eq!(warnings[1].name, "b");
    assert_eq!(warnings[1].line, 0);
    assert_eq!(warnings[1].col, 3);
    assert_eq!(warnings[2].name, "c");
    assert_eq!(warnings[2].line, 1);
    assert_eq!(warnings[2].col, 0);
}

#[test]
fn resolved_fields_produce_no_warning() {
    let template = Template::build("<html>{body}</html>").unwrap();
    let mut content = FieldMap::new();
    content.insert("body", "content");
    let (out, warnings) = template.apply_template_with_warnings(&content);
    assert_eq!(out, "<html>content</html>\n");
    assert_eq!(warnings.len(), 0);
}

#[test]
fn double_open_yields_several_diagnostics() {
    let errs = validate_template("{{}}").unwrap_err();
    assert!(errs.len() >= 2);
    assert_eq!(
        errs[0],
        Diag { line: 0, col: 1, kind: DiagKind::FieldAlreadyOpen { first_open: 0 } }
    );
    assert_eq!(errs[1], Diag { line: 0, col: 1, kind: DiagKind::EmptyFieldName });
    assert_eq!(errs[2], Diag { line: 0, col: 3, kind: DiagKind::UnmatchedClosing });
    assert_eq!(errs.len(), 3);
}

#[test]
fn unclosed_brace_is_located_at_the_open() {
    let errs = validate_template("ab{body").unwrap_err();
    assert_eq!(errs.len(), 1);
    assert_eq!(errs[0], Diag { line: 0, col: 2, kind: DiagKind::UnclosedBrace });
}

#[test]
fn unmatched_closing_is_located_at_the_close() {
    let errs = validate_template("body}").unwrap_err();
    assert_eq!(errs.len(), 1);
    assert_eq!(errs[0], Diag { line: 0, col: 4, kind: DiagKind::UnmatchedClosing });
}

#[test]
fn empty_field_name_is_located_at_the_open() {
    let errs = validate_template("ab{}").unwrap_err();
    assert_eq!(errs.len(), 1);
    assert_eq!(errs[0], Diag { line: 0, col: 2, kind: DiagKind::EmptyFieldName });
}

#[test]
fn escape_inside_field_name_is_reported() {
    let errs = validate_template(r"{\body}").unwrap_err();
    assert_eq!(errs.len(), 1);
    assert_eq!(errs[0], Diag { line: 0, col: 1, kind: DiagKind::EscapeInFieldName });
}

#[test]
fn diagnostics_carry_line_numbers() {
    let errs = validate_template("a\n{b\nc}d").unwrap_err();
    assert_eq!(errs.len(), 2);
    assert_eq!(errs[0], Diag { line: 1, col: 0, kind: DiagKind::UnclosedBrace });
    assert_eq!(errs[1], Diag { line: 2, col: 1, kind: DiagKind::UnmatchedClosing });
}

#[test]
fn braces_do_not_span_lines() {
    let errs = validate_template("{a\nb}").unwrap_err();
    assert_eq!(errs.len(), 2);
    assert_eq!(errs[0], Diag { line: 0, col: 0, kind: DiagKind::UnclosedBrace });
    assert_eq!(errs[1], Diag { line: 1, col: 1, kind: DiagKind::UnmatchedClosing });
}

#[test]
fn well_formed_template_validates_cleanly() {
    assert!(validate_template("<html>{body}</html>\n<p>{a}{b}</p>\n").is_ok());
    assert!(validate_template("").is_ok());
    assert!(validate_template("no placeholders at all").is_ok());
}

#[test]
fn carriage_return_line_endings_are_normalized() {
    let template = Template::build("x{a}\r\ny").unwrap();
    let mut content = FieldMap::new();
    content.insert("a", "1");
    let out = template.apply_template(&content);
    assert_eq!(out, "x1\ny\n");
}

#[test]
fn empty_template_renders_empty() {
    let template = Template::build("").unwrap();
    let content = FieldMap::new();
    assert_eq!(template.apply_template(&content), "");
}

#[test]
fn missing_trailing_newline_is_added() {
    let template = Template::build("a").unwrap();
    let content = FieldMap::new();
    assert_eq!(template.apply_template(&content), "a\n");
}

#[test]
fn inserting_twice_replaces_the_value() {
    let mut content = FieldMap::new();
    content.insert("k", "first");
    content.insert("k", "second");
    assert_eq!(apply_template("{k}", &content), "second\n");
}

#[test]
fn substituted_values_are_opaque_literal_text() {
    let mut content = FieldMap::new();
    content.insert("body", "{x}");
    assert_eq!(apply_template("<p>{body}</p>", &content), "<p>{x}</p>\n");
}

#[test]
fn rendered_output_has_no_placeholders_left() {
    let mut content = FieldMap::new();
    content.insert("a", "V");
    content.insert("b", "W");
    let out = apply_template("x{a}y\n{b}z", &content);
    assert_eq!(out, "xVy\nWz\n");
    assert!(validate_template(&out).is_ok());
    assert!(!out.contains('{') && !out.contains('}') && !out.contains('\\'));
}

#[test]
fn escaped_backslash_stays_literal() {
    let content = FieldMap::new();
    assert_eq!(apply_template(r"a\\b", &content), "a\\b\n");
}

#[test]
fn columns_count_characters_not_bytes() {
    let mut content = FieldMap::new();
    content.insert("a", "x");
    assert_eq!(apply_template("é{a}ü", &content), "éxü\n");

    let template = Template::build("é{b}").unwrap();
    let (out, warnings) = template.apply_template_with_warnings(&FieldMap::new());
    assert_eq!(out, "é\n");
    assert_eq!(warnings.len(), 1);
    assert_eq!(warnings[0].col, 1);
}

#[test]
fn field_names_may_hold_any_non_brace_text() {
    let mut content = FieldMap::new();
    content.insert("café au lait", "v");
    assert_eq!(apply_template("<{café au lait}>", &content), "<v>\n");
}

#[test]
fn field_names_are_case_sensitive() {
    let mut content = FieldMap::new();
    content.insert("Body", "upper");
    let template = Template::build("{body}").unwrap();
    let (out, warnings) = template.apply_template_with_warnings(&content);
    assert_eq!(out, "\n");
    assert_eq!(warnings.len(), 1);
    assert_eq!(warnings[0].name, "body");
}
