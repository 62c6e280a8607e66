use stencil::apply_template;
use stencil::validate_template;
use stencil::FieldMap;

#[test]
fn lib_simple_template() {
    let template = "<html>{body}</html>\n";
    let mut content = FieldMap::new();
    content.insert("body", "content");

    let result = apply_template(template, &content);
    assert_eq!(result, "<html>content</html>\n".to_string());
}

#[test]
fn lib_escaped_template() {
    let template = r"<html>{body}\{test\}</html>";
    let mut content = FieldMap::new();
    content.insert("body", "content");

    let result = apply_template(template, &content);
    assert_eq!(result, "<html>content{test}</html>\n".to_string());
}

#[test]
fn lib_handle_all_escapes() {
    let template = r"<h\tml>{body}</htm\l>";
    let mut content = FieldMap::new();
    content.insert("body", "content");

    let result = apply_template(template, &content);
    let mut left = r"<html>content</html>".to_string();
    left.push('\n');
    assert_eq!(left, result);
}

#[test]
fn lib_ignore_nonexistent_fields_and_warn() {
    let template = r"<h\tml>{body}{nonsense}</htm\l>";
    let mut content = FieldMap::new();
    content.insert("body", "content");

    let result = apply_template(template, &content);
    let mut left = r"<html>content</html>".to_string();
    left.push('\n');
    assert_eq!(left, result);
}

#[test]
#[should_panic]
fn lib_invalid_template_no_opening_brace() {
    let template = r"<html>body}</html>";
    validate_template(template).unwrap();
}

#[test]
#[should_panic]
fn lib_invalid_template_no_closing_brace() {
    let template = r"<html>{body</html>";
    validate_template(template).unwrap();
}

#[test]
#[should_panic]
fn lib_invalid_template_no_template_field_name() {
    let template = r"<html>{}</html>";
    validate_template(template).unwrap();
}

#[test]
#[should_panic]
fn lib_invalid_template_double_open() {
    let template = r"<html>{{}}</html>";
    validate_template(template).unwrap();
}

#[test]
#[should_panic]
fn lib_invalid_escape_inside_field_name() {
    let template = r"<html>\\n{\body}\\n</html>";
    validate_template(template).unwrap();
}
