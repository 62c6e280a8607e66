use stencil::FieldMap;
use stencil::Template;

#[test]
fn template_simple_template() {
    let template = Template::build("<html>{body}</html>\n").unwrap();

    let mut content = FieldMap::new();
    content.insert("body", "content");

    let result = template.apply_template(&content);
    assert_eq!(result, "<html>content</html>\n".to_string());
}

#[test]
fn template_escaped_template() {
    let template = Template::build(r"<html>{body}\{test\}</html>").unwrap();
    let mut content = FieldMap::new();
    content.insert("body", "content");

    let result = template.apply_template(&content);
    assert_eq!(result, "<html>content{test}</html>\n".to_string());
}

#[test]
fn template_handle_all_escapes() {
    let template = Template::build(r"<h\tml>{body}</htm\l>").unwrap();

    let mut content = FieldMap::new();
    content.insert("body", "content");

    let result = template.apply_template(&content);
    let mut left = r"<html>content</html>".to_string();
    left.push('\n');
    assert_eq!(left, result);
}

#[test]
fn template_ignore_nonexistent_fields_and_warn() {
    let template = Template::build(r"<h\tml>{body}{nonsense}</htm\l>").unwrap();

    let mut content = FieldMap::new();
    content.insert("body", "content");

    let result = template.apply_template(&content);
    let mut left = r"<html>content</html>".to_string();
    left.push('\n');
    assert_eq!(left, result);
}

#[test]
#[should_panic]
fn template_invalid_template_no_opening_brace() {
    let _template = Template::build(r"<html>body}</html>").unwrap();
}

#[test]
#[should_panic]
fn template_invalid_template_no_closing_brace() {
    let _template = Template::build(r"<html>{body</html>").unwrap();
}

#[test]
#[should_panic]
fn template_invalid_template_no_template_field_name() {
    let _template = Template::build(r"<html>{}</html>").unwrap();
}

#[test]
#[should_panic]
fn template_invalid_template_double_open() {
    let _template = Template::build(r"<html>{{}}</html>").unwrap();
}

#[test]
#[should_panic]
fn template_invalid_escape_inside_field_name() {
    let _template = Template::build(r"<html>\\n{\body}\\n</html>").unwrap();
}
