//! The validated template value.
//!
//! A [`Template`] can only be built through [`Template::build`], which runs
//! the validator and fails closed: construction either returns a template
//! whose text produced zero diagnostics, or the complete diagnostic list.
//! Every live `Template` therefore renders without re-checking brace
//! balance.

use vstd::prelude::*;

use crate::diag::{Diag, Warning, warning_views};
use crate::fields::FieldMap;
use crate::render::{render_chars, rendered_text, rendered_warnings};
use crate::text::{chars_to_string, str_to_chars};
use crate::validate::{template_diags, valid_template, validate_template};

verus! {

/// An immutable template whose text passed the validator with zero
/// diagnostics at construction time.  Its view is the template's character
/// sequence.
pub struct Template {
    text: Vec<char>,
}

impl View for Template {
    type V = Seq<char>;

    closed spec fn view(&self) -> Seq<char> {
        self.text@
    }
}

impl Template {
    /// Every constructed template's text is valid: it produced no
    /// diagnostic when it was built.
    #[verifier::type_invariant]
    spec fn wf(self) -> bool {
        valid_template(self.text@)
    }

    /// Validates the text and wraps it.  Fails on a syntactically incorrect
    /// template, with the complete diagnostic list; succeeds on every other
    /// input.
    pub fn build(template: &str) -> (r: Result<Template, Vec<Diag>>)
        ensures
            match r {
                Ok(t) => t@ == template@ && valid_template(template@),
                Err(ds) => ds@ == template_diags(template@) && ds@.len() > 0,
            },
    {
        match validate_template(template) {
            Err(errs) => Err(errs),
            Ok(_) => Ok(Template { text: str_to_chars(template) }),
        }
    }

    /// Renders the template against a field mapping.  Placeholders are
    /// substituted, escape backslashes deleted, every line terminated with
    /// one newline; an unresolved field becomes the empty string.
    pub fn apply_template(&self, content: &FieldMap) -> (res: String)
        ensures
            res@ == rendered_text(self@, content@),
    {
        let (out, _warns) = render_chars(&self.text, content);
        chars_to_string(&out)
    }

    /// Renders as [`Template::apply_template`] does, and also returns one
    /// warning per placeholder whose field name the mapping does not
    /// contain, each locating the placeholder's opening brace.
    pub fn apply_template_with_warnings(&self, content: &FieldMap) -> (r: (String, Vec<Warning>))
        ensures
            r.0@ == rendered_text(self@, content@),
            warning_views(r.1@) == rendered_warnings(self@, content@),
    {
        let (out, warns) = render_chars(&self.text, content);
        (chars_to_string(&out), warns)
    }
}

} // verus!
