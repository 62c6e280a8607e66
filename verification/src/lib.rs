//! Line-oriented text-field substitution engine.
//!
//! A template is plain text containing `{name}` placeholders.  The validator
//! scans a template line by line and reports every syntax error (unclosed or
//! unmatched braces, nested opens, empty field names, escapes inside field
//! names) with its 0-based line and column.  The renderer substitutes each
//! placeholder with the value looked up in a field mapping, deletes escape
//! backslashes, and terminates every output line with a single newline;
//! unresolved fields degrade to the empty string and produce a warning record
//! instead of failing the render.

pub mod diag;
pub mod fields;
pub mod laws;
pub mod lines;
pub mod render;
pub mod template;
pub mod text;
pub mod validate;

pub use diag::Diag;
pub use diag::DiagKind;
pub use diag::Warning;
pub use fields::FieldMap;
pub use render::apply_template;
pub use template::Template;
pub use validate::validate_template;
