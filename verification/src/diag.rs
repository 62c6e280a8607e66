//! Diagnostic and warning records.
//!
//! A [`Diag`] is produced by the validator for each syntax error in a
//! template; a [`Warning`] is produced by the renderer for each placeholder
//! whose field name has no entry in the field mapping.  Both carry the
//! 0-based line number and the 0-based character column within that line of
//! the offending character, so a caller can point a template author at the
//! exact spot.

use vstd::prelude::*;

verus! {

/// The category of a template syntax error.
#[derive(Clone, Copy, PartialEq, Eq, Structural, Debug)]
pub enum DiagKind {
    /// A backslash occurred while a field was open: escape characters are not
    /// allowed inside a field name.
    EscapeInFieldName,
    /// A `{` occurred while another field was already open on the same line;
    /// `first_open` is the column of the earlier `{`.
    FieldAlreadyOpen { first_open: usize },
    /// A `}` immediately followed the `{` that opened the field: the field
    /// name is empty.
    EmptyFieldName,
    /// A `}` occurred with no field open on the same line.
    UnmatchedClosing,
    /// A field was still open when its line ended.
    UnclosedBrace,
}

/// A template syntax error located at a 0-based line and column.
#[derive(Clone, Copy, PartialEq, Eq, Structural, Debug)]
pub struct Diag {
    /// 0-based line number of the offending character.
    pub line: usize,
    /// 0-based character offset of the offending character within its line.
    pub col: usize,
    /// What went wrong there.
    pub kind: DiagKind,
}

/// The mathematical content of a [`Warning`]: its location and the field
/// name, as a sequence of characters.
pub ghost struct WarningModel {
    /// 0-based line number of the placeholder's opening brace.
    pub line: usize,
    /// 0-based character column of the placeholder's opening brace.
    pub col: usize,
    /// The field name that had no entry in the field mapping.
    pub name: Seq<char>,
}

/// A renderer warning: the placeholder at `line`:`col` named a field that the
/// field mapping does not contain, so the empty string was substituted.
#[derive(Clone, Debug)]
pub struct Warning {
    /// 0-based line number of the placeholder's opening brace.
    pub line: usize,
    /// 0-based character column of the placeholder's opening brace.
    pub col: usize,
    /// The unresolved field name.
    pub name: String,
}

impl View for Warning {
    type V = WarningModel;

    open spec fn view(&self) -> WarningModel {
        WarningModel { line: self.line, col: self.col, name: self.name@ }
    }
}

/// The mathematical content of a sequence of warnings.
pub open spec fn warning_views(ws: Seq<Warning>) -> Seq<WarningModel> {
    ws.map_values(|w: Warning| w@)
}

} // verus!
