//! The template validator.
//!
//! A template is scanned line by line and character by character, left to
//! right.  Per line the scanner keeps two pieces of state: whether the
//! previous character was an unescaped backslash (`esc`), and the column of a
//! currently open `{`, if any (`open`); additionally `lastopen` records
//! whether the previous character was an acting `{`, which detects empty
//! field names.  Braces and escapes never cross line boundaries.  Scanning
//! never stops early: every violation in the whole template is reported, in
//! line order and left to right within a line.

use vstd::prelude::*;

use crate::diag::{Diag, DiagKind};
use crate::lines::{spec_lines, split_lines};
use crate::text::str_to_chars;

verus! {

/// The diagnostics the scanner emits for `line[i..]` on line `ln`, starting
/// in the given scan state: `esc` says the previous character was an
/// unescaped backslash, `lastopen` says it was an acting `{`, and `open`
/// holds the column of the currently open `{`, if any.
pub open spec fn line_diags_from(
    line: Seq<char>,
    ln: int,
    i: int,
    esc: bool,
    lastopen: bool,
    open: Option<usize>,
) -> Seq<Diag>
    decreases line.len() - i,
{
    if i < 0 || i >= line.len() {
        match open {
            Some(b) => seq![Diag { line: ln as usize, col: b, kind: DiagKind::UnclosedBrace }],
            None => Seq::empty(),
        }
    } else {
        let c = line[i];
        if esc {
            line_diags_from(line, ln, i + 1, false, false, open)
        } else if c == '\\' {
            let d: Seq<Diag> = match open {
                Some(_) => seq![
                    Diag { line: ln as usize, col: i as usize, kind: DiagKind::EscapeInFieldName },
                ],
                None => Seq::empty(),
            };
            d + line_diags_from(line, ln, i + 1, true, false, open)
        } else if c == '{' {
            let d: Seq<Diag> = match open {
                Some(b) => seq![
                    Diag {
                        line: ln as usize,
                        col: i as usize,
                        kind: DiagKind::FieldAlreadyOpen { first_open: b },
                    },
                ],
                None => Seq::empty(),
            };
            d + line_diags_from(line, ln, i + 1, false, true, Some(i as usize))
        } else if c == '}' {
            let d1: Seq<Diag> = if lastopen {
                seq![Diag { line: ln as usize, col: (i - 1) as usize, kind: DiagKind::EmptyFieldName }]
            } else {
                Seq::empty()
            };
            let d2: Seq<Diag> = match open {
                Some(_) => Seq::empty(),
                None => seq![
                    Diag { line: ln as usize, col: i as usize, kind: DiagKind::UnmatchedClosing },
                ],
            };
            d1 + d2 + line_diags_from(line, ln, i + 1, false, false, None)
        } else {
            line_diags_from(line, ln, i + 1, false, false, open)
        }
    }
}

/// The diagnostics of one whole line, scanned from its first character in
/// the initial state.
pub open spec fn line_diags(line: Seq<char>, ln: int) -> Seq<Diag> {
    line_diags_from(line, ln, 0, false, false, None)
}

/// The diagnostics of the lines `lines[ln..]`, concatenated in line order.
pub open spec fn template_diags_from(lines: Seq<Seq<char>>, ln: int) -> Seq<Diag>
    decreases lines.len() - ln,
{
    if ln < 0 || ln >= lines.len() {
        Seq::empty()
    } else {
        line_diags(lines[ln], ln) + template_diags_from(lines, ln + 1)
    }
}

/// Every diagnostic of the template, in line order, left to right within a
/// line.  An empty result means the template is valid.
pub open spec fn template_diags(text: Seq<char>) -> Seq<Diag> {
    template_diags_from(spec_lines(text), 0)
}

/// A template is valid when scanning it yields no diagnostic.
pub open spec fn valid_template(text: Seq<char>) -> bool {
    template_diags(text).len() == 0
}

/// Scans one line and appends its diagnostics, in scan order.
fn validate_line(line: &Vec<char>, ln: usize, diags: &mut Vec<Diag>)
    ensures
        final(diags)@ == old(diags)@ + line_diags(line@, ln as int),
{
    let ghost base = diags@;
    let mut esc: bool = false;
    let mut lastopen: bool = false;
    let mut open: Option<usize> = None;
    let mut i: usize = 0;
    proof {
        assert(base + line_diags(line@, ln as int) =~= diags@ + line_diags_from(
            line@, ln as int, 0, false, false, None,
        ));
    }
    while i < line.len()
        invariant
            0 <= i <= line.len(),
            lastopen ==> 1 <= i,
            base + line_diags(line@, ln as int) == diags@ + line_diags_from(
                line@, ln as int, i as int, esc, lastopen, open,
            ),
        decreases line.len() - i,
    {
        let ghost diags0 = diags@;
        let ghost esc0 = esc;
        let ghost lo0 = lastopen;
        let ghost open0 = open;
        let c = line[i];
        if esc {
            esc = false;
            lastopen = false;
        } else if c == '\\' {
            if open.is_some() {
                diags.push(Diag { line: ln, col: i, kind: DiagKind::EscapeInFieldName });
            }
            esc = true;
            lastopen = false;
        } else if c == '{' {
            match open {
                Some(b) => {
                    diags.push(
                        Diag { line: ln, col: i, kind: DiagKind::FieldAlreadyOpen { first_open: b } },
                    );
                },
                None => {},
            }
            open = Some(i);
            lastopen = true;
        } else if c == '}' {
            if lastopen {
                diags.push(Diag { line: ln, col: i - 1, kind: DiagKind::EmptyFieldName });
            }
            if open.is_none() {
                diags.push(Diag { line: ln, col: i, kind: DiagKind::UnmatchedClosing });
            }
            open = None;
            lastopen = false;
        } else {
            lastopen = false;
        }
        proof {
            let emitted = diags@.skip(diags0.len() as int);
            assert(diags@ =~= diags0 + emitted);
            assert(line_diags_from(line@, ln as int, i as int, esc0, lo0, open0) =~= emitted
                + line_diags_from(line@, ln as int, i + 1, esc, lastopen, open));
            assert(diags0 + (emitted + line_diags_from(line@, ln as int, i + 1, esc, lastopen, open))
                =~= (diags0 + emitted) + line_diags_from(
                line@, ln as int, i + 1, esc, lastopen, open,
            ));
        }
        i = i + 1;
    }
    match open {
        Some(b) => {
            let ghost diags0 = diags@;
            diags.push(Diag { line: ln, col: b, kind: DiagKind::UnclosedBrace });
            proof {
                assert(line_diags_from(line@, ln as int, i as int, esc, lastopen, open) =~= seq![
                    Diag { line: ln, col: b, kind: DiagKind::UnclosedBrace },
                ]);
                assert(diags@ =~= diags0 + line_diags_from(
                    line@, ln as int, i as int, esc, lastopen, open,
                ));
            }
        },
        None => {
            proof {
                assert(line_diags_from(line@, ln as int, i as int, esc, lastopen, open)
                    =~= Seq::<Diag>::empty());
                assert(diags@ + Seq::<Diag>::empty() =~= diags@);
            }
        },
    }
}

/// Scans the whole template and returns every syntax diagnostic it holds, in
/// order; `Ok` exactly when there is none.
pub fn validate_template(template: &str) -> (r: Result<(), Vec<Diag>>)
    ensures
        match r {
            Ok(_) => template_diags(template@).len() == 0,
            Err(ds) => ds@ == template_diags(template@) && ds@.len() > 0,
        },
{
    let chars = str_to_chars(template);
    let lines = split_lines(&chars);
    let ghost lviews = lines@.map_values(|l: Vec<char>| l@);
    let mut diags: Vec<Diag> = Vec::new();
    let mut ln: usize = 0;
    proof {
        assert(Seq::<Diag>::empty() + template_diags_from(lviews, 0) =~= template_diags_from(
            lviews, 0,
        ));
    }
    while ln < lines.len()
        invariant
            0 <= ln <= lines.len(),
            lviews == lines@.map_values(|l: Vec<char>| l@),
            template_diags_from(lviews, 0) == diags@ + template_diags_from(lviews, ln as int),
        decreases lines.len() - ln,
    {
        let ghost diags0 = diags@;
        validate_line(&lines[ln], ln, &mut diags);
        proof {
            assert(lines@[ln as int]@ == lviews[ln as int]);
            assert(template_diags_from(lviews, ln as int) =~= line_diags(lviews[ln as int], ln as int)
                + template_diags_from(lviews, ln + 1));
            assert(diags0 + (line_diags(lviews[ln as int], ln as int) + template_diags_from(
                lviews, ln + 1,
            )) =~= (diags0 + line_diags(lviews[ln as int], ln as int)) + template_diags_from(
                lviews, ln + 1,
            ));
        }
        ln = ln + 1;
    }
    proof {
        assert(template_diags_from(lviews, ln as int) =~= Seq::<Diag>::empty());
        assert(diags@ + Seq::<Diag>::empty() =~= diags@);
        assert(template_diags(template@) == diags@);
    }
    if diags.len() == 0 {
        Ok(())
    } else {
        Err(diags)
    }
}

} // verus!
