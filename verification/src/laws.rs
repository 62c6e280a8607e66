//! Properties of the validator and the renderer, stated and proved over the
//! specification functions that the public contracts use.

use vstd::prelude::*;

use crate::diag::{Diag, DiagKind, WarningModel};
use crate::lines::{first_newline_from, spec_lines, strip_cr};
use crate::render::{
    render_line, render_line_from, render_lines_from, rendered_text, rendered_warnings,
};
use crate::validate::{
    line_diags, line_diags_from, template_diags, template_diags_from, valid_template,
};

verus! {

/// A character with no role in the placeholder grammar.
pub open spec fn plain(c: char) -> bool {
    c != '\\' && c != '{' && c != '}'
}

/// The segment `line[i..p]` parses as literal text, escapes that consume the
/// character after them, and complete, non-empty, non-nested `{name}`
/// placeholders, with nothing left open at `p`.
pub open spec fn wf_between(line: Seq<char>, i: int, p: int) -> bool
    decreases p - i,
{
    if i >= p {
        i == p
    } else if line[i] == '\\' {
        i + 1 < p && wf_between(line, i + 2, p)
    } else if line[i] == '{' {
        exists|j: int|
            i + 1 < j < p && line[j] == '}' && (forall|k: int| i < k < j ==> plain(#[trigger] line[k]))
                && wf_between(line, j + 1, p)
    } else if line[i] == '}' {
        false
    } else {
        wf_between(line, i + 1, p)
    }
}

/// A whole line containing only literal text, escapes, and well-formed
/// placeholders.
pub open spec fn line_well_formed(line: Seq<char>) -> bool {
    wf_between(line, 0, line.len() as int)
}

/// Scanning a run of plain characters emits no diagnostic and only clears
/// the scanner's previous-character state.
proof fn lemma_scan_plain(line: Seq<char>, ln: int, i: int, j: int, lo: bool, open: Option<usize>)
    requires
        0 <= i <= j <= line.len(),
        forall|k: int| i <= k < j ==> plain(#[trigger] line[k]),
        lo == false || j == line.len(),
    ensures
        line_diags_from(line, ln, i, false, lo, open) == line_diags_from(
            line, ln, j, false, false, open,
        ),
    decreases j - i,
{
    if i < j {
        lemma_scan_plain(line, ln, i + 1, j, false, open);
    }
}

/// Scanning a well-formed segment emits no diagnostic and ends in the clean
/// state it started in.
proof fn lemma_scan_wf(line: Seq<char>, ln: int, i: int, p: int)
    requires
        0 <= i,
        p <= line.len(),
        wf_between(line, i, p),
    ensures
        line_diags_from(line, ln, i, false, false, None) == line_diags_from(
            line, ln, p, false, false, None,
        ),
    decreases p - i,
{
    if i >= p {
    } else if line[i] == '\\' {
        assert(line_diags_from(line, ln, i, false, false, None) =~= line_diags_from(
            line, ln, i + 1, true, false, None,
        ));
        assert(line_diags_from(line, ln, i + 1, true, false, None) == line_diags_from(
            line, ln, i + 2, false, false, None,
        ));
        lemma_scan_wf(line, ln, i + 2, p);
    } else if line[i] == '{' {
        let j = choose|j: int|
            i + 1 < j < p && line[j] == '}' && (forall|k: int| i < k < j ==> plain(#[trigger] line[k]))
                && wf_between(line, j + 1, p);
        assert(line_diags_from(line, ln, i, false, false, None) =~= line_diags_from(
            line, ln, i + 1, false, true, Some(i as usize),
        ));
        assert(plain(line[i + 1]));
        assert(line_diags_from(line, ln, i + 1, false, true, Some(i as usize)) == line_diags_from(
            line, ln, i + 2, false, false, Some(i as usize),
        ));
        lemma_scan_plain(line, ln, i + 2, j, false, Some(i as usize));
        assert(line_diags_from(line, ln, j, false, false, Some(i as usize)) =~= line_diags_from(
            line, ln, j + 1, false, false, None,
        ));
        lemma_scan_wf(line, ln, j + 1, p);
    } else if line[i] == '}' {
    } else {
        lemma_scan_wf(line, ln, i + 1, p);
    }
}

/// The lines `lines[ln..]` of a template whose every line is well formed
/// contribute no diagnostic.
proof fn lemma_lines_valid(lines: Seq<Seq<char>>, ln: int)
    requires
        forall|k: int| 0 <= k < lines.len() ==> line_well_formed(#[trigger] lines[k]),
    ensures
        template_diags_from(lines, ln).len() == 0,
    decreases lines.len() - ln,
{
    if 0 <= ln < lines.len() {
        lemma_scan_wf(lines[ln], ln, 0, lines[ln].len() as int);
        assert(line_diags_from(
            lines[ln], ln, lines[ln].len() as int, false, false, None,
        ) =~= Seq::<Diag>::empty());
        lemma_lines_valid(lines, ln + 1);
    }
}

/// A template whose every line consists only of literal text, escapes, and
/// well-formed, non-nested, non-empty `{name}` placeholders validates with
/// an empty diagnostic list.
pub proof fn lemma_well_formed_template_valid(text: Seq<char>)
    requires
        forall|ln: int| 0 <= ln < spec_lines(text).len() ==> line_well_formed(
            #[trigger] spec_lines(text)[ln],
        ),
    ensures
        valid_template(text),
{
    lemma_lines_valid(spec_lines(text), 0);
}

/// A diagnostic of one line is among the whole template's diagnostics.
pub proof fn lemma_template_diag_of_line(text: Seq<char>, ln: int, d: Diag)
    requires
        0 <= ln < spec_lines(text).len(),
        line_diags(spec_lines(text)[ln], ln).contains(d),
    ensures
        template_diags(text).contains(d),
{
    lemma_lines_diag_contains(spec_lines(text), 0, ln, d);
}

/// Lifts containment from one line's diagnostics to the concatenation over
/// the lines from `k` on.
proof fn lemma_lines_diag_contains(lines: Seq<Seq<char>>, k: int, ln: int, d: Diag)
    requires
        0 <= k <= ln < lines.len(),
        line_diags(lines[ln], ln).contains(d),
    ensures
        template_diags_from(lines, k).contains(d),
    decreases ln - k,
{
    if k == ln {
        let s = line_diags(lines[ln], ln);
        let i = choose|i: int| 0 <= i < s.len() && s[i] == d;
        assert(template_diags_from(lines, k)[i] == d);
    } else {
        lemma_lines_diag_contains(lines, k + 1, ln, d);
        let s = template_diags_from(lines, k + 1);
        let i = choose|i: int| 0 <= i < s.len() && s[i] == d;
        assert(template_diags_from(lines, k)[line_diags(lines[k], k).len() + i] == d);
    }
}

/// A line that is well formed up to an unmatched `{` whose would-be field
/// name runs to the end of the line produces exactly one diagnostic: an
/// unclosed brace, at the opening brace's column.
pub proof fn lemma_unclosed_brace(line: Seq<char>, ln: int, p: int)
    requires
        0 <= p < line.len(),
        wf_between(line, 0, p),
        line[p] == '{',
        forall|k: int| p < k < line.len() ==> plain(#[trigger] line[k]),
    ensures
        line_diags(line, ln) == seq![
            Diag { line: ln as usize, col: p as usize, kind: DiagKind::UnclosedBrace },
        ],
{
    lemma_scan_wf(line, ln, 0, p);
    assert(line_diags_from(line, ln, p, false, false, None) == line_diags_from(
        line, ln, p + 1, false, true, Some(p as usize),
    ));
    lemma_scan_plain(line, ln, p + 1, line.len() as int, true, Some(p as usize));
    assert(line_diags_from(line, ln, line.len() as int, false, false, Some(p as usize)) =~= seq![
        Diag { line: ln as usize, col: p as usize, kind: DiagKind::UnclosedBrace },
    ]);
}

/// An unmatched `{` with a plain tail, on any line of a template, puts an
/// unclosed-brace diagnostic at its line and column into the template's
/// diagnostics.
pub proof fn lemma_unclosed_brace_template(text: Seq<char>, ln: int, p: int)
    requires
        0 <= ln < spec_lines(text).len(),
        0 <= p < spec_lines(text)[ln].len(),
        wf_between(spec_lines(text)[ln], 0, p),
        spec_lines(text)[ln][p] == '{',
        forall|k: int| p < k < spec_lines(text)[ln].len() ==> plain(#[trigger] spec_lines(text)[ln][k]),
    ensures
        template_diags(text).contains(
            (Diag { line: ln as usize, col: p as usize, kind: DiagKind::UnclosedBrace }),
        ),
{
    lemma_unclosed_brace(spec_lines(text)[ln], ln, p);
    let d = Diag { line: ln as usize, col: p as usize, kind: DiagKind::UnclosedBrace };
    assert(line_diags(spec_lines(text)[ln], ln)[0] == d);
    lemma_template_diag_of_line(text, ln, d);
}

/// A line that is well formed up to one unmatched `{` whose would-be field
/// name runs to the end of the line.
pub open spec fn line_unclosed_shape(line: Seq<char>) -> bool {
    exists|p: int|
        0 <= p < line.len() && wf_between(line, 0, p) && line[p] == '{' && (forall|k: int|
            p < k < line.len() ==> plain(#[trigger] line[k]))
}

/// The column of such a line's unmatched `{`.
pub open spec fn unclosed_col(line: Seq<char>) -> int {
    choose|p: int|
        0 <= p < line.len() && wf_between(line, 0, p) && line[p] == '{' && (forall|k: int|
            p < k < line.len() ==> plain(#[trigger] line[k]))
}

/// One unclosed-brace diagnostic per unclosed line among `lines[ln..]`,
/// each at its opening brace's line and column, and nothing else.
pub open spec fn expected_unclosed(lines: Seq<Seq<char>>, ln: int) -> Seq<Diag>
    decreases lines.len() - ln,
{
    if ln < 0 || ln >= lines.len() {
        Seq::empty()
    } else {
        let d: Seq<Diag> = if line_unclosed_shape(lines[ln]) {
            seq![
                Diag {
                    line: ln as usize,
                    col: unclosed_col(lines[ln]) as usize,
                    kind: DiagKind::UnclosedBrace,
                },
            ]
        } else {
            Seq::empty()
        };
        d + expected_unclosed(lines, ln + 1)
    }
}

/// Joint induction for [`lemma_unclosed_braces_exactly`] over the lines
/// from `ln` on.
proof fn lemma_unclosed_lines(lines: Seq<Seq<char>>, ln: int)
    requires
        forall|k: int|
            0 <= k < lines.len() ==> (line_well_formed(#[trigger] lines[k]) || line_unclosed_shape(
                lines[k],
            )),
    ensures
        template_diags_from(lines, ln) == expected_unclosed(lines, ln),
    decreases lines.len() - ln,
{
    if 0 <= ln < lines.len() {
        let l = lines[ln];
        if line_unclosed_shape(l) {
            let p = unclosed_col(l);
            assert(0 <= p < l.len() && wf_between(l, 0, p) && l[p] == '{' && (forall|k: int|
                p < k < l.len() ==> plain(#[trigger] l[k])));
            lemma_unclosed_brace(l, ln, p);
        } else {
            lemma_scan_wf(l, ln, 0, l.len() as int);
            assert(line_diags(l, ln) =~= Seq::<Diag>::empty());
        }
        lemma_unclosed_lines(lines, ln + 1);
        assert(template_diags_from(lines, ln) =~= expected_unclosed(lines, ln));
    }
}

/// In a template each of whose lines is either well formed or well formed
/// up to one unmatched `{`, validation reports exactly one unclosed-brace
/// diagnostic per unmatched `{`, each at its opening brace's line and
/// column, and nothing else.
pub proof fn lemma_unclosed_braces_exactly(text: Seq<char>)
    requires
        forall|ln: int|
            0 <= ln < spec_lines(text).len() ==> (line_well_formed(
                #[trigger] spec_lines(text)[ln],
            ) || line_unclosed_shape(spec_lines(text)[ln])),
    ensures
        template_diags(text) == expected_unclosed(spec_lines(text), 0),
{
    lemma_unclosed_lines(spec_lines(text), 0);
}

/// A `}` that follows a well-formed prefix, with no field open on its line,
/// gets an unmatched-closing diagnostic at its own column, and it is the
/// first diagnostic of its line.
pub proof fn lemma_unmatched_closing(line: Seq<char>, ln: int, p: int)
    requires
        0 <= p < line.len(),
        wf_between(line, 0, p),
        line[p] == '}',
    ensures
        line_diags(line, ln).len() >= 1,
        line_diags(line, ln)[0] == (Diag {
            line: ln as usize,
            col: p as usize,
            kind: DiagKind::UnmatchedClosing,
        }),
        line_diags(line, ln).contains(
            (Diag { line: ln as usize, col: p as usize, kind: DiagKind::UnmatchedClosing }),
        ),
{
    lemma_scan_wf(line, ln, 0, p);
    let d = Diag { line: ln as usize, col: p as usize, kind: DiagKind::UnmatchedClosing };
    let rest = line_diags_from(line, ln, p + 1, false, false, None);
    assert(line_diags_from(line, ln, p, false, false, None) == Seq::<Diag>::empty() + seq![d]
        + rest);
    assert((Seq::<Diag>::empty() + seq![d] + rest)[0] == d);
}

/// An unmatched `}` after a well-formed prefix, on any line of a template,
/// puts an unmatched-closing diagnostic at its line and column into the
/// template's diagnostics.
pub proof fn lemma_unmatched_closing_template(text: Seq<char>, ln: int, p: int)
    requires
        0 <= ln < spec_lines(text).len(),
        0 <= p < spec_lines(text)[ln].len(),
        wf_between(spec_lines(text)[ln], 0, p),
        spec_lines(text)[ln][p] == '}',
    ensures
        template_diags(text).contains(
            (Diag { line: ln as usize, col: p as usize, kind: DiagKind::UnmatchedClosing }),
        ),
{
    lemma_unmatched_closing(spec_lines(text)[ln], ln, p);
    lemma_template_diag_of_line(
        text,
        ln,
        Diag { line: ln as usize, col: p as usize, kind: DiagKind::UnmatchedClosing },
    );
}

/// Text made of plain characters only.
pub open spec fn plain_text(s: Seq<char>) -> bool {
    forall|k: int| 0 <= k < s.len() ==> plain(#[trigger] s[k])
}

/// Text made of plain characters and newlines only: nothing in it can act
/// as an escape or as part of a placeholder.
pub open spec fn plain_or_newline(s: Seq<char>) -> bool {
    forall|k: int| 0 <= k < s.len() ==> (#[trigger] s[k] == '\n' || plain(s[k]))
}

/// A field mapping none of whose values contains a brace or a backslash.
pub open spec fn plain_values(fm: Map<Seq<char>, Seq<char>>) -> bool {
    forall|k: Seq<char>| #[trigger] fm.contains_key(k) ==> plain_text(fm[k])
}

/// Plain text concatenated with plain text is plain.
proof fn lemma_plain_concat(a: Seq<char>, b: Seq<char>)
    requires
        plain_text(a),
        plain_text(b),
    ensures
        plain_text(a + b),
{
    assert forall|k: int| 0 <= k < (a + b).len() implies plain(#[trigger] (a + b)[k]) by {
        if k < a.len() {
            assert(plain(a[k]));
        } else {
            assert(plain(b[k - a.len()]));
        }
    }
}

/// Plain-or-newline text concatenated with plain-or-newline text stays so.
proof fn lemma_pn_concat(a: Seq<char>, b: Seq<char>)
    requires
        plain_or_newline(a),
        plain_or_newline(b),
    ensures
        plain_or_newline(a + b),
{
    assert forall|k: int| 0 <= k < (a + b).len() implies ((a + b)[k] == '\n' || plain(
        #[trigger] (a + b)[k],
    )) by {
        if k < a.len() {
            assert(a[k] == '\n' || plain(a[k]));
        } else {
            assert(b[k - a.len()] == '\n' || plain(b[k - a.len()]));
        }
    }
}

/// No character of any line of the split comes from outside the text: a
/// character absent from the text is absent from every line.
proof fn lemma_spec_lines_no_char(text: Seq<char>, c: char)
    requires
        forall|j: int| 0 <= j < text.len() ==> #[trigger] text[j] != c,
    ensures
        forall|t: int, k: int|
            0 <= t < spec_lines(text).len() && 0 <= k < spec_lines(text)[t].len()
                ==> #[trigger] spec_lines(text)[t][k] != c,
    decreases text.len(),
{
    if text.len() != 0 {
        let kk = first_newline_from(text, 0);
        if 0 <= kk < text.len() {
            let first = strip_cr(text.take(kk));
            let rest = text.skip(kk + 1);
            assert(spec_lines(text) == seq![first] + spec_lines(rest));
            assert forall|j: int| 0 <= j < rest.len() implies #[trigger] rest[j] != c by {
                assert(rest[j] == text[j + kk + 1]);
            }
            lemma_spec_lines_no_char(rest, c);
            assert forall|t: int, k: int|
                0 <= t < spec_lines(text).len() && 0 <= k < spec_lines(text)[t].len()
                    implies #[trigger] spec_lines(text)[t][k] != c by {
                if t == 0 {
                    assert(spec_lines(text)[0] == first);
                    assert(first[k] == text.take(kk)[k]);
                    assert(first[k] == text[k]);
                } else {
                    assert(spec_lines(text)[t] == spec_lines(rest)[t - 1]);
                }
            }
        } else {
            assert(spec_lines(text) == seq![text]);
        }
    }
}

/// In a template whose remaining lines produce no diagnostic, no single
/// line produces one.
proof fn lemma_valid_lines(lines: Seq<Seq<char>>, j: int)
    requires
        0 <= j,
        template_diags_from(lines, j).len() == 0,
    ensures
        forall|t: int| j <= t < lines.len() ==> (#[trigger] line_diags(lines[t], t)).len() == 0,
    decreases lines.len() - j,
{
    if j < lines.len() {
        assert(template_diags_from(lines, j) == line_diags(lines[j], j) + template_diags_from(
            lines, j + 1,
        ));
        lemma_valid_lines(lines, j + 1);
    }
}

/// Rendering a clean, escape-free line tail against a mapping with plain
/// values emits plain characters only.
proof fn lemma_render_line_plain(
    line: Seq<char>,
    ln: int,
    i: int,
    lo: bool,
    open: Option<usize>,
    fm: Map<Seq<char>, Seq<char>>,
)
    requires
        forall|k: int| i <= k < line.len() ==> #[trigger] line[k] != '\\',
        plain_values(fm),
        line_diags_from(line, ln, i, false, lo, open).len() == 0,
    ensures
        plain_text(render_line_from(line, ln, i, false, open, fm).0),
    decreases line.len() - i,
{
    if i < 0 || i >= line.len() {
    } else {
        let c = line[i];
        if c == '\\' {
            assert(false);
        } else if c == '{' {
            match open {
                Some(_) => {
                    assert(line_diags_from(line, ln, i, false, lo, open).len() >= 1);
                },
                None => {
                    assert(line_diags_from(line, ln, i, false, lo, open) =~= line_diags_from(
                        line, ln, i + 1, false, true, Some(i as usize),
                    ));
                    lemma_render_line_plain(line, ln, i + 1, true, Some(i as usize), fm);
                },
            }
        } else if c == '}' {
            if lo {
                assert(line_diags_from(line, ln, i, false, lo, open).len() >= 1);
            } else {
                match open {
                    None => {
                        assert(line_diags_from(line, ln, i, false, lo, open).len() >= 1);
                    },
                    Some(b) => {
                        let name = line.subrange(b + 1, i);
                        assert(line_diags_from(line, ln, i, false, lo, open) =~= line_diags_from(
                            line, ln, i + 1, false, false, None,
                        ));
                        lemma_render_line_plain(line, ln, i + 1, false, None, fm);
                        let r = render_line_from(line, ln, i + 1, false, None, fm);
                        if fm.contains_key(name) {
                            assert(plain_text(fm[name]));
                            lemma_plain_concat(fm[name], r.0);
                            assert(render_line_from(line, ln, i, false, open, fm).0 == fm[name]
                                + r.0);
                        } else {
                            assert(render_line_from(line, ln, i, false, open, fm).0 == r.0);
                        }
                    },
                }
            }
        } else {
            assert(line_diags_from(line, ln, i, false, lo, open) == line_diags_from(
                line, ln, i + 1, false, false, open,
            ));
            lemma_render_line_plain(line, ln, i + 1, false, open, fm);
            match open {
                Some(_) => {},
                None => {
                    let r = render_line_from(line, ln, i + 1, false, open, fm);
                    assert(plain_text(seq![c])) by {
                        assert(seq![c][0] == c);
                    }
                    lemma_plain_concat(seq![c], r.0);
                },
            }
        }
    }
}

/// Rendering escape-free, diagnostic-free lines against a mapping with
/// plain values yields plain characters and line terminators only.
proof fn lemma_render_lines_plain(lines: Seq<Seq<char>>, ln: int, fm: Map<Seq<char>, Seq<char>>)
    requires
        forall|t: int, k: int|
            0 <= t < lines.len() && 0 <= k < lines[t].len() ==> #[trigger] lines[t][k] != '\\',
        plain_values(fm),
        forall|t: int| 0 <= t < lines.len() ==> (#[trigger] line_diags(lines[t], t)).len() == 0,
    ensures
        plain_or_newline(render_lines_from(lines, ln, fm).0),
    decreases lines.len() - ln,
{
    if 0 <= ln < lines.len() {
        let l = lines[ln];
        assert forall|k: int| 0 <= k < l.len() implies #[trigger] l[k] != '\\' by {
            assert(lines[ln][k] != '\\');
        }
        assert(line_diags(lines[ln], ln).len() == 0);
        lemma_render_line_plain(l, ln, 0, false, None, fm);
        let r0 = render_line(l, ln, fm);
        assert forall|k: int| 0 <= k < r0.0.len() implies (#[trigger] r0.0[k] == '\n' || plain(
            r0.0[k],
        )) by {
            assert(plain(r0.0[k]));
        }
        assert(plain_or_newline(seq!['\n'])) by {
            assert(seq!['\n'][0] == '\n');
        }
        lemma_pn_concat(r0.0, seq!['\n']);
        lemma_render_lines_plain(lines, ln + 1, fm);
        lemma_pn_concat(r0.0 + seq!['\n'], render_lines_from(lines, ln + 1, fm).0);
    }
}

/// All-plain text is well formed: it holds no escape and no brace at all.
proof fn lemma_plain_wf(line: Seq<char>, i: int)
    requires
        0 <= i <= line.len(),
        forall|k: int| 0 <= k < line.len() ==> plain(#[trigger] line[k]),
    ensures
        wf_between(line, i, line.len() as int),
    decreases line.len() - i,
{
    if i < line.len() {
        lemma_plain_wf(line, i + 1);
    }
}

/// Rendering a valid, escape-free template against a mapping none of whose
/// values contains brace syntax leaves no placeholder in the output: the
/// rendered text holds no brace and no backslash, and validating it yields
/// an empty diagnostic list.
pub proof fn lemma_render_leaves_no_placeholders(text: Seq<char>, fm: Map<Seq<char>, Seq<char>>)
    requires
        valid_template(text),
        forall|j: int| 0 <= j < text.len() ==> #[trigger] text[j] != '\\',
        plain_values(fm),
    ensures
        plain_or_newline(rendered_text(text, fm)),
        valid_template(rendered_text(text, fm)),
{
    let lines = spec_lines(text);
    lemma_spec_lines_no_char(text, '\\');
    lemma_valid_lines(lines, 0);
    lemma_render_lines_plain(lines, 0, fm);
    let out = rendered_text(text, fm);
    assert forall|j: int| 0 <= j < out.len() implies #[trigger] out[j] != '{' by {
        assert(out[j] == '\n' || plain(out[j]));
    }
    assert forall|j: int| 0 <= j < out.len() implies #[trigger] out[j] != '}' by {
        assert(out[j] == '\n' || plain(out[j]));
    }
    assert forall|j: int| 0 <= j < out.len() implies #[trigger] out[j] != '\\' by {
        assert(out[j] == '\n' || plain(out[j]));
    }
    lemma_spec_lines_no_char(out, '{');
    lemma_spec_lines_no_char(out, '}');
    lemma_spec_lines_no_char(out, '\\');
    assert forall|t: int| 0 <= t < spec_lines(out).len() implies line_well_formed(
        #[trigger] spec_lines(out)[t],
    ) by {
        let l = spec_lines(out)[t];
        assert forall|k: int| 0 <= k < l.len() implies plain(#[trigger] l[k]) by {
            assert(spec_lines(out)[t][k] != '{');
            assert(spec_lines(out)[t][k] != '}');
            assert(spec_lines(out)[t][k] != '\\');
        }
        lemma_plain_wf(l, 0);
    }
    lemma_well_formed_template_valid(out);
}

/// Every warning the scan of a line tail produces names a field the
/// mapping does not contain.
proof fn lemma_line_warnings_missing(
    line: Seq<char>,
    ln: int,
    i: int,
    esc: bool,
    open: Option<usize>,
    fm: Map<Seq<char>, Seq<char>>,
)
    ensures
        forall|w: WarningModel|
            #[trigger] render_line_from(line, ln, i, esc, open, fm).1.contains(w)
                ==> !fm.contains_key(w.name),
    decreases line.len() - i,
{
    if i < 0 || i >= line.len() {
    } else {
        let c = line[i];
        if esc {
            lemma_line_warnings_missing(line, ln, i + 1, false, open, fm);
            assert(render_line_from(line, ln, i, esc, open, fm).1 == render_line_from(
                line, ln, i + 1, false, open, fm,
            ).1);
        } else if c == '\\' {
            lemma_line_warnings_missing(line, ln, i + 1, true, open, fm);
            assert(render_line_from(line, ln, i, esc, open, fm).1 == render_line_from(
                line, ln, i + 1, true, open, fm,
            ).1);
        } else if c == '{' {
            lemma_line_warnings_missing(line, ln, i + 1, false, Some(i as usize), fm);
            assert(render_line_from(line, ln, i, esc, open, fm).1 == render_line_from(
                line, ln, i + 1, false, Some(i as usize), fm,
            ).1);
        } else if c == '}' {
            lemma_line_warnings_missing(line, ln, i + 1, false, None, fm);
            let r = render_line_from(line, ln, i + 1, false, None, fm);
            match open {
                Some(b) => {
                    let name = line.subrange(b + 1, i);
                    if fm.contains_key(name) {
                        assert(render_line_from(line, ln, i, esc, open, fm).1 == r.1);
                    } else {
                        let w0 = WarningModel { line: ln as usize, col: b, name };
                        assert(render_line_from(line, ln, i, esc, open, fm).1 == seq![w0] + r.1);
                        assert forall|w: WarningModel|
                            #[trigger] render_line_from(line, ln, i, esc, open, fm).1.contains(w)
                                implies !fm.contains_key(w.name) by {
                            let s = render_line_from(line, ln, i, esc, open, fm).1;
                            let k = choose|k: int| 0 <= k < s.len() && s[k] == w;
                            if k == 0 {
                                assert(w == w0);
                            } else {
                                assert(r.1[k - 1] == w);
                                assert(r.1.contains(w));
                            }
                        }
                    }
                },
                None => {
                    assert(render_line_from(line, ln, i, esc, open, fm).1 == r.1);
                },
            }
        } else {
            lemma_line_warnings_missing(line, ln, i + 1, false, open, fm);
            assert(render_line_from(line, ln, i, esc, open, fm).1 == render_line_from(
                line, ln, i + 1, false, open, fm,
            ).1);
        }
    }
}

/// Lifts [`lemma_line_warnings_missing`] over the lines from `ln` on.
proof fn lemma_lines_warnings_missing(
    lines: Seq<Seq<char>>,
    ln: int,
    fm: Map<Seq<char>, Seq<char>>,
)
    ensures
        forall|w: WarningModel|
            #[trigger] render_lines_from(lines, ln, fm).1.contains(w) ==> !fm.contains_key(w.name),
    decreases lines.len() - ln,
{
    if 0 <= ln < lines.len() {
        lemma_line_warnings_missing(lines[ln], ln, 0, false, None, fm);
        lemma_lines_warnings_missing(lines, ln + 1, fm);
        let r0 = render_line(lines[ln], ln, fm);
        let r1 = render_lines_from(lines, ln + 1, fm);
        assert forall|w: WarningModel|
            #[trigger] render_lines_from(lines, ln, fm).1.contains(w) implies !fm.contains_key(
            w.name,
        ) by {
            let s = render_lines_from(lines, ln, fm).1;
            let k = choose|k: int| 0 <= k < s.len() && s[k] == w;
            if k < r0.1.len() {
                assert(r0.1[k] == w);
                assert(r0.1.contains(w));
            } else {
                assert(r1.1[k - r0.1.len()] == w);
                assert(r1.1.contains(w));
            }
        }
    }
}

/// Warnings degrade gracefully and only where they must: every warning a
/// render produces names a field the mapping does not contain, so a
/// mapping holding every field name a template refers to renders without
/// any warning.
pub proof fn lemma_warnings_name_missing_fields(text: Seq<char>, fm: Map<Seq<char>, Seq<char>>)
    ensures
        forall|w: WarningModel|
            #[trigger] rendered_warnings(text, fm).contains(w) ==> !fm.contains_key(w.name),
{
    lemma_lines_warnings_missing(spec_lines(text), 0, fm);
}

/// Rendering the one-line template `\{literal\}` yields the literal text
/// `{literal}` followed by the line terminator, whatever the field mapping
/// holds: the backslashes are consumed, the braces are kept, and no field
/// is looked up.
pub proof fn lemma_escape_round_trip(fm: Map<Seq<char>, Seq<char>>)
    ensures
        rendered_text(seq!['\\', '{', 'l', 'i', 't', 'e', 'r', 'a', 'l', '\\', '}'], fm) == seq![
            '{', 'l', 'i', 't', 'e', 'r', 'a', 'l', '}', '\n',
        ],
{
    let t = seq!['\\', '{', 'l', 'i', 't', 'e', 'r', 'a', 'l', '\\', '}'];
    assert(t.len() == 11);
    assert(first_newline_from(t, 11) == 11);
    assert(first_newline_from(t, 10) == 11);
    assert(first_newline_from(t, 9) == 11);
    assert(first_newline_from(t, 8) == 11);
    assert(first_newline_from(t, 7) == 11);
    assert(first_newline_from(t, 6) == 11);
    assert(first_newline_from(t, 5) == 11);
    assert(first_newline_from(t, 4) == 11);
    assert(first_newline_from(t, 3) == 11);
    assert(first_newline_from(t, 2) == 11);
    assert(first_newline_from(t, 1) == 11);
    assert(first_newline_from(t, 0) == 11);
    assert(spec_lines(t) =~= seq![t]);
    assert(render_line_from(t, 0, 11, false, None, fm).0 =~= Seq::<char>::empty());
    assert(render_line_from(t, 0, 10, true, None, fm).0 =~= seq!['}']);
    assert(render_line_from(t, 0, 9, false, None, fm).0 =~= seq!['}']);
    assert(render_line_from(t, 0, 8, false, None, fm).0 =~= seq!['l', '}']);
    assert(render_line_from(t, 0, 7, false, None, fm).0 =~= seq!['a', 'l', '}']);
    assert(render_line_from(t, 0, 6, false, None, fm).0 =~= seq!['r', 'a', 'l', '}']);
    assert(render_line_from(t, 0, 5, false, None, fm).0 =~= seq!['e', 'r', 'a', 'l', '}']);
    assert(render_line_from(t, 0, 4, false, None, fm).0 =~= seq!['t', 'e', 'r', 'a', 'l', '}']);
    assert(render_line_from(t, 0, 3, false, None, fm).0 =~= seq!['i', 't', 'e', 'r', 'a', 'l', '}']);
    assert(render_line_from(t, 0, 2, false, None, fm).0 =~= seq!['l', 'i', 't', 'e', 'r', 'a', 'l', '}']);
    assert(render_line_from(t, 0, 1, true, None, fm).0 =~= seq![
        '{', 'l', 'i', 't', 'e', 'r', 'a', 'l', '}',
    ]);
    assert(render_line_from(t, 0, 0, false, None, fm).0 =~= seq![
        '{', 'l', 'i', 't', 'e', 'r', 'a', 'l', '}',
    ]);
    assert(render_lines_from(seq![t], 1, fm).0 =~= Seq::<char>::empty());
    assert(render_lines_from(seq![t], 0, fm).0 =~= seq!['{', 'l', 'i', 't', 'e', 'r', 'a', 'l', '}']
        + seq!['\n'] + Seq::<char>::empty());
    assert(rendered_text(t, fm) =~= seq!['{', 'l', 'i', 't', 'e', 'r', 'a', 'l', '}', '\n']);
}

} // verus!
