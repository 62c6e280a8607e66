//! The renderer.
//!
//! Rendering re-scans each line with the same character classification as
//! the validator: an unescaped backslash is deleted and the character after
//! it is kept literally; a `{name}` placeholder is replaced by the value the
//! field mapping gives for `name`, or by the empty string, with a warning,
//! when the mapping has no such field.  Every processed line is terminated
//! with a single newline in the output, whether or not the input's last line
//! had one.  Substituted values are opaque literal text: the grammar is not
//! re-applied to them.

use vstd::prelude::*;

use crate::diag::{Warning, WarningModel, warning_views};
use crate::fields::FieldMap;
use crate::lines::{spec_lines, split_lines};
use crate::text::str_to_chars;

verus! {

/// The rendered text and the warnings for `line[i..]` on line `ln`, starting
/// in the given scan state (`esc` and `open` as in the validator's scan).
pub open spec fn render_line_from(
    line: Seq<char>,
    ln: int,
    i: int,
    esc: bool,
    open: Option<usize>,
    fm: Map<Seq<char>, Seq<char>>,
) -> (Seq<char>, Seq<WarningModel>)
    decreases line.len() - i,
{
    if i < 0 || i >= line.len() {
        (Seq::empty(), Seq::empty())
    } else {
        let c = line[i];
        if esc {
            let r = render_line_from(line, ln, i + 1, false, open, fm);
            (seq![c] + r.0, r.1)
        } else if c == '\\' {
            render_line_from(line, ln, i + 1, true, open, fm)
        } else if c == '{' {
            render_line_from(line, ln, i + 1, false, Some(i as usize), fm)
        } else if c == '}' {
            match open {
                Some(b) => {
                    let name = line.subrange(b + 1, i);
                    let r = render_line_from(line, ln, i + 1, false, None, fm);
                    if fm.contains_key(name) {
                        (fm[name] + r.0, r.1)
                    } else {
                        (r.0, seq![WarningModel { line: ln as usize, col: b, name }] + r.1)
                    }
                },
                None => {
                    let r = render_line_from(line, ln, i + 1, false, None, fm);
                    (seq![c] + r.0, r.1)
                },
            }
        } else {
            match open {
                Some(_) => render_line_from(line, ln, i + 1, false, open, fm),
                None => {
                    let r = render_line_from(line, ln, i + 1, false, open, fm);
                    (seq![c] + r.0, r.1)
                },
            }
        }
    }
}

/// One whole line's rendered text and warnings.
pub open spec fn render_line(line: Seq<char>, ln: int, fm: Map<Seq<char>, Seq<char>>) -> (
    Seq<char>,
    Seq<WarningModel>,
) {
    render_line_from(line, ln, 0, false, None, fm)
}

/// The rendered text and warnings of the lines `lines[ln..]`: each line's
/// rendering followed by one newline, warnings in line order.
pub open spec fn render_lines_from(
    lines: Seq<Seq<char>>,
    ln: int,
    fm: Map<Seq<char>, Seq<char>>,
) -> (Seq<char>, Seq<WarningModel>)
    decreases lines.len() - ln,
{
    if ln < 0 || ln >= lines.len() {
        (Seq::empty(), Seq::empty())
    } else {
        let r0 = render_line(lines[ln], ln, fm);
        let r1 = render_lines_from(lines, ln + 1, fm);
        (r0.0 + seq!['\n'] + r1.0, r0.1 + r1.1)
    }
}

/// The text the renderer produces for a template against a field mapping.
pub open spec fn rendered_text(text: Seq<char>, fm: Map<Seq<char>, Seq<char>>) -> Seq<char> {
    render_lines_from(spec_lines(text), 0, fm).0
}

/// The warnings the renderer produces: one per placeholder whose field name
/// the mapping does not contain, in scan order.
pub open spec fn rendered_warnings(text: Seq<char>, fm: Map<Seq<char>, Seq<char>>) -> Seq<
    WarningModel,
> {
    render_lines_from(spec_lines(text), 0, fm).1
}

/// Appends every character of `v` to `out`.
fn push_chars(out: &mut Vec<char>, v: &Vec<char>)
    ensures
        final(out)@ == old(out)@ + v@,
{
    let ghost base = out@;
    let mut k: usize = 0;
    while k < v.len()
        invariant
            0 <= k <= v.len(),
            out@ == base + v@.take(k as int),
        decreases v.len() - k,
    {
        out.push(v[k]);
        proof {
            assert(base + v@.take(k as int) + seq![v@[k as int]] =~= base + v@.take(k + 1));
        }
        k = k + 1;
    }
    proof {
        assert(base + v@.take(v.len() as int) =~= base + v@);
    }
}

/// Renders one line, appending its output characters and its warnings.
fn render_line_exec(
    line: &Vec<char>,
    ln: usize,
    fm: &FieldMap,
    out: &mut Vec<char>,
    warns: &mut Vec<Warning>,
)
    ensures
        final(out)@ == old(out)@ + render_line(line@, ln as int, fm@).0,
        warning_views(final(warns)@) == warning_views(old(warns)@) + render_line(
            line@, ln as int, fm@,
        ).1,
{
    let ghost out_base = out@;
    let ghost wv_base = warning_views(warns@);
    let mut esc: bool = false;
    let mut open: Option<usize> = None;
    let mut i: usize = 0;
    proof {
        assert(out_base + render_line(line@, ln as int, fm@).0 =~= out@ + render_line_from(
            line@, ln as int, 0, false, None, fm@,
        ).0);
        assert(wv_base + render_line(line@, ln as int, fm@).1 =~= warning_views(warns@)
            + render_line_from(line@, ln as int, 0, false, None, fm@).1);
    }
    while i < line.len()
        invariant
            0 <= i <= line.len(),
            open matches Some(b) ==> b < i,
            out_base + render_line(line@, ln as int, fm@).0 == out@ + render_line_from(
                line@, ln as int, i as int, esc, open, fm@,
            ).0,
            wv_base + render_line(line@, ln as int, fm@).1 == warning_views(warns@)
                + render_line_from(line@, ln as int, i as int, esc, open, fm@).1,
        decreases line.len() - i,
    {
        let ghost out0 = out@;
        let ghost wv0 = warning_views(warns@);
        let ghost esc0 = esc;
        let ghost open0 = open;
        let c = line[i];
        if esc {
            out.push(c);
            esc = false;
        } else if c == '\\' {
            esc = true;
        } else if c == '{' {
            open = Some(i);
        } else if c == '}' {
            match open {
                Some(b) => {
                    let mut name: Vec<char> = Vec::new();
                    let mut j: usize = b + 1;
                    while j < i
                        invariant
                            b + 1 <= j <= i <= line@.len(),
                            name@ == line@.subrange(b + 1, j as int),
                        decreases i - j,
                    {
                        name.push(line[j]);
                        proof {
                            assert(line@.subrange(b + 1, j as int).push(line@[j as int])
                                =~= line@.subrange(b + 1, j + 1));
                        }
                        j = j + 1;
                    }
                    match fm.get(&name) {
                        Some(v) => {
                            push_chars(out, v);
                        },
                        None => {
                            let w = Warning {
                                line: ln,
                                col: b,
                                name: crate::text::chars_to_string(&name),
                            };
                            let ghost ws0 = warns@;
                            warns.push(w);
                            proof {
                                assert(warning_views(warns@) =~= warning_views(ws0) + seq![w@]);
                            }
                        },
                    }
                    open = None;
                },
                None => {
                    out.push(c);
                },
            }
        } else {
            match open {
                Some(_) => {},
                None => {
                    out.push(c);
                },
            }
        }
        proof {
            let r_i = render_line_from(line@, ln as int, i as int, esc0, open0, fm@);
            let r_n = render_line_from(line@, ln as int, i + 1, esc, open, fm@);
            let out_emitted = out@.skip(out0.len() as int);
            let wv_emitted = warning_views(warns@).skip(wv0.len() as int);
            assert(warning_views(warns@).len() >= wv0.len()) by {
                assert(warns@.len() >= warning_views(warns@).len() == warns@.len());
            }
            assert(out@ =~= out0 + out_emitted);
            assert(warning_views(warns@) =~= wv0 + wv_emitted);
            assert(r_i.0 =~= out_emitted + r_n.0);
            assert(r_i.1 =~= wv_emitted + r_n.1);
            assert(out0 + (out_emitted + r_n.0) =~= (out0 + out_emitted) + r_n.0);
            assert(wv0 + (wv_emitted + r_n.1) =~= (wv0 + wv_emitted) + r_n.1);
        }
        i = i + 1;
    }
    proof {
        assert(render_line_from(line@, ln as int, i as int, esc, open, fm@).0
            =~= Seq::<char>::empty());
        assert(render_line_from(line@, ln as int, i as int, esc, open, fm@).1
            =~= Seq::<WarningModel>::empty());
        assert(out@ + Seq::<char>::empty() =~= out@);
        assert(warning_views(warns@) + Seq::<WarningModel>::empty() =~= warning_views(warns@));
    }
}

/// Renders template characters against a field mapping, returning the output
/// characters and the warnings for unresolved fields.
pub(crate) fn render_chars(text: &Vec<char>, fm: &FieldMap) -> (r: (Vec<char>, Vec<Warning>))
    ensures
        r.0@ == rendered_text(text@, fm@),
        warning_views(r.1@) == rendered_warnings(text@, fm@),
{
    let lines = split_lines(text);
    let ghost lviews = lines@.map_values(|l: Vec<char>| l@);
    let mut out: Vec<char> = Vec::new();
    let mut warns: Vec<Warning> = Vec::new();
    let mut ln: usize = 0;
    proof {
        assert(Seq::<char>::empty() + render_lines_from(lviews, 0, fm@).0 =~= render_lines_from(
            lviews, 0, fm@,
        ).0);
        assert(warning_views(warns@) =~= Seq::<WarningModel>::empty());
        assert(Seq::<WarningModel>::empty() + render_lines_from(lviews, 0, fm@).1
            =~= render_lines_from(lviews, 0, fm@).1);
    }
    while ln < lines.len()
        invariant
            0 <= ln <= lines.len(),
            lviews == lines@.map_values(|l: Vec<char>| l@),
            render_lines_from(lviews, 0, fm@).0 == out@ + render_lines_from(
                lviews, ln as int, fm@,
            ).0,
            render_lines_from(lviews, 0, fm@).1 == warning_views(warns@) + render_lines_from(
                lviews, ln as int, fm@,
            ).1,
        decreases lines.len() - ln,
    {
        let ghost out0 = out@;
        let ghost wv0 = warning_views(warns@);
        render_line_exec(&lines[ln], ln, fm, &mut out, &mut warns);
        out.push('\n');
        proof {
            assert(lines@[ln as int]@ == lviews[ln as int]);
            let r0 = render_line(lviews[ln as int], ln as int, fm@);
            let r1 = render_lines_from(lviews, ln + 1, fm@);
            assert(render_lines_from(lviews, ln as int, fm@).0 =~= r0.0 + seq!['\n'] + r1.0);
            assert(render_lines_from(lviews, ln as int, fm@).1 =~= r0.1 + r1.1);
            assert(out@ =~= out0 + (r0.0 + seq!['\n']));
            assert(out0 + ((r0.0 + seq!['\n']) + r1.0) =~= (out0 + (r0.0 + seq!['\n'])) + r1.0);
            assert(out0 + (r0.0 + seq!['\n'] + r1.0) =~= out0 + ((r0.0 + seq!['\n']) + r1.0));
            assert(wv0 + (r0.1 + r1.1) =~= (wv0 + r0.1) + r1.1);
        }
        ln = ln + 1;
    }
    proof {
        assert(render_lines_from(lviews, ln as int, fm@).0 =~= Seq::<char>::empty());
        assert(render_lines_from(lviews, ln as int, fm@).1 =~= Seq::<WarningModel>::empty());
        assert(out@ + Seq::<char>::empty() =~= out@);
        assert(warning_views(warns@) + Seq::<WarningModel>::empty() =~= warning_views(warns@));
    }
    (out, warns)
}

/// Renders raw template text against a field mapping, discarding warnings.
///
/// The result substitutes every `{name}` placeholder, deletes every escape
/// backslash, and ends every logical line with exactly one newline.
pub fn apply_template(template: &str, content: &FieldMap) -> (res: String)
    ensures
        res@ == rendered_text(template@, content@),
{
    let chars = str_to_chars(template);
    let (out, _warns) = render_chars(&chars, content);
    crate::text::chars_to_string(&out)
}

} // verus!
