//! Splitting template text into logical lines.
//!
//! Lines are separated by `'\n'`; a `'\r'` immediately before a separating
//! `'\n'` is not part of the line, and a final line terminator is optional
//! (text ending in `'\n'` yields the same lines as the same text without
//! it).  Escapes and field names never cross a line boundary, so both the
//! validator and the renderer work on the result of this split.

use vstd::prelude::*;

verus! {

/// The position of the first `'\n'` at or after `i`, or the length of the
/// text when there is none.
pub open spec fn first_newline_from(text: Seq<char>, i: int) -> int
    decreases text.len() - i,
{
    if i < 0 || i >= text.len() {
        text.len() as int
    } else if text[i] == '\n' {
        i
    } else {
        first_newline_from(text, i + 1)
    }
}

/// Removes the `'\r'` of a `"\r\n"` line ending: the last character of a
/// segment that was terminated by `'\n'`, when it is `'\r'`.
pub open spec fn strip_cr(line: Seq<char>) -> Seq<char> {
    if line.len() > 0 && line.last() == '\r' {
        line.drop_last()
    } else {
        line
    }
}

/// The logical lines of the text: segments between `'\n'` separators, each
/// with a trailing `'\r'` removed, and no empty final segment after a
/// trailing `'\n'`.
pub open spec fn spec_lines(text: Seq<char>) -> Seq<Seq<char>>
    decreases text.len(),
{
    if text.len() == 0 {
        Seq::empty()
    } else {
        let k = first_newline_from(text, 0);
        if 0 <= k < text.len() {
            seq![strip_cr(text.take(k))] + spec_lines(text.skip(k + 1))
        } else {
            seq![text]
        }
    }
}

/// When no character of `text[i..]` is `'\n'`, the first newline at or after
/// `i` is the end of the text.
proof fn lemma_first_newline_none(text: Seq<char>, i: int)
    requires
        0 <= i <= text.len(),
        forall|j: int| i <= j < text.len() ==> text[j] != '\n',
    ensures
        first_newline_from(text, i) == text.len(),
    decreases text.len() - i,
{
    if i < text.len() {
        lemma_first_newline_none(text, i + 1);
    }
}

/// When `text[k]` is the first `'\n'` at or after `i`, the scan from `i`
/// finds exactly `k`.
proof fn lemma_first_newline_at(text: Seq<char>, i: int, k: int)
    requires
        0 <= i <= k < text.len(),
        text[k] == '\n',
        forall|j: int| i <= j < k ==> text[j] != '\n',
    ensures
        first_newline_from(text, i) == k,
    decreases k - i,
{
    if i < k {
        lemma_first_newline_at(text, i + 1, k);
    }
}

/// Splits text into its logical lines, as character vectors.
pub fn split_lines(text: &Vec<char>) -> (lines: Vec<Vec<char>>)
    ensures
        lines@.map_values(|l: Vec<char>| l@) == spec_lines(text@),
{
    let ghost t = text@;
    let mut lines: Vec<Vec<char>> = Vec::new();
    let mut cur: Vec<char> = Vec::new();
    let ghost start: int = 0;
    let mut i: usize = 0;
    proof {
        assert(t.skip(0) =~= t);
        assert(lines@.map_values(|l: Vec<char>| l@) =~= Seq::<Seq<char>>::empty());
        assert(Seq::<Seq<char>>::empty() + spec_lines(t) =~= spec_lines(t));
    }
    while i < text.len()
        invariant
            0 <= start <= i <= t.len(),
            t == text@,
            cur@ == t.subrange(start, i as int),
            forall|j: int| start <= j < i ==> t[j] != '\n',
            spec_lines(t) == lines@.map_values(|l: Vec<char>| l@) + spec_lines(
                t.skip(start),
            ),
        decreases t.len() - i,
    {
        let c = text[i];
        if c == '\n' {
            proof {
                let rest = t.skip(start);
                assert(rest.len() == t.len() - start);
                assert(forall|j: int| 0 <= j < i - start ==> rest[j] == t[start + j]);
                lemma_first_newline_at(rest, 0, i - start);
                assert(rest.take(i - start) =~= t.subrange(start, i as int));
                assert(rest.skip(i - start + 1) =~= t.skip(i + 1));
                assert(spec_lines(rest) == seq![strip_cr(cur@)] + spec_lines(t.skip(i + 1)));
            }
            if cur.len() > 0 && cur[cur.len() - 1] == '\r' {
                cur.pop();
            }
            proof {
                assert(cur@ == strip_cr(t.subrange(start, i as int)));
            }
            let ghost old_lines = lines@;
            lines.push(cur);
            proof {
                assert(lines@.map_values(|l: Vec<char>| l@) =~= old_lines.map_values(
                    |l: Vec<char>| l@,
                ) + seq![strip_cr(t.subrange(start, i as int))]);
            }
            cur = Vec::new();
            proof {
                start = i + 1;
                assert(cur@ =~= t.subrange(start, i + 1));
            }
        } else {
            cur.push(c);
            proof {
                assert(cur@ =~= t.subrange(start, i + 1));
            }
        }
        i = i + 1;
    }
    proof {
        let rest = t.skip(start);
        assert(rest =~= cur@);
    }
    if cur.len() > 0 {
        proof {
            let rest = cur@;
            lemma_first_newline_none(rest, 0);
            assert(spec_lines(rest) == seq![rest]);
        }
        let ghost old_lines = lines@;
        lines.push(cur);
        proof {
            assert(lines@.map_values(|l: Vec<char>| l@) =~= old_lines.map_values(
                |l: Vec<char>| l@,
            ) + seq![t.skip(start)]);
        }
    } else {
        proof {
            assert(spec_lines(cur@) == Seq::<Seq<char>>::empty());
            assert(lines@.map_values(|l: Vec<char>| l@) + Seq::<Seq<char>>::empty()
                =~= lines@.map_values(|l: Vec<char>| l@));
        }
    }
    lines
}

} // verus!
