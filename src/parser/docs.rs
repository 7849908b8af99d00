//! Documentation comments: `///` lines before an item, `//!` lines for the module.

use crate::parser::scan::{
    blank_end, doc_line_at, doc_line_content, newline_from, plain_comment_at, trivia_end, Source,
};
use vstd::prelude::*;
use vstd::string::*;

verus! {

/// The documentation text of consecutive doc lines: each line is appended,
/// after a newline unless the text so far is empty.
pub open spec fn doc_text(lines: Seq<Seq<char>>) -> Seq<char>
    decreases lines.len(),
{
    if lines.len() == 0 {
        Seq::empty()
    } else {
        let acc = doc_text(lines.drop_last());
        if acc.len() == 0 {
            lines.last()
        } else {
            acc + seq!['\n'] + lines.last()
        }
    }
}

/// The lines joined by newlines.
pub open spec fn joined_lines(lines: Seq<Seq<char>>) -> Seq<char>
    decreases lines.len(),
{
    if lines.len() == 0 {
        Seq::empty()
    } else if lines.len() == 1 {
        lines[0]
    } else {
        joined_lines(lines.drop_last()) + seq!['\n'] + lines.last()
    }
}

/// The views of a list of strings.
pub open spec fn views(v: Seq<String>) -> Seq<Seq<char>> {
    v.map_values(|s: String| s@)
}

/// Documentation whose first line is not empty is its lines joined by
/// newlines, exactly as written.
pub proof fn lemma_doc_text_joins(lines: Seq<Seq<char>>)
    requires
        lines.len() > 0,
        lines[0].len() > 0,
    ensures
        doc_text(lines) == joined_lines(lines),
        doc_text(lines).len() > 0,
    decreases lines.len(),
{
    if lines.len() > 1 {
        lemma_doc_text_joins(lines.drop_last());
        assert(lines.drop_last()[0] == lines[0]);
    } else {
        assert(lines.drop_last().len() == 0);
        assert(doc_text(lines.drop_last()).len() == 0);
        assert(lines.last() == lines[0]);
    }
}

/// Accumulates doc lines into documentation; an empty result is no documentation.
pub fn accumulate_docs(lines: &Vec<String>) -> (r: Option<String>)
    ensures
        r is Some <==> doc_text(views(lines@)).len() > 0,
        r is Some ==> r->0@ == doc_text(views(lines@)),
{
    let ghost vs = views(lines@);
    let mut acc = String::new();
    let mut i: usize = 0;
    while i < lines.len()
        invariant
            i <= lines@.len(),
            vs == views(lines@),
            acc@ == doc_text(vs.subrange(0, i as int)),
        decreases lines@.len() - i,
    {
        assert(vs.subrange(0, i + 1).drop_last() =~= vs.subrange(0, i as int));
        proof {
            reveal_strlit("\n");
        }
        if acc.as_str().unicode_len() > 0 {
            acc = acc.concat("\n");
        }
        acc = acc.concat(lines[i].as_str());
        i = i + 1;
        assert(acc@ =~= doc_text(vs.subrange(0, i as int)));
    }
    assert(vs.subrange(0, i as int) =~= vs);
    if acc.as_str().unicode_len() > 0 {
        Some(acc)
    } else {
        None
    }
}

/// Each of `lines` is the text of the documentation line with marker `m`
/// that starts at the matching entry of `starts`, in `lo..hi`.
pub open spec fn lines_at(
    s: Seq<char>,
    lines: Seq<Seq<char>>,
    starts: Seq<int>,
    m: char,
    lo: int,
    hi: int,
) -> bool {
    &&& starts.len() == lines.len()
    &&& forall|k: int|
        0 <= k < lines.len() ==> lo <= #[trigger] starts[k] < hi && doc_line_at(s, starts[k], m)
            && lines[k] == doc_line_content(s, starts[k])
}

/// Each of `lines` is the text of a documentation line with marker `m`
/// that starts in `lo..hi`.
pub open spec fn lines_from_marks(s: Seq<char>, lines: Seq<Seq<char>>, m: char, lo: int, hi: int) -> bool {
    exists|starts: Seq<int>| #[trigger] lines_at(s, lines, starts, m, lo, hi)
}

/// The end of the documentation lines with marker `m` that follow trivia at
/// `from`; `end` when none follows.
pub open spec fn docs_rest(s: Seq<char>, end: int, from: int, m: char) -> int
    decreases s.len() - from,
{
    let p = trivia_end(s, from);
    if doc_line_at(s, p, m) {
        let e = newline_from(s, blank_end(s, p + 3));
        if from < e <= s.len() {
            docs_rest(s, e, e, m)
        } else {
            end
        }
    } else {
        end
    }
}

/// The texts of the documentation lines with marker `m` that follow trivia
/// at `from`, in order.
pub open spec fn doc_lines_from(s: Seq<char>, from: int, m: char) -> Seq<Seq<char>>
    decreases s.len() - from,
{
    let p = trivia_end(s, from);
    if doc_line_at(s, p, m) {
        let e = newline_from(s, blank_end(s, p + 3));
        if from < e <= s.len() {
            seq![doc_line_content(s, p)] + doc_lines_from(s, e, m)
        } else {
            Seq::empty()
        }
    } else {
        Seq::empty()
    }
}

/// `docs` is the documentation accumulated from `lines`: `None` when that is empty.
pub open spec fn docs_match(docs: Option<String>, lines: Seq<Seq<char>>) -> bool {
    &&& (docs is Some <==> doc_text(lines).len() > 0)
    &&& (docs is Some ==> docs->0@ == doc_text(lines))
}

/// The item documentation that follows trivia at `pos` is `docs`.
pub open spec fn item_docs_are(s: Seq<char>, pos: int, docs: Option<String>) -> bool {
    docs_match(docs, doc_lines_from(s, pos, '/'))
}

/// The end of the documentation block with marker `m` after trivia at `pos`,
/// or `pos` when there is none.
pub open spec fn docs_end(s: Seq<char>, pos: int, m: char) -> int {
    docs_rest(s, pos, pos, m)
}

/// Documentation, if present, is the text of documentation lines with marker
/// `m` that start in `lo..hi`.
pub open spec fn docs_from_marks(s: Seq<char>, docs: Option<String>, m: char, lo: int, hi: int) -> bool {
    docs is Some ==> exists|lines: Seq<Seq<char>>|
        lines_from_marks(s, lines, m, lo, hi) && #[trigger] doc_text(lines) == docs->0@
}

/// Documentation lines found in a range are found in any range around it.
pub proof fn lemma_docs_widen(s: Seq<char>, docs: Option<String>, m: char, lo: int, hi: int, lo2: int, hi2: int)
    requires
        docs_from_marks(s, docs, m, lo, hi),
        lo2 <= lo,
        hi <= hi2,
    ensures
        docs_from_marks(s, docs, m, lo2, hi2),
{
    if docs is Some {
        let lines = choose|lines: Seq<Seq<char>>|
            lines_from_marks(s, lines, m, lo, hi) && #[trigger] doc_text(lines) == docs->0@;
        let starts = choose|starts: Seq<int>| #[trigger] lines_at(s, lines, starts, m, lo, hi);
        assert(lines_at(s, lines, starts, m, lo2, hi2));
        assert(lines_from_marks(s, lines, m, lo2, hi2));
    }
}

/// A plain comment is never a documentation line, so it never documents anything.
pub proof fn law_plain_comment_is_no_doc_line(s: Seq<char>, i: int)
    requires
        plain_comment_at(s, i),
    ensures
        !doc_line_at(s, i, '/'),
        !doc_line_at(s, i, '!'),
{
}

/// Reads the doc lines with marker `m` that follow trivia at `pos`. Each
/// line is its text after the marker and leading blanks, up to the line end
/// (a carriage return before the newline excluded). Returns the lines and the
/// end of the last one (`pos` when there is none).
pub fn doc_lines(src: &Source, pos: usize, m: char) -> (r: (Vec<String>, usize))
    requires
        src.wf(),
        pos <= src.s().len(),
    ensures
        pos <= r.1 <= src.s().len(),
        r.0@.len() > 0 ==> pos < r.1,
        doc_line_at(src.s(), pos as int, m) && (m == '/' || m == '!') ==> r.0@.len() > 0,
        forall|i: int| 0 <= i < r.0@.len() ==> !(#[trigger] r.0@[i]@).contains('\n'),
        lines_from_marks(src.s(), views(r.0@), m, pos as int, r.1 as int),
        r.1 == docs_end(src.s(), pos as int, m),
        r.0@.len() == 0 <==> r.1 == pos,
        views(r.0@) == doc_lines_from(src.s(), pos as int, m),
{
    let mut lines: Vec<String> = Vec::new();
    let ghost mut starts: Seq<int> = Seq::empty();
    let mut end = pos;
    let n = src.len();
    let mut p = src.skip_trivia(pos);
    let ghost mut from: int = pos as int;
    while src.doc_line(p, m)
        invariant
            p == trivia_end(src.s(), from),
            pos <= from <= p,
            lines@.len() == 0 <==> end == pos,
            doc_lines_from(src.s(), pos as int, m) == views(lines@) + doc_lines_from(src.s(), from, m),
            docs_end(src.s(), pos as int, m) == docs_rest(src.s(), end as int, from, m),
            src.wf(),
            n == src.s().len(),
            pos <= end <= p <= src.s().len(),
            lines@.len() > 0 ==> pos < end,
            doc_line_at(src.s(), pos as int, m) && (m == '/' || m == '!') ==> (lines@.len() > 0 || p
                == pos),
            forall|i: int| 0 <= i < lines@.len() ==> !(#[trigger] lines@[i]@).contains('\n'),
            lines_at(src.s(), views(lines@), starts, m, pos as int, end as int),
        decreases src.s().len() - p,
    {
        let mut c = p + 3;
        while c < src.len() && (src.chars[c] == ' ' || src.chars[c] == '\t')
            invariant
                p + 3 <= c <= src.s().len(),
                blank_end(src.s(), p + 3) == blank_end(src.s(), c as int),
            decreases src.s().len() - c,
        {
            c = c + 1;
        }
        let e = src.line_end(c);
        let stop = if e > c && src.chars[e - 1] == '\r' {
            e - 1
        } else {
            e
        };
        let line = src.slice(c, stop);
        assert(!line@.contains('\n')) by {
            assert forall|k: int| 0 <= k < line@.len() implies line@[k] != '\n' by {
                assert(line@[k] == src.s()[c + k]);
            }
        }
        assert(line@ == doc_line_content(src.s(), p as int));
        let ghost old_lines = views(lines@);
        lines.push(line);
        assert(views(lines@) =~= old_lines.push(line@));
        proof {
            starts = starts.push(p as int);
        }
        assert(lines_at(src.s(), views(lines@), starts, m, pos as int, e as int)) by {
            assert forall|k: int| 0 <= k < views(lines@).len() implies pos <= #[trigger] starts[k] < e
                && doc_line_at(src.s(), starts[k], m) && views(lines@)[k] == doc_line_content(
                src.s(),
                starts[k],
            ) by {
                if k < old_lines.len() {
                    assert(views(lines@)[k] == old_lines[k]);
                }
            }
        }
        assert(c == blank_end(src.s(), c as int));
        assert(doc_lines_from(src.s(), from, m) == seq![line@] + doc_lines_from(src.s(), e as int, m));
        assert(doc_lines_from(src.s(), pos as int, m) =~= views(lines@) + doc_lines_from(
            src.s(),
            e as int,
            m,
        ));
        end = e;
        p = src.skip_trivia(e);
        proof {
            from = e as int;
        }
    }
    assert(doc_lines_from(src.s(), from, m) =~= Seq::<Seq<char>>::empty());
    assert(doc_lines_from(src.s(), pos as int, m) =~= views(lines@));
    assert(lines_at(src.s(), views(lines@), starts, m, pos as int, end as int));
    (lines, end)
}

/// Reads item documentation (`///` lines) after trivia at `pos`.
pub fn item_docs(src: &Source, pos: usize) -> (r: (Option<String>, usize))
    requires
        src.wf(),
        pos <= src.s().len(),
    ensures
        pos <= r.1 <= src.s().len(),
        docs_from_marks(src.s(), r.0, '/', pos as int, r.1 as int),
        r.1 == docs_end(src.s(), pos as int, '/'),
        item_docs_are(src.s(), pos as int, r.0),
{
    let (lines, end) = doc_lines(src, pos, '/');
    (accumulate_docs(&lines), end)
}

} // verus!
