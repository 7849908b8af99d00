//! Import declarations: `#import path as Alias;` and the qualified form
//! `#import a::b::{c, d};`, which is accepted but not modelled.

use crate::models::import::Import;
use crate::parser::docs::{docs_end, item_docs, item_docs_are};
use crate::parser::scan::{
    ident_text, end_of, ident_at, is_ident, is_path_char, kw, opt_int, tok, trivia_end, Source,
};
use vstd::prelude::*;

verus! {

/// The end of an optional `;` after trivia at `e`.
pub open spec fn opt_semi(s: Seq<char>, e: int) -> int {
    match tok(s, e, ";"@) {
        Some(x) => x,
        None => e,
    }
}

/// The end of the import-path characters that start at `i`.
pub open spec fn path_to(s: Seq<char>, i: int) -> int
    decreases s.len() - i,
{
    if 0 <= i < s.len() && is_path_char(s[i]) {
        path_to(s, i + 1)
    } else {
        i
    }
}

/// After trivia at `pos`: the end of an import path, if one follows.
pub open spec fn import_path_at(s: Seq<char>, pos: int) -> Option<int> {
    let p = trivia_end(s, pos);
    let e = path_to(s, p);
    if e == p {
        None
    } else {
        Some(e)
    }
}

/// After trivia at `pos`: the end of `#import path as Alias;`, with its
/// documentation, if it follows.
#[verifier::opaque]
pub open spec fn import_at(s: Seq<char>, pos: int) -> Option<int> {
    let d = docs_end(s, pos, '/');
    match tok(s, d, "#import"@) {
        None => None,
        Some(e1) => match import_path_at(s, e1) {
            None => None,
            Some(e2) => match kw(s, e2, "as"@) {
                None => None,
                Some(e3) => match ident_at(s, e3) {
                    None => None,
                    Some(e4) => Some(opt_semi(s, e4)),
                },
            },
        },
    }
}

/// `i` is the import declared after trivia at `q`: its documentation as
/// written, path, alias and the file stem of the path; not registered.
pub open spec fn import_is(s: Seq<char>, q: int, i: Import) -> bool {
    let e1 = tok(s, docs_end(s, q, '/'), "#import"@)->0;
    let p = trivia_end(s, e1);
    let e2 = path_to(s, p);
    &&& item_docs_are(s, q, i.docs)
    &&& i.path@ == s.subrange(p, e2)
    &&& i.name@ == ident_text(s, kw(s, e2, "as"@)->0)
    &&& i.module_name@ == crate::utils::text::stem_of(i.path@)
    &&& !i.registered
}

/// The end of a name list that continues at `e`, after a name.
pub open spec fn import_list_rest(s: Seq<char>, e: int) -> Option<int>
    decreases s.len() - e,
{
    match tok(s, e, ","@) {
        Some(e2) => match ident_at(s, e2) {
            Some(e3) => if e < e3 <= s.len() {
                import_list_rest(s, e3)
            } else {
                None
            },
            None => tok(s, e2, "}"@),
        },
        None => tok(s, e, "}"@),
    }
}

/// After trivia at `pos`: the end of a name list `{a, b}`, if one follows.
pub open spec fn import_list_at(s: Seq<char>, pos: int) -> Option<int> {
    match tok(s, pos, "{"@) {
        None => None,
        Some(e1) => match ident_at(s, e1) {
            None => None,
            Some(e) => import_list_rest(s, e),
        },
    }
}

/// The end of a qualified module path that continues at `e`.
pub open spec fn builtin_content_rest(s: Seq<char>, e: int) -> Option<int>
    decreases s.len() - e,
{
    match tok(s, e, "::"@) {
        Some(e2) => match import_list_at(s, e2) {
            Some(e3) => if e < e3 <= s.len() {
                builtin_content_rest(s, e3)
            } else {
                None
            },
            None => match ident_at(s, e2) {
                Some(e3) => if e < e3 <= s.len() {
                    builtin_content_rest(s, e3)
                } else {
                    None
                },
                None => None,
            },
        },
        None => Some(e),
    }
}

/// After trivia at `pos`: the end of a qualified module path, if one follows.
pub open spec fn builtin_content_at(s: Seq<char>, pos: int) -> Option<int> {
    match ident_at(s, pos) {
        None => None,
        Some(e) => builtin_content_rest(s, e),
    }
}

/// After trivia at `pos`: the end of `#import a::b;`, with its documentation,
/// if it follows.
#[verifier::opaque]
pub open spec fn builtin_import_at(s: Seq<char>, pos: int) -> Option<int> {
    let d = docs_end(s, pos, '/');
    match tok(s, d, "#import"@) {
        None => None,
        Some(e1) => match builtin_content_at(s, e1) {
            None => None,
            Some(e2) => Some(opt_semi(s, e2)),
        },
    }
}

/// Skips an optional `;` after trivia.
pub fn opt_semicolon(src: &Source, pos: usize) -> (r: usize)
    requires
        pos <= src.s().len(),
    ensures
        pos <= r <= src.s().len(),
        r == opt_semi(src.s(), pos as int),
{
    match src.token(pos, ";") {
        Some(e) => e,
        None => pos,
    }
}

/// The end of the import-path characters from `pos` on.
pub fn path_end(src: &Source, pos: usize) -> (r: usize)
    requires
        pos <= src.s().len(),
    ensures
        pos <= r <= src.s().len(),
        forall|k: int| pos <= k < r ==> is_path_char(#[trigger] src.s()[k]),
        r == src.s().len() || !is_path_char(src.s()[r as int]),
        r == path_to(src.s(), pos as int),
{
    let mut p = pos;
    while p < src.len() && (crate::parser::scan::is_ident_char_exec(src.chars[p]) || src.chars[p]
        == '.' || src.chars[p] == '/' || src.chars[p] == '-')
        invariant
            pos <= p <= src.s().len(),
            forall|k: int| pos <= k < p ==> is_path_char(#[trigger] src.s()[k]),
            path_to(src.s(), pos as int) == path_to(src.s(), p as int),
        decreases src.s().len() - p,
    {
        p = p + 1;
    }
    p
}

/// Parses the import path after trivia.
pub fn parse_import_path(src: &Source, pos: usize) -> (r: Option<(String, usize)>)
    requires
        src.wf(),
        pos <= src.s().len(),
    ensures
        r matches Some((path, e)) ==> pos < e <= src.s().len() && path@.len() > 0 && forall|k: int|
            0 <= k < path@.len() ==> is_path_char(#[trigger] path@[k]),
        end_of(r) == import_path_at(src.s(), pos as int),
        r matches Some((path, e)) ==> path@ == src.s().subrange(trivia_end(src.s(), pos as int), e as int),
{
    let p = src.skip_trivia(pos);
    let e = path_end(src, p);
    if e == p {
        return None;
    }
    let path = src.slice(p, e);
    assert forall|k: int| 0 <= k < path@.len() implies is_path_char(#[trigger] path@[k]) by {
        assert(path@[k] == src.s()[p + k]);
    }
    Some((path, e))
}

/// Parses `#import path as Alias;`, with its documentation, after trivia.
pub fn parse_import(src: &Source, pos: usize) -> (r: Option<(Import, usize)>)
    requires
        src.wf(),
        pos <= src.s().len(),
    ensures
        r matches Some((i, e)) ==> pos < e <= src.s().len() && !i.registered && is_ident(i.name@)
            && i.path@.len() > 0,
        end_of(r) == import_at(src.s(), pos as int),
        r matches Some((i, _)) ==> import_is(src.s(), pos as int, i),
{
    reveal(import_at);
    let (docs, d) = item_docs(src, pos);
    let e1 = src.token(d, "#import")?;
    let (path, e2) = parse_import_path(src, e1)?;
    let e3 = src.keyword(e2, "as")?;
    let (name, e4) = src.ident(e3)?;
    Some((Import::new(docs, path, name), opt_semicolon(src, e4)))
}

/// Parses a braced list of names, `{a, b,}`, after trivia.
pub fn parse_import_list(src: &Source, pos: usize) -> (r: Option<usize>)
    requires
        src.wf(),
        pos <= src.s().len(),
    ensures
        r matches Some(e) ==> pos < e <= src.s().len(),
        opt_int(r) == import_list_at(src.s(), pos as int),
{
    let e1 = src.token(pos, "{")?;
    let (_, mut e) = src.ident(e1)?;
    loop
        invariant
            src.wf(),
            pos < e <= src.s().len(),
            import_list_at(src.s(), pos as int) == import_list_rest(src.s(), e as int),
        decreases src.s().len() - e,
    {
        match src.token(e, ",") {
            Some(e2) => match src.ident(e2) {
                Some((_, e3)) => e = e3,
                None => return src.token(e2, "}"),
            },
            None => return src.token(e, "}"),
        }
    }
}

/// Parses a qualified module path, `a::b::{c, d}`, after trivia.
pub fn parse_builtin_import_content(src: &Source, pos: usize) -> (r: Option<usize>)
    requires
        src.wf(),
        pos <= src.s().len(),
    ensures
        r matches Some(e) ==> pos < e <= src.s().len(),
        opt_int(r) == builtin_content_at(src.s(), pos as int),
{
    let (_, mut e) = src.ident(pos)?;
    loop
        invariant
            src.wf(),
            pos < e <= src.s().len(),
            builtin_content_at(src.s(), pos as int) == builtin_content_rest(src.s(), e as int),
        decreases src.s().len() - e,
    {
        match src.token(e, "::") {
            Some(e2) => {
                if let Some(e3) = parse_import_list(src, e2) {
                    e = e3;
                } else {
                    match src.ident(e2) {
                        Some((_, e3)) => e = e3,
                        None => return None,
                    }
                }
            },
            None => return Some(e),
        }
    }
}

/// Parses `#import a::b;`, with its documentation, after trivia.
pub fn parse_builtin_import(src: &Source, pos: usize) -> (r: Option<usize>)
    requires
        src.wf(),
        pos <= src.s().len(),
    ensures
        r matches Some(e) ==> pos < e <= src.s().len(),
        opt_int(r) == builtin_import_at(src.s(), pos as int),
{
    reveal(builtin_import_at);
    let (_, d) = item_docs(src, pos);
    let e1 = src.token(d, "#import")?;
    let e2 = parse_builtin_import_content(src, e1)?;
    Some(opt_semicolon(src, e2))
}

} // verus!
