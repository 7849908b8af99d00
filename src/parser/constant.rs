//! Constant declarations: `const NAME: Type = value;`.

use crate::models::constant::Constant;
use crate::models::types::Type;
use crate::parser::docs::{item_docs_are, docs_end, docs_from_marks, item_docs, lemma_docs_widen};
use crate::parser::import::{opt_semi, opt_semicolon};
use crate::parser::scan::{ident_text, end_of, ident_at, is_ident, is_ws, kw, tok, trivia_end, Source};
use crate::parser::types::{parse_type, type_at, type_is, type_unresolved};
use vstd::prelude::*;

verus! {

/// The constant's type is unresolved.
pub open spec fn constant_unresolved(c: Constant) -> bool {
    c.ty is Some ==> type_unresolved(c.ty->0)
}

/// The first `;` or newline at or after `i`, or the end.
pub open spec fn value_stop(s: Seq<char>, i: int) -> int
    decreases s.len() - i,
{
    if 0 <= i < s.len() && s[i] != ';' && s[i] != '\n' {
        value_stop(s, i + 1)
    } else {
        i
    }
}

/// `q` moved back over the spaces, tabs and carriage returns before it, not below `p`.
pub open spec fn trim_back(s: Seq<char>, p: int, q: int) -> int
    decreases q - p,
{
    if p < q && 0 < q <= s.len() && (s[q - 1] == ' ' || s[q - 1] == '\t' || s[q - 1] == '\r') {
        trim_back(s, p, q - 1)
    } else {
        q
    }
}

/// After trivia at `pos`: the start and end of a constant's value.
pub open spec fn const_value_span(s: Seq<char>, pos: int) -> (int, int) {
    let p = trivia_end(s, pos);
    (p, trim_back(s, p, value_stop(s, p)))
}

/// After trivia at `pos`: the end of a constant's value, if one follows.
pub open spec fn const_value_at(s: Seq<char>, pos: int) -> Option<int> {
    let (p, q) = const_value_span(s, pos);
    if q == p {
        None
    } else {
        Some(q)
    }
}

/// After trivia at `pos`: the end of a constant declaration, with its
/// documentation, if one follows.
#[verifier::opaque]
pub open spec fn constant_at(s: Seq<char>, pos: int) -> Option<int> {
    let d = docs_end(s, pos, '/');
    match kw(s, d, "const"@) {
        None => None,
        Some(e1) => match ident_at(s, e1) {
            None => None,
            Some(e2) => {
                let typed = match tok(s, e2, ":"@) {
                    Some(e) => type_at(s, e),
                    None => Some(e2),
                };
                match typed {
                    None => None,
                    Some(e3) => match tok(s, e3, "="@) {
                        None => None,
                        Some(e5) => match const_value_at(s, e5) {
                            None => None,
                            Some(e6) => Some(opt_semi(s, e6)),
                        },
                    },
                }
            },
        },
    }
}

/// `c` is the constant declared after trivia at `q`: its documentation,
/// name, type and value text as written.
pub open spec fn constant_is(s: Seq<char>, q: int, c: Constant) -> bool {
    let e1 = kw(s, docs_end(s, q, '/'), "const"@)->0;
    let e2 = ident_at(s, e1)->0;
    let e3 = match tok(s, e2, ":"@) {
        Some(e) => type_at(s, e)->0,
        None => e2,
    };
    let e5 = tok(s, e3, "="@)->0;
    &&& item_docs_are(s, q, c.docs)
    &&& c.name@ == ident_text(s, e1)
    &&& match tok(s, e2, ":"@) {
        Some(e) => c.ty is Some && type_is(s, e, c.ty->0),
        None => c.ty is None,
    }
    &&& c.value@ == s.subrange(const_value_span(s, e5).0, const_value_at(s, e5)->0)
}

/// Parses a constant's value after trivia: the text up to `;` or the line
/// end, without trailing whitespace. It is kept as written.
pub fn parse_const_value(src: &Source, pos: usize) -> (r: Option<(String, usize)>)
    requires
        src.wf(),
        pos <= src.s().len(),
    ensures
        r matches Some((v, e)) ==> pos < e <= src.s().len() && v@.len() > 0 && !v@.contains(';')
            && !v@.contains('\n') && !is_ws(v@.last()),
        end_of(r) == const_value_at(src.s(), pos as int),
        r matches Some((v, e)) ==> v@ == src.s().subrange(const_value_span(src.s(), pos as int).0, e as int),
{
    let p = src.skip_trivia(pos);
    let mut q = p;
    while q < src.len() && src.chars[q] != ';' && src.chars[q] != '\n'
        invariant
            p <= q <= src.s().len(),
            value_stop(src.s(), p as int) == value_stop(src.s(), q as int),
            forall|k: int| p <= k < q ==> #[trigger] src.s()[k] != ';' && src.s()[k] != '\n',
        decreases src.s().len() - q,
    {
        q = q + 1;
    }
    while q > p && (src.chars[q - 1] == ' ' || src.chars[q - 1] == '\t' || src.chars[q - 1] == '\r')
        invariant
            p <= q <= src.s().len(),
            forall|k: int| p <= k < q ==> #[trigger] src.s()[k] != ';' && src.s()[k] != '\n',
            trim_back(src.s(), p as int, value_stop(src.s(), p as int)) == trim_back(src.s(), p as int, q as int),
        decreases q,
    {
        q = q - 1;
    }
    if q == p {
        return None;
    }
    let v = src.slice(p, q);
    assert(v@.last() == src.s()[q - 1]);
    assert forall|k: int| 0 <= k < v@.len() implies v@[k] != ';' && v@[k] != '\n' by {
        assert(v@[k] == src.s()[p + k]);
    }
    Some((v, q))
}

/// Parses a constant declaration, with its documentation, after trivia.
pub fn parse_constant(src: &Source, pos: usize) -> (r: Option<(Constant, usize)>)
    requires
        src.wf(),
        pos <= src.s().len(),
    ensures
        r matches Some((c, e)) ==> pos < e <= src.s().len() && is_ident(c.name@)
            && constant_unresolved(c),
        end_of(r) == constant_at(src.s(), pos as int),
        r matches Some((c, e)) ==> docs_from_marks(src.s(), c.docs, '/', pos as int, e as int),
        r matches Some((c, _)) ==> c.name@ == ident_text(src.s(), kw(src.s(), docs_end(src.s(), pos as int, '/'), "const"@)->0),
        r matches Some((c, _)) ==> constant_is(src.s(), pos as int, c),
{
    reveal(constant_at);
    let (docs, d) = item_docs(src, pos);
    let e1 = src.keyword(d, "const")?;
    let (name, e2) = src.ident(e1)?;
    let (ty, e3): (Option<Type>, usize) = match src.token(e2, ":") {
        Some(e) => {
            let (t, e4) = parse_type(src, e)?;
            (Some(t), e4)
        },
        None => (None, e2),
    };
    let e5 = src.token(e3, "=")?;
    let (value, e6) = parse_const_value(src, e5)?;
    let end = opt_semicolon(src, e6);
    proof {
        lemma_docs_widen(src.s(), docs, '/', pos as int, d as int, pos as int, end as int);
    }
    Some((Constant::new(docs, name, ty, value), end))
}

} // verus!
