//! Resource bindings: `@group(0) @binding(1) var<uniform> name: Type;`.

use crate::models::binding::Binding;
use crate::parser::attrs::{numbered_attribute, numbered_attribute_at, numbered_attribute_value};
use crate::parser::docs::{item_docs_are, docs_end, docs_from_marks, item_docs, lemma_docs_widen};
use crate::parser::import::{opt_semi, opt_semicolon};
use crate::parser::scan::{ident_text, end_of, ident_at, is_ident, kw, opt_int, tok, Source};
use crate::parser::types::{parse_type, type_at, type_is, type_unresolved};
use vstd::prelude::*;

verus! {

/// After trivia at `pos`: the end of a storage class keyword, if one follows.
pub open spec fn storage_class_at(s: Seq<char>, pos: int) -> Option<int> {
    if kw(s, pos, "uniform"@) is Some {
        kw(s, pos, "uniform"@)
    } else if kw(s, pos, "storage"@) is Some {
        kw(s, pos, "storage"@)
    } else if kw(s, pos, "private"@) is Some {
        kw(s, pos, "private"@)
    } else {
        kw(s, pos, "workgroup"@)
    }
}

/// After trivia at `pos`: the end of `<storage_class>` or
/// `<storage_class, access>`, if it follows.
pub open spec fn var_template_at(s: Seq<char>, pos: int) -> Option<int> {
    match tok(s, pos, "<"@) {
        None => None,
        Some(e1) => match storage_class_at(s, e1) {
            None => None,
            Some(e2) => {
                let e3 = match tok(s, e2, ","@) {
                    Some(e) => ident_at(s, e),
                    None => Some(e2),
                };
                match e3 {
                    None => None,
                    Some(x) => tok(s, x, ">"@),
                }
            },
        },
    }
}

/// The end of the optional `@group(N)` after trivia at `pos`.
pub open spec fn group_end(s: Seq<char>, pos: int) -> int {
    match numbered_attribute_at(s, pos, "group"@) {
        Some(e) => e,
        None => pos,
    }
}

/// The end of the optional `@group(N)` and `@binding(N)` after trivia at `pos`.
pub open spec fn binding_attrs_end(s: Seq<char>, pos: int) -> int {
    let e1 = group_end(s, pos);
    match numbered_attribute_at(s, e1, "binding"@) {
        Some(e) => e,
        None => e1,
    }
}

/// The `@group` number after trivia at `pos` (0 when absent).
pub open spec fn group_value(s: Seq<char>, pos: int) -> u16 {
    match numbered_attribute_at(s, pos, "group"@) {
        Some(_) => numbered_attribute_value(s, pos, "group"@),
        None => 0,
    }
}

/// The `@binding` number after the optional `@group(N)` at `pos` (0 when absent).
pub open spec fn binding_value(s: Seq<char>, pos: int) -> u16 {
    let e1 = group_end(s, pos);
    match numbered_attribute_at(s, e1, "binding"@) {
        Some(_) => numbered_attribute_value(s, e1, "binding"@),
        None => 0,
    }
}

/// After trivia at `pos`: the end of a resource binding, with its
/// documentation, if one follows.
#[verifier::opaque]
pub open spec fn binding_at(s: Seq<char>, pos: int) -> Option<int> {
    let d = docs_end(s, pos, '/');
    let e1 = binding_attrs_end(s, d);
    match kw(s, e1, "var"@) {
        None => None,
        Some(e2) => {
            let e3 = match var_template_at(s, e2) {
                Some(e) => e,
                None => e2,
            };
            match ident_at(s, e3) {
                None => None,
                Some(e4) => match tok(s, e4, ":"@) {
                    None => None,
                    Some(e5) => match type_at(s, e5) {
                        None => None,
                        Some(e6) => Some(opt_semi(s, e6)),
                    },
                },
            }
        },
    }
}

/// `b` is the resource binding declared after trivia at `q`: its
/// documentation, numbers, name and type as written.
pub open spec fn binding_is(s: Seq<char>, q: int, b: Binding) -> bool {
    let d = docs_end(s, q, '/');
    let e2 = kw(s, binding_attrs_end(s, d), "var"@)->0;
    let e3 = match var_template_at(s, e2) {
        Some(e) => e,
        None => e2,
    };
    &&& item_docs_are(s, q, b.docs)
    &&& b.attr_group == group_value(s, d)
    &&& b.attr_binding == binding_value(s, d)
    &&& b.name@ == ident_text(s, e3)
    &&& type_is(s, tok(s, ident_at(s, e3)->0, ":"@)->0, b.ty)
}

/// Parses a storage class keyword after trivia.
pub fn parse_storage_class(src: &Source, pos: usize) -> (r: Option<usize>)
    requires
        src.wf(),
        pos <= src.s().len(),
    ensures
        r matches Some(e) ==> pos < e <= src.s().len(),
        opt_int(r) == storage_class_at(src.s(), pos as int),
{
    if let Some(e) = src.keyword(pos, "uniform") {
        Some(e)
    } else if let Some(e) = src.keyword(pos, "storage") {
        Some(e)
    } else if let Some(e) = src.keyword(pos, "private") {
        Some(e)
    } else {
        src.keyword(pos, "workgroup")
    }
}

/// Parses `<storage_class>` or `<storage_class, access>` after trivia.
pub fn parse_var_template(src: &Source, pos: usize) -> (r: Option<usize>)
    requires
        src.wf(),
        pos <= src.s().len(),
    ensures
        r matches Some(e) ==> pos < e <= src.s().len(),
        opt_int(r) == var_template_at(src.s(), pos as int),
{
    let e1 = src.token(pos, "<")?;
    let e2 = parse_storage_class(src, e1)?;
    let e3 = match src.token(e2, ",") {
        Some(e) => {
            let (_, e4) = src.ident(e)?;
            e4
        },
        None => e2,
    };
    src.token(e3, ">")
}

/// Parses the optional `@group(N)` then the optional `@binding(N)`; an
/// absent number is 0.
pub fn parse_binding_attrs(src: &Source, pos: usize) -> (r: (u16, u16, usize))
    requires
        src.wf(),
        pos <= src.s().len(),
    ensures
        pos <= r.2 <= src.s().len(),
        r.2 == binding_attrs_end(src.s(), pos as int),
        r.0 == group_value(src.s(), pos as int),
        r.1 == binding_value(src.s(), pos as int),
{
    let (group, e1) = match numbered_attribute(src, pos, "group") {
        Some((g, e)) => (g, e),
        None => (0, pos),
    };
    let (binding, e2) = match numbered_attribute(src, e1, "binding") {
        Some((b, e)) => (b, e),
        None => (0, e1),
    };
    (group, binding, e2)
}

/// Parses a resource binding, with its documentation, after trivia.
pub fn parse_binding(src: &Source, pos: usize) -> (r: Option<(Binding, usize)>)
    requires
        src.wf(),
        pos <= src.s().len(),
    ensures
        r matches Some((b, e)) ==> pos < e <= src.s().len() && is_ident(b.name@) && type_unresolved(
            b.ty,
        ),
        end_of(r) == binding_at(src.s(), pos as int),
        r matches Some((b, _)) ==> b.attr_group == group_value(src.s(), docs_end(src.s(), pos as int, '/'))
            && b.attr_binding == binding_value(src.s(), docs_end(src.s(), pos as int, '/')),
        r matches Some((b, e)) ==> docs_from_marks(src.s(), b.docs, '/', pos as int, e as int),
        r matches Some((b, _)) ==> binding_is(src.s(), pos as int, b),
{
    reveal(binding_at);
    let (docs, d) = item_docs(src, pos);
    let (group, binding, e1) = parse_binding_attrs(src, d);
    let e2 = src.keyword(e1, "var")?;
    let e3 = match parse_var_template(src, e2) {
        Some(e) => e,
        None => e2,
    };
    let (name, e4) = src.ident(e3)?;
    let e5 = src.token(e4, ":")?;
    let (ty, e6) = parse_type(src, e5)?;
    let end = opt_semicolon(src, e6);
    proof {
        lemma_docs_widen(src.s(), docs, '/', pos as int, d as int, pos as int, end as int);
    }
    Some((Binding::new(docs, group, binding, name, ty), end))
}

} // verus!
