//! Structure declarations: `struct Name { field: Type, ... }`.

use crate::models::structure::{Field, Structure};
use crate::models::{kept_first, lemma_kept_empty, lemma_kept_step, names_unique, push_unique, Declared};
use crate::parser::attrs::{attributes_end, skip_attributes};
use crate::parser::docs::{item_docs_are, docs_end, docs_from_marks, item_docs, lemma_docs_widen};
use crate::parser::import::{opt_semi, opt_semicolon};
use crate::parser::scan::{ident_text, end_of, ident_at, is_ident, kw, tok, Source};
use crate::parser::types::{parse_type, type_at, type_is, type_unresolved};
use vstd::prelude::*;

verus! {

/// No field type of the structure is resolved.
pub open spec fn structure_unresolved(s: Structure) -> bool {
    forall|i: int| 0 <= i < s.fields@.len() ==> type_unresolved(#[trigger] s.fields@[i].ty)
}

/// After trivia at `pos`: the end of a field, with its documentation and
/// attributes, if one follows.
#[verifier::opaque]
pub open spec fn field_at(s: Seq<char>, pos: int) -> Option<int> {
    let a = attributes_end(s, docs_end(s, pos, '/'));
    match ident_at(s, a) {
        None => None,
        Some(e1) => match tok(s, e1, ":"@) {
            None => None,
            Some(e2) => type_at(s, e2),
        },
    }
}

/// The end of a field list that continues at `e`.
pub open spec fn fields_rest(s: Seq<char>, e: int) -> int
    decreases s.len() - e,
{
    match field_at(s, e) {
        Some(e1) => match tok(s, e1, ","@) {
            Some(e2) => if e < e2 <= s.len() {
                fields_rest(s, e2)
            } else {
                e1
            },
            None => e1,
        },
        None => e,
    }
}

/// The name of the field that starts after trivia at `q`.
pub open spec fn field_name_at(s: Seq<char>, q: int) -> Seq<char> {
    ident_text(s, attributes_end(s, docs_end(s, q, '/')))
}

/// `f` is the field written after trivia at `q`: its documentation, name and
/// type as written.
pub open spec fn field_is(s: Seq<char>, q: int, f: Field) -> bool {
    let e1 = ident_at(s, attributes_end(s, docs_end(s, q, '/')))->0;
    &&& item_docs_are(s, q, f.docs)
    &&& f.name@ == field_name_at(s, q)
    &&& type_is(s, tok(s, e1, ":"@)->0, f.ty)
}

/// Where the fields of the list that continues at `e` start, in order.
pub open spec fn field_starts(s: Seq<char>, e: int) -> Seq<int>
    decreases s.len() - e,
{
    match field_at(s, e) {
        Some(e1) => match tok(s, e1, ","@) {
            Some(e2) => if e < e2 <= s.len() {
                seq![e] + field_starts(s, e2)
            } else {
                seq![e]
            },
            None => seq![e],
        },
        None => Seq::empty(),
    }
}

/// `fields` is the field list written at `pos`: one field per distinct name,
/// the first declared, in order.
pub open spec fn fields_are(s: Seq<char>, pos: int, fields: Seq<Field>) -> bool {
    let starts = field_starts(s, pos);
    kept_first(
        fields,
        starts.map_values(|q: int| field_name_at(s, q)),
        |i: int, f: Field| field_is(s, starts[i], f),
    )
}

/// After trivia at `pos`: the end of a structure declaration, with its
/// documentation, if one follows.
#[verifier::opaque]
pub open spec fn structure_at(s: Seq<char>, pos: int) -> Option<int> {
    let d = docs_end(s, pos, '/');
    match kw(s, d, "struct"@) {
        None => None,
        Some(e1) => match ident_at(s, e1) {
            None => None,
            Some(e2) => match tok(s, e2, "{"@) {
                None => None,
                Some(e3) => match tok(s, fields_rest(s, e3), "}"@) {
                    None => None,
                    Some(e5) => Some(opt_semi(s, e5)),
                },
            },
        },
    }
}

/// `st` is the structure declared after trivia at `q`: its documentation,
/// name and fields as written.
pub open spec fn structure_is(s: Seq<char>, q: int, st: Structure) -> bool {
    let e1 = kw(s, docs_end(s, q, '/'), "struct"@)->0;
    &&& item_docs_are(s, q, st.docs)
    &&& st.name@ == ident_text(s, e1)
    &&& fields_are(s, tok(s, ident_at(s, e1)->0, "{"@)->0, st.fields@)
}

/// Parses a field, with its documentation and attributes, after trivia.
pub fn parse_field(src: &Source, pos: usize) -> (r: Option<(Field, usize)>)
    requires
        src.wf(),
        pos <= src.s().len(),
    ensures
        r matches Some((f, e)) ==> pos < e <= src.s().len() && is_ident(f.name@) && type_unresolved(
            f.ty,
        ),
        end_of(r) == field_at(src.s(), pos as int),
        r matches Some((f, e)) ==> docs_from_marks(src.s(), f.docs, '/', pos as int, e as int),
        r matches Some((f, _)) ==> f.name@ == ident_text(src.s(), attributes_end(src.s(), docs_end(src.s(), pos as int, '/'))),
        r matches Some((f, _)) ==> field_is(src.s(), pos as int, f),
{
    reveal(field_at);
    let (docs, d) = item_docs(src, pos);
    let a = skip_attributes(src, d);
    let (name, e1) = src.ident(a)?;
    let e2 = src.token(e1, ":")?;
    let (ty, e3) = parse_type(src, e2)?;
    let end = e3;
    proof {
        lemma_docs_widen(src.s(), docs, '/', pos as int, d as int, pos as int, end as int);
    }
    Some((Field::new(docs, name, ty), end))
}

/// Parses a comma-separated field list (possibly empty, a trailing comma
/// allowed). A field whose name is taken is dropped; the first one stays.
pub fn parse_fields(src: &Source, pos: usize) -> (r: (Vec<Field>, usize))
    requires
        src.wf(),
        pos <= src.s().len(),
    ensures
        pos <= r.1 <= src.s().len(),
        names_unique(r.0@),
        forall|i: int| 0 <= i < r.0@.len() ==> type_unresolved(#[trigger] r.0@[i].ty),
        r.1 == fields_rest(src.s(), pos as int),
        fields_are(src.s(), pos as int, r.0@),
{
    let ghost s = src.s();
    let ghost all = field_starts(s, pos as int);
    let ghost names = all.map_values(|q: int| field_name_at(s, q));
    let ghost built = |i: int, f: Field| field_is(s, all[i], f);
    let ghost mut done: Seq<int> = Seq::empty();
    let mut fields: Vec<Field> = Vec::new();
    let mut e = pos;
    proof {
        lemma_kept_empty::<Field>(names.subrange(0, 0), built);
    }
    loop
        invariant
            src.wf(),
            s == src.s(),
            all == field_starts(s, pos as int),
            names == all.map_values(|q: int| field_name_at(s, q)),
            built == (|i: int, f: Field| field_is(s, all[i], f)),
            pos <= e <= src.s().len(),
            names_unique(fields@),
            forall|i: int| 0 <= i < fields@.len() ==> type_unresolved(#[trigger] fields@[i].ty),
            fields_rest(src.s(), pos as int) == fields_rest(src.s(), e as int),
            all == done + field_starts(s, e as int),
            kept_first(fields@, names.subrange(0, done.len() as int), built),
        decreases src.s().len() - e,
    {
        let next = parse_field(src, e);
        match next {
            Some((f, e1)) => {
                let ghost old_fields = fields@;
                let ghost n = done.len() as int;
                assert(field_at(s, e as int) == Some(e1 as int));
                let comma = src.token(e1, ",");
                proof {
                    assert(field_starts(s, e as int)[0] == e as int);
                    assert(all[n] == e as int);
                    assert(names[n] == f.decl_name());
                    assert(names.subrange(0, n).push(f.decl_name()) =~= names.subrange(0, n + 1));
                }
                let ghost fv = f;
                push_unique(&mut fields, f);
                proof {
                    lemma_kept_step(old_fields, names.subrange(0, n), built, fv, fields@);
                    done = done.push(e as int);
                }
                match comma {
                    Some(e2) => {
                        assert(all =~= done + field_starts(s, e2 as int));
                        e = e2;
                    },
                    None => {
                        assert(all =~= done);
                        assert(names.subrange(0, done.len() as int) =~= names);
                        return (fields, e1);
                    },
                }
            },
            None => {
                assert(all =~= done);
                assert(names.subrange(0, done.len() as int) =~= names);
                return (fields, e);
            },
        }
    }
}

/// Parses a structure declaration, with its documentation, after trivia.
pub fn parse_structure(src: &Source, pos: usize) -> (r: Option<(Structure, usize)>)
    requires
        src.wf(),
        pos <= src.s().len(),
    ensures
        r matches Some((s, e)) ==> pos < e <= src.s().len() && is_ident(s.name@)
            && structure_unresolved(s) && names_unique(s.fields@),
        end_of(r) == structure_at(src.s(), pos as int),
        r matches Some((s, e)) ==> docs_from_marks(src.s(), s.docs, '/', pos as int, e as int),
        r matches Some((st, _)) ==> st.name@ == ident_text(src.s(), kw(src.s(), docs_end(src.s(), pos as int, '/'), "struct"@)->0),
        r matches Some((st, _)) ==> structure_is(src.s(), pos as int, st),
{
    reveal(structure_at);
    let (docs, d) = item_docs(src, pos);
    let e1 = src.keyword(d, "struct")?;
    let (name, e2) = src.ident(e1)?;
    let e3 = src.token(e2, "{")?;
    let (fields, e4) = parse_fields(src, e3);
    let e5 = src.token(e4, "}")?;
    let end = opt_semicolon(src, e5);
    proof {
        lemma_docs_widen(src.s(), docs, '/', pos as int, d as int, pos as int, end as int);
    }
    Some((Structure::new(docs, name, fields), end))
}

} // verus!
