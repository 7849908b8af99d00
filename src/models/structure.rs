//! Structures and their fields.

use crate::models::import::Import;
use crate::models::types::{rendered_as, resolve_type, Type};
use crate::models::{ComponentInfo, Declared, RenderedArgField};
use crate::utils::html::{markdown_html, plain_summary_of, to_html};
use vstd::prelude::*;

verus! {

/// A structure declaration.
#[derive(Debug)]
pub struct Structure {
    /// The documentation.
    pub docs: Option<String>,
    /// The structure name.
    pub name: String,
    /// The fields, in source order, with unique names.
    pub fields: Vec<Field>,
}

/// A field of a structure.
#[derive(Debug)]
pub struct Field {
    /// The documentation.
    pub docs: Option<String>,
    /// The field name.
    pub name: String,
    /// The field type.
    pub ty: Type,
}

/// A field after resolution of its type.
pub open spec fn resolve_field(f: Field, imports: Seq<Import>, names: Seq<String>) -> Field {
    Field { ty: resolve_type(f.ty, imports, names), ..f }
}

/// `new` is `old` with every field type resolved.
pub open spec fn structure_resolved(
    old: Structure,
    new: Structure,
    imports: Seq<Import>,
    names: Seq<String>,
) -> bool {
    &&& new.docs == old.docs
    &&& new.name == old.name
    &&& new.fields@.len() == old.fields@.len()
    &&& forall|i: int|
        0 <= i < old.fields@.len() ==> #[trigger] new.fields@[i] == resolve_field(
            old.fields@[i],
            imports,
            names,
        )
}

/// `r` renders the field `f` against `imports`.
pub open spec fn field_rendered(f: Field, imports: Seq<Import>, r: RenderedArgField) -> bool {
    &&& (r.docs is Some <==> f.docs is Some)
    &&& (r.docs is Some ==> r.docs->0@ == markdown_html(f.docs->0@))
    &&& r.name == f.name
    &&& rendered_as(f.ty, imports, false, r.ty)
}

/// Renders optional documentation to HTML.
pub(crate) fn docs_html(docs: &Option<String>) -> (r: Option<String>)
    ensures
        r is Some <==> docs is Some,
        r is Some ==> r->0@ == markdown_html(docs->0@),
{
    match docs {
        Some(d) => Some(to_html(d.as_str())),
        None => None,
    }
}

/// Borrows optional documentation as text.
pub(crate) fn docs_str(docs: &Option<String>) -> (r: Option<&str>)
    ensures
        r is Some <==> docs is Some,
        r is Some ==> r->0@ == docs->0@,
{
    match docs {
        Some(d) => Some(d.as_str()),
        None => None,
    }
}

impl Declared for Structure {
    open spec fn decl_name(&self) -> Seq<char> {
        self.name@
    }

    fn name_text(&self) -> (r: &str) {
        self.name.as_str()
    }
}

impl Declared for Field {
    open spec fn decl_name(&self) -> Seq<char> {
        self.name@
    }

    fn name_text(&self) -> (r: &str) {
        self.name.as_str()
    }
}

impl Structure {
    /// Creates a structure.
    pub fn new(docs: Option<String>, name: String, fields: Vec<Field>) -> (r: Structure)
        ensures
            r.docs == docs,
            r.name == name,
            r.fields == fields,
    {
        Structure { docs, name, fields }
    }

    /// Renders the fields for a documentation page.
    pub fn rendered_fields(&self, imports: &[Import]) -> (r: Vec<RenderedArgField>)
        ensures
            r@.len() == self.fields@.len(),
            forall|i: int|
                0 <= i < r@.len() ==> field_rendered(self.fields@[i], imports@, #[trigger] r@[i]),
    {
        let mut out: Vec<RenderedArgField> = Vec::new();
        let mut i: usize = 0;
        while i < self.fields.len()
            invariant
                i <= self.fields@.len(),
                out@.len() == i,
                forall|k: int|
                    0 <= k < i ==> field_rendered(self.fields@[k], imports@, #[trigger] out@[k]),
            decreases self.fields@.len() - i,
        {
            let f = &self.fields[i];
            out.push(
                RenderedArgField {
                    docs: docs_html(&f.docs),
                    name: f.name.clone(),
                    ty: f.ty.rendered_type(imports, false),
                },
            );
            i = i + 1;
        }
        out
    }

    /// The name and the documentation rendered to HTML.
    pub fn info_rich_text(&self) -> (r: ComponentInfo)
        ensures
            r.name == self.name,
            r.summary is Some <==> self.docs is Some,
            self.docs is Some ==> r.summary->0@ == markdown_html(self.docs->0@),
    {
        ComponentInfo::rich(&self.name, &self.docs)
    }

    /// The name and a plain-text summary of the documentation.
    pub fn info_plain_text(&self) -> (r: ComponentInfo)
        ensures
            r.name == self.name,
            r.summary is Some <==> self.docs is Some,
            self.docs is Some ==> r.summary->0@ == plain_summary_of(self.docs->0@),
    {
        ComponentInfo::plain(&self.name, &self.docs)
    }

    /// The documentation.
    pub fn docs(&self) -> (r: Option<&str>)
        ensures
            r is Some <==> self.docs is Some,
            r is Some ==> r->0@ == self.docs->0@,
    {
        docs_str(&self.docs)
    }

    /// The structure name.
    pub fn name(&self) -> (r: &str)
        ensures
            r@ == self.name@,
    {
        self.name.as_str()
    }

    /// The fields.
    pub fn fields(&self) -> (r: &[Field])
        ensures
            r@ == self.fields@,
    {
        self.fields.as_slice()
    }

    /// Resolves every field type.
    pub fn resolve(&mut self, imports: &[Import], type_names: &[String])
        ensures
            structure_resolved(*old(self), *final(self), imports@, type_names@),
    {
        let ghost before = *self;
        let mut i: usize = 0;
        while i < self.fields.len()
            invariant
                i <= self.fields@.len(),
                self.docs == before.docs,
                self.name == before.name,
                self.fields@.len() == before.fields@.len(),
                forall|k: int|
                    0 <= k < i ==> #[trigger] self.fields@[k] == resolve_field(
                        before.fields@[k],
                        imports@,
                        type_names@,
                    ),
                forall|k: int| i <= k < self.fields@.len() ==> #[trigger] self.fields@[k] == before.fields@[k],
            decreases self.fields@.len() - i,
        {
            self.fields[i].ty.resolve(imports, type_names);
            i = i + 1;
        }
    }
}

impl Field {
    /// Creates a field.
    pub fn new(docs: Option<String>, name: String, ty: Type) -> (r: Field)
        ensures
            r.docs == docs,
            r.name == name,
            r.ty == ty,
    {
        Field { docs, name, ty }
    }

    /// The documentation.
    pub fn docs(&self) -> (r: Option<&str>)
        ensures
            r is Some <==> self.docs is Some,
            r is Some ==> r->0@ == self.docs->0@,
    {
        docs_str(&self.docs)
    }

    /// The field name.
    pub fn name(&self) -> (r: &str)
        ensures
            r@ == self.name@,
    {
        self.name.as_str()
    }

    /// The field type.
    pub fn field_type(&self) -> (r: &Type)
        ensures
            *r == self.ty,
    {
        &self.ty
    }
}

} // verus!
