//! Resource bindings (`@group(0) @binding(1) var<uniform> camera: Camera;`).

use crate::models::import::Import;
use crate::models::structure::docs_str;
use crate::models::types::{rendered_as, resolve_type, RenderedType, Type};
use crate::models::Declared;
use vstd::prelude::*;

verus! {

/// A resource binding declaration.
#[derive(Debug)]
pub struct Binding {
    /// The documentation.
    pub docs: Option<String>,
    /// The `@group` number (0 when absent or malformed).
    pub attr_group: u16,
    /// The `@binding` number (0 when absent or malformed).
    pub attr_binding: u16,
    /// The variable name.
    pub name: String,
    /// The variable type.
    pub ty: Type,
}

/// A binding ready for a documentation page.
#[derive(Debug)]
pub struct RenderedBinding {
    /// The documentation.
    pub docs: Option<String>,
    /// The `@group` number.
    pub attr_group: u16,
    /// The `@binding` number.
    pub attr_binding: u16,
    /// The variable name.
    pub name: String,
    /// The rendered type.
    pub ty: RenderedType,
}

/// A binding after resolution of its type.
pub open spec fn resolve_binding(b: Binding, imports: Seq<Import>, names: Seq<String>) -> Binding {
    Binding { ty: resolve_type(b.ty, imports, names), ..b }
}

impl Declared for Binding {
    open spec fn decl_name(&self) -> Seq<char> {
        self.name@
    }

    fn name_text(&self) -> (r: &str) {
        self.name.as_str()
    }
}

impl Binding {
    /// Creates a binding.
    pub fn new(docs: Option<String>, attr_group: u16, attr_binding: u16, name: String, ty: Type) -> (r:
        Binding)
        ensures
            r == (Binding { docs, attr_group, attr_binding, name, ty }),
    {
        Binding { docs, attr_group, attr_binding, name, ty }
    }

    /// The documentation.
    pub fn docs(&self) -> (r: Option<&str>)
        ensures
            r is Some <==> self.docs is Some,
            r is Some ==> r->0@ == self.docs->0@,
    {
        docs_str(&self.docs)
    }

    /// The variable name.
    pub fn name(&self) -> (r: &str)
        ensures
            r@ == self.name@,
    {
        self.name.as_str()
    }

    /// The variable type.
    pub fn binding_type(&self) -> (r: &Type)
        ensures
            *r == self.ty,
    {
        &self.ty
    }

    /// Renders the binding for a documentation page.
    pub fn rendered(&self, imports: &[Import]) -> (r: RenderedBinding)
        ensures
            r.docs == self.docs,
            r.attr_group == self.attr_group,
            r.attr_binding == self.attr_binding,
            r.name == self.name,
            rendered_as(self.ty, imports@, false, r.ty),
    {
        let docs = match &self.docs {
            Some(d) => Some(d.clone()),
            None => None,
        };
        RenderedBinding {
            docs,
            attr_group: self.attr_group,
            attr_binding: self.attr_binding,
            name: self.name.clone(),
            ty: self.ty.rendered_type(imports, false),
        }
    }

    /// Resolves the variable type.
    pub fn resolve(&mut self, imports: &[Import], type_names: &[String])
        ensures
            *final(self) == resolve_binding(*old(self), imports@, type_names@),
    {
        self.ty.resolve(imports, type_names);
    }
}

} // verus!
