//! Module-level constants (`const PI: f32 = 3.14159;`).

use crate::models::import::Import;
use crate::models::structure::docs_str;
use crate::models::types::{rendered_as, resolve_opt_type, RenderedType, Type};
use crate::models::{ComponentInfo, Declared};
use crate::utils::html::plain_summary_of;
use vstd::prelude::*;

verus! {

/// A constant declaration.
#[derive(Debug)]
pub struct Constant {
    /// The documentation.
    pub docs: Option<String>,
    /// The constant name.
    pub name: String,
    /// The declared type, if any.
    pub ty: Option<Type>,
    /// The value expression, as written.
    pub value: String,
}

/// A constant ready for a documentation page.
#[derive(Debug)]
pub struct RenderedConstant {
    /// The documentation.
    pub docs: Option<String>,
    /// The constant name.
    pub name: String,
    /// The rendered type, if one was declared.
    pub ty: Option<RenderedType>,
    /// The value expression.
    pub value: String,
}

/// A constant after resolution of its type.
pub open spec fn resolve_constant(c: Constant, imports: Seq<Import>, names: Seq<String>) -> Constant {
    Constant { ty: resolve_opt_type(c.ty, imports, names), ..c }
}

impl Declared for Constant {
    open spec fn decl_name(&self) -> Seq<char> {
        self.name@
    }

    fn name_text(&self) -> (r: &str) {
        self.name.as_str()
    }
}

impl Constant {
    /// Creates a constant.
    pub fn new(docs: Option<String>, name: String, ty: Option<Type>, value: String) -> (r: Constant)
        ensures
            r == (Constant { docs, name, ty, value }),
    {
        Constant { docs, name, ty, value }
    }

    /// The documentation.
    pub fn docs(&self) -> (r: Option<&str>)
        ensures
            r is Some <==> self.docs is Some,
            r is Some ==> r->0@ == self.docs->0@,
    {
        docs_str(&self.docs)
    }

    /// The constant name.
    pub fn name(&self) -> (r: &str)
        ensures
            r@ == self.name@,
    {
        self.name.as_str()
    }

    /// The declared type.
    pub fn constant_type(&self) -> (r: Option<&Type>)
        ensures
            r is Some <==> self.ty is Some,
            r is Some ==> *r->0 == self.ty->0,
    {
        match &self.ty {
            Some(t) => Some(t),
            None => None,
        }
    }

    /// The value expression.
    pub fn value(&self) -> (r: &str)
        ensures
            r@ == self.value@,
    {
        self.value.as_str()
    }

    /// Renders the constant for a documentation page.
    pub fn rendered(&self, imports: &[Import]) -> (r: RenderedConstant)
        ensures
            r.docs == self.docs,
            r.name == self.name,
            r.value == self.value,
            r.ty is Some <==> self.ty is Some,
            r.ty is Some ==> rendered_as(self.ty->0, imports@, false, r.ty->0),
    {
        let docs = match &self.docs {
            Some(d) => Some(d.clone()),
            None => None,
        };
        let ty = match &self.ty {
            Some(t) => Some(t.rendered_type(imports, false)),
            None => None,
        };
        RenderedConstant { docs, name: self.name.clone(), ty, value: self.value.clone() }
    }

    /// The name and a plain-text summary of the documentation.
    pub fn info_plain_text(&self) -> (r: ComponentInfo)
        ensures
            r.name == self.name,
            r.summary is Some <==> self.docs is Some,
            self.docs is Some ==> r.summary->0@ == plain_summary_of(self.docs->0@),
    {
        ComponentInfo::plain(&self.name, &self.docs)
    }

    /// Resolves the declared type.
    pub fn resolve(&mut self, imports: &[Import], type_names: &[String])
        ensures
            *final(self) == resolve_constant(*old(self), imports@, type_names@),
    {
        if let Some(t) = &mut self.ty {
            t.resolve(imports, type_names);
        }
    }
}

} // verus!
