//! Functions, their arguments, and argument types.

use crate::models::import::Import;
use crate::models::structure::{docs_html, docs_str};
use crate::models::types::{
    primitive_keyword, render_primitive, render_vector, rendered_as, rendered_path, rendered_plain,
    resolve_opt_type, resolve_path, resolve_type, vector_display, PathType, Primitive, Type,
    Vector,
};
use crate::models::{ComponentInfo, Declared, RenderedArgField};
use crate::utils::html::{markdown_html, plain_summary_of};
use vstd::prelude::*;

verus! {

/// A function declaration.
#[derive(Debug)]
pub struct Function {
    /// The documentation.
    pub docs: Option<String>,
    /// The function name.
    pub name: String,
    /// The arguments, in source order, with unique names.
    pub args: Vec<Arg>,
    /// The return type, if any.
    pub return_ty: Option<Type>,
}

/// A function argument.
#[derive(Debug)]
pub struct Arg {
    /// The documentation.
    pub docs: Option<String>,
    /// The argument name.
    pub name: String,
    /// The argument type.
    pub ty: FunctionType,
}

/// The type of a function argument: a type, or a pointer `ptr<function, T>`.
#[derive(Debug)]
pub enum FunctionType {
    /// A primitive scalar type.
    Primitive(Primitive),
    /// A vector type.
    Vector(Vector),
    /// A named type.
    Path(PathType),
    /// A function-address-space pointer to the inner type.
    FunctionPointer(Type),
}

impl Default for FunctionType {
    /// The placeholder type is the signed 32-bit integer.
    fn default() -> (r: FunctionType)
        ensures
            r == FunctionType::Primitive(Primitive::Sint32),
    {
        FunctionType::Primitive(Primitive::Sint32)
    }
}

/// An argument type after resolution: path types, also behind a pointer, change.
pub open spec fn resolve_fn_type(t: FunctionType, imports: Seq<Import>, names: Seq<String>) -> FunctionType {
    match t {
        FunctionType::Path(p) => FunctionType::Path(resolve_path(p, imports, names)),
        FunctionType::FunctionPointer(inner) => FunctionType::FunctionPointer(
            resolve_type(inner, imports, names),
        ),
        _ => t,
    }
}

/// An argument after resolution of its type.
pub open spec fn resolve_arg(a: Arg, imports: Seq<Import>, names: Seq<String>) -> Arg {
    Arg { ty: resolve_fn_type(a.ty, imports, names), ..a }
}

/// `new` is `old` with every argument and the return type resolved.
pub open spec fn function_resolved(
    old: Function,
    new: Function,
    imports: Seq<Import>,
    names: Seq<String>,
) -> bool {
    &&& new.docs == old.docs
    &&& new.name == old.name
    &&& new.return_ty == resolve_opt_type(old.return_ty, imports, names)
    &&& new.args@.len() == old.args@.len()
    &&& forall|i: int|
        0 <= i < old.args@.len() ==> #[trigger] new.args@[i] == resolve_arg(
            old.args@[i],
            imports,
            names,
        )
}

/// `r` renders the argument type `t`: a pointer renders its target, marked.
pub open spec fn fn_type_rendered(t: FunctionType, imports: Seq<Import>, r: crate::models::types::RenderedType) -> bool {
    match t {
        FunctionType::Primitive(p) => rendered_plain(primitive_keyword(p), false, r),
        FunctionType::Vector(v) => rendered_plain(vector_display(v), false, r),
        FunctionType::Path(p) => rendered_path(p, imports, false, r),
        FunctionType::FunctionPointer(inner) => rendered_as(inner, imports, true, r),
    }
}

/// `r` renders the argument `a` against `imports`.
pub open spec fn arg_rendered(a: Arg, imports: Seq<Import>, r: RenderedArgField) -> bool {
    &&& (r.docs is Some <==> a.docs is Some)
    &&& (r.docs is Some ==> r.docs->0@ == markdown_html(a.docs->0@))
    &&& r.name == a.name
    &&& fn_type_rendered(a.ty, imports, r.ty)
}

impl Declared for Function {
    open spec fn decl_name(&self) -> Seq<char> {
        self.name@
    }

    fn name_text(&self) -> (r: &str) {
        self.name.as_str()
    }
}

impl Declared for Arg {
    open spec fn decl_name(&self) -> Seq<char> {
        self.name@
    }

    fn name_text(&self) -> (r: &str) {
        self.name.as_str()
    }
}

impl FunctionType {
    /// Resolves the path type, also behind a pointer.
    pub fn resolve(&mut self, imports: &[Import], type_names: &[String])
        ensures
            *final(self) == resolve_fn_type(*old(self), imports@, type_names@),
    {
        match self {
            FunctionType::Path(p) => p.resolve(imports, type_names),
            FunctionType::FunctionPointer(inner) => inner.resolve(imports, type_names),
            _ => {},
        }
    }
}

impl Function {
    /// Creates a function.
    pub fn new(docs: Option<String>, name: String, args: Vec<Arg>, return_ty: Option<Type>) -> (r:
        Function)
        ensures
            r.docs == docs,
            r.name == name,
            r.args == args,
            r.return_ty == return_ty,
    {
        Function { docs, name, args, return_ty }
    }

    /// Renders the arguments for a documentation page.
    pub fn rendered_args(&self, imports: &[Import]) -> (r: Vec<RenderedArgField>)
        ensures
            r@.len() == self.args@.len(),
            forall|i: int| 0 <= i < r@.len() ==> arg_rendered(self.args@[i], imports@, #[trigger] r@[i]),
    {
        let mut out: Vec<RenderedArgField> = Vec::new();
        let mut i: usize = 0;
        while i < self.args.len()
            invariant
                i <= self.args@.len(),
                out@.len() == i,
                forall|k: int| 0 <= k < i ==> arg_rendered(self.args@[k], imports@, #[trigger] out@[k]),
            decreases self.args@.len() - i,
        {
            let a = &self.args[i];
            let ty = match &a.ty {
                FunctionType::Primitive(p) => render_primitive(*p, false),
                FunctionType::Vector(v) => render_vector(*v, false),
                FunctionType::Path(p) => p.rendered(imports, false),
                FunctionType::FunctionPointer(inner) => inner.rendered_type(imports, true),
            };
            out.push(RenderedArgField { docs: docs_html(&a.docs), name: a.name.clone(), ty });
            i = i + 1;
        }
        out
    }

    /// The name and the documentation rendered to HTML.
    pub fn info_rich_text(&self) -> (r: ComponentInfo)
        ensures
            r.name == self.name,
            r.summary is Some <==> self.docs is Some,
            self.docs is Some ==> r.summary->0@ == markdown_html(self.docs->0@),
    {
        ComponentInfo::rich(&self.name, &self.docs)
    }

    /// The name and a plain-text summary of the documentation.
    pub fn info_plain_text(&self) -> (r: ComponentInfo)
        ensures
            r.name == self.name,
            r.summary is Some <==> self.docs is Some,
            self.docs is Some ==> r.summary->0@ == plain_summary_of(self.docs->0@),
    {
        ComponentInfo::plain(&self.name, &self.docs)
    }

    /// The documentation.
    pub fn docs(&self) -> (r: Option<&str>)
        ensures
            r is Some <==> self.docs is Some,
            r is Some ==> r->0@ == self.docs->0@,
    {
        docs_str(&self.docs)
    }

    /// The function name.
    pub fn name(&self) -> (r: &str)
        ensures
            r@ == self.name@,
    {
        self.name.as_str()
    }

    /// The arguments.
    pub fn args(&self) -> (r: &[Arg])
        ensures
            r@ == self.args@,
    {
        self.args.as_slice()
    }

    /// The return type.
    pub fn return_type(&self) -> (r: Option<&Type>)
        ensures
            r is Some <==> self.return_ty is Some,
            r is Some ==> *r->0 == self.return_ty->0,
    {
        match &self.return_ty {
            Some(t) => Some(t),
            None => None,
        }
    }

    /// Resolves every argument type and the return type.
    pub fn resolve(&mut self, imports: &[Import], type_names: &[String])
        ensures
            function_resolved(*old(self), *final(self), imports@, type_names@),
    {
        let ghost before = *self;
        let mut i: usize = 0;
        while i < self.args.len()
            invariant
                i <= self.args@.len(),
                self.docs == before.docs,
                self.name == before.name,
                self.return_ty == before.return_ty,
                self.args@.len() == before.args@.len(),
                forall|k: int|
                    0 <= k < i ==> #[trigger] self.args@[k] == resolve_arg(
                        before.args@[k],
                        imports@,
                        type_names@,
                    ),
                forall|k: int| i <= k < self.args@.len() ==> #[trigger] self.args@[k] == before.args@[k],
            decreases self.args@.len() - i,
        {
            self.args[i].ty.resolve(imports, type_names);
            i = i + 1;
        }
        if let Some(t) = &mut self.return_ty {
            t.resolve(imports, type_names);
        }
    }
}

impl Arg {
    /// Creates an argument.
    pub fn new(docs: Option<String>, name: String, ty: FunctionType) -> (r: Arg)
        ensures
            r.docs == docs,
            r.name == name,
            r.ty == ty,
    {
        Arg { docs, name, ty }
    }

    /// The documentation.
    pub fn docs(&self) -> (r: Option<&str>)
        ensures
            r is Some <==> self.docs is Some,
            r is Some ==> r->0@ == self.docs->0@,
    {
        docs_str(&self.docs)
    }

    /// The argument name.
    pub fn name(&self) -> (r: &str)
        ensures
            r@ == self.name@,
    {
        self.name.as_str()
    }

    /// The argument type.
    pub fn argument_type(&self) -> (r: &FunctionType)
        ensures
            *r == self.ty,
    {
        &self.ty
    }
}

} // verus!
