//! Type expressions of the shader language: primitives, vectors and path types,
//! together with the resolution state of a path type.

use crate::models::import::Import;
use crate::utils::text::same_text;
use vstd::prelude::*;
use vstd::string::*;

verus! {

/// A type as it appears in a field, binding, constant or return position.
#[derive(Debug)]
pub enum Type {
    /// A primitive scalar type (e.g. `f32`, `i32`).
    Primitive(Primitive),
    /// A vector of a primitive (e.g. `vec3<f32>`).
    Vector(Vector),
    /// A named type, possibly qualified by a module (e.g. `Utils::Camera`).
    Path(PathType),
}

impl Default for Type {
    /// The placeholder type is the signed 32-bit integer.
    fn default() -> (r: Type)
        ensures
            r == Type::Primitive(Primitive::Sint32),
    {
        Type::Primitive(Primitive::Sint32)
    }
}

/// The primitive scalar kinds.
#[derive(Debug, Clone, Copy, PartialEq, Eq, Structural)]
pub enum Primitive {
    /// `bool`
    Bool,
    /// `f32`
    Float32,
    /// `f64`
    Float64,
    /// `u8`
    Uint8,
    /// `u16`
    Uint16,
    /// `u32`
    Uint32,
    /// `u64`
    Uint64,
    /// `i8`
    Sint8,
    /// `i16`
    Sint16,
    /// `i32`
    Sint32,
    /// `i64`
    Sint64,
}

impl Default for Primitive {
    /// The default primitive is the signed 32-bit integer.
    fn default() -> (r: Primitive)
        ensures
            r == Primitive::Sint32,
    {
        Primitive::Sint32
    }
}

/// The keyword that spells a primitive in source text.
pub open spec fn primitive_keyword(p: Primitive) -> Seq<char> {
    match p {
        Primitive::Bool => "bool"@,
        Primitive::Float32 => "f32"@,
        Primitive::Float64 => "f64"@,
        Primitive::Uint8 => "u8"@,
        Primitive::Uint16 => "u16"@,
        Primitive::Uint32 => "u32"@,
        Primitive::Uint64 => "u64"@,
        Primitive::Sint8 => "i8"@,
        Primitive::Sint16 => "i16"@,
        Primitive::Sint32 => "i32"@,
        Primitive::Sint64 => "i64"@,
    }
}

/// The digit that spells a vector dimension in source text.
pub open spec fn dimension_digit(d: VectorDimension) -> char {
    match d {
        VectorDimension::D2 => '2',
        VectorDimension::D3 => '3',
        VectorDimension::D4 => '4',
    }
}

impl Primitive {
    /// The source keyword of this primitive.
    pub fn keyword(&self) -> (r: &'static str)
        ensures
            r@ == primitive_keyword(*self),
    {
        match self {
            Primitive::Bool => "bool",
            Primitive::Float32 => "f32",
            Primitive::Float64 => "f64",
            Primitive::Uint8 => "u8",
            Primitive::Uint16 => "u16",
            Primitive::Uint32 => "u32",
            Primitive::Uint64 => "u64",
            Primitive::Sint8 => "i8",
            Primitive::Sint16 => "i16",
            Primitive::Sint32 => "i32",
            Primitive::Sint64 => "i64",
        }
    }

    /// The display form of this primitive: its source keyword.
    pub fn to_string(&self) -> (r: String)
        ensures
            r@ == primitive_keyword(*self),
    {
        self.keyword().to_owned()
    }
}

/// A vector type: a dimension and a primitive element type.
#[derive(Debug, Clone, Copy, PartialEq, Eq, Structural)]
pub struct Vector {
    pub dimension: VectorDimension,
    pub ty: Primitive,
}

/// The display form of a vector, with its angle brackets escaped for HTML.
pub open spec fn vector_display(v: Vector) -> Seq<char> {
    "vec"@ + seq![dimension_digit(v.dimension)] + "&lt;"@ + primitive_keyword(v.ty) + "&gt;"@
}

impl Vector {
    /// Creates a vector type.
    pub fn new(dimension: VectorDimension, ty: Primitive) -> (r: Vector)
        ensures
            r.dimension == dimension,
            r.ty == ty,
    {
        Vector { dimension, ty }
    }

    /// The element type.
    pub fn vector_type(&self) -> (r: &Primitive)
        ensures
            *r == self.ty,
    {
        &self.ty
    }

    /// The dimension.
    pub fn dimension(&self) -> (r: &VectorDimension)
        ensures
            *r == self.dimension,
    {
        &self.dimension
    }

    /// The spec view of the element type.
    pub open spec fn spec_type(&self) -> Primitive {
        self.ty
    }

    /// The spec view of the dimension.
    pub open spec fn spec_dimension(&self) -> VectorDimension {
        self.dimension
    }

    /// The display form `vecN&lt;T&gt;`.
    pub fn to_string(&self) -> (r: String)
        ensures
            r@ == vector_display(*self),
    {
        let head = match self.dimension {
            VectorDimension::D2 => "vec2&lt;",
            VectorDimension::D3 => "vec3&lt;",
            VectorDimension::D4 => "vec4&lt;",
        };
        proof {
            reveal_strlit("vec2&lt;");
            reveal_strlit("vec3&lt;");
            reveal_strlit("vec4&lt;");
            reveal_strlit("vec");
            reveal_strlit("&lt;");
        }
        let r = head.to_owned().concat(self.ty.keyword()).concat("&gt;");
        assert(r@ =~= vector_display(*self));
        r
    }
}

/// The dimension of a vector type.
#[derive(Debug, Clone, Copy, PartialEq, Eq, Structural)]
pub enum VectorDimension {
    /// Two components.
    D2,
    /// Three components.
    D3,
    /// Four components.
    D4,
}

impl Default for VectorDimension {
    /// The default dimension is three.
    fn default() -> (r: VectorDimension)
        ensures
            r == VectorDimension::D3,
    {
        VectorDimension::D3
    }
}

/// Where a path type was found to be declared.
#[derive(Debug, Clone, PartialEq, Eq)]
pub enum ImportModule {
    /// Not resolved (yet, or at all).
    Undefined,
    /// Declared in the module imported under this alias.
    Named(String),
    /// Declared as a structure of the same module.
    This,
}

impl Default for ImportModule {
    /// A fresh path type is unresolved.
    fn default() -> (r: ImportModule)
        ensures
            r is Undefined,
    {
        ImportModule::Undefined
    }
}

/// A type referenced by name, with an optional module qualifier.
#[derive(Debug, Clone)]
pub struct PathType {
    pub module: Option<String>,
    pub name: String,
    pub import_module: ImportModule,
}

impl PathType {
    /// Creates an unresolved path type.
    pub fn new(module: Option<String>, name: String) -> (r: PathType)
        ensures
            r.module == module,
            r.name == name,
            r.import_module is Undefined,
    {
        PathType { module, name, import_module: ImportModule::Undefined }
    }

    /// The module qualifier, if any.
    pub fn module(&self) -> (r: Option<&str>)
        ensures
            r is Some <==> self.module is Some,
            r is Some ==> r->0@ == self.module->0@,
    {
        match &self.module {
            Some(m) => Some(m.as_str()),
            None => None,
        }
    }

    /// The type name.
    pub fn name(&self) -> (r: &str)
        ensures
            r@ == self.name@,
    {
        self.name.as_str()
    }

    /// The resolution state.
    pub fn import_module(&self) -> (r: &ImportModule)
        ensures
            *r == self.import_module,
    {
        &self.import_module
    }
}

/// Whether some registered import of `imports` has the alias `alias`.
pub open spec fn registered_alias(imports: Seq<Import>, alias: Seq<char>) -> bool {
    exists|i: int| 0 <= i < imports.len() && #[trigger] imports[i].registered && imports[i].name@ == alias
}

/// Whether `names` holds the name `n`.
pub open spec fn names_contain(names: Seq<String>, n: Seq<char>) -> bool {
    exists|i: int| 0 <= i < names.len() && #[trigger] names[i]@ == n
}

/// A path type after resolution against the registered imports `imports` and
/// the structure names `names` of its own module. A resolved path type is
/// left as it is; an import match is tried before a same-module match.
pub open spec fn resolve_path(p: PathType, imports: Seq<Import>, names: Seq<String>) -> PathType {
    if !(p.import_module is Undefined) {
        p
    } else if p.module is Some && registered_alias(imports, p.module->0@) {
        PathType { import_module: ImportModule::Named(p.module->0), ..p }
    } else if names_contain(names, p.name@) {
        PathType { import_module: ImportModule::This, ..p }
    } else {
        p
    }
}

/// A type after resolution: only path types change.
pub open spec fn resolve_type(t: Type, imports: Seq<Import>, names: Seq<String>) -> Type {
    match t {
        Type::Path(p) => Type::Path(resolve_path(p, imports, names)),
        _ => t,
    }
}

/// An optional type after resolution.
pub open spec fn resolve_opt_type(t: Option<Type>, imports: Seq<Import>, names: Seq<String>) -> Option<Type> {
    match t {
        Some(ty) => Some(resolve_type(ty, imports, names)),
        None => None,
    }
}

/// Whether the import list holds the alias `alias`.
pub open spec fn alias_known(imports: Seq<Import>, alias: Seq<char>) -> bool {
    exists|i: int| 0 <= i < imports.len() && #[trigger] imports[i].name@ == alias
}

/// `stem` is the module name of the first import with the alias `alias`.
pub open spec fn first_alias_stem(imports: Seq<Import>, alias: Seq<char>, stem: Seq<char>) -> bool {
    exists|i: int|
        0 <= i < imports.len() && #[trigger] imports[i].name@ == alias && imports[i].module_name@
            == stem && forall|j: int| 0 <= j < i ==> imports[j].name@ != alias
}

/// `r` renders the primitive or vector whose display form is `name`.
pub open spec fn rendered_plain(name: Seq<char>, fp: bool, r: RenderedType) -> bool {
    &&& r.name@ == name
    &&& r.is_function_pointer == fp
    &&& !r.is_this
    &&& r.module is None
    &&& r.import is None
}

/// `r` renders the path type `p` against `imports`.
pub open spec fn rendered_path(p: PathType, imports: Seq<Import>, fp: bool, r: RenderedType) -> bool {
    &&& r.name@ == p.name@
    &&& r.is_function_pointer == fp
    &&& (r.module is Some <==> p.module is Some)
    &&& (r.module is Some ==> r.module->0@ == p.module->0@)
    &&& r.is_this == (p.import_module is This)
    &&& match p.import_module {
        ImportModule::Named(n) => (r.import is Some <==> alias_known(imports, n@)) && (r.import is Some
            ==> first_alias_stem(imports, n@, r.import->0@)),
        _ => r.import is None,
    }
}

/// `r` renders the type `t` against `imports`; `fp` marks a function-pointer target.
pub open spec fn rendered_as(t: Type, imports: Seq<Import>, fp: bool, r: RenderedType) -> bool {
    match t {
        Type::Primitive(p) => rendered_plain(primitive_keyword(p), fp, r),
        Type::Vector(v) => rendered_plain(vector_display(v), fp, r),
        Type::Path(p) => rendered_path(p, imports, fp, r),
    }
}

impl PathType {
    /// Resolves against the registered imports: sets `Named` when unresolved and
    /// the module qualifier is the alias of a registered import.
    pub fn register_imports(&mut self, imports: &[Import])
        ensures
            *final(self) == resolve_path(*old(self), imports@, Seq::empty()),
    {
        self.resolve(imports, &[]);
    }

    /// Resolves against the structure names of the same module: sets `This`
    /// when unresolved and the name is among them.
    pub fn register_same_module_types(&mut self, type_names: &[String])
        ensures
            *final(self) == resolve_path(*old(self), Seq::empty(), type_names@),
    {
        self.resolve(&[], type_names);
    }

    /// Resolves against the registered imports, then the same-module structure names.
    pub fn resolve(&mut self, imports: &[Import], type_names: &[String])
        ensures
            *final(self) == resolve_path(*old(self), imports@, type_names@),
    {
        if !matches!(self.import_module, ImportModule::Undefined) {
            return;
        }
        if let Some(m) = &self.module {
            let mut i: usize = 0;
            while i < imports.len()
                invariant
                    i <= imports@.len(),
                    *self == *old(self),
                    self.module is Some,
                    *m == self.module->0,
                    self.import_module is Undefined,
                    forall|k: int| 0 <= k < i ==> !(#[trigger] imports@[k].registered && imports@[k].name@ == m@),
                decreases imports@.len() - i,
            {
                if imports[i].registered && same_text(imports[i].name.as_str(), m.as_str()) {
                    assert(imports@[i as int].registered && imports@[i as int].name@ == m@);
                    self.import_module = ImportModule::Named(m.clone());
                    return;
                }
                i = i + 1;
            }
        }
        assert(!(self.module is Some && registered_alias(imports@, self.module->0@)));
        let mut j: usize = 0;
        while j < type_names.len()
            invariant
                j <= type_names@.len(),
                *self == *old(self),
                self.import_module is Undefined,
                !(self.module is Some && registered_alias(imports@, self.module->0@)),
                forall|k: int| 0 <= k < j ==> #[trigger] type_names@[k]@ != self.name@,
            decreases type_names@.len() - j,
        {
            if same_text(type_names[j].as_str(), self.name.as_str()) {
                assert(type_names@[j as int]@ == self.name@);
                self.import_module = ImportModule::This;
                return;
            }
            j = j + 1;
        }
    }

    /// Renders this path type; `fp` marks a function-pointer target.
    pub fn rendered(&self, imports: &[Import], fp: bool) -> (r: RenderedType)
        ensures
            rendered_path(*self, imports@, fp, r),
    {
        let import = match &self.import_module {
            ImportModule::Named(n) => first_stem(imports, n),
            _ => None,
        };
        let module = match &self.module {
            Some(m) => Some(m.clone()),
            None => None,
        };
        RenderedType {
            is_this: matches!(self.import_module, ImportModule::This),
            is_function_pointer: fp,
            name: self.name.clone(),
            module,
            import,
        }
    }
}

/// The module name of the first import with the alias `alias`.
fn first_stem(imports: &[Import], alias: &String) -> (r: Option<String>)
    ensures
        r is Some <==> alias_known(imports@, alias@),
        r is Some ==> first_alias_stem(imports@, alias@, r->0@),
{
    let mut i: usize = 0;
    while i < imports.len()
        invariant
            i <= imports@.len(),
            forall|k: int| 0 <= k < i ==> #[trigger] imports@[k].name@ != alias@,
        decreases imports@.len() - i,
    {
        if same_text(imports[i].name.as_str(), alias.as_str()) {
            let r = imports[i].module_name.clone();
            assert(imports@[i as int].name@ == alias@);
            return Some(r);
        }
        i = i + 1;
    }
    None
}

/// Renders a primitive; `fp` marks a function-pointer target.
pub fn render_primitive(p: Primitive, fp: bool) -> (r: RenderedType)
    ensures
        rendered_plain(primitive_keyword(p), fp, r),
{
    RenderedType { is_this: false, is_function_pointer: fp, name: p.to_string(), module: None, import: None }
}

/// Renders a vector; `fp` marks a function-pointer target.
pub fn render_vector(v: Vector, fp: bool) -> (r: RenderedType)
    ensures
        rendered_plain(vector_display(v), fp, r),
{
    RenderedType { is_this: false, is_function_pointer: fp, name: v.to_string(), module: None, import: None }
}

impl Type {
    /// Renders this type for a documentation page; `is_fn_ptr` marks a
    /// function-pointer target.
    pub fn rendered_type(&self, imports: &[Import], is_fn_ptr: bool) -> (r: RenderedType)
        ensures
            rendered_as(*self, imports@, is_fn_ptr, r),
    {
        match self {
            Type::Primitive(p) => render_primitive(*p, is_fn_ptr),
            Type::Vector(v) => render_vector(*v, is_fn_ptr),
            Type::Path(p) => p.rendered(imports, is_fn_ptr),
        }
    }

    /// Resolves the type if it is a path type.
    pub fn resolve(&mut self, imports: &[Import], type_names: &[String])
        ensures
            *final(self) == resolve_type(*old(self), imports@, type_names@),
    {
        if let Type::Path(p) = self {
            p.resolve(imports, type_names);
        }
    }
}

/// A renderable description of a type, as the documentation pages show it.
#[derive(Debug, Default)]
pub struct RenderedType {
    /// The type is a structure of the same module.
    pub is_this: bool,
    /// The type is the target of a function pointer (`ptr<function, T>`).
    pub is_function_pointer: bool,
    /// The displayed name of the type.
    pub name: String,
    /// The module qualifier written in the source, if any.
    pub module: Option<String>,
    /// The file stem of the import the type resolved to, if any.
    pub import: Option<String>,
}

} // verus!
