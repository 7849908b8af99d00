//! **wgsldoc** extracts a cross-referenced model of WGSL shader modules
//! (functions, structures, bindings, constants, imports and their documentation)
//! and resolves every named type to the module that declares it.
//!
//! A [`Document`] holds the parsed modules of a package; [`Document::register`]
//! turns it into a [`RegisteredDocument`], in which imports are checked against
//! the package's files and path types are resolved.

use crate::models::import::{registered_import, registry_has, Import};
use crate::models::structure::{resolve_field, structure_resolved};
use crate::models::function::FunctionType;
use crate::models::types::{names_contain, registered_alias, resolve_path, PathType, Type};
use crate::models::{shader_resolved, structure_names, Wgsl};
use crate::parser::error::ParsingError;
use crate::parser::{module_ok, wgsl_is, wgsl_names_unique, wgsl_unresolved, WgslParser};
use crate::utils::text::{extension, extension_of, file_name, file_name_of, file_stem, same_text, stem_of};
use vstd::prelude::*;

pub mod models;
pub mod parser;
pub mod utils;

verus! {

/// Raw favicon bytes.
pub type IconData = Vec<u8>;

/// What a file of the package is, by its path.
#[derive(Debug, Clone, Copy, PartialEq, Eq, Structural)]
pub enum InputKind {
    /// A `.wgsl` module to parse.
    Module,
    /// A `.wgsl` module whose stem starts with `.`: registered, not parsed.
    HiddenModule,
    /// `README.md`.
    Readme,
    /// `favicon.png`.
    Favicon,
    /// Anything else.
    Other,
}

/// The kind of the file at `path`.
#[verifier::opaque]
pub open spec fn kind_of(path: Seq<char>) -> InputKind {
    if extension_of(path) == Some("wgsl"@) {
        if stem_of(path).len() > 0 && stem_of(path)[0] == '.' {
            InputKind::HiddenModule
        } else {
            InputKind::Module
        }
    } else if file_name_of(path) == "README.md"@ {
        InputKind::Readme
    } else if file_name_of(path) == "favicon.png"@ {
        InputKind::Favicon
    } else {
        InputKind::Other
    }
}

/// Classifies a file of the package by its path.
pub fn classify_path(path: &str) -> (r: InputKind)
    ensures
        r == kind_of(path@),
{
    reveal(kind_of);
    let is_module = match extension(path) {
        Some(e) => same_text(e.as_str(), "wgsl"),
        None => false,
    };
    if is_module {
        let stem = file_stem(path);
        let c = crate::utils::text::chars_of(stem.as_str());
        if c.len() > 0 && c[0] == '.' {
            InputKind::HiddenModule
        } else {
            InputKind::Module
        }
    } else {
        let name = file_name(path);
        if same_text(name.as_str(), "README.md") {
            InputKind::Readme
        } else if same_text(name.as_str(), "favicon.png") {
            InputKind::Favicon
        } else {
            InputKind::Other
        }
    }
}

/// What was read from a file of the package.
#[derive(Debug)]
pub enum FileData {
    /// The text of a module or README.
    Text(String),
    /// The bytes of a favicon.
    Bytes(Vec<u8>),
    /// Nothing was read.
    Unread,
}

/// A file of the package with what was read from it.
#[derive(Debug)]
pub struct SourceFile {
    /// The path of the file.
    pub path: String,
    /// What was read from it.
    pub data: FileData,
}

/// The text of a file, empty when none was read.
pub open spec fn text_of(d: FileData) -> Seq<char> {
    match d {
        FileData::Text(t) => t@,
        _ => Seq::empty(),
    }
}

/// The bytes of a file, empty when none were read.
pub open spec fn bytes_of(d: FileData) -> Seq<u8> {
    match d {
        FileData::Bytes(b) => b@,
        _ => Seq::empty(),
    }
}

/// The positions of the module files (to parse) among the first `n` files, in order.
pub open spec fn module_indices(files: Seq<SourceFile>, n: int) -> Seq<int>
    decreases n,
{
    if n <= 0 {
        Seq::empty()
    } else if kind_of(files[n - 1].path@) == InputKind::Module {
        module_indices(files, n - 1).push(n - 1)
    } else {
        module_indices(files, n - 1)
    }
}

/// Adds `path` to the registry unless it is there already.
fn add_to_registry(registry: &mut Vec<String>, path: &String)
    requires
        registry_unique(old(registry)@),
    ensures
        registry_unique(final(registry)@),
        registry_contains(final(registry)@, path@),
        forall|p: Seq<char>| registry_contains(old(registry)@, p) ==> registry_contains(final(registry)@, p),
        forall|j: int|
            0 <= j < final(registry)@.len() ==> #[trigger] final(registry)@[j]@ == path@ || exists|k: int|
                0 <= k < old(registry)@.len() && old(registry)@[k]@ == final(registry)@[j]@,
{
    let mut present = false;
    let mut j: usize = 0;
    while j < registry.len()
        invariant
            j <= registry@.len(),
            *registry == *old(registry),
            present <==> exists|k: int| 0 <= k < j && #[trigger] registry@[k]@ == path@,
        decreases registry@.len() - j,
    {
        if same_text(registry[j].as_str(), path.as_str()) {
            present = true;
        }
        j = j + 1;
    }
    let ghost before = registry@;
    if !present {
        registry.push(path.clone());
        assert(registry@[registry@.len() - 1]@ == path@);
    }
    assert forall|p: Seq<char>| registry_contains(before, p) implies registry_contains(registry@, p) by {
        let k = choose|k: int| 0 <= k < before.len() && #[trigger] before[k]@ == p;
        assert(registry@[k]@ == p);
    }
    assert forall|a: int| 0 <= a < registry@.len() implies #[trigger] registry@[a]@ == path@ || exists|k: int|
        0 <= k < before.len() && before[k]@ == registry@[a]@ by {
        if a < before.len() {
            assert(before[a]@ == registry@[a]@);
        }
    }
}

/// A module file, parsed or hidden.
pub open spec fn is_module_kind(k: InputKind) -> bool {
    k == InputKind::Module || k == InputKind::HiddenModule
}

/// `w` is the module parsed from the file `f`: named by the file's stem,
/// holding its text, and the model of that text.
#[verifier::opaque]
pub open spec fn shader_from(f: SourceFile, w: Wgsl) -> bool {
    &&& w.module_name@ == stem_of(f.path@)
    &&& w.source_code@ == text_of(f.data)
    &&& wgsl_is(text_of(f.data), w)
    &&& wgsl_names_unique(w)
    &&& wgsl_unresolved(w)
}

/// The text of the last README among the first `n` files that was read as text.
pub open spec fn last_readme(files: Seq<SourceFile>, n: int) -> Option<Seq<char>>
    decreases n,
{
    if n <= 0 {
        None
    } else if kind_of(files[n - 1].path@) == InputKind::Readme && files[n - 1].data is Text {
        Some(text_of(files[n - 1].data))
    } else {
        last_readme(files, n - 1)
    }
}

/// The bytes of the last favicon among the first `n` files that was read as bytes.
pub open spec fn last_favicon(files: Seq<SourceFile>, n: int) -> Option<Seq<u8>>
    decreases n,
{
    if n <= 0 {
        None
    } else if kind_of(files[n - 1].path@) == InputKind::Favicon && files[n - 1].data is Bytes {
        Some(bytes_of(files[n - 1].data))
    } else {
        last_favicon(files, n - 1)
    }
}

/// The kept README is the text `t`.
pub open spec fn readme_is(r: Option<String>, t: Option<Seq<char>>) -> bool {
    (r is Some <==> t is Some) && (r is Some ==> r->0@ == t->0)
}

/// The kept favicon is the bytes `b`.
pub open spec fn favicon_is(f: Option<IconData>, b: Option<Seq<u8>>) -> bool {
    (f is Some <==> b is Some) && (f is Some ==> f->0@ == b->0)
}

/// A package of parsed modules, not yet registered.
pub struct Document {
    /// The package name.
    pub pkg_name: String,
    /// The favicon, if the package has one.
    pub favicon: Option<IconData>,
    /// The README text, if the package has one.
    pub readme: Option<String>,
    /// The paths of the package's module files, each once.
    pub file_registry: Vec<String>,
    /// The parsed modules, in input order.
    pub shaders: Vec<Wgsl>,
}

/// A package whose imports and path types have been resolved.
pub struct RegisteredDocument {
    /// The package name.
    pub pkg_name: String,
    /// The favicon, if the package has one.
    pub favicon: Option<IconData>,
    /// The README text, if the package has one.
    pub readme: Option<String>,
    /// The paths of the package's module files, each once.
    pub file_registry: Vec<String>,
    /// The resolved modules, in input order.
    pub shaders: Vec<Wgsl>,
}

/// No path is in `registry` twice.
pub open spec fn registry_unique(registry: Seq<String>) -> bool {
    forall|i: int, j: int|
        0 <= i < registry.len() && 0 <= j < registry.len() && i != j ==> #[trigger] registry[i]@
            != #[trigger] registry[j]@
}

/// Whether `registry` holds the path `p`.
pub open spec fn registry_contains(registry: Seq<String>, p: Seq<char>) -> bool {
    exists|j: int| 0 <= j < registry.len() && #[trigger] registry[j]@ == p
}

impl Document {
    /// Builds a document from the files of a package: module files are
    /// registered and, unless hidden, parsed in input order (the first module
    /// that fails to parse fails the whole document); the last README and the
    /// last favicon are kept.
    #[verifier::rlimit(60)]
    pub fn new(pkg_name: &str, files: &[SourceFile]) -> (r: Result<Document, ParsingError>)
        ensures
            r matches Ok(d) ==> {
                &&& d.pkg_name@ == pkg_name@
                &&& d.shaders@.len() == module_indices(files@, files@.len() as int).len()
                &&& (forall|k: int|
                    0 <= k < d.shaders@.len() ==> shader_from(
                        files@[module_indices(files@, files@.len() as int)[k]],
                        #[trigger] d.shaders@[k],
                    ))
                &&& readme_is(d.readme, last_readme(files@, files@.len() as int))
                &&& favicon_is(d.favicon, last_favicon(files@, files@.len() as int))
                &&& registry_unique(d.file_registry@)
                &&& (forall|i: int|
                    0 <= i < files@.len() && is_module_kind(kind_of(files@[i].path@)) ==> registry_contains(
                        d.file_registry@,
                        #[trigger] files@[i].path@,
                    ))
                &&& (forall|j: int|
                    0 <= j < d.file_registry@.len() ==> exists|i: int|
                        0 <= i < files@.len() && is_module_kind(kind_of(files@[i].path@))
                            && #[trigger] d.file_registry@[j]@ == files@[i].path@)
            },
            r is Ok <==> forall|i: int|
                0 <= i < files@.len() && kind_of(#[trigger] files@[i].path@) == InputKind::Module
                    ==> module_ok(text_of(files@[i].data), 0),
            r matches Err(e) ==> e is InputParsingError,
    {
        let mut favicon: Option<IconData> = None;
        let mut readme: Option<String> = None;
        let mut file_registry: Vec<String> = Vec::new();
        let mut shaders: Vec<Wgsl> = Vec::new();
        let mut i: usize = 0;
        while i < files.len()
            invariant
                i <= files@.len(),
                registry_unique(file_registry@),
                forall|k: int|
                    0 <= k < i && is_module_kind(kind_of(files@[k].path@)) ==> registry_contains(
                        file_registry@,
                        #[trigger] files@[k].path@,
                    ),
                forall|j: int|
                    0 <= j < file_registry@.len() ==> exists|k: int|
                        0 <= k < files@.len() && is_module_kind(kind_of(files@[k].path@))
                            && #[trigger] file_registry@[j]@ == files@[k].path@,
                forall|k: int|
                    0 <= k < i && kind_of(#[trigger] files@[k].path@) == InputKind::Module
                        ==> module_ok(text_of(files@[k].data), 0),
                shaders@.len() == module_indices(files@, i as int).len(),
                forall|k: int|
                    0 <= k < shaders@.len() ==> shader_from(
                        files@[module_indices(files@, i as int)[k]],
                        #[trigger] shaders@[k],
                    ),
                readme_is(readme, last_readme(files@, i as int)),
                favicon_is(favicon, last_favicon(files@, i as int)),
            decreases files@.len() - i,
        {
            let file = &files[i];
            let kind = classify_path(file.path.as_str());
            proof {
                assert(module_indices(files@, i + 1) == if kind_of(files@[i as int].path@) == InputKind::Module {
                    module_indices(files@, i as int).push(i as int)
                } else {
                    module_indices(files@, i as int)
                });
            }
            match kind {
                InputKind::Module | InputKind::HiddenModule => {
                    add_to_registry(&mut file_registry, &file.path);
                    proof {
                        assert forall|j: int| 0 <= j < file_registry@.len() implies exists|k: int|
                            0 <= k < files@.len() && is_module_kind(kind_of(files@[k].path@))
                                && #[trigger] file_registry@[j]@ == files@[k].path@ by {
                            if file_registry@[j]@ == file.path@ {
                                assert(file_registry@[j]@ == files@[i as int].path@);
                            }
                        }
                    }
                    if kind == InputKind::Module {
                        let stem = file_stem(file.path.as_str());
                        let text: &str = match &file.data {
                            FileData::Text(t) => t.as_str(),
                            _ => "",
                        };
                        proof {
                            reveal_strlit("");
                        }
                        assert(text@ == text_of(file.data));
                        let shader = match WgslParser::parse(stem.as_str(), text) {
                            Ok(w) => w,
                            Err(e) => {
                                assert(kind_of(files@[i as int].path@) == InputKind::Module);
                                return Err(e);
                            },
                        };
                        let ghost w = shader;
                        shaders.push(shader);
                        proof {
                            reveal(shader_from);
                            assert(shader_from(files@[i as int], w));
                        }
                    }
                },
                InputKind::Readme => {
                    if let FileData::Text(t) = &file.data {
                        readme = Some(t.clone());
                    }
                },
                InputKind::Favicon => {
                    if let FileData::Bytes(b) = &file.data {
                        favicon = Some(b.clone());
                    }
                },
                InputKind::Other => {},
            }
            i = i + 1;
        }
        assert(i == files@.len());
        assert(readme_is(readme, last_readme(files@, files@.len() as int)));
        assert(favicon_is(favicon, last_favicon(files@, files@.len() as int)));
        Ok(Document { pkg_name: pkg_name.to_owned(), favicon, readme, file_registry, shaders })
    }

    /// Registers the document: every import of every module is checked
    /// against the file registry, then every path type is resolved. This is
    /// the only place where resolution happens.
    pub fn register(self) -> (r: RegisteredDocument)
        ensures
            r.pkg_name == self.pkg_name,
            r.favicon == self.favicon,
            r.readme == self.readme,
            r.file_registry == self.file_registry,
            r.shaders@.len() == self.shaders@.len(),
            forall|k: int|
                0 <= k < self.shaders@.len() ==> shader_resolved(
                    self.shaders@[k],
                    #[trigger] r.shaders@[k],
                    self.file_registry@,
                ),
    {
        let Document { pkg_name, favicon, readme, file_registry, mut shaders } = self;
        let ghost before = shaders@;
        let mut k: usize = 0;
        while k < shaders.len()
            invariant
                k <= shaders@.len(),
                shaders@.len() == before.len(),
                forall|m: int|
                    0 <= m < k ==> shader_resolved(before[m], #[trigger] shaders@[m], file_registry@),
                forall|m: int| k <= m < shaders@.len() ==> #[trigger] shaders@[m] == before[m],
            decreases shaders@.len() - k,
        {
            shaders[k].register(file_registry.as_slice());
            k = k + 1;
        }
        RegisteredDocument { pkg_name, favicon, readme, file_registry, shaders }
    }

    /// The package name.
    pub fn pkg_name(&self) -> (r: &str)
        ensures
            r@ == self.pkg_name@,
    {
        self.pkg_name.as_str()
    }

    /// The favicon.
    pub fn favicon(&self) -> (r: Option<&IconData>)
        ensures
            r is Some <==> self.favicon is Some,
            r is Some ==> *r->0 == self.favicon->0,
    {
        match &self.favicon {
            Some(f) => Some(f),
            None => None,
        }
    }

    /// The parsed modules.
    pub fn shaders(&self) -> (r: &[Wgsl])
        ensures
            r@ == self.shaders@,
    {
        self.shaders.as_slice()
    }

    /// The paths of the module files.
    pub fn file_registry(&self) -> (r: &[String])
        ensures
            r@ == self.file_registry@,
    {
        self.file_registry.as_slice()
    }

    /// The README text.
    pub fn readme(&self) -> (r: Option<&str>)
        ensures
            r is Some <==> self.readme is Some,
            r is Some ==> r->0@ == self.readme->0@,
    {
        match &self.readme {
            Some(t) => Some(t.as_str()),
            None => None,
        }
    }
}

impl RegisteredDocument {
    /// The package name.
    pub fn pkg_name(&self) -> (r: &str)
        ensures
            r@ == self.pkg_name@,
    {
        self.pkg_name.as_str()
    }

    /// The resolved modules.
    pub fn shaders(&self) -> (r: &[Wgsl])
        ensures
            r@ == self.shaders@,
    {
        self.shaders.as_slice()
    }

    /// The paths of the module files.
    pub fn file_registry(&self) -> (r: &[String])
        ensures
            r@ == self.file_registry@,
    {
        self.file_registry.as_slice()
    }

    /// The README text.
    pub fn readme(&self) -> (r: Option<&str>)
        ensures
            r is Some <==> self.readme is Some,
            r is Some ==> r->0@ == self.readme->0@,
    {
        match &self.readme {
            Some(t) => Some(t.as_str()),
            None => None,
        }
    }

    /// The favicon.
    pub fn favicon(&self) -> (r: Option<&IconData>)
        ensures
            r is Some <==> self.favicon is Some,
            r is Some ==> *r->0 == self.favicon->0,
    {
        match &self.favicon {
            Some(f) => Some(f),
            None => None,
        }
    }
}

/// A type qualified by the alias of an import whose path is among the
/// package's files resolves to that import: after registration the import is
/// registered and the field's path type is `Named` with the alias.
pub proof fn law_imported_type_is_named(
    old: Wgsl,
    new: Wgsl,
    registry: Seq<String>,
    i: int,
    s: int,
    f: int,
)
    requires
        shader_resolved(old, new, registry),
        0 <= i < old.imports@.len(),
        registry_has(registry, old.imports@[i].path@),
        0 <= s < old.structures@.len(),
        0 <= f < old.structures@[s].fields@.len(),
        old.structures@[s].fields@[f].ty is Path,
        old.structures@[s].fields@[f].ty->Path_0.import_module is Undefined,
        old.structures@[s].fields@[f].ty->Path_0.module is Some,
        old.structures@[s].fields@[f].ty->Path_0.module->0@ == old.imports@[i].name@,
    ensures
        new.imports@[i].registered,
        new.structures@[s].fields@[f].ty is Path,
        new.structures@[s].fields@[f].ty->Path_0.import_module is Named,
        new.structures@[s].fields@[f].ty->Path_0.import_module->Named_0@ == old.imports@[i].name@,
{
    let names = structure_names(old.structures@);
    assert(new.imports@[i] == registered_import(old.imports@[i], registry));
    assert(structure_resolved(old.structures@[s], new.structures@[s], new.imports@, names));
    assert(new.structures@[s].fields@[f] == resolve_field(
        old.structures@[s].fields@[f],
        new.imports@,
        names,
    ));
    assert(new.imports@[i].registered);
    assert(new.imports@[i].name == old.imports@[i].name);
    assert(new.imports@[i].registered && new.imports@[i].name@ == old.imports@[i].name@);
    assert(registered_alias(new.imports@, old.imports@[i].name@));
}

/// An unqualified type named like a structure of its own module resolves to
/// that module: after registration the argument's path type is `This`.
pub proof fn law_same_module_type_is_this(old: Wgsl, new: Wgsl, registry: Seq<String>, s: int, fi: int, a: int)
    requires
        shader_resolved(old, new, registry),
        0 <= s < old.structures@.len(),
        0 <= fi < old.functions@.len(),
        0 <= a < old.functions@[fi].args@.len(),
        old.functions@[fi].args@[a].ty is Path,
        old.functions@[fi].args@[a].ty->Path_0.import_module is Undefined,
        old.functions@[fi].args@[a].ty->Path_0.module is None,
        old.functions@[fi].args@[a].ty->Path_0.name@ == old.structures@[s].name@,
    ensures
        new.functions@[fi].args@[a].ty is Path,
        new.functions@[fi].args@[a].ty->Path_0.import_module is This,
{
    let names = structure_names(old.structures@);
    assert(crate::models::function::function_resolved(
        old.functions@[fi],
        new.functions@[fi],
        new.imports@,
        names,
    ));
    assert(names[s]@ == old.structures@[s].name@);
    assert(names_contain(names, old.structures@[s].name@));
}

/// A type that names neither the alias of a registered import nor a
/// structure of its own module stays `Undefined` after registration; this is
/// no error.
pub proof fn law_unknown_type_stays_undefined(old: Wgsl, new: Wgsl, registry: Seq<String>, s: int, f: int)
    requires
        shader_resolved(old, new, registry),
        0 <= s < old.structures@.len(),
        0 <= f < old.structures@[s].fields@.len(),
        old.structures@[s].fields@[f].ty is Path,
        old.structures@[s].fields@[f].ty->Path_0.import_module is Undefined,
        !(old.structures@[s].fields@[f].ty->Path_0.module is Some && registered_alias(
            new.imports@,
            old.structures@[s].fields@[f].ty->Path_0.module->0@,
        )),
        !names_contain(
            structure_names(old.structures@),
            old.structures@[s].fields@[f].ty->Path_0.name@,
        ),
    ensures
        new.structures@[s].fields@[f] == old.structures@[s].fields@[f],
{
    let names = structure_names(old.structures@);
    assert(structure_resolved(old.structures@[s], new.structures@[s], new.imports@, names));
    assert(new.structures@[s].fields@[f] == resolve_field(
        old.structures@[s].fields@[f],
        new.imports@,
        names,
    ));
}

/// At every position (field, argument, pointer target, return type,
/// binding, constant), a path type that names neither the alias of a
/// registered import nor a structure of its own module stays `Undefined`:
/// every position is resolved by `resolve_path`, which leaves it unchanged.
pub proof fn law_unknown_path_stays_undefined(p: PathType, imports: Seq<Import>, names: Seq<String>)
    requires
        p.import_module is Undefined,
        !(p.module is Some && registered_alias(imports, p.module->0@)),
        !names_contain(names, p.name@),
    ensures
        resolve_path(p, imports, names) == p,
        crate::models::types::resolve_type(Type::Path(p), imports, names) == Type::Path(p),
        crate::models::function::resolve_fn_type(FunctionType::Path(p), imports, names)
            == FunctionType::Path(p),
        crate::models::function::resolve_fn_type(FunctionType::FunctionPointer(Type::Path(p)), imports, names)
            == FunctionType::FunctionPointer(Type::Path(p)),
{
}

/// Resolution is final: a resolved path type is left as it is by any later
/// resolution.
pub proof fn law_resolution_is_final(p: PathType, imports: Seq<Import>, names: Seq<String>)
    requires
        !(p.import_module is Undefined),
    ensures
        resolve_path(p, imports, names) == p,
{
}

/// Resolution is idempotent: resolving twice against the same imports and
/// names gives what resolving once gives.
pub proof fn law_resolution_is_idempotent(p: PathType, imports: Seq<Import>, names: Seq<String>)
    ensures
        resolve_path(resolve_path(p, imports, names), imports, names) == resolve_path(p, imports, names),
{
}

/// Registration of an import never reverts: a registered import stays registered.
pub proof fn law_registration_is_monotonic(i: Import, registry: Seq<String>)
    ensures
        i.registered ==> registered_import(i, registry).registered,
{
}

} // verus!
