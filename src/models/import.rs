//! Imports of other modules (`#import utils.wgsl as Utils;`).

use crate::models::{ComponentInfo, Declared};
use crate::utils::html::markdown_html;
use crate::utils::text::{ends_with_path, file_stem, path_ends_with, stem_of};
use vstd::prelude::*;

verus! {

/// An import of another module under an alias.
#[derive(Debug, Clone)]
pub struct Import {
    /// The documentation, as written.
    pub docs: Option<String>,
    /// The relative path of the imported file.
    pub path: String,
    /// The file stem of `path`.
    pub module_name: String,
    /// The alias used in qualified type references.
    pub name: String,
    /// Whether `path` was found among the document's files.
    pub registered: bool,
}

/// Whether some entry of the file registry ends with `path`.
pub open spec fn registry_has(registry: Seq<String>, path: Seq<char>) -> bool {
    exists|j: int| 0 <= j < registry.len() && path_ends_with(#[trigger] registry[j]@, path)
}

/// An import after it was checked against the file registry.
pub open spec fn registered_import(i: Import, registry: Seq<String>) -> Import {
    Import { registered: i.registered || registry_has(registry, i.path@), ..i }
}

impl Declared for Import {
    open spec fn decl_name(&self) -> Seq<char> {
        self.name@
    }

    fn name_text(&self) -> (r: &str) {
        self.name.as_str()
    }
}

impl Import {
    /// Creates an unregistered import; the documentation is kept as written.
    pub fn new(docs: Option<String>, path: String, name: String) -> (r: Import)
        ensures
            r.docs == docs,
            r.path == path,
            r.module_name@ == stem_of(path@),
            r.name == name,
            !r.registered,
    {
        let module_name = file_stem(path.as_str());
        Import { docs, module_name, path, name, registered: false }
    }

    /// The file stem of the imported path.
    pub fn module_name(&self) -> (r: &str)
        ensures
            r@ == self.module_name@,
    {
        self.module_name.as_str()
    }

    /// The alias and the documentation rendered to HTML.
    pub fn info_rich_text(&self) -> (r: ComponentInfo)
        ensures
            r.name == self.name,
            r.summary is Some <==> self.docs is Some,
            self.docs is Some ==> r.summary->0@ == markdown_html(self.docs->0@),
    {
        ComponentInfo::rich(&self.name, &self.docs)
    }

    /// The alias and a plain-text summary of the documentation.
    pub fn info_plain_text(&self) -> (r: ComponentInfo)
        ensures
            r.name == self.name,
            r.summary is Some <==> self.docs is Some,
            self.docs is Some ==> r.summary->0@ == crate::utils::html::plain_summary_of(
                self.docs->0@,
            ),
    {
        ComponentInfo::plain(&self.name, &self.docs)
    }

    /// Marks the import registered if some registry entry ends with its path.
    /// Returns whether it is registered.
    pub fn register(&mut self, file_registry: &[String]) -> (r: bool)
        ensures
            *final(self) == registered_import(*old(self), file_registry@),
            r == final(self).registered,
    {
        let mut j: usize = 0;
        while j < file_registry.len()
            invariant
                j <= file_registry@.len(),
                *self == (Import {
                    registered: old(self).registered || exists|k: int|
                        0 <= k < j && path_ends_with(#[trigger] file_registry@[k]@, old(self).path@),
                    ..*old(self)
                }),
            decreases file_registry@.len() - j,
        {
            if ends_with_path(file_registry[j].as_str(), self.path.as_str()) {
                self.registered = true;
            }
            j = j + 1;
        }
        self.registered
    }

    /// The documentation, as written.
    pub fn docs(&self) -> (r: Option<&str>)
        ensures
            r is Some <==> self.docs is Some,
            r is Some ==> r->0@ == self.docs->0@,
    {
        match &self.docs {
            Some(d) => Some(d.as_str()),
            None => None,
        }
    }

    /// The imported path.
    pub fn path(&self) -> (r: &str)
        ensures
            r@ == self.path@,
    {
        self.path.as_str()
    }

    /// The alias.
    pub fn name(&self) -> (r: &str)
        ensures
            r@ == self.name@,
    {
        self.name.as_str()
    }

    /// Whether the import was found among the document's files.
    pub fn registered(&self) -> (r: bool)
        ensures
            r == self.registered,
    {
        self.registered
    }
}

} // verus!
