//! The model of a parsed shader module: its imports, functions, structures,
//! constants and resource bindings.

use crate::utils::html::{markdown_html, plain_summary, plain_summary_of, to_html};
use binding::resolve_binding;
use constant::resolve_constant;
use function::function_resolved;
use import::registered_import;
use structure::structure_resolved;
use vstd::prelude::*;

pub mod binding;
pub mod constant;
pub mod function;
pub mod import;
pub mod structure;
pub mod types;

use binding::Binding;
use constant::Constant;
use function::Function;
use import::Import;
use structure::Structure;
use types::RenderedType;

verus! {

/// A declaration known by its name; within one module, names are unique per kind.
pub trait Declared {
    /// The declared name.
    spec fn decl_name(&self) -> Seq<char>;

    /// The declared name, as text.
    fn name_text(&self) -> (r: &str)
        ensures
            r@ == self.decl_name(),
    ;
}

/// No two entries of `s` share a name.
pub open spec fn names_unique<T: Declared>(s: Seq<T>) -> bool {
    forall|i: int, j: int|
        0 <= i < s.len() && 0 <= j < s.len() && i != j ==> #[trigger] s[i].decl_name()
            != #[trigger] s[j].decl_name()
}

/// Whether some entry of `s` has the name `n`.
pub open spec fn has_name<T: Declared>(s: Seq<T>, n: Seq<char>) -> bool {
    exists|i: int| 0 <= i < s.len() && #[trigger] s[i].decl_name() == n
}

/// A list that grows by at most one entry keeps every name it had.
pub proof fn lemma_has_name_grows<T: Declared>(old: Seq<T>, new: Seq<T>, x: T)
    requires
        new == old.push(x) || new == old,
    ensures
        forall|n: Seq<char>| has_name(old, n) ==> has_name(new, n),
{
    assert forall|n: Seq<char>| has_name(old, n) implies has_name(new, n) by {
        let i = choose|i: int| 0 <= i < old.len() && #[trigger] old[i].decl_name() == n;
        assert(new[i] == old[i]);
    }
}

/// Recorded duplicates stay recorded while the lists keep their names, and
/// one more is recorded when its name is kept.
pub proof fn lemma_duplicates_step(
    ds: Seq<Duplicate>,
    new_ds: Seq<Duplicate>,
    i0: Seq<Import>,
    f0: Seq<Function>,
    s0: Seq<Structure>,
    c0: Seq<Constant>,
    b0: Seq<Binding>,
    i1: Seq<Import>,
    f1: Seq<Function>,
    s1: Seq<Structure>,
    c1: Seq<Constant>,
    b1: Seq<Binding>,
)
    requires
        forall|k: int| 0 <= k < ds.len() ==> duplicate_of(#[trigger] ds[k], i0, f0, s0, c0, b0),
        forall|n: Seq<char>| has_name(i0, n) ==> has_name(i1, n),
        forall|n: Seq<char>| has_name(f0, n) ==> has_name(f1, n),
        forall|n: Seq<char>| has_name(s0, n) ==> has_name(s1, n),
        forall|n: Seq<char>| has_name(c0, n) ==> has_name(c1, n),
        forall|n: Seq<char>| has_name(b0, n) ==> has_name(b1, n),
        new_ds == ds || (new_ds.len() == ds.len() + 1 && new_ds.drop_last() == ds && match new_ds.last().kind {
            DeclKind::Import => has_name(i1, new_ds.last().name@),
            DeclKind::Function => has_name(f1, new_ds.last().name@),
            DeclKind::Structure => has_name(s1, new_ds.last().name@),
            DeclKind::Constant => has_name(c1, new_ds.last().name@),
            DeclKind::Binding => has_name(b1, new_ds.last().name@),
        }),
    ensures
        forall|k: int| 0 <= k < new_ds.len() ==> duplicate_of(#[trigger] new_ds[k], i1, f1, s1, c1, b1),
{
    reveal(duplicate_of);
    assert forall|k: int| 0 <= k < new_ds.len() implies duplicate_of(#[trigger] new_ds[k], i1, f1, s1, c1, b1) by {
        if k < ds.len() {
            assert(new_ds[k] == ds[k]);
            assert(duplicate_of(ds[k], i0, f0, s0, c0, b0));
        }
    }
}

/// The positions in `names` of the first occurrence of each name, in order.
pub open spec fn first_occurrences(names: Seq<Seq<char>>) -> Seq<int>
    decreases names.len(),
{
    if names.len() == 0 {
        Seq::empty()
    } else {
        let prev = first_occurrences(names.drop_last());
        if names.drop_last().contains(names.last()) {
            prev
        } else {
            prev.push(names.len() - 1)
        }
    }
}

/// `kept` holds, in order, one entry per distinct name of `names`: the one
/// `built` from the first declaration with that name; later ones are dropped.
#[verifier::opaque]
pub open spec fn kept_first<T: Declared>(
    kept: Seq<T>,
    names: Seq<Seq<char>>,
    built: spec_fn(int, T) -> bool,
) -> bool {
    let idx = first_occurrences(names);
    &&& kept.len() == idx.len()
    &&& forall|k: int|
        0 <= k < kept.len() ==> built(idx[k], #[trigger] kept[k]) && kept[k].decl_name()
            == names[idx[k]]
}

/// Every name has a first occurrence, and first occurrences are positions of `names`.
pub proof fn lemma_first_occurrences(names: Seq<Seq<char>>)
    ensures
        forall|k: int| 0 <= k < first_occurrences(names).len() ==> 0 <= #[trigger] first_occurrences(names)[k] < names.len(),
        forall|j: int| 0 <= j < names.len() ==> exists|k: int|
            0 <= k < first_occurrences(names).len() && names[#[trigger] first_occurrences(names)[k]] == #[trigger] names[j],
    decreases names.len(),
{
    if names.len() > 0 {
        let prev = names.drop_last();
        lemma_first_occurrences(prev);
        let fo = first_occurrences(names);
        let fp = first_occurrences(prev);
        assert forall|k: int| 0 <= k < fp.len() implies fo[k] == fp[k] by {}
        assert forall|j: int| 0 <= j < names.len() implies exists|k: int|
            0 <= k < fo.len() && names[#[trigger] fo[k]] == #[trigger] names[j] by {
            if j < prev.len() {
                let k = choose|k: int| 0 <= k < fp.len() && prev[#[trigger] fp[k]] == #[trigger] prev[j];
                assert(fo[k] == fp[k]);
                assert(names[fo[k]] == names[j]);
            } else if prev.contains(names.last()) {
                let i = choose|i: int| 0 <= i < prev.len() && prev[i] == names.last();
                let k = choose|k: int| 0 <= k < fp.len() && prev[#[trigger] fp[k]] == #[trigger] prev[i];
                assert(fo[k] == fp[k]);
                assert(names[fo[k]] == names[j]);
            } else {
                assert(fo[fp.len() as int] == names.len() - 1);
            }
        }
    }
}

/// What `kept_first` states, spelled out.
pub proof fn lemma_kept_first_unfold<T: Declared>(
    kept: Seq<T>,
    names: Seq<Seq<char>>,
    built: spec_fn(int, T) -> bool,
)
    ensures
        kept_first(kept, names, built) <==> ({
            let idx = first_occurrences(names);
            &&& kept.len() == idx.len()
            &&& forall|k: int|
                0 <= k < kept.len() ==> built(idx[k], #[trigger] kept[k]) && kept[k].decl_name()
                    == names[idx[k]]
        }),
{
    reveal(kept_first);
}

/// An empty list keeps the declarations of no names.
pub proof fn lemma_kept_empty<T: Declared>(names: Seq<Seq<char>>, built: spec_fn(int, T) -> bool)
    requires
        names.len() == 0,
    ensures
        kept_first(Seq::<T>::empty(), names, built),
{
    reveal(kept_first);
}

/// One step of a deduplicating list: appending the declaration of the next
/// name when it is new keeps the list the first-declared entries.
pub proof fn lemma_kept_step<T: Declared>(
    kept: Seq<T>,
    names: Seq<Seq<char>>,
    built: spec_fn(int, T) -> bool,
    x: T,
    new_kept: Seq<T>,
)
    requires
        kept_first(kept, names, built),
        built(names.len() as int, x),
        (!has_name(kept, x.decl_name())) ==> new_kept == kept.push(x),
        has_name(kept, x.decl_name()) ==> new_kept == kept,
    ensures
        kept_first(new_kept, names.push(x.decl_name()), built),
{
    reveal(kept_first);
    let all = names.push(x.decl_name());
    lemma_first_occurrences(names);
    assert(all.drop_last() =~= names);
    let idx = first_occurrences(names);
    if has_name(kept, x.decl_name()) {
        let k = choose|k: int| 0 <= k < kept.len() && #[trigger] kept[k].decl_name() == x.decl_name();
        assert(names[idx[k]] == x.decl_name());
        assert(names.contains(x.decl_name()));
        assert(first_occurrences(all) == idx);
    } else {
        assert(!names.contains(x.decl_name())) by {
            if names.contains(x.decl_name()) {
                let j = choose|j: int| 0 <= j < names.len() && names[j] == x.decl_name();
                let k = choose|k: int| 0 <= k < idx.len() && names[#[trigger] idx[k]] == #[trigger] names[j];
                assert(kept[k].decl_name() == x.decl_name());
            }
        }
        assert(first_occurrences(all) == idx.push(names.len() as int));
        assert forall|k: int| 0 <= k < new_kept.len() implies built(first_occurrences(all)[k], #[trigger] new_kept[k])
            && new_kept[k].decl_name() == all[first_occurrences(all)[k]] by {
            if k < kept.len() {
                assert(new_kept[k] == kept[k]);
                assert(all[idx[k]] == names[idx[k]]);
            }
        }
    }
}

/// Appends `x` unless an entry with the same name is already present: the
/// first declaration of a name wins. Returns whether `x` was appended.
pub fn push_unique<T: Declared>(v: &mut Vec<T>, x: T) -> (added: bool)
    ensures
        added == !has_name(old(v)@, x.decl_name()),
        added ==> final(v)@ == old(v)@.push(x),
        !added ==> final(v)@ == old(v)@,
        names_unique(old(v)@) ==> names_unique(final(v)@),
{
    let mut i: usize = 0;
    while i < v.len()
        invariant
            i <= v@.len(),
            forall|k: int| 0 <= k < i ==> #[trigger] v@[k].decl_name() != x.decl_name(),
        decreases v@.len() - i,
    {
        if crate::utils::text::same_text(v[i].name_text(), x.name_text()) {
            return false;
        }
        i = i + 1;
    }
    let ghost before = v@;
    v.push(x);
    assert(v@ == before.push(x));
    true
}

/// A name with a short summary, as overview pages list components.
#[derive(Debug)]
pub struct ComponentInfo {
    /// The name of the component.
    pub name: String,
    /// A short summary of the component's documentation.
    pub summary: Option<String>,
}

impl ComponentInfo {
    /// The most characters a plain-text summary keeps before it is cut.
    pub const SUMMARY_MAX_LENGTH: usize = crate::utils::html::SUMMARY_MAX_LENGTH;

    /// Creates a component summary.
    pub fn new(name: String, summary: Option<String>) -> (r: ComponentInfo)
        ensures
            r.name == name,
            r.summary == summary,
    {
        ComponentInfo { name, summary }
    }

    /// The name with the documentation rendered to HTML.
    pub(crate) fn rich(name: &String, docs: &Option<String>) -> (r: ComponentInfo)
        ensures
            r.name == *name,
            r.summary is Some <==> docs is Some,
            docs is Some ==> r.summary->0@ == markdown_html(docs->0@),
    {
        let summary = match docs {
            Some(d) => Some(to_html(d.as_str())),
            None => None,
        };
        ComponentInfo { name: name.clone(), summary }
    }

    /// The name with a plain-text summary of the documentation.
    pub(crate) fn plain(name: &String, docs: &Option<String>) -> (r: ComponentInfo)
        ensures
            r.name == *name,
            r.summary is Some <==> docs is Some,
            docs is Some ==> r.summary->0@ == plain_summary_of(docs->0@),
    {
        let summary = match docs {
            Some(d) => Some(plain_summary(d.as_str())),
            None => None,
        };
        ComponentInfo { name: name.clone(), summary }
    }
}

/// One parsed shader module.
#[derive(Debug)]
pub struct Wgsl {
    /// The module name (the stem of its file).
    pub module_name: String,
    /// The source text.
    pub source_code: String,
    /// The module-level documentation.
    pub global_docs: Option<String>,
    /// The imports, in source order, with unique aliases.
    pub imports: Vec<Import>,
    /// The functions, in source order, with unique names.
    pub functions: Vec<Function>,
    /// The structures, in source order, with unique names.
    pub structures: Vec<Structure>,
    /// The constants, in source order, with unique names.
    pub constants: Vec<Constant>,
    /// The resource bindings, in source order, with unique names.
    pub bindings: Vec<Binding>,
    /// The names declared more than once, in source order: one entry per
    /// dropped later declaration.
    pub duplicates: Vec<Duplicate>,
}

/// The kinds of declarations whose names are unique within a module.
#[derive(Debug, Clone, Copy, PartialEq, Eq, Structural)]
pub enum DeclKind {
    /// An import (by alias).
    Import,
    /// A function.
    Function,
    /// A structure.
    Structure,
    /// A constant.
    Constant,
    /// A resource binding.
    Binding,
}

/// A declaration dropped because an earlier one of its kind had its name.
#[derive(Debug)]
pub struct Duplicate {
    /// The kind of the declaration.
    pub kind: DeclKind,
    /// The name declared twice.
    pub name: String,
}

/// The duplicate `d` names a kept declaration of its kind among the lists.
#[verifier::opaque]
pub open spec fn duplicate_of(
    d: Duplicate,
    imports: Seq<Import>,
    functions: Seq<Function>,
    structures: Seq<Structure>,
    constants: Seq<Constant>,
    bindings: Seq<Binding>,
) -> bool {
    match d.kind {
        DeclKind::Import => has_name(imports, d.name@),
        DeclKind::Function => has_name(functions, d.name@),
        DeclKind::Structure => has_name(structures, d.name@),
        DeclKind::Constant => has_name(constants, d.name@),
        DeclKind::Binding => has_name(bindings, d.name@),
    }
}

/// The structure names of a module, in order.
pub open spec fn structure_names(s: Seq<Structure>) -> Seq<String> {
    s.map_values(|x: Structure| x.name)
}

/// `new` is the module `old` after registration against the file registry
/// `registry`: each import is registered when some entry ends with its path,
/// then every path type is resolved against the registered imports and the
/// structure names of the module. Nothing else changes.
pub open spec fn shader_resolved(old: Wgsl, new: Wgsl, registry: Seq<String>) -> bool {
    let names = structure_names(old.structures@);
    &&& new.module_name == old.module_name
    &&& new.source_code == old.source_code
    &&& new.global_docs == old.global_docs
    &&& new.duplicates == old.duplicates
    &&& new.imports@.len() == old.imports@.len()
    &&& (forall|i: int|
        0 <= i < old.imports@.len() ==> #[trigger] new.imports@[i] == registered_import(
            old.imports@[i],
            registry,
        ))
    &&& new.structures@.len() == old.structures@.len()
    &&& (forall|i: int|
        0 <= i < old.structures@.len() ==> structure_resolved(
            old.structures@[i],
            #[trigger] new.structures@[i],
            new.imports@,
            names,
        ))
    &&& new.functions@.len() == old.functions@.len()
    &&& (forall|i: int|
        0 <= i < old.functions@.len() ==> function_resolved(
            old.functions@[i],
            #[trigger] new.functions@[i],
            new.imports@,
            names,
        ))
    &&& new.bindings@.len() == old.bindings@.len()
    &&& (forall|i: int|
        0 <= i < old.bindings@.len() ==> #[trigger] new.bindings@[i] == resolve_binding(
            old.bindings@[i],
            new.imports@,
            names,
        ))
    &&& new.constants@.len() == old.constants@.len()
    &&& (forall|i: int|
        0 <= i < old.constants@.len() ==> #[trigger] new.constants@[i] == resolve_constant(
            old.constants@[i],
            new.imports@,
            names,
        ))
}

impl Wgsl {
    /// Registers the imports against `file_registry`, then resolves every
    /// path type of the module.
    pub fn register(&mut self, file_registry: &[String])
        ensures
            shader_resolved(*old(self), *final(self), file_registry@),
    {
        let ghost before = *self;
        let mut i: usize = 0;
        while i < self.imports.len()
            invariant
                i <= self.imports@.len(),
                self.imports@.len() == before.imports@.len(),
                *self == (Wgsl { imports: self.imports, ..before }),
                forall|k: int|
                    0 <= k < i ==> #[trigger] self.imports@[k] == registered_import(
                        before.imports@[k],
                        file_registry@,
                    ),
                forall|k: int| i <= k < self.imports@.len() ==> #[trigger] self.imports@[k] == before.imports@[k],
            decreases self.imports@.len() - i,
        {
            self.imports[i].register(file_registry);
            i = i + 1;
        }
        let ghost registered = *self;
        let mut names: Vec<String> = Vec::new();
        let mut j: usize = 0;
        while j < self.structures.len()
            invariant
                j <= self.structures@.len(),
                names@ == structure_names(self.structures@.subrange(0, j as int)),
            decreases self.structures@.len() - j,
        {
            names.push(self.structures[j].name.clone());
            j = j + 1;
            assert(names@ =~= structure_names(self.structures@.subrange(0, j as int)));
        }
        assert(self.structures@.subrange(0, j as int) =~= self.structures@);
        let mut s: usize = 0;
        while s < self.structures.len()
            invariant
                s <= self.structures@.len(),
                names@ == structure_names(before.structures@),
                self.structures@.len() == before.structures@.len(),
                *self == (Wgsl { structures: self.structures, ..registered }),
                forall|k: int|
                    0 <= k < s ==> structure_resolved(
                        before.structures@[k],
                        #[trigger] self.structures@[k],
                        registered.imports@,
                        names@,
                    ),
                forall|k: int| s <= k < self.structures@.len() ==> #[trigger] self.structures@[k] == before.structures@[k],
            decreases self.structures@.len() - s,
        {
            self.structures[s].resolve(self.imports.as_slice(), names.as_slice());
            s = s + 1;
        }
        let ghost structured = *self;
        let mut f: usize = 0;
        while f < self.functions.len()
            invariant
                f <= self.functions@.len(),
                self.functions@.len() == before.functions@.len(),
                *self == (Wgsl { functions: self.functions, ..structured }),
                self.imports == registered.imports,
                forall|k: int|
                    0 <= k < f ==> function_resolved(
                        before.functions@[k],
                        #[trigger] self.functions@[k],
                        registered.imports@,
                        names@,
                    ),
                forall|k: int| f <= k < self.functions@.len() ==> #[trigger] self.functions@[k] == before.functions@[k],
            decreases self.functions@.len() - f,
        {
            self.functions[f].resolve(self.imports.as_slice(), names.as_slice());
            f = f + 1;
        }
        let ghost functioned = *self;
        let mut b: usize = 0;
        while b < self.bindings.len()
            invariant
                b <= self.bindings@.len(),
                self.bindings@.len() == before.bindings@.len(),
                *self == (Wgsl { bindings: self.bindings, ..functioned }),
                self.imports == registered.imports,
                forall|k: int|
                    0 <= k < b ==> #[trigger] self.bindings@[k] == resolve_binding(
                        before.bindings@[k],
                        registered.imports@,
                        names@,
                    ),
                forall|k: int| b <= k < self.bindings@.len() ==> #[trigger] self.bindings@[k] == before.bindings@[k],
            decreases self.bindings@.len() - b,
        {
            self.bindings[b].resolve(self.imports.as_slice(), names.as_slice());
            b = b + 1;
        }
        let ghost bound = *self;
        let mut c: usize = 0;
        while c < self.constants.len()
            invariant
                c <= self.constants@.len(),
                self.constants@.len() == before.constants@.len(),
                *self == (Wgsl { constants: self.constants, ..bound }),
                self.imports == registered.imports,
                forall|k: int|
                    0 <= k < c ==> #[trigger] self.constants@[k] == resolve_constant(
                        before.constants@[k],
                        registered.imports@,
                        names@,
                    ),
                forall|k: int| c <= k < self.constants@.len() ==> #[trigger] self.constants@[k] == before.constants@[k],
            decreases self.constants@.len() - c,
        {
            self.constants[c].resolve(self.imports.as_slice(), names.as_slice());
            c = c + 1;
        }
    }

    /// The module name and its documentation rendered to HTML.
    pub fn info_rich_text(&self) -> (r: ComponentInfo)
        ensures
            r.name == self.module_name,
            r.summary is Some <==> self.global_docs is Some,
            self.global_docs is Some ==> r.summary->0@ == markdown_html(self.global_docs->0@),
    {
        ComponentInfo::rich(&self.module_name, &self.global_docs)
    }

    /// The module name and a plain-text summary of its documentation.
    pub fn info_plain_text(&self) -> (r: ComponentInfo)
        ensures
            r.name == self.module_name,
            r.summary is Some <==> self.global_docs is Some,
            self.global_docs is Some ==> r.summary->0@ == plain_summary_of(self.global_docs->0@),
    {
        ComponentInfo::plain(&self.module_name, &self.global_docs)
    }
}

/// A function argument or structure field, ready for a documentation page.
#[derive(Debug, Default)]
pub struct RenderedArgField {
    /// The documentation, rendered to HTML.
    pub docs: Option<String>,
    /// The argument or field name.
    pub name: String,
    /// The rendered type.
    pub ty: RenderedType,
}

} // verus!
