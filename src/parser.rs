//! The grammar of shader modules: a hand-written parser from source text to
//! the model of `crate::models`.

use crate::models::binding::Binding;
use crate::models::constant::Constant;
use crate::models::function::Function;
use crate::models::import::Import;
use crate::models::structure::Structure;
use crate::models::{first_occurrences, lemma_kept_first_unfold, duplicate_of, lemma_duplicates_step, lemma_has_name_grows, DeclKind, Duplicate, kept_first, lemma_kept_empty, lemma_kept_step, names_unique, push_unique, Wgsl};
use crate::parser::binding::{binding_is, binding_at, binding_attrs_end, storage_class_at, var_template_at, parse_binding, parse_binding_attrs, parse_storage_class, parse_var_template};
use crate::parser::constant::{constant_is, const_value_at, constant_at, constant_unresolved, parse_const_value, parse_constant};
use crate::parser::docs::{
    accumulate_docs, doc_lines, doc_lines_from, docs_end, docs_match, item_docs_are, views,
};
use crate::parser::error::{ParsingError, SyntaxError};
use crate::parser::function::{function_is, arg_at, args_rest, body_at, function_at, function_unresolved, return_at, parse_arg, parse_args, parse_function, parse_return, skip_body};
use crate::parser::import::{
    import_is, path_to, builtin_content_at, builtin_import_at, import_at, import_list_at, import_path_at, parse_builtin_import,
    parse_builtin_import_content, parse_import, parse_import_list,
    parse_import_path,
};
use crate::parser::scan::{ident_text, kw, tok, digits_to, doc_line_at, ident_at, newline_from, trivia_end, Source};
use crate::parser::structure::{structure_is, field_at, fields_rest, structure_at, parse_field, parse_fields, parse_structure, structure_unresolved};
use crate::parser::types::{
    dimension_of, function_pointer_at, function_type_at, generic_args_at, path_type_at,
    primitive_at, type_at, vector_at, parse_dimension, parse_function_pointer, parse_function_type, parse_path_type, parse_primitive,
    parse_type, parse_vector, skip_generic_args, type_unresolved,
};
use crate::parser::attrs::{attributes_end, attribute_at, numbered_attribute, numbered_attribute_at, skip_attribute};
use vstd::prelude::*;

pub mod attrs;
pub mod binding;
pub mod constant;
pub mod docs;
pub mod error;
pub mod function;
pub mod import;
pub mod scan;
pub mod structure;
pub mod types;

verus! {

/// No path type of the module is resolved and no import is registered.
pub open spec fn wgsl_unresolved(w: Wgsl) -> bool {
    &&& forall|i: int| 0 <= i < w.imports@.len() ==> !(#[trigger] w.imports@[i]).registered
    &&& forall|i: int| 0 <= i < w.structures@.len() ==> structure_unresolved(#[trigger] w.structures@[i])
    &&& forall|i: int| 0 <= i < w.functions@.len() ==> function_unresolved(#[trigger] w.functions@[i])
    &&& forall|i: int| 0 <= i < w.constants@.len() ==> constant_unresolved(#[trigger] w.constants@[i])
    &&& forall|i: int| 0 <= i < w.bindings@.len() ==> type_unresolved(#[trigger] w.bindings@[i].ty)
}

/// Within the module, names are unique per kind of declaration, and so are
/// the field names of each structure and the argument names of each function.
pub open spec fn wgsl_names_unique(w: Wgsl) -> bool {
    &&& names_unique(w.imports@)
    &&& names_unique(w.functions@)
    &&& names_unique(w.structures@)
    &&& names_unique(w.constants@)
    &&& names_unique(w.bindings@)
    &&& forall|i: int| 0 <= i < w.structures@.len() ==> names_unique(#[trigger] w.structures@[i].fields@)
    &&& forall|i: int| 0 <= i < w.functions@.len() ==> names_unique(#[trigger] w.functions@[i].args@)
}


/// After trivia at `q`: the end of the next top-level item (module
/// documentation or a declaration), trying each kind in turn.
pub open spec fn next_item_end(s: Seq<char>, q: int) -> Option<int> {
    if doc_line_at(s, q, '!') {
        Some(docs_end(s, q, '!'))
    } else if import_at(s, q) is Some {
        import_at(s, q)
    } else if builtin_import_at(s, q) is Some {
        builtin_import_at(s, q)
    } else if constant_at(s, q) is Some {
        constant_at(s, q)
    } else if binding_at(s, q) is Some {
        binding_at(s, q)
    } else if structure_at(s, q) is Some {
        structure_at(s, q)
    } else {
        function_at(s, q)
    }
}

/// The text from `pos` on is a sequence of top-level items, with trivia
/// between them: the grammar of a whole module.
pub open spec fn module_ok(s: Seq<char>, pos: int) -> bool
    decreases s.len() - pos,
{
    let q = trivia_end(s, pos);
    if !(0 <= pos <= s.len()) {
        false
    } else if q == s.len() {
        true
    } else {
        match next_item_end(s, q) {
            Some(e) => if pos < e <= s.len() {
                module_ok(s, e)
            } else {
                false
            },
            None => false,
        }
    }
}

/// The kinds of top-level items.
#[derive(Debug, Clone, Copy, PartialEq, Eq, Structural)]
pub enum ItemKind {
    /// `//!` module documentation lines.
    GlobalDocs,
    /// `#import path as Alias`.
    Import,
    /// `#import a::b`.
    BuiltinImport,
    /// A constant.
    Constant,
    /// A resource binding.
    Binding,
    /// A structure.
    Structure,
    /// A function.
    Function,
}

/// The kind of the top-level item after trivia at `q`, by the order in
/// which the kinds are tried.
pub open spec fn item_kind(s: Seq<char>, q: int) -> ItemKind {
    if doc_line_at(s, q, '!') {
        ItemKind::GlobalDocs
    } else if import_at(s, q) is Some {
        ItemKind::Import
    } else if builtin_import_at(s, q) is Some {
        ItemKind::BuiltinImport
    } else if constant_at(s, q) is Some {
        ItemKind::Constant
    } else if binding_at(s, q) is Some {
        ItemKind::Binding
    } else if structure_at(s, q) is Some {
        ItemKind::Structure
    } else {
        ItemKind::Function
    }
}

/// Where the top-level items from `pos` on start, in source order.
pub open spec fn module_items(s: Seq<char>, pos: int) -> Seq<int>
    decreases s.len() - pos,
{
    let q = trivia_end(s, pos);
    if !(0 <= pos <= s.len()) || q == s.len() {
        Seq::empty()
    } else {
        match next_item_end(s, q) {
            Some(e) => if pos < e <= s.len() {
                seq![q] + module_items(s, e)
            } else {
                Seq::empty()
            },
            None => Seq::empty(),
        }
    }
}

/// The starts of the items of kind `k` among `items`, in order.
pub open spec fn items_of(s: Seq<char>, items: Seq<int>, k: ItemKind) -> Seq<int> {
    items.filter(|q: int| item_kind(s, q) == k)
}

/// The `//!` lines of the module-documentation items starting at `qs`, in order.
pub open spec fn global_lines_of(s: Seq<char>, qs: Seq<int>) -> Seq<Seq<char>>
    decreases qs.len(),
{
    if qs.len() == 0 {
        Seq::empty()
    } else {
        global_lines_of(s, qs.drop_last()) + doc_lines_from(s, qs.last(), '!')
    }
}

/// The alias of the import that starts after trivia at `q`.
pub open spec fn import_name_at(s: Seq<char>, q: int) -> Seq<char> {
    let e1 = tok(s, docs_end(s, q, '/'), "#import"@)->0;
    ident_text(s, kw(s, path_to(s, trivia_end(s, e1)), "as"@)->0)
}

/// The name of the constant that starts after trivia at `q`.
pub open spec fn constant_name_at(s: Seq<char>, q: int) -> Seq<char> {
    ident_text(s, kw(s, docs_end(s, q, '/'), "const"@)->0)
}

/// The name of the binding that starts after trivia at `q`.
pub open spec fn binding_name_at(s: Seq<char>, q: int) -> Seq<char> {
    let e2 = kw(s, binding_attrs_end(s, docs_end(s, q, '/')), "var"@)->0;
    ident_text(s, match var_template_at(s, e2) {
        Some(e) => e,
        None => e2,
    })
}

/// The name of the structure that starts after trivia at `q`.
pub open spec fn structure_name_at(s: Seq<char>, q: int) -> Seq<char> {
    ident_text(s, kw(s, docs_end(s, q, '/'), "struct"@)->0)
}

/// The name of the function that starts after trivia at `q`.
pub open spec fn function_name_at(s: Seq<char>, q: int) -> Seq<char> {
    ident_text(s, kw(s, attributes_end(s, docs_end(s, q, '/')), "fn"@)->0)
}

/// The aliases of the imports among `items`, in order.
pub open spec fn import_names(s: Seq<char>, items: Seq<int>) -> Seq<Seq<char>> {
    items_of(s, items, ItemKind::Import).map_values(|q: int| import_name_at(s, q))
}

/// The names of the constants among `items`, in order.
pub open spec fn constant_names(s: Seq<char>, items: Seq<int>) -> Seq<Seq<char>> {
    items_of(s, items, ItemKind::Constant).map_values(|q: int| constant_name_at(s, q))
}

/// The names of the bindings among `items`, in order.
pub open spec fn binding_names(s: Seq<char>, items: Seq<int>) -> Seq<Seq<char>> {
    items_of(s, items, ItemKind::Binding).map_values(|q: int| binding_name_at(s, q))
}

/// The names of the structures among `items`, in order.
pub open spec fn structure_names_in(s: Seq<char>, items: Seq<int>) -> Seq<Seq<char>> {
    items_of(s, items, ItemKind::Structure).map_values(|q: int| structure_name_at(s, q))
}

/// The names of the functions among `items`, in order.
pub open spec fn function_names(s: Seq<char>, items: Seq<int>) -> Seq<Seq<char>> {
    items_of(s, items, ItemKind::Function).map_values(|q: int| function_name_at(s, q))
}

/// The `i`-th import among `items` is written as `x`.
pub open spec fn import_built(s: Seq<char>, items: Seq<int>) -> spec_fn(int, Import) -> bool {
    |i: int, x: Import| import_is(s, items_of(s, items, ItemKind::Import)[i], x)
}

/// The `i`-th constant among `items` is written as `x`.
pub open spec fn constant_built(s: Seq<char>, items: Seq<int>) -> spec_fn(int, Constant) -> bool {
    |i: int, x: Constant| constant_is(s, items_of(s, items, ItemKind::Constant)[i], x)
}

/// The `i`-th binding among `items` is written as `x`.
pub open spec fn binding_built(s: Seq<char>, items: Seq<int>) -> spec_fn(int, Binding) -> bool {
    |i: int, x: Binding| binding_is(s, items_of(s, items, ItemKind::Binding)[i], x)
}

/// The `i`-th structure among `items` is written as `x`.
pub open spec fn structure_built(s: Seq<char>, items: Seq<int>) -> spec_fn(int, Structure) -> bool {
    |i: int, x: Structure| structure_is(s, items_of(s, items, ItemKind::Structure)[i], x)
}

/// The `i`-th function among `items` is written as `x`.
pub open spec fn function_built(s: Seq<char>, items: Seq<int>) -> spec_fn(int, Function) -> bool {
    |i: int, x: Function| function_is(s, items_of(s, items, ItemKind::Function)[i], x)
}

/// `w` is the model of the module text `s`: the module documentation is all
/// `//!` lines accumulated (`None` when empty), and each list holds the
/// declarations of its kind in source order, each as written, keeping the
/// first of declarations that share a name.
#[verifier::opaque]
pub open spec fn wgsl_is(s: Seq<char>, w: Wgsl) -> bool {
    let all = module_items(s, 0);
    &&& docs_match(w.global_docs, global_lines_of(s, items_of(s, all, ItemKind::GlobalDocs)))
    &&& kept_first(w.imports@, import_names(s, all), import_built(s, all))
    &&& kept_first(w.constants@, constant_names(s, all), constant_built(s, all))
    &&& kept_first(w.bindings@, binding_names(s, all), binding_built(s, all))
    &&& kept_first(w.structures@, structure_names_in(s, all), structure_built(s, all))
    &&& kept_first(w.functions@, function_names(s, all), function_built(s, all))
}

/// Appending an item start `q` to `done` extends the starts of its kind by
/// `q` and leaves the others; within a longer list, the starts of `done`
/// come first.
proof fn lemma_items_push(s: Seq<char>, done: Seq<int>, q: int, rest: Seq<int>, k: ItemKind)
    ensures
        items_of(s, done.push(q), k) == if item_kind(s, q) == k {
            items_of(s, done, k).push(q)
        } else {
            items_of(s, done, k)
        },
        forall|j: int|
            0 <= j < items_of(s, done.push(q), k).len() ==> #[trigger] items_of(s, done.push(q) + rest, k)[j]
                == items_of(s, done.push(q), k)[j],
{
    reveal(Seq::filter);
    assert(done.push(q).drop_last() =~= done);
    Seq::filter_distributes_over_add(done.push(q), rest, |x: int| item_kind(s, x) == k);
}

/// The effect on every kind's item list of appending the item that starts at `q`.
proof fn lemma_advance(s: Seq<char>, done: Seq<int>, q: int, rest: Seq<int>)
    ensures
        import_names(s, done.push(q)) == if item_kind(s, q) == ItemKind::Import {
            import_names(s, done).push(import_name_at(s, q))
        } else {
            import_names(s, done)
        },
        constant_names(s, done.push(q)) == if item_kind(s, q) == ItemKind::Constant {
            constant_names(s, done).push(constant_name_at(s, q))
        } else {
            constant_names(s, done)
        },
        binding_names(s, done.push(q)) == if item_kind(s, q) == ItemKind::Binding {
            binding_names(s, done).push(binding_name_at(s, q))
        } else {
            binding_names(s, done)
        },
        structure_names_in(s, done.push(q)) == if item_kind(s, q) == ItemKind::Structure {
            structure_names_in(s, done).push(structure_name_at(s, q))
        } else {
            structure_names_in(s, done)
        },
        function_names(s, done.push(q)) == if item_kind(s, q) == ItemKind::Function {
            function_names(s, done).push(function_name_at(s, q))
        } else {
            function_names(s, done)
        },
        global_lines_of(s, items_of(s, done.push(q), ItemKind::GlobalDocs)) == if item_kind(s, q)
            == ItemKind::GlobalDocs {
            global_lines_of(s, items_of(s, done, ItemKind::GlobalDocs)) + doc_lines_from(s, q, '!')
        } else {
            global_lines_of(s, items_of(s, done, ItemKind::GlobalDocs))
        },
        items_of(s, done.push(q) + rest, item_kind(s, q))[items_of(s, done, item_kind(s, q)).len() as int] == q,
        items_of(s, done.push(q), item_kind(s, q)).len() == items_of(s, done, item_kind(s, q)).len() + 1,
{
    lemma_items_push(s, done, q, rest, ItemKind::GlobalDocs);
    lemma_items_push(s, done, q, rest, ItemKind::Import);
    lemma_items_push(s, done, q, rest, ItemKind::BuiltinImport);
    lemma_items_push(s, done, q, rest, ItemKind::Constant);
    lemma_items_push(s, done, q, rest, ItemKind::Binding);
    lemma_items_push(s, done, q, rest, ItemKind::Structure);
    lemma_items_push(s, done, q, rest, ItemKind::Function);
    assert(import_names(s, done.push(q)) =~= if item_kind(s, q) == ItemKind::Import {
        import_names(s, done).push(import_name_at(s, q))
    } else {
        import_names(s, done)
    });
    assert(constant_names(s, done.push(q)) =~= if item_kind(s, q) == ItemKind::Constant {
        constant_names(s, done).push(constant_name_at(s, q))
    } else {
        constant_names(s, done)
    });
    assert(binding_names(s, done.push(q)) =~= if item_kind(s, q) == ItemKind::Binding {
        binding_names(s, done).push(binding_name_at(s, q))
    } else {
        binding_names(s, done)
    });
    assert(structure_names_in(s, done.push(q)) =~= if item_kind(s, q) == ItemKind::Structure {
        structure_names_in(s, done).push(structure_name_at(s, q))
    } else {
        structure_names_in(s, done)
    });
    assert(function_names(s, done.push(q)) =~= if item_kind(s, q) == ItemKind::Function {
        function_names(s, done).push(function_name_at(s, q))
    } else {
        function_names(s, done)
    });
    if item_kind(s, q) == ItemKind::GlobalDocs {
        let g = items_of(s, done.push(q), ItemKind::GlobalDocs);
        assert(g.drop_last() =~= items_of(s, done, ItemKind::GlobalDocs));
    }
}

/// A module that holds one structure and nothing else parses to a module
/// whose structure list is that declaration, with its name and its
/// documentation lines accumulated as written.
pub proof fn law_single_structure(s: Seq<char>, w: Wgsl, q: int)
    requires
        wgsl_is(s, w),
        module_items(s, 0) == seq![q],
        item_kind(s, q) == ItemKind::Structure,
    ensures
        w.structures@.len() == 1,
        structure_is(s, q, w.structures@[0]),
{
    reveal(wgsl_is);
    reveal(Seq::filter);
    let all = seq![q];
    assert(all.drop_last() =~= Seq::<int>::empty());
    assert(items_of(s, all, ItemKind::Structure) =~= seq![q]);
    let names = structure_names_in(s, all);
    assert(names.len() == 1);
    assert(names.drop_last() =~= Seq::<Seq<char>>::empty());
    assert(first_occurrences(names.drop_last()) =~= Seq::<int>::empty());
    assert(!names.drop_last().contains(names.last()));
    assert(first_occurrences(names) =~= seq![0int]);
    lemma_kept_first_unfold(w.structures@, names, structure_built(s, all));
}

/// A module that holds one function and nothing else parses to a module
/// whose function list is that declaration, with its name and its
/// documentation lines accumulated as written.
pub proof fn law_single_function(s: Seq<char>, w: Wgsl, q: int)
    requires
        wgsl_is(s, w),
        module_items(s, 0) == seq![q],
        item_kind(s, q) == ItemKind::Function,
    ensures
        w.functions@.len() == 1,
        function_is(s, q, w.functions@[0]),
{
    reveal(wgsl_is);
    reveal(Seq::filter);
    let all = seq![q];
    assert(all.drop_last() =~= Seq::<int>::empty());
    assert(items_of(s, all, ItemKind::Function) =~= seq![q]);
    let names = function_names(s, all);
    assert(names.len() == 1);
    assert(names.drop_last() =~= Seq::<Seq<char>>::empty());
    assert(first_occurrences(names.drop_last()) =~= Seq::<int>::empty());
    assert(!names.drop_last().contains(names.last()));
    assert(first_occurrences(names) =~= seq![0int]);
    lemma_kept_first_unfold(w.functions@, names, function_built(s, all));
}

/// A module that holds one constant and nothing else parses to a module
/// whose constant list is that declaration, with its name and its
/// documentation lines accumulated as written.
pub proof fn law_single_constant(s: Seq<char>, w: Wgsl, q: int)
    requires
        wgsl_is(s, w),
        module_items(s, 0) == seq![q],
        item_kind(s, q) == ItemKind::Constant,
    ensures
        w.constants@.len() == 1,
        constant_is(s, q, w.constants@[0]),
{
    reveal(wgsl_is);
    reveal(Seq::filter);
    let all = seq![q];
    assert(all.drop_last() =~= Seq::<int>::empty());
    assert(items_of(s, all, ItemKind::Constant) =~= seq![q]);
    let names = constant_names(s, all);
    assert(names.len() == 1);
    assert(names.drop_last() =~= Seq::<Seq<char>>::empty());
    assert(first_occurrences(names.drop_last()) =~= Seq::<int>::empty());
    assert(!names.drop_last().contains(names.last()));
    assert(first_occurrences(names) =~= seq![0int]);
    lemma_kept_first_unfold(w.constants@, names, constant_built(s, all));
}

/// A module that holds one resource binding and nothing else parses to a module
/// whose resource binding list is that declaration, with its name and its
/// documentation lines accumulated as written.
pub proof fn law_single_binding(s: Seq<char>, w: Wgsl, q: int)
    requires
        wgsl_is(s, w),
        module_items(s, 0) == seq![q],
        item_kind(s, q) == ItemKind::Binding,
    ensures
        w.bindings@.len() == 1,
        binding_is(s, q, w.bindings@[0]),
{
    reveal(wgsl_is);
    reveal(Seq::filter);
    let all = seq![q];
    assert(all.drop_last() =~= Seq::<int>::empty());
    assert(items_of(s, all, ItemKind::Binding) =~= seq![q]);
    let names = binding_names(s, all);
    assert(names.len() == 1);
    assert(names.drop_last() =~= Seq::<Seq<char>>::empty());
    assert(first_occurrences(names.drop_last()) =~= Seq::<int>::empty());
    assert(!names.drop_last().contains(names.last()));
    assert(first_occurrences(names) =~= seq![0int]);
    lemma_kept_first_unfold(w.bindings@, names, binding_built(s, all));
}

/// A module that holds one import and nothing else parses to a module
/// whose import list is that declaration, with its name and its
/// documentation lines accumulated as written.
pub proof fn law_single_import(s: Seq<char>, w: Wgsl, q: int)
    requires
        wgsl_is(s, w),
        module_items(s, 0) == seq![q],
        item_kind(s, q) == ItemKind::Import,
    ensures
        w.imports@.len() == 1,
        import_is(s, q, w.imports@[0]),
{
    reveal(wgsl_is);
    reveal(Seq::filter);
    let all = seq![q];
    assert(all.drop_last() =~= Seq::<int>::empty());
    assert(items_of(s, all, ItemKind::Import) =~= seq![q]);
    let names = import_names(s, all);
    assert(names.len() == 1);
    assert(names.drop_last() =~= Seq::<Seq<char>>::empty());
    assert(first_occurrences(names.drop_last()) =~= Seq::<int>::empty());
    assert(!names.drop_last().contains(names.last()));
    assert(first_occurrences(names) =~= seq![0int]);
    lemma_kept_first_unfold(w.imports@, names, import_built(s, all));
}

/// Item documentation is `None` when no documentation line follows the
/// trivia before the item: a plain comment before a declaration never
/// documents it.
pub proof fn law_undocumented_item_has_no_docs(s: Seq<char>, q: int, docs: Option<String>)
    requires
        !doc_line_at(s, trivia_end(s, q), '/'),
        item_docs_are(s, q, docs),
    ensures
        docs is None,
{
    assert(doc_lines_from(s, q, '/') =~= Seq::<Seq<char>>::empty());
}

/// The module declares nothing and has no documentation.
pub open spec fn wgsl_empty(w: Wgsl) -> bool {
    &&& w.global_docs is None
    &&& w.imports@.len() == 0
    &&& w.functions@.len() == 0
    &&& w.structures@.len() == 0
    &&& w.constants@.len() == 0
    &&& w.bindings@.len() == 0
    &&& w.duplicates@.len() == 0
}

/// The named rules of the grammar, each of which can be matched on its own.
#[allow(non_camel_case_types)]
#[derive(Debug, Clone, Copy, PartialEq, Eq, Structural)]
pub enum Rule {
    /// A whole module.
    SHADER,
    /// Decimal digits.
    NUMBER,
    /// `@group(N)`.
    ATTR_GROUP,
    /// `@binding(N)`.
    ATTR_BINDING,
    /// `@group(N) @binding(N)`, each optional.
    BINDING_ATTRS,
    /// `uniform`, `storage`, `private` or `workgroup`.
    STORAGE_CLASS,
    /// `<storage_class>`.
    VAR_TEMPLATE,
    /// A resource binding.
    RESOURCE_BINDING,
    /// A constant.
    CONST,
    /// A constant's value.
    CONST_VALUE,
    /// An import's path.
    IMPORT_PATH,
    /// An import's alias.
    MODULE_NAME,
    /// `#import path as Alias`.
    IMPORT,
    /// `#import a::b`.
    BUILTIN_IMPORT,
    /// `a::b::{c, d}`.
    BUILTIN_IMPORT_CONTENT,
    /// `{a, b}`.
    IMPORT_LIST,
    /// A structure.
    STRUCTURE,
    /// A field list.
    FIELDS,
    /// A field.
    FIELD,
    /// A function.
    FUNCTION,
    /// An argument list.
    ARGS,
    /// An argument.
    ARG,
    /// `-> Type`.
    RETURN,
    /// A brace-delimited body.
    BODY,
    /// An attribute `@name(...)`.
    ATTRIBUTE,
    /// A type.
    TYPE,
    /// An argument type.
    FUNCTION_TYPE,
    /// `ptr<function, T>`.
    FUNCTION_POINTER,
    /// `<T, ...>`.
    GENERIC_ARGS,
    /// A path type.
    PATH_TYPE,
    /// A module qualifier.
    MODULE,
    /// A primitive keyword.
    PRIMITIVE,
    /// `vecN<primitive>`.
    VECTOR,
    /// `2`, `3` or `4`.
    VECTOR_DIMENSION,
    /// An identifier.
    IDENT,
    /// A file path.
    PATH,
    /// `//!` lines.
    GLOBAL_DOCS,
    /// `///` lines.
    DOCS,
    /// The text of a documentation line.
    DOCS_CONTENT,
}

/// The end of the match of `rule` at the beginning of `s`, if it matches.
pub open spec fn rule_end(rule: Rule, s: Seq<char>) -> Option<int> {
    match rule {
        Rule::SHADER => if module_ok(s, 0) {
            Some(s.len() as int)
        } else {
            None
        },
        Rule::NUMBER => if digits_to(s, 0) > 0 {
            Some(digits_to(s, 0))
        } else {
            None
        },
        Rule::ATTR_GROUP => numbered_attribute_at(s, 0, "group"@),
        Rule::ATTR_BINDING => numbered_attribute_at(s, 0, "binding"@),
        Rule::BINDING_ATTRS => Some(binding_attrs_end(s, 0)),
        Rule::STORAGE_CLASS => storage_class_at(s, 0),
        Rule::VAR_TEMPLATE => var_template_at(s, 0),
        Rule::RESOURCE_BINDING => binding_at(s, 0),
        Rule::CONST => constant_at(s, 0),
        Rule::CONST_VALUE => const_value_at(s, 0),
        Rule::IMPORT_PATH | Rule::PATH => import_path_at(s, 0),
        Rule::MODULE_NAME | Rule::MODULE | Rule::IDENT => ident_at(s, 0),
        Rule::IMPORT => import_at(s, 0),
        Rule::BUILTIN_IMPORT => builtin_import_at(s, 0),
        Rule::BUILTIN_IMPORT_CONTENT => builtin_content_at(s, 0),
        Rule::IMPORT_LIST => import_list_at(s, 0),
        Rule::STRUCTURE => structure_at(s, 0),
        Rule::FIELDS => Some(fields_rest(s, 0)),
        Rule::FIELD => field_at(s, 0),
        Rule::FUNCTION => function_at(s, 0),
        Rule::ARGS => Some(args_rest(s, 0)),
        Rule::ARG => arg_at(s, 0),
        Rule::RETURN => return_at(s, 0),
        Rule::BODY => body_at(s, 0),
        Rule::ATTRIBUTE => attribute_at(s, 0),
        Rule::TYPE => type_at(s, 0),
        Rule::FUNCTION_TYPE => function_type_at(s, 0),
        Rule::FUNCTION_POINTER => function_pointer_at(s, 0),
        Rule::GENERIC_ARGS => generic_args_at(s, 0),
        Rule::PATH_TYPE => path_type_at(s, 0),
        Rule::PRIMITIVE => primitive_at(s, 0),
        Rule::VECTOR => vector_at(s, 0),
        Rule::VECTOR_DIMENSION => if 0 < s.len() && dimension_of(s[0]) is Some {
            Some(1)
        } else {
            None
        },
        Rule::GLOBAL_DOCS => if docs_end(s, 0, '!') > 0 {
            Some(docs_end(s, 0, '!'))
        } else {
            None
        },
        Rule::DOCS => if docs_end(s, 0, '/') > 0 {
            Some(docs_end(s, 0, '/'))
        } else {
            None
        },
        Rule::DOCS_CONTENT => Some(newline_from(s, 0)),
    }
}

/// The parser of shader modules.
pub struct WgslParser;

/// The syntax error at character offset `pos`, with its line and column.
fn syntax_error(src: &Source, pos: usize) -> (r: ParsingError)
    requires
        pos <= src.s().len(),
    ensures
        r matches ParsingError::InputParsingError(e) && e.position == pos,
{
    let n = src.len();
    let mut line: usize = 1;
    let mut column: usize = 1;
    let mut i: usize = 0;
    while i < pos
        invariant
            i <= pos <= src.s().len(),
            n == src.s().len(),
            1 <= line,
            1 <= column,
        decreases pos - i,
    {
        if src.chars[i] == '\n' {
            line = line.saturating_add(1);
            column = 1;
        } else {
            column = column.saturating_add(1);
        }
        i = i + 1;
    }
    ParsingError::InputParsingError(SyntaxError { position: pos, line, column })
}

impl WgslParser {
    /// Parses the module text `shader` under the name `shader_name`. Parsing
    /// is all-or-nothing: the first declaration that does not match the grammar
    /// fails the whole module. Of declarations of one kind sharing a name,
    /// the first is kept. No path type is resolved and no import registered.
    #[verifier::rlimit(100)]
    pub fn parse(shader_name: &str, shader: &str) -> (r: Result<Wgsl, ParsingError>)
        ensures
            r is Ok <==> module_ok(shader@, 0),
            r matches Err(e) ==> e is InputParsingError,
            r matches Ok(w) ==> w.module_name@ == shader_name@ && w.source_code@ == shader@
                && wgsl_names_unique(w) && wgsl_unresolved(w) && wgsl_is(shader@, w),
            r matches Ok(w) ==> forall|k: int|
                0 <= k < w.duplicates@.len() ==> duplicate_of(
                    #[trigger] w.duplicates@[k],
                    w.imports@,
                    w.functions@,
                    w.structures@,
                    w.constants@,
                    w.bindings@,
                ),
            shader@.len() == 0 ==> (r matches Ok(w) && wgsl_empty(w)),
    {
        let src = Source::new(shader);
        let n = src.len();
        let ghost s = src.s();
        let ghost full = module_items(s, 0);
        let ghost mut done: Seq<int> = Seq::empty();
        let mut global_lines: Vec<String> = Vec::new();
        let mut imports: Vec<Import> = Vec::new();
        let mut functions: Vec<Function> = Vec::new();
        let mut structures: Vec<Structure> = Vec::new();
        let mut constants: Vec<Constant> = Vec::new();
        let mut bindings: Vec<Binding> = Vec::new();
        let mut duplicates: Vec<Duplicate> = Vec::new();
        let mut p: usize = 0;
        proof {
            reveal(Seq::filter);
            lemma_kept_empty::<Import>(import_names(s, done), import_built(s, full));
            lemma_kept_empty::<Constant>(constant_names(s, done), constant_built(s, full));
            lemma_kept_empty::<Binding>(binding_names(s, done), binding_built(s, full));
            lemma_kept_empty::<Structure>(structure_names_in(s, done), structure_built(s, full));
            lemma_kept_empty::<Function>(function_names(s, done), function_built(s, full));
            assert(full =~= done + module_items(s, 0));
        }
        loop
            invariant
                src.wf(),
                src.text@ == shader@,
                s == src.s(),
                n == s.len(),
                p <= n,
                full == module_items(s, 0),
                full == done + module_items(s, p as int),
                names_unique(imports@),
                names_unique(functions@),
                names_unique(structures@),
                names_unique(constants@),
                names_unique(bindings@),
                forall|i: int| 0 <= i < structures@.len() ==> names_unique(#[trigger] structures@[i].fields@),
                forall|i: int| 0 <= i < functions@.len() ==> names_unique(#[trigger] functions@[i].args@),
                forall|i: int| 0 <= i < imports@.len() ==> !(#[trigger] imports@[i]).registered,
                forall|i: int| 0 <= i < structures@.len() ==> structure_unresolved(#[trigger] structures@[i]),
                forall|i: int| 0 <= i < functions@.len() ==> function_unresolved(#[trigger] functions@[i]),
                forall|i: int| 0 <= i < constants@.len() ==> constant_unresolved(#[trigger] constants@[i]),
                forall|i: int| 0 <= i < bindings@.len() ==> type_unresolved(#[trigger] bindings@[i].ty),
                views(global_lines@) == global_lines_of(s, items_of(s, done, ItemKind::GlobalDocs)),
                kept_first(imports@, import_names(s, done), import_built(s, full)),
                kept_first(constants@, constant_names(s, done), constant_built(s, full)),
                kept_first(bindings@, binding_names(s, done), binding_built(s, full)),
                kept_first(structures@, structure_names_in(s, done), structure_built(s, full)),
                kept_first(functions@, function_names(s, done), function_built(s, full)),
                module_ok(s, 0) == module_ok(s, p as int),
                forall|k: int|
                    0 <= k < duplicates@.len() ==> duplicate_of(
                        #[trigger] duplicates@[k],
                        imports@,
                        functions@,
                        structures@,
                        constants@,
                        bindings@,
                    ),
                n == 0 ==> duplicates@.len() == 0,
                n == 0 ==> global_lines@.len() == 0 && imports@.len() == 0 && functions@.len() == 0
                    && structures@.len() == 0 && constants@.len() == 0 && bindings@.len() == 0,
            ensures
                module_ok(s, 0),
                full == done,
            decreases n - p,
        {
            let q = src.skip_trivia(p);
            if q == n {
                assert(module_ok(s, p as int));
                assert(module_items(s, p as int) =~= Seq::<int>::empty());
                assert(full =~= done);
                break;
            }
            let ghost qi = q as int;
            if src.doc_line(q, '!') {
                let (mut lines, e) = doc_lines(&src, q, '!');
                proof {
                    assert(item_kind(s, qi) == ItemKind::GlobalDocs);
                    assert(module_items(s, p as int) == seq![qi] + module_items(s, e as int));
                    lemma_advance(s, done, qi, module_items(s, e as int));
                }
                let ghost old_lines = views(global_lines@);
                let ghost new_lines = views(lines@);
                global_lines.append(&mut lines);
                proof {
                    assert(views(global_lines@) =~= old_lines + new_lines);
                    assert(full =~= done.push(qi) + module_items(s, e as int));
                    done = done.push(qi);
                }
                p = e;
            } else if let Some((import, e)) = parse_import(&src, q) {
                proof {
                    assert(item_kind(s, qi) == ItemKind::Import);
                    assert(module_items(s, p as int) == seq![qi] + module_items(s, e as int));
                    lemma_advance(s, done, qi, module_items(s, e as int));
                    assert(full =~= done.push(qi) + module_items(s, e as int));
                }
                let ghost old = imports@;
                let ghost x = import;
                let ghost old_dups = duplicates@;
                let name = import.name.clone();
                if !push_unique(&mut imports, import) {
                    duplicates.push(Duplicate { kind: DeclKind::Import, name });
                    assert(duplicates@.drop_last() =~= old_dups);
                }
                proof {
                    lemma_has_name_grows(old, imports@, x);
                }
                proof {
                    lemma_duplicates_step(old_dups, duplicates@, old, functions@, structures@, constants@, bindings@, imports@, functions@, structures@, constants@, bindings@);
                }
                proof {
                    lemma_kept_step(old, import_names(s, done), import_built(s, full), x, imports@);
                    done = done.push(qi);
                }
                p = e;
            } else if let Some(e) = parse_builtin_import(&src, q) {
                proof {
                    assert(item_kind(s, qi) == ItemKind::BuiltinImport);
                    assert(module_items(s, p as int) == seq![qi] + module_items(s, e as int));
                    lemma_advance(s, done, qi, module_items(s, e as int));
                    assert(full =~= done.push(qi) + module_items(s, e as int));
                    done = done.push(qi);
                }
                p = e;
            } else if let Some((constant, e)) = parse_constant(&src, q) {
                proof {
                    assert(item_kind(s, qi) == ItemKind::Constant);
                    assert(module_items(s, p as int) == seq![qi] + module_items(s, e as int));
                    lemma_advance(s, done, qi, module_items(s, e as int));
                    assert(full =~= done.push(qi) + module_items(s, e as int));
                }
                let ghost old = constants@;
                let ghost x = constant;
                let ghost old_dups = duplicates@;
                let name = constant.name.clone();
                if !push_unique(&mut constants, constant) {
                    duplicates.push(Duplicate { kind: DeclKind::Constant, name });
                    assert(duplicates@.drop_last() =~= old_dups);
                }
                proof {
                    lemma_has_name_grows(old, constants@, x);
                }
                proof {
                    lemma_duplicates_step(old_dups, duplicates@, imports@, functions@, structures@, old, bindings@, imports@, functions@, structures@, constants@, bindings@);
                }
                proof {
                    lemma_kept_step(old, constant_names(s, done), constant_built(s, full), x, constants@);
                    done = done.push(qi);
                }
                p = e;
            } else if let Some((binding, e)) = parse_binding(&src, q) {
                proof {
                    assert(item_kind(s, qi) == ItemKind::Binding);
                    assert(module_items(s, p as int) == seq![qi] + module_items(s, e as int));
                    lemma_advance(s, done, qi, module_items(s, e as int));
                    assert(full =~= done.push(qi) + module_items(s, e as int));
                }
                let ghost old = bindings@;
                let ghost x = binding;
                let ghost old_dups = duplicates@;
                let name = binding.name.clone();
                if !push_unique(&mut bindings, binding) {
                    duplicates.push(Duplicate { kind: DeclKind::Binding, name });
                    assert(duplicates@.drop_last() =~= old_dups);
                }
                proof {
                    lemma_has_name_grows(old, bindings@, x);
                }
                proof {
                    lemma_duplicates_step(old_dups, duplicates@, imports@, functions@, structures@, constants@, old, imports@, functions@, structures@, constants@, bindings@);
                }
                proof {
                    lemma_kept_step(old, binding_names(s, done), binding_built(s, full), x, bindings@);
                    done = done.push(qi);
                }
                p = e;
            } else if let Some((structure, e)) = parse_structure(&src, q) {
                proof {
                    assert(item_kind(s, qi) == ItemKind::Structure);
                    assert(module_items(s, p as int) == seq![qi] + module_items(s, e as int));
                    lemma_advance(s, done, qi, module_items(s, e as int));
                    assert(full =~= done.push(qi) + module_items(s, e as int));
                }
                let ghost old = structures@;
                let ghost x = structure;
                let ghost old_dups = duplicates@;
                let name = structure.name.clone();
                if !push_unique(&mut structures, structure) {
                    duplicates.push(Duplicate { kind: DeclKind::Structure, name });
                    assert(duplicates@.drop_last() =~= old_dups);
                }
                proof {
                    lemma_has_name_grows(old, structures@, x);
                }
                proof {
                    lemma_duplicates_step(old_dups, duplicates@, imports@, functions@, old, constants@, bindings@, imports@, functions@, structures@, constants@, bindings@);
                }
                proof {
                    lemma_kept_step(old, structure_names_in(s, done), structure_built(s, full), x, structures@);
                    done = done.push(qi);
                }
                p = e;
            } else if let Some((function, e)) = parse_function(&src, q) {
                proof {
                    assert(item_kind(s, qi) == ItemKind::Function);
                    assert(module_items(s, p as int) == seq![qi] + module_items(s, e as int));
                    lemma_advance(s, done, qi, module_items(s, e as int));
                    assert(full =~= done.push(qi) + module_items(s, e as int));
                }
                let ghost old = functions@;
                let ghost x = function;
                let ghost old_dups = duplicates@;
                let name = function.name.clone();
                if !push_unique(&mut functions, function) {
                    duplicates.push(Duplicate { kind: DeclKind::Function, name });
                    assert(duplicates@.drop_last() =~= old_dups);
                }
                proof {
                    lemma_has_name_grows(old, functions@, x);
                }
                proof {
                    lemma_duplicates_step(old_dups, duplicates@, imports@, old, structures@, constants@, bindings@, imports@, functions@, structures@, constants@, bindings@);
                }
                proof {
                    lemma_kept_step(old, function_names(s, done), function_built(s, full), x, functions@);
                    done = done.push(qi);
                }
                p = e;
            } else {
                assert(next_item_end(s, qi) is None);
                assert(!module_ok(s, p as int));
                return Err(syntax_error(&src, q));
            }
        }
        let global_docs = accumulate_docs(&global_lines);
        proof {
            reveal(wgsl_is);
        }
        Ok(
            Wgsl {
                module_name: shader_name.to_owned(),
                source_code: shader.to_owned(),
                global_docs,
                imports,
                functions,
                structures,
                constants,
                bindings,
                duplicates,
            },
        )
    }

    /// Matches the grammar rule `rule` against the beginning of `input`,
    /// giving the end of the match (a character offset).
    pub fn parse_rule(rule: Rule, input: &str) -> (r: Result<usize, ParsingError>)
        ensures
            r matches Ok(e) ==> e <= input@.len(),
            r matches Ok(e) ==> rule_end(rule, input@) == Some(e as int),
            r is Err ==> rule_end(rule, input@) is None,
    {
        let src = Source::new(input);
        let end: Option<usize> = match rule {
            Rule::SHADER => match WgslParser::parse("", input) {
                Ok(_) => Some(src.len()),
                Err(_) => None,
            },
            Rule::NUMBER => {
                let e = src.digits_end(0);
                if e > 0 {
                    Some(e)
                } else {
                    None
                }
            },
            Rule::ATTR_GROUP => match numbered_attribute(&src, 0, "group") {
                Some((_, e)) => Some(e),
                None => None,
            },
            Rule::ATTR_BINDING => match numbered_attribute(&src, 0, "binding") {
                Some((_, e)) => Some(e),
                None => None,
            },
            Rule::BINDING_ATTRS => Some(parse_binding_attrs(&src, 0).2),
            Rule::STORAGE_CLASS => parse_storage_class(&src, 0),
            Rule::VAR_TEMPLATE => parse_var_template(&src, 0),
            Rule::RESOURCE_BINDING => match parse_binding(&src, 0) {
                Some((_, e)) => Some(e),
                None => None,
            },
            Rule::CONST => match parse_constant(&src, 0) {
                Some((_, e)) => Some(e),
                None => None,
            },
            Rule::CONST_VALUE => match parse_const_value(&src, 0) {
                Some((_, e)) => Some(e),
                None => None,
            },
            Rule::IMPORT_PATH | Rule::PATH => match parse_import_path(&src, 0) {
                Some((_, e)) => Some(e),
                None => None,
            },
            Rule::MODULE_NAME | Rule::MODULE | Rule::IDENT => match src.ident(0) {
                Some((_, e)) => Some(e),
                None => None,
            },
            Rule::IMPORT => match parse_import(&src, 0) {
                Some((_, e)) => Some(e),
                None => None,
            },
            Rule::BUILTIN_IMPORT => parse_builtin_import(&src, 0),
            Rule::BUILTIN_IMPORT_CONTENT => parse_builtin_import_content(&src, 0),
            Rule::IMPORT_LIST => parse_import_list(&src, 0),
            Rule::STRUCTURE => match parse_structure(&src, 0) {
                Some((_, e)) => Some(e),
                None => None,
            },
            Rule::FIELDS => Some(parse_fields(&src, 0).1),
            Rule::FIELD => match parse_field(&src, 0) {
                Some((_, e)) => Some(e),
                None => None,
            },
            Rule::FUNCTION => match parse_function(&src, 0) {
                Some((_, e)) => Some(e),
                None => None,
            },
            Rule::ARGS => Some(parse_args(&src, 0).1),
            Rule::ARG => match parse_arg(&src, 0) {
                Some((_, e)) => Some(e),
                None => None,
            },
            Rule::RETURN => match parse_return(&src, 0) {
                Some((_, e)) => Some(e),
                None => None,
            },
            Rule::BODY => skip_body(&src, 0),
            Rule::ATTRIBUTE => skip_attribute(&src, 0),
            Rule::TYPE => match parse_type(&src, 0) {
                Some((_, e)) => Some(e),
                None => None,
            },
            Rule::FUNCTION_TYPE => match parse_function_type(&src, 0) {
                Some((_, e)) => Some(e),
                None => None,
            },
            Rule::FUNCTION_POINTER => match parse_function_pointer(&src, 0) {
                Some((_, e)) => Some(e),
                None => None,
            },
            Rule::GENERIC_ARGS => skip_generic_args(&src, 0),
            Rule::PATH_TYPE => match parse_path_type(&src, 0) {
                Some((_, e)) => Some(e),
                None => None,
            },
            Rule::PRIMITIVE => match parse_primitive(&src, 0) {
                Some((_, e)) => Some(e),
                None => None,
            },
            Rule::VECTOR => match parse_vector(&src, 0) {
                Some((_, e)) => Some(e),
                None => None,
            },
            Rule::VECTOR_DIMENSION => match parse_dimension(&src, 0) {
                Some((_, e)) => Some(e),
                None => None,
            },
            Rule::GLOBAL_DOCS => {
                let (lines, e) = doc_lines(&src, 0, '!');
                if lines.len() > 0 {
                    Some(e)
                } else {
                    None
                }
            },
            Rule::DOCS => {
                let (lines, e) = doc_lines(&src, 0, '/');
                if lines.len() > 0 {
                    Some(e)
                } else {
                    None
                }
            },
            Rule::DOCS_CONTENT => Some(src.line_end(0)),
        };
        match end {
            Some(e) => Ok(e),
            None => Err(syntax_error(&src, 0)),
        }
    }
}

} // verus!
