//! The type grammar: primitives, `vecN<primitive>`, path types with optional
//! module qualifier and generic arguments, and `ptr<function, T>` for arguments.

use crate::models::function::FunctionType;
use crate::models::types::{
    dimension_digit, primitive_keyword, PathType, Primitive, Type, Vector,
    VectorDimension,
};
use crate::parser::scan::{
    digits_to, end_of, ident_at, ident_text, ident_to, is_ident, is_ident_char, kw, opt_int, tok, trivia_end,
    Source,
};
use crate::utils::text::chars_of;
use vstd::prelude::*;

verus! {

/// No path type in `t` is resolved yet.
pub open spec fn type_unresolved(t: Type) -> bool {
    t is Path ==> t->Path_0.import_module is Undefined
}

/// No path type in the argument type `t` is resolved yet.
pub open spec fn fn_type_unresolved(t: FunctionType) -> bool {
    match t {
        FunctionType::Path(p) => p.import_module is Undefined,
        FunctionType::FunctionPointer(inner) => type_unresolved(inner),
        _ => true,
    }
}

/// The primitive spelled by `w`, if any.
pub open spec fn primitive_of(w: Seq<char>) -> Option<Primitive> {
    if w == primitive_keyword(Primitive::Bool) {
        Some(Primitive::Bool)
    } else if w == primitive_keyword(Primitive::Float32) {
        Some(Primitive::Float32)
    } else if w == primitive_keyword(Primitive::Float64) {
        Some(Primitive::Float64)
    } else if w == primitive_keyword(Primitive::Uint8) {
        Some(Primitive::Uint8)
    } else if w == primitive_keyword(Primitive::Uint16) {
        Some(Primitive::Uint16)
    } else if w == primitive_keyword(Primitive::Uint32) {
        Some(Primitive::Uint32)
    } else if w == primitive_keyword(Primitive::Uint64) {
        Some(Primitive::Uint64)
    } else if w == primitive_keyword(Primitive::Sint8) {
        Some(Primitive::Sint8)
    } else if w == primitive_keyword(Primitive::Sint16) {
        Some(Primitive::Sint16)
    } else if w == primitive_keyword(Primitive::Sint32) {
        Some(Primitive::Sint32)
    } else if w == primitive_keyword(Primitive::Sint64) {
        Some(Primitive::Sint64)
    } else {
        None
    }
}

/// The vector dimension spelled by `c`, if any.
pub open spec fn dimension_of(c: char) -> Option<VectorDimension> {
    if c == '2' {
        Some(VectorDimension::D2)
    } else if c == '3' {
        Some(VectorDimension::D3)
    } else if c == '4' {
        Some(VectorDimension::D4)
    } else {
        None
    }
}

/// After trivia at `pos`: the end of a primitive keyword, if one follows.
pub open spec fn primitive_at(s: Seq<char>, pos: int) -> Option<int> {
    let p = trivia_end(s, pos);
    let e = ident_to(s, p);
    if e > p && primitive_of(s.subrange(p, e)) is Some {
        Some(e)
    } else {
        None
    }
}

/// The path type after trivia at `pos` has the module qualifier and name
/// written there: `Module::Name` or just `Name`.
pub open spec fn path_named_as(s: Seq<char>, pos: int, p: PathType) -> bool {
    let first = ident_text(s, pos);
    match tok(s, ident_at(s, pos)->0, "::"@) {
        Some(e) => p.module is Some && p.module->0@ == first && p.name@ == ident_text(s, e),
        None => p.module is None && p.name@ == first,
    }
}

/// The primitive spelled after trivia at `pos` (meaningful when `primitive_at` holds).
pub open spec fn primitive_value(s: Seq<char>, pos: int) -> Primitive {
    let p = trivia_end(s, pos);
    primitive_of(s.subrange(p, ident_to(s, p)))->0
}

/// The vector written after trivia at `pos` (meaningful when `vector_at` holds).
pub open spec fn vector_value(s: Seq<char>, pos: int) -> Vector {
    let p = trivia_end(s, pos);
    let e1 = tok(s, ident_to(s, p), "<"@)->0;
    Vector { dimension: dimension_of(s[p + 3])->0, ty: primitive_value(s, e1) }
}

/// `t` is the type written after trivia at `pos`, unresolved.
pub open spec fn type_is(s: Seq<char>, pos: int, t: Type) -> bool {
    if vector_at(s, pos) is Some {
        t == Type::Vector(vector_value(s, pos))
    } else if primitive_at(s, pos) is Some {
        t == Type::Primitive(primitive_value(s, pos))
    } else {
        t is Path && path_named_as(s, pos, t->Path_0) && t->Path_0.import_module is Undefined
    }
}

/// Where the target type of `ptr<function, T>` after trivia at `pos` starts.
pub open spec fn pointer_target(s: Seq<char>, pos: int) -> int {
    let e1 = kw(s, pos, "ptr"@)->0;
    let e2 = tok(s, e1, "<"@)->0;
    let e3 = kw(s, e2, "function"@)->0;
    tok(s, e3, ","@)->0
}

/// `t` is the argument type written after trivia at `pos`, unresolved: a
/// function pointer holds its full target type.
pub open spec fn fn_type_is(s: Seq<char>, pos: int, t: FunctionType) -> bool {
    if function_pointer_at(s, pos) is Some {
        t is FunctionPointer && type_is(s, pointer_target(s, pos), t->FunctionPointer_0)
    } else if vector_at(s, pos) is Some {
        t == FunctionType::Vector(vector_value(s, pos))
    } else if primitive_at(s, pos) is Some {
        t == FunctionType::Primitive(primitive_value(s, pos))
    } else {
        t is Path && path_named_as(s, pos, t->Path_0) && t->Path_0.import_module is Undefined
    }
}

/// After trivia at `pos`: the end of `vecN<primitive>`, if one follows.
pub open spec fn vector_at(s: Seq<char>, pos: int) -> Option<int> {
    let p = trivia_end(s, pos);
    let e = ident_to(s, p);
    if e - p == 4 && p + 3 <= s.len() && s.subrange(p, p + 3) == "vec"@ && dimension_of(s[p + 3]) is Some {
        match tok(s, e, "<"@) {
            Some(e1) => match primitive_at(s, e1) {
                Some(e2) => tok(s, e2, ">"@),
                None => None,
            },
            None => None,
        }
    } else {
        None
    }
}

/// After trivia at `pos`: the end of a type (a vector, a primitive, or a
/// path type), if one follows.
pub open spec fn type_at(s: Seq<char>, pos: int) -> Option<int>
    decreases s.len() - pos, 3nat,
{
    if !(0 <= pos <= s.len()) {
        None
    } else if vector_at(s, pos) is Some {
        vector_at(s, pos)
    } else if primitive_at(s, pos) is Some {
        primitive_at(s, pos)
    } else {
        path_type_at(s, pos)
    }
}

/// After trivia at `pos`: the end of a path type (`Module::Name<...>`), if one follows.
pub open spec fn path_type_at(s: Seq<char>, pos: int) -> Option<int>
    decreases s.len() - pos, 2nat,
{
    if !(0 <= pos <= s.len()) {
        None
    } else {
        match ident_at(s, pos) {
            None => None,
            Some(e1) => {
                let name_end = match tok(s, e1, "::"@) {
                    Some(e) => ident_at(s, e),
                    None => Some(e1),
                };
                match name_end {
                    None => None,
                    Some(e2) => {
                        let q = trivia_end(s, e2);
                        if 0 <= q < s.len() && s[q] == '<' {
                            if pos < q <= s.len() {
                                generic_args_at(s, q)
                            } else {
                                None
                            }
                        } else {
                            Some(e2)
                        }
                    },
                }
            },
        }
    }
}

/// After trivia at `pos`: the end of generic arguments `<...>`, if they follow.
pub open spec fn generic_args_at(s: Seq<char>, pos: int) -> Option<int>
    decreases s.len() - pos, 1nat,
{
    if !(0 <= pos <= s.len()) {
        None
    } else {
        match tok(s, pos, "<"@) {
            Some(e) => if pos < e <= s.len() {
                generic_args_rest(s, e)
            } else {
                None
            },
            None => None,
        }
    }
}

/// The end of the generic arguments that continue at `e`, after a `<` or a `,`.
pub open spec fn generic_args_rest(s: Seq<char>, e: int) -> Option<int>
    decreases s.len() - e, 4nat,
{
    if !(0 <= e <= s.len()) {
        None
    } else {
        let q = trivia_end(s, e);
        let d = digits_to(s, q);
        let after = if d > q {
            Some(d)
        } else {
            type_at(s, e)
        };
        match after {
            None => None,
            Some(a) => match tok(s, a, ","@) {
                Some(e3) => match tok(s, e3, ">"@) {
                    Some(e4) => Some(e4),
                    None => if e < e3 <= s.len() {
                        generic_args_rest(s, e3)
                    } else {
                        None
                    },
                },
                None => tok(s, a, ">"@),
            },
        }
    }
}

/// After trivia at `pos`: the end of `ptr<function, T>`, if it follows.
pub open spec fn function_pointer_at(s: Seq<char>, pos: int) -> Option<int> {
    match kw(s, pos, "ptr"@) {
        None => None,
        Some(e1) => match tok(s, e1, "<"@) {
            None => None,
            Some(e2) => match kw(s, e2, "function"@) {
                None => None,
                Some(e3) => match tok(s, e3, ","@) {
                    None => None,
                    Some(e4) => match type_at(s, e4) {
                        None => None,
                        Some(e5) => tok(s, e5, ">"@),
                    },
                },
            },
        },
    }
}

/// After trivia at `pos`: the end of an argument type, if one follows.
pub open spec fn function_type_at(s: Seq<char>, pos: int) -> Option<int> {
    if function_pointer_at(s, pos) is Some {
        function_pointer_at(s, pos)
    } else {
        type_at(s, pos)
    }
}

/// Whether the characters `lo..hi` of `src` are exactly `w`.
fn word_is(src: &Source, lo: usize, hi: usize, w: &str) -> (r: bool)
    requires
        lo <= hi <= src.s().len(),
    ensures
        r == (src.s().subrange(lo as int, hi as int) == w@),
{
    let n = w.unicode_len();
    if hi - lo != n {
        return false;
    }
    src.looking_at(lo, w)
}

/// The primitive spelled by the characters `lo..hi`, if any.
fn primitive_word(src: &Source, lo: usize, hi: usize) -> (r: Option<Primitive>)
    requires
        lo <= hi <= src.s().len(),
    ensures
        r == primitive_of(src.s().subrange(lo as int, hi as int)),
{
    if word_is(src, lo, hi, "bool") {
        Some(Primitive::Bool)
    } else if word_is(src, lo, hi, "f32") {
        Some(Primitive::Float32)
    } else if word_is(src, lo, hi, "f64") {
        Some(Primitive::Float64)
    } else if word_is(src, lo, hi, "u8") {
        Some(Primitive::Uint8)
    } else if word_is(src, lo, hi, "u16") {
        Some(Primitive::Uint16)
    } else if word_is(src, lo, hi, "u32") {
        Some(Primitive::Uint32)
    } else if word_is(src, lo, hi, "u64") {
        Some(Primitive::Uint64)
    } else if word_is(src, lo, hi, "i8") {
        Some(Primitive::Sint8)
    } else if word_is(src, lo, hi, "i16") {
        Some(Primitive::Sint16)
    } else if word_is(src, lo, hi, "i32") {
        Some(Primitive::Sint32)
    } else if word_is(src, lo, hi, "i64") {
        Some(Primitive::Sint64)
    } else {
        None
    }
}

/// The primitive spelled by `s`, if any.
pub fn primitive_from_text(s: &str) -> (r: Option<Primitive>)
    ensures
        r == primitive_of(s@),
{
    let src = Source::new(s);
    assert(src.s().subrange(0, src.s().len() as int) =~= s@);
    primitive_word(&src, 0, src.len())
}

/// The vector dimension spelled by `s`, if any.
pub fn dimension_from_text(s: &str) -> (r: Option<VectorDimension>)
    ensures
        r is Some <==> (s@.len() == 1 && dimension_of(s@[0]) is Some),
        r is Some ==> r == dimension_of(s@[0]),
{
    let v = chars_of(s);
    if v.len() != 1 {
        return None;
    }
    dimension_char(v[0])
}

/// The vector dimension spelled by `c`, if any.
fn dimension_char(c: char) -> (r: Option<VectorDimension>)
    ensures
        r == dimension_of(c),
{
    if c == '2' {
        Some(VectorDimension::D2)
    } else if c == '3' {
        Some(VectorDimension::D3)
    } else if c == '4' {
        Some(VectorDimension::D4)
    } else {
        None
    }
}

/// Parses a primitive keyword after trivia.
pub fn parse_primitive(src: &Source, pos: usize) -> (r: Option<(Primitive, usize)>)
    requires
        src.wf(),
        pos <= src.s().len(),
    ensures
        r matches Some((p, e)) ==> pos < e <= src.s().len() && e >= primitive_keyword(p).len()
            && src.s().subrange(e - primitive_keyword(p).len(), e as int) == primitive_keyword(p)
            && (e == src.s().len() || !is_ident_char(src.s()[e as int])),
        end_of(r) == primitive_at(src.s(), pos as int),
        r matches Some((p, e)) ==> primitive_of(src.s().subrange(trivia_end(src.s(), pos as int), e as int))
            == Some(p),
{
    let p = src.skip_trivia(pos);
    let e = src.ident_end(p);
    if e == p {
        return None;
    }
    match primitive_word(src, p, e) {
        Some(prim) => Some((prim, e)),
        None => None,
    }
}

/// Parses a vector dimension digit at `pos`.
pub fn parse_dimension(src: &Source, pos: usize) -> (r: Option<(VectorDimension, usize)>)
    requires
        pos <= src.s().len(),
    ensures
        r matches Some((d, e)) ==> e == pos + 1 && e <= src.s().len() && dimension_digit(d)
            == src.s()[pos as int],
        r is Some <==> (pos < src.s().len() && dimension_of(src.s()[pos as int]) is Some),
        r matches Some((d, _)) ==> dimension_of(src.s()[pos as int]) == Some(d),
{
    if pos < src.len() {
        match dimension_char(src.chars[pos]) {
            Some(d) => Some((d, pos + 1)),
            None => None,
        }
    } else {
        None
    }
}

/// Parses `vecN<primitive>` after trivia.
pub fn parse_vector(src: &Source, pos: usize) -> (r: Option<(Vector, usize)>)
    requires
        src.wf(),
        pos <= src.s().len(),
    ensures
        r matches Some((v, e)) ==> pos < e <= src.s().len(),
        end_of(r) == vector_at(src.s(), pos as int),
        r matches Some((v, _)) ==> v == vector_value(src.s(), pos as int),
{
    let p = src.skip_trivia(pos);
    let e = src.ident_end(p);
    proof {
        reveal_strlit("vec");
    }
    if e - p != 4 || !src.looking_at(p, "vec") {
        return None;
    }
    let (dim, _) = parse_dimension(src, p + 3)?;
    let e1 = src.token(e, "<")?;
    let (ty, e2) = parse_primitive(src, e1)?;
    let e3 = src.token(e2, ">")?;
    Some((Vector::new(dim, ty), e3))
}

/// Parses a path type after trivia: an optional `Module::` qualifier, a name,
/// and optional generic arguments (checked, not kept).
pub fn parse_path_type(src: &Source, pos: usize) -> (r: Option<(PathType, usize)>)
    requires
        src.wf(),
        pos <= src.s().len(),
    ensures
        r matches Some((p, e)) ==> pos < e <= src.s().len() && p.import_module is Undefined
            && is_ident(p.name@) && (p.module is Some ==> is_ident(p.module->0@)),
        end_of(r) == path_type_at(src.s(), pos as int),
        r matches Some((p, _)) ==> path_named_as(src.s(), pos as int, p),
    decreases src.s().len() - pos, 1nat,
{
    let (first, e1) = src.ident(pos)?;
    let (module, name, e2) = match src.token(e1, "::") {
        Some(e) => {
            let (second, e3) = src.ident(e)?;
            (Some(first), second, e3)
        },
        None => (None, first, e1),
    };
    let q = src.skip_trivia(e2);
    let e = if src.is_at(q, '<') {
        skip_generic_args(src, q)?
    } else {
        e2
    };
    Some((PathType::new(module, name), e))
}

/// Checks generic arguments `<T, ...>` starting at `pos` (a `<`): each is a
/// type or a number, separated by commas, a trailing comma allowed.
pub fn skip_generic_args(src: &Source, pos: usize) -> (r: Option<usize>)
    requires
        src.wf(),
        pos <= src.s().len(),
    ensures
        r matches Some(e) ==> pos < e <= src.s().len(),
        opt_int(r) == generic_args_at(src.s(), pos as int),
    decreases src.s().len() - pos, 0nat,
{
    let mut e = src.token(pos, "<")?;
    loop
        invariant
            src.wf(),
            pos < e <= src.s().len(),
            generic_args_at(src.s(), pos as int) == generic_args_rest(src.s(), e as int),
        decreases src.s().len() - e,
    {
        let q = src.skip_trivia(e);
        let d = src.digits_end(q);
        let after_arg = if d > q {
            d
        } else {
            match parse_type(src, e) {
                Some((_, e2)) => e2,
                None => return None,
            }
        };
        if let Some(e3) = src.token(after_arg, ",") {
            if let Some(e4) = src.token(e3, ">") {
                return Some(e4);
            }
            e = e3;
        } else {
            return src.token(after_arg, ">");
        }
    }
}

/// Parses a type after trivia: a vector, a primitive, or a path type.
pub fn parse_type(src: &Source, pos: usize) -> (r: Option<(Type, usize)>)
    requires
        src.wf(),
        pos <= src.s().len(),
    ensures
        r matches Some((t, e)) ==> pos < e <= src.s().len() && type_unresolved(t),
        end_of(r) == type_at(src.s(), pos as int),
        r matches Some((t, _)) ==> (t is Vector <==> vector_at(src.s(), pos as int) is Some),
        r matches Some((t, _)) ==> (t is Primitive <==> (vector_at(src.s(), pos as int) is None
            && primitive_at(src.s(), pos as int) is Some)),
        r matches Some((t, _)) ==> (t is Path ==> path_named_as(src.s(), pos as int, t->Path_0)),
        r matches Some((t, _)) ==> type_is(src.s(), pos as int, t),
    decreases src.s().len() - pos, 2nat,
{
    if let Some((v, e)) = parse_vector(src, pos) {
        return Some((Type::Vector(v), e));
    }
    if let Some((p, e)) = parse_primitive(src, pos) {
        return Some((Type::Primitive(p), e));
    }
    match parse_path_type(src, pos) {
        Some((p, e)) => Some((Type::Path(p), e)),
        None => None,
    }
}

/// Parses `ptr<function, T>` after trivia, giving `T`.
pub fn parse_function_pointer(src: &Source, pos: usize) -> (r: Option<(Type, usize)>)
    requires
        src.wf(),
        pos <= src.s().len(),
    ensures
        r matches Some((t, e)) ==> pos < e <= src.s().len() && type_unresolved(t),
        end_of(r) == function_pointer_at(src.s(), pos as int),
        r matches Some((t, _)) ==> type_is(src.s(), pointer_target(src.s(), pos as int), t),
{
    let e1 = src.keyword(pos, "ptr")?;
    let e2 = src.token(e1, "<")?;
    let e3 = src.keyword(e2, "function")?;
    let e4 = src.token(e3, ",")?;
    let (t, e5) = parse_type(src, e4)?;
    let e6 = src.token(e5, ">")?;
    Some((t, e6))
}

/// Parses an argument type after trivia: a function pointer, or a type.
pub fn parse_function_type(src: &Source, pos: usize) -> (r: Option<(FunctionType, usize)>)
    requires
        src.wf(),
        pos <= src.s().len(),
    ensures
        r matches Some((t, e)) ==> pos < e <= src.s().len() && fn_type_unresolved(t),
        end_of(r) == function_type_at(src.s(), pos as int),
        r matches Some((t, _)) ==> fn_type_is(src.s(), pos as int, t),
{
    if let Some((t, e)) = parse_function_pointer(src, pos) {
        return Some((FunctionType::FunctionPointer(t), e));
    }
    match parse_type(src, pos) {
        Some((Type::Primitive(p), e)) => Some((FunctionType::Primitive(p), e)),
        Some((Type::Vector(v), e)) => Some((FunctionType::Vector(v), e)),
        Some((Type::Path(p), e)) => Some((FunctionType::Path(p), e)),
        None => None,
    }
}

} // verus!

verus! {

impl std::str::FromStr for Primitive {
    type Err = crate::parser::error::InvalidPrimitiveType;

    fn from_str(s: &str) -> Result<Primitive, crate::parser::error::InvalidPrimitiveType> {
        match primitive_from_text(s) {
            Some(p) => Ok(p),
            None => Err(crate::parser::error::InvalidPrimitiveType(s.to_owned())),
        }
    }
}

impl std::str::FromStr for VectorDimension {
    type Err = crate::parser::error::InvalidVectorDimension;

    fn from_str(s: &str) -> Result<VectorDimension, crate::parser::error::InvalidVectorDimension> {
        match dimension_from_text(s) {
            Some(d) => Ok(d),
            None => Err(crate::parser::error::InvalidVectorDimension(s.to_owned())),
        }
    }
}

} // verus!
