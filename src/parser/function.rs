//! Function declarations: `@attr fn name(arg: Type, ...) -> Type { body }`.
//! The body is checked for balanced braces and not analysed further.

use crate::models::function::{Arg, Function};
use crate::models::types::Type;
use crate::models::{kept_first, lemma_kept_empty, lemma_kept_step, names_unique, push_unique, Declared};
use crate::parser::attrs::{attributes_end, skip_attributes};
use crate::parser::docs::{item_docs_are, docs_end, docs_from_marks, item_docs, lemma_docs_widen};
use crate::parser::import::{opt_semi, opt_semicolon};
use crate::parser::scan::{ident_text, end_of, ident_at, is_ident, kw, opt_int, tok, Source};
use crate::parser::types::{
    fn_type_is, type_is, fn_type_unresolved, function_type_at, parse_function_type, parse_type, type_at, type_unresolved,
};
use vstd::prelude::*;

verus! {

/// No argument or return type of the function is resolved.
pub open spec fn function_unresolved(f: Function) -> bool {
    &&& forall|i: int| 0 <= i < f.args@.len() ==> fn_type_unresolved(#[trigger] f.args@[i].ty)
    &&& (f.return_ty is Some ==> type_unresolved(f.return_ty->0))
}

/// After trivia at `pos`: the end of an argument, with its documentation
/// and attributes, if one follows.
#[verifier::opaque]
pub open spec fn arg_at(s: Seq<char>, pos: int) -> Option<int> {
    let a = attributes_end(s, docs_end(s, pos, '/'));
    match ident_at(s, a) {
        None => None,
        Some(e1) => match tok(s, e1, ":"@) {
            None => None,
            Some(e2) => function_type_at(s, e2),
        },
    }
}

/// The end of an argument list that continues at `e`.
pub open spec fn args_rest(s: Seq<char>, e: int) -> int
    decreases s.len() - e,
{
    match arg_at(s, e) {
        Some(e1) => match tok(s, e1, ","@) {
            Some(e2) => if e < e2 <= s.len() {
                args_rest(s, e2)
            } else {
                e1
            },
            None => e1,
        },
        None => e,
    }
}

/// The name of the argument that starts after trivia at `q`.
pub open spec fn arg_name_at(s: Seq<char>, q: int) -> Seq<char> {
    ident_text(s, attributes_end(s, docs_end(s, q, '/')))
}

/// `a` is the argument written after trivia at `q`: its documentation, name
/// and type as written.
pub open spec fn arg_is(s: Seq<char>, q: int, a: Arg) -> bool {
    let e1 = ident_at(s, attributes_end(s, docs_end(s, q, '/')))->0;
    &&& item_docs_are(s, q, a.docs)
    &&& a.name@ == arg_name_at(s, q)
    &&& fn_type_is(s, tok(s, e1, ":"@)->0, a.ty)
}

/// Where the arguments of the list that continues at `e` start, in order.
pub open spec fn arg_starts(s: Seq<char>, e: int) -> Seq<int>
    decreases s.len() - e,
{
    match arg_at(s, e) {
        Some(e1) => match tok(s, e1, ","@) {
            Some(e2) => if e < e2 <= s.len() {
                seq![e] + arg_starts(s, e2)
            } else {
                seq![e]
            },
            None => seq![e],
        },
        None => Seq::empty(),
    }
}

/// `args` is the argument list written at `pos`: one argument per distinct
/// name, the first declared, in order.
pub open spec fn args_are(s: Seq<char>, pos: int, args: Seq<Arg>) -> bool {
    let starts = arg_starts(s, pos);
    kept_first(
        args,
        starts.map_values(|q: int| arg_name_at(s, q)),
        |i: int, a: Arg| arg_is(s, starts[i], a),
    )
}

/// `f` is the function declared after trivia at `q`: its documentation, name,
/// arguments and return type as written.
pub open spec fn function_is(s: Seq<char>, q: int, f: Function) -> bool {
    let e1 = kw(s, attributes_end(s, docs_end(s, q, '/')), "fn"@)->0;
    let e3 = tok(s, ident_at(s, e1)->0, "("@)->0;
    let e5 = tok(s, args_rest(s, e3), ")"@)->0;
    &&& item_docs_are(s, q, f.docs)
    &&& f.name@ == ident_text(s, e1)
    &&& args_are(s, e3, f.args@)
    &&& match return_at(s, e5) {
        Some(_) => f.return_ty is Some && type_is(s, attributes_end(s, tok(s, e5, "->"@)->0), f.return_ty->0),
        None => f.return_ty is None,
    }
}

/// After trivia at `pos`: the end of `-> @attr Type`, if it follows.
pub open spec fn return_at(s: Seq<char>, pos: int) -> Option<int> {
    match tok(s, pos, "->"@) {
        None => None,
        Some(e1) => type_at(s, attributes_end(s, e1)),
    }
}

/// The end of a body that continues at `p` with `depth` braces open.
pub open spec fn body_rest(s: Seq<char>, p: int, depth: int) -> Option<int>
    decreases s.len() - p,
{
    if !(0 <= p < s.len()) {
        None
    } else if s[p] == '{' {
        body_rest(s, p + 1, depth + 1)
    } else if s[p] == '}' {
        if depth == 1 {
            Some(p + 1)
        } else {
            body_rest(s, p + 1, depth - 1)
        }
    } else {
        body_rest(s, p + 1, depth)
    }
}

/// After trivia at `pos`: the end of a brace-balanced body, if one follows.
pub open spec fn body_at(s: Seq<char>, pos: int) -> Option<int> {
    match tok(s, pos, "{"@) {
        None => None,
        Some(p) => body_rest(s, p, 1),
    }
}

/// After trivia at `pos`: the end of a function declaration, with its
/// documentation and attributes, if one follows.
#[verifier::opaque]
pub open spec fn function_at(s: Seq<char>, pos: int) -> Option<int> {
    let a = attributes_end(s, docs_end(s, pos, '/'));
    match kw(s, a, "fn"@) {
        None => None,
        Some(e1) => match ident_at(s, e1) {
            None => None,
            Some(e2) => match tok(s, e2, "("@) {
                None => None,
                Some(e3) => match tok(s, args_rest(s, e3), ")"@) {
                    None => None,
                    Some(e5) => {
                        let e6 = match return_at(s, e5) {
                            Some(e) => e,
                            None => e5,
                        };
                        match body_at(s, e6) {
                            None => None,
                            Some(e7) => Some(opt_semi(s, e7)),
                        }
                    },
                },
            },
        },
    }
}

/// Parses an argument, with its documentation and attributes, after trivia.
pub fn parse_arg(src: &Source, pos: usize) -> (r: Option<(Arg, usize)>)
    requires
        src.wf(),
        pos <= src.s().len(),
    ensures
        r matches Some((a, e)) ==> pos < e <= src.s().len() && is_ident(a.name@)
            && fn_type_unresolved(a.ty),
        r matches Some((a, e)) ==> docs_from_marks(src.s(), a.docs, '/', pos as int, e as int),
        end_of(r) == arg_at(src.s(), pos as int),
        r matches Some((a, _)) ==> a.name@ == ident_text(src.s(), attributes_end(src.s(), docs_end(src.s(), pos as int, '/'))),
        r matches Some((a, _)) ==> arg_is(src.s(), pos as int, a),
{
    reveal(arg_at);
    let (docs, d) = item_docs(src, pos);
    let a = skip_attributes(src, d);
    let (name, e1) = src.ident(a)?;
    let e2 = src.token(e1, ":")?;
    let (ty, e3) = parse_function_type(src, e2)?;
    let end = e3;
    proof {
        lemma_docs_widen(src.s(), docs, '/', pos as int, d as int, pos as int, end as int);
    }
    Some((Arg::new(docs, name, ty), end))
}

/// Parses a comma-separated argument list (possibly empty, a trailing comma
/// allowed). An argument whose name is taken is dropped; the first one stays.
pub fn parse_args(src: &Source, pos: usize) -> (r: (Vec<Arg>, usize))
    requires
        src.wf(),
        pos <= src.s().len(),
    ensures
        pos <= r.1 <= src.s().len(),
        names_unique(r.0@),
        forall|i: int| 0 <= i < r.0@.len() ==> fn_type_unresolved(#[trigger] r.0@[i].ty),
        r.1 == args_rest(src.s(), pos as int),
        args_are(src.s(), pos as int, r.0@),
{
    let ghost s = src.s();
    let ghost all = arg_starts(s, pos as int);
    let ghost names = all.map_values(|q: int| arg_name_at(s, q));
    let ghost built = |i: int, a: Arg| arg_is(s, all[i], a);
    let ghost mut done: Seq<int> = Seq::empty();
    let mut args: Vec<Arg> = Vec::new();
    let mut e = pos;
    proof {
        lemma_kept_empty::<Arg>(names.subrange(0, 0), built);
    }
    loop
        invariant
            src.wf(),
            s == src.s(),
            all == arg_starts(s, pos as int),
            names == all.map_values(|q: int| arg_name_at(s, q)),
            built == (|i: int, a: Arg| arg_is(s, all[i], a)),
            pos <= e <= src.s().len(),
            names_unique(args@),
            forall|i: int| 0 <= i < args@.len() ==> fn_type_unresolved(#[trigger] args@[i].ty),
            args_rest(src.s(), pos as int) == args_rest(src.s(), e as int),
            all == done + arg_starts(s, e as int),
            kept_first(args@, names.subrange(0, done.len() as int), built),
        decreases src.s().len() - e,
    {
        let next = parse_arg(src, e);
        match next {
            Some((a, e1)) => {
                let ghost old_args = args@;
                let ghost n = done.len() as int;
                assert(arg_at(s, e as int) == Some(e1 as int));
                let comma = src.token(e1, ",");
                proof {
                    assert(arg_starts(s, e as int)[0] == e as int);
                    assert(all[n] == e as int);
                    assert(names[n] == a.decl_name());
                    assert(names.subrange(0, n).push(a.decl_name()) =~= names.subrange(0, n + 1));
                }
                let ghost av = a;
                push_unique(&mut args, a);
                proof {
                    lemma_kept_step(old_args, names.subrange(0, n), built, av, args@);
                    done = done.push(e as int);
                }
                match comma {
                    Some(e2) => {
                        assert(args_rest(src.s(), e as int) == args_rest(src.s(), e2 as int));
                        assert(all =~= done + arg_starts(s, e2 as int));
                        e = e2;
                    },
                    None => {
                        assert(args_rest(src.s(), e as int) == e1 as int);
                        assert(all =~= done);
                        assert(names.subrange(0, done.len() as int) =~= names);
                        return (args, e1);
                    },
                }
            },
            None => {
                assert(arg_at(src.s(), e as int) is None);
                assert(all =~= done);
                assert(names.subrange(0, done.len() as int) =~= names);
                return (args, e);
            },
        }
    }
}

/// Parses a return clause `-> @attr Type` after trivia.
pub fn parse_return(src: &Source, pos: usize) -> (r: Option<(Type, usize)>)
    requires
        src.wf(),
        pos <= src.s().len(),
    ensures
        r matches Some((t, e)) ==> pos < e <= src.s().len() && type_unresolved(t),
        end_of(r) == return_at(src.s(), pos as int),
        r matches Some((t, _)) ==> type_is(src.s(), attributes_end(src.s(), tok(src.s(), pos as int, "->"@)->0), t),
{
    let e1 = src.token(pos, "->")?;
    let a = skip_attributes(src, e1);
    parse_type(src, a)
}

/// Skips a brace-delimited body after trivia: `{`, then text with balanced
/// braces, then the matching `}`.
pub fn skip_body(src: &Source, pos: usize) -> (r: Option<usize>)
    requires
        src.wf(),
        pos <= src.s().len(),
    ensures
        r matches Some(e) ==> pos < e <= src.s().len(),
        opt_int(r) == body_at(src.s(), pos as int),
{
    let n = src.len();
    let mut p = src.token(pos, "{")?;
    let ghost start = p;
    let mut depth: usize = 1;
    while p < n
        invariant
            n == src.s().len(),
            pos < p <= n,
            1 <= depth <= p,
            body_at(src.s(), pos as int) == body_rest(src.s(), p as int, depth as int),
        decreases n - p,
    {
        let c = src.chars[p];
        p = p + 1;
        if c == '{' {
            depth = depth + 1;
        } else if c == '}' {
            if depth == 1 {
                return Some(p);
            }
            depth = depth - 1;
        }
    }
    None
}

/// Parses a function declaration, with its documentation and attributes,
/// after trivia.
pub fn parse_function(src: &Source, pos: usize) -> (r: Option<(Function, usize)>)
    requires
        src.wf(),
        pos <= src.s().len(),
    ensures
        r matches Some((f, e)) ==> pos < e <= src.s().len() && is_ident(f.name@)
            && function_unresolved(f) && names_unique(f.args@),
        end_of(r) == function_at(src.s(), pos as int),
        r matches Some((f, _)) ==> function_is(src.s(), pos as int, f),
        r matches Some((f, e)) ==> docs_from_marks(src.s(), f.docs, '/', pos as int, e as int),
        r matches Some((f, _)) ==> f.name@ == ident_text(src.s(), kw(src.s(), attributes_end(src.s(), docs_end(src.s(), pos as int, '/')), "fn"@)->0),
{
    reveal(function_at);
    let (docs, d) = item_docs(src, pos);
    let a = skip_attributes(src, d);
    let e1 = src.keyword(a, "fn")?;
    let (name, e2) = src.ident(e1)?;
    let e3 = src.token(e2, "(")?;
    let (args, e4) = parse_args(src, e3);
    let e5 = src.token(e4, ")")?;
    let (return_ty, e6) = match parse_return(src, e5) {
        Some((t, e)) => (Some(t), e),
        None => (None, e5),
    };
    let e7 = skip_body(src, e6)?;
    let end = opt_semicolon(src, e7);
    proof {
        lemma_docs_widen(src.s(), docs, '/', pos as int, d as int, pos as int, end as int);
    }
    Some((Function::new(docs, name, args, return_ty), end))
}

} // verus!
