//! Attributes (`@vertex`, `@location(0)`, `@group(1)`) and their numbers.

use crate::parser::scan::{digits_to, end_of, ident_at, is_digit, kw, opt_int, tok, trivia_end, Source};
use vstd::prelude::*;

verus! {

/// The value of a string of decimal digits.
pub open spec fn digits_value(s: Seq<char>) -> int
    decreases s.len(),
{
    if s.len() == 0 {
        0
    } else {
        digits_value(s.drop_last()) * 10 + (s.last() as int - '0' as int)
    }
}

/// The number an attribute holds: its digits' value when it fits in 16 bits, else 0.
pub open spec fn attr_number(s: Seq<char>) -> u16 {
    if digits_value(s) <= u16::MAX {
        digits_value(s) as u16
    } else {
        0
    }
}

proof fn lemma_digits_value_nonneg(s: Seq<char>)
    requires
        forall|i: int| 0 <= i < s.len() ==> is_digit(#[trigger] s[i]),
    ensures
        digits_value(s) >= 0,
    decreases s.len(),
{
    if s.len() > 0 {
        lemma_digits_value_nonneg(s.drop_last());
    }
}

/// The number spelled by the digits `lo..hi`, or 0 when it does not fit in 16 bits.
pub fn digits_number(src: &Source, lo: usize, hi: usize) -> (r: u16)
    requires
        lo <= hi <= src.s().len(),
        forall|k: int| lo <= k < hi ==> is_digit(#[trigger] src.s()[k]),
    ensures
        r == attr_number(src.s().subrange(lo as int, hi as int)),
{
    let mut v: u32 = 0;
    let mut i = lo;
    while i < hi
        invariant
            lo <= i <= hi <= src.s().len(),
            forall|k: int| lo <= k < hi ==> is_digit(#[trigger] src.s()[k]),
            v as int == digits_value(src.s().subrange(lo as int, i as int)),
            v <= u16::MAX,
        decreases hi - i,
    {
        assert(src.s().subrange(lo as int, i + 1).drop_last() =~= src.s().subrange(
            lo as int,
            i as int,
        ));
        let d = (src.chars[i] as u32) - ('0' as u32);
        let next = v * 10 + d;
        if next > 65535 {
            proof {
                let s = src.s().subrange(lo as int, hi as int);
                lemma_grows(src.s(), lo as int, i + 1, hi as int);
            }
            return 0;
        }
        v = next;
        i = i + 1;
    }
    v as u16
}

proof fn lemma_grows(s: Seq<char>, lo: int, mid: int, hi: int)
    requires
        0 <= lo <= mid <= hi <= s.len(),
        forall|k: int| lo <= k < hi ==> is_digit(#[trigger] s[k]),
        digits_value(s.subrange(lo, mid)) > u16::MAX,
    ensures
        digits_value(s.subrange(lo, hi)) > u16::MAX,
    decreases hi - mid,
{
    if mid < hi {
        assert(s.subrange(lo, mid + 1).drop_last() =~= s.subrange(lo, mid));
        assert(is_digit(s[mid]));
        lemma_grows(s, lo, mid + 1, hi);
    }
}

/// The first `)` or newline at or after `i`, or the end.
pub open spec fn paren_stop(s: Seq<char>, i: int) -> int
    decreases s.len() - i,
{
    if 0 <= i < s.len() && s[i] != ')' && s[i] != '\n' {
        paren_stop(s, i + 1)
    } else {
        i
    }
}

/// The end of an attribute's parenthesized text from `pos`: just after the
/// closing `)` on the same line.
pub open spec fn paren_close_at(s: Seq<char>, pos: int) -> Option<int> {
    let p = paren_stop(s, pos);
    if 0 <= p < s.len() && s[p] == ')' {
        Some(p + 1)
    } else {
        None
    }
}

/// After trivia at `pos`: the end of an attribute `@name(...)`, if one follows.
pub open spec fn attribute_at(s: Seq<char>, pos: int) -> Option<int> {
    match tok(s, pos, "@"@) {
        None => None,
        Some(e1) => match ident_at(s, e1) {
            None => None,
            Some(e2) => match tok(s, e2, "("@) {
                Some(e3) => paren_close_at(s, e3),
                None => Some(e2),
            },
        },
    }
}

/// The end of the attributes that follow `pos`.
pub open spec fn attributes_end(s: Seq<char>, pos: int) -> int
    decreases s.len() - pos,
{
    match attribute_at(s, pos) {
        Some(e) => if pos < e <= s.len() {
            attributes_end(s, e)
        } else {
            pos
        },
        None => pos,
    }
}

/// After `@name(`, ending at `e3`: the start and end of the digits when the
/// parentheses hold a number alone.
pub open spec fn number_span(s: Seq<char>, e3: int) -> Option<(int, int)> {
    let p = trivia_end(s, e3);
    let d = digits_to(s, p);
    let q = trivia_end(s, d);
    if d > p && 0 <= q < s.len() && s[q] == ')' {
        Some((p, d))
    } else {
        None
    }
}

/// After trivia at `pos`: the end of `@name(N)`, if it follows.
pub open spec fn numbered_attribute_at(s: Seq<char>, pos: int, name: Seq<char>) -> Option<int> {
    match tok(s, pos, "@"@) {
        None => None,
        Some(e1) => match kw(s, e1, name) {
            None => None,
            Some(e2) => match tok(s, e2, "("@) {
                None => None,
                Some(e3) => match number_span(s, e3) {
                    Some((_, d)) => Some(trivia_end(s, d) + 1),
                    None => paren_close_at(s, e3),
                },
            },
        },
    }
}

/// The number of `@name(N)` after trivia at `pos`: the value of the digits
/// when they stand alone and fit in 16 bits, else 0.
pub open spec fn numbered_attribute_value(s: Seq<char>, pos: int, name: Seq<char>) -> u16 {
    match tok(s, pos, "@"@) {
        None => 0,
        Some(e1) => match kw(s, e1, name) {
            None => 0,
            Some(e2) => match tok(s, e2, "("@) {
                None => 0,
                Some(e3) => match number_span(s, e3) {
                    Some((p, d)) => attr_number(s.subrange(p, d)),
                    None => 0,
                },
            },
        },
    }
}

/// Skips the text between an attribute's parentheses: from `pos`, just
/// after `(`, to just after the closing `)` on the same line.
fn skip_parenthesized(src: &Source, pos: usize) -> (r: Option<usize>)
    requires
        pos <= src.s().len(),
    ensures
        r matches Some(e) ==> pos < e <= src.s().len(),
        opt_int(r) == paren_close_at(src.s(), pos as int),
{
    let mut p = pos;
    while p < src.len() && src.chars[p] != ')' && src.chars[p] != '\n'
        invariant
            pos <= p <= src.s().len(),
            paren_stop(src.s(), pos as int) == paren_stop(src.s(), p as int),
        decreases src.s().len() - p,
    {
        p = p + 1;
    }
    if src.is_at(p, ')') {
        Some(p + 1)
    } else {
        None
    }
}

/// Parses one attribute after trivia: `@name` with optional `(...)`.
pub fn skip_attribute(src: &Source, pos: usize) -> (r: Option<usize>)
    requires
        src.wf(),
        pos <= src.s().len(),
    ensures
        r matches Some(e) ==> pos < e <= src.s().len(),
        opt_int(r) == attribute_at(src.s(), pos as int),
{
    let e1 = src.token(pos, "@")?;
    let (_, e2) = src.ident(e1)?;
    match src.token(e2, "(") {
        Some(e3) => skip_parenthesized(src, e3),
        None => Some(e2),
    }
}

/// Skips any number of attributes.
pub fn skip_attributes(src: &Source, pos: usize) -> (r: usize)
    requires
        src.wf(),
        pos <= src.s().len(),
    ensures
        pos <= r <= src.s().len(),
        r == attributes_end(src.s(), pos as int),
{
    let mut p = pos;
    loop
        invariant
            src.wf(),
            pos <= p <= src.s().len(),
            attributes_end(src.s(), pos as int) == attributes_end(src.s(), p as int),
        decreases src.s().len() - p,
    {
        match skip_attribute(src, p) {
            Some(e) => p = e,
            None => return p,
        }
    }
}

/// Parses the attribute `@name(N)` after trivia. A value that is not a
/// 16-bit number (such as `abc`) gives 0 and does not fail the parse.
pub fn numbered_attribute(src: &Source, pos: usize, name: &str) -> (r: Option<(u16, usize)>)
    requires
        src.wf(),
        pos <= src.s().len(),
    ensures
        r matches Some((_, e)) ==> pos < e <= src.s().len(),
        end_of(r) == numbered_attribute_at(src.s(), pos as int, name@),
        r matches Some((v, _)) ==> v == numbered_attribute_value(src.s(), pos as int, name@),
{
    let n = src.len();
    let e1 = src.token(pos, "@")?;
    let e2 = src.keyword(e1, name)?;
    let e3 = src.token(e2, "(")?;
    let p = src.skip_trivia(e3);
    let d = src.digits_end(p);
    let q = src.skip_trivia(d);
    if d > p && src.is_at(q, ')') {
        Some((digits_number(src, p, d), q + 1))
    } else {
        let e = skip_parenthesized(src, e3)?;
        Some((0, e))
    }
}

} // verus!
