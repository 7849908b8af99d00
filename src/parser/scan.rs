//! The character stream of a module and its lexical rules: whitespace, plain
//! comments, identifiers, numbers, keywords and documentation lines.

use crate::utils::text::{chars_of, starts_with_at, substring};
use vstd::prelude::*;
use vstd::string::*;

verus! {

/// The text of a module together with its characters.
pub struct Source {
    /// The text.
    pub text: String,
    /// The characters of `text`, in order.
    pub chars: Vec<char>,
}

/// Whitespace between tokens.
pub open spec fn is_ws(c: char) -> bool {
    c == ' ' || c == '\t' || c == '\r' || c == '\n'
}

/// A character that may start an identifier.
pub open spec fn is_ident_start(c: char) -> bool {
    ('a' <= c && c <= 'z') || ('A' <= c && c <= 'Z') || c == '_'
}

/// A character that may continue an identifier.
pub open spec fn is_ident_char(c: char) -> bool {
    is_ident_start(c) || ('0' <= c && c <= '9')
}

/// A decimal digit.
pub open spec fn is_digit(c: char) -> bool {
    '0' <= c && c <= '9'
}

/// A character of an import path.
pub open spec fn is_path_char(c: char) -> bool {
    is_ident_char(c) || c == '.' || c == '/' || c == '-'
}

/// An identifier: a letter or `_`, then letters, digits or `_`.
pub open spec fn is_ident(s: Seq<char>) -> bool {
    s.len() > 0 && is_ident_start(s[0]) && forall|i: int| 0 <= i < s.len() ==> is_ident_char(#[trigger] s[i])
}

/// A plain comment starts at `i`: `//` not followed by `/` or `!`.
pub open spec fn plain_comment_at(s: Seq<char>, i: int) -> bool {
    &&& 0 <= i
    &&& i + 2 <= s.len()
    &&& s[i] == '/'
    &&& s[i + 1] == '/'
    &&& (i + 2 == s.len() || (s[i + 2] != '/' && s[i + 2] != '!'))
}

/// The end of the whitespace that starts at `i`.
pub open spec fn ws_end(s: Seq<char>, i: int) -> int
    decreases s.len() - i,
{
    if 0 <= i < s.len() && is_ws(s[i]) {
        ws_end(s, i + 1)
    } else {
        i
    }
}

/// The end of the whitespace and plain comments that start at `i`.
pub open spec fn trivia_end(s: Seq<char>, i: int) -> int
    decreases s.len() - i,
{
    let p = ws_end(s, i);
    let e = newline_from(s, p + 2);
    if plain_comment_at(s, p) && i < e <= s.len() {
        trivia_end(s, e)
    } else {
        p
    }
}

proof fn lemma_newline_from_bounds(s: Seq<char>, i: int)
    requires
        0 <= i <= s.len(),
    ensures
        i <= newline_from(s, i) <= s.len(),
    decreases s.len() - i,
{
    if i < s.len() && s[i] != '\n' {
        lemma_newline_from_bounds(s, i + 1);
    }
}

/// From `i`, trivia ends where it ends from the end `p` of the whitespace at `i`.
proof fn lemma_trivia_step(s: Seq<char>, i: int, p: int)
    requires
        0 <= i <= p <= s.len(),
        p == ws_end(s, i),
        p == s.len() || !is_ws(s[p]),
    ensures
        trivia_end(s, i) == trivia_end(s, p),
        p == ws_end(s, p),
{
    assert(ws_end(s, p) == p);
    if plain_comment_at(s, p) {
        lemma_newline_from_bounds(s, p + 2);
    }
}

/// The end of the identifier characters that start at `i`.
pub open spec fn ident_chars_to(s: Seq<char>, i: int) -> int
    decreases s.len() - i,
{
    if 0 <= i < s.len() && is_ident_char(s[i]) {
        ident_chars_to(s, i + 1)
    } else {
        i
    }
}

/// The end of the identifier that starts at `i`, or `i` when none does.
pub open spec fn ident_to(s: Seq<char>, i: int) -> int {
    if 0 <= i < s.len() && is_ident_start(s[i]) {
        ident_chars_to(s, i)
    } else {
        i
    }
}

/// The end of the digits that start at `i`.
pub open spec fn digits_to(s: Seq<char>, i: int) -> int
    decreases s.len() - i,
{
    if 0 <= i < s.len() && is_digit(s[i]) {
        digits_to(s, i + 1)
    } else {
        i
    }
}

/// After trivia at `pos`: the end of the text `w` (not empty), if it follows.
pub open spec fn tok(s: Seq<char>, pos: int, w: Seq<char>) -> Option<int> {
    let p = trivia_end(s, pos);
    if w.len() > 0 && p + w.len() <= s.len() && s.subrange(p, p + w.len()) == w {
        Some(p + w.len())
    } else {
        None
    }
}

/// After trivia at `pos`: the end of the keyword `w`, if it follows and is
/// not followed by an identifier character.
pub open spec fn kw(s: Seq<char>, pos: int, w: Seq<char>) -> Option<int> {
    match tok(s, pos, w) {
        Some(e) => if e < s.len() && is_ident_char(s[e]) {
            None
        } else {
            Some(e)
        },
        None => None,
    }
}

/// After trivia at `pos`: the end of an identifier, if one follows.
pub open spec fn ident_at(s: Seq<char>, pos: int) -> Option<int> {
    let p = trivia_end(s, pos);
    let e = ident_to(s, p);
    if e == p {
        None
    } else {
        Some(e)
    }
}

/// After trivia at `pos`: the identifier there (empty when none).
pub open spec fn ident_text(s: Seq<char>, pos: int) -> Seq<char> {
    let p = trivia_end(s, pos);
    s.subrange(p, ident_to(s, p))
}

/// The end position of a parse result.
pub open spec fn end_of<T>(r: Option<(T, usize)>) -> Option<int> {
    match r {
        Some((_, e)) => Some(e as int),
        None => None,
    }
}

/// An end position as a spec value.
pub open spec fn opt_int(r: Option<usize>) -> Option<int> {
    match r {
        Some(e) => Some(e as int),
        None => None,
    }
}

/// The position of the first newline at or after `i`, or the end.
pub open spec fn newline_from(s: Seq<char>, i: int) -> int
    decreases s.len() - i,
{
    if 0 <= i < s.len() && s[i] != '\n' {
        newline_from(s, i + 1)
    } else {
        i
    }
}

/// The position of the first character at or after `i` that is not a space or tab.
pub open spec fn blank_end(s: Seq<char>, i: int) -> int
    decreases s.len() - i,
{
    if 0 <= i < s.len() && (s[i] == ' ' || s[i] == '\t') {
        blank_end(s, i + 1)
    } else {
        i
    }
}

/// The text of the documentation line that starts at `i`: after the
/// three-character marker and leading blanks, up to the line end, without a
/// carriage return before the newline.
pub open spec fn doc_line_content(s: Seq<char>, i: int) -> Seq<char> {
    let c = blank_end(s, i + 3);
    let e = newline_from(s, c);
    if e > c && s[e - 1] == '\r' {
        s.subrange(c, e - 1)
    } else {
        s.subrange(c, e)
    }
}

/// A documentation line with the marker `m` (`/` for items, `!` for the
/// module) starts at `i`.
pub open spec fn doc_line_at(s: Seq<char>, i: int, m: char) -> bool {
    &&& 0 <= i
    &&& i + 3 <= s.len()
    &&& s[i] == '/'
    &&& s[i + 1] == '/'
    &&& s[i + 2] == m
}

impl Source {
    /// The characters are those of the text.
    pub open spec fn wf(&self) -> bool {
        self.chars@ == self.text@
    }

    /// The characters, as a sequence.
    pub open spec fn s(&self) -> Seq<char> {
        self.chars@
    }

    /// Reads a module text.
    pub fn new(text: &str) -> (r: Source)
        ensures
            r.wf(),
            r.text@ == text@,
    {
        Source { text: text.to_owned(), chars: chars_of(text) }
    }

    /// The number of characters.
    pub fn len(&self) -> (r: usize)
        ensures
            r == self.chars@.len(),
    {
        self.chars.len()
    }

    /// Copies the characters `lo..hi`.
    pub fn slice(&self, lo: usize, hi: usize) -> (r: String)
        requires
            self.wf(),
            lo <= hi <= self.chars@.len(),
        ensures
            r@ == self.chars@.subrange(lo as int, hi as int),
    {
        substring(self.text.as_str(), lo, hi)
    }

    /// Whether the character at `i` is `c`.
    pub fn is_at(&self, i: usize, c: char) -> (r: bool)
        ensures
            r == (i < self.chars@.len() && self.chars@[i as int] == c),
    {
        i < self.chars.len() && self.chars[i] == c
    }

    /// Whether `w` starts at `i`.
    pub fn looking_at(&self, i: usize, w: &str) -> (r: bool)
        requires
            i <= self.chars@.len(),
        ensures
            r == (i + w@.len() <= self.chars@.len() && self.chars@.subrange(i as int, i + w@.len())
                == w@),
    {
        starts_with_at(&self.chars, i, w)
    }

    /// Skips whitespace.
    pub fn skip_ws(&self, pos: usize) -> (r: usize)
        requires
            pos <= self.chars@.len(),
        ensures
            pos <= r <= self.chars@.len(),
            r == self.chars@.len() || !is_ws(self.chars@[r as int]),
            forall|k: int| pos <= k < r ==> is_ws(#[trigger] self.chars@[k]),
            r == ws_end(self.chars@, pos as int),
    {
        let mut p = pos;
        while p < self.chars.len() && (self.chars[p] == ' ' || self.chars[p] == '\t'
            || self.chars[p] == '\r' || self.chars[p] == '\n')
            invariant
                pos <= p <= self.chars@.len(),
                forall|k: int| pos <= k < p ==> is_ws(#[trigger] self.chars@[k]),
                ws_end(self.chars@, pos as int) == ws_end(self.chars@, p as int),
            decreases self.chars@.len() - p,
        {
            p = p + 1;
        }
        p
    }

    /// The end of the line that holds `pos`: the next newline, or the end.
    pub fn line_end(&self, pos: usize) -> (r: usize)
        requires
            pos <= self.chars@.len(),
        ensures
            pos <= r <= self.chars@.len(),
            r == self.chars@.len() || self.chars@[r as int] == '\n',
            forall|k: int| pos <= k < r ==> #[trigger] self.chars@[k] != '\n',
            r == newline_from(self.chars@, pos as int),
    {
        let mut p = pos;
        while p < self.chars.len() && self.chars[p] != '\n'
            invariant
                pos <= p <= self.chars@.len(),
                newline_from(self.chars@, pos as int) == newline_from(self.chars@, p as int),
                forall|k: int| pos <= k < p ==> #[trigger] self.chars@[k] != '\n',
            decreases self.chars@.len() - p,
        {
            p = p + 1;
        }
        p
    }

    /// Whether a plain comment starts at `i`.
    pub fn plain_comment(&self, i: usize) -> (r: bool)
        ensures
            r == plain_comment_at(self.chars@, i as int),
    {
        i < self.chars.len() && self.chars.len() - i >= 2 && self.chars[i] == '/' && self.chars[i
            + 1] == '/' && (i + 2 == self.chars.len() || (self.chars[i + 2] != '/' && self.chars[i
            + 2] != '!'))
    }

    /// Whether a documentation line with marker `m` starts at `i`.
    pub fn doc_line(&self, i: usize, m: char) -> (r: bool)
        ensures
            r == doc_line_at(self.chars@, i as int, m),
    {
        i < self.chars.len() && self.chars.len() - i >= 3 && self.chars[i] == '/' && self.chars[i
            + 1] == '/' && self.chars[i + 2] == m
    }

    /// Skips whitespace and plain comments.
    pub fn skip_trivia(&self, pos: usize) -> (r: usize)
        requires
            pos <= self.chars@.len(),
        ensures
            pos <= r <= self.chars@.len(),
            r == self.chars@.len() || !is_ws(self.chars@[r as int]),
            !plain_comment_at(self.chars@, r as int),
            (pos == self.chars@.len() || !is_ws(self.chars@[pos as int])) && !plain_comment_at(
                self.chars@,
                pos as int,
            ) ==> r == pos,
            r == trivia_end(self.chars@, pos as int),
    {
        let n = self.chars.len();
        let mut p = self.skip_ws(pos);
        proof {
            lemma_trivia_step(self.chars@, pos as int, p as int);
        }
        while self.plain_comment(p)
            invariant
                pos <= p <= self.chars@.len(),
                p == self.chars@.len() || !is_ws(self.chars@[p as int]),
                n == self.chars@.len(),
                (pos == self.chars@.len() || !is_ws(self.chars@[pos as int])) && !plain_comment_at(
                    self.chars@,
                    pos as int,
                ) ==> p == pos,
                p == ws_end(self.chars@, p as int),
                trivia_end(self.chars@, pos as int) == trivia_end(self.chars@, p as int),
            decreases self.chars@.len() - p,
        {
            let e = self.line_end(p + 2);
            p = self.skip_ws(e);
            proof {
                lemma_trivia_step(self.chars@, e as int, p as int);
            }
        }
        p
    }

    /// The end of the identifier characters from `pos` on.
    pub fn ident_chars_end(&self, pos: usize) -> (r: usize)
        requires
            pos <= self.chars@.len(),
        ensures
            pos <= r <= self.chars@.len(),
            r == self.chars@.len() || !is_ident_char(self.chars@[r as int]),
            forall|k: int| pos <= k < r ==> is_ident_char(#[trigger] self.chars@[k]),
            r == ident_chars_to(self.chars@, pos as int),
    {
        let mut p = pos;
        while p < self.chars.len() && is_ident_char_exec(self.chars[p])
            invariant
                pos <= p <= self.chars@.len(),
                forall|k: int| pos <= k < p ==> is_ident_char(#[trigger] self.chars@[k]),
                ident_chars_to(self.chars@, pos as int) == ident_chars_to(self.chars@, p as int),
            decreases self.chars@.len() - p,
        {
            p = p + 1;
        }
        p
    }

    /// The end of the identifier that starts at `pos`, or `pos` if none does.
    pub fn ident_end(&self, pos: usize) -> (r: usize)
        requires
            pos <= self.chars@.len(),
        ensures
            pos <= r <= self.chars@.len(),
            r > pos <==> (pos < self.chars@.len() && is_ident_start(self.chars@[pos as int])),
            r > pos ==> is_ident(self.chars@.subrange(pos as int, r as int)),
            r > pos ==> (r == self.chars@.len() || !is_ident_char(self.chars@[r as int])),
            r == ident_to(self.chars@, pos as int),
    {
        if pos < self.chars.len() && is_ident_start_exec(self.chars[pos]) {
            let r = self.ident_chars_end(pos);
            assert(is_ident(self.chars@.subrange(pos as int, r as int)));
            r
        } else {
            pos
        }
    }

    /// Parses an identifier after trivia.
    pub fn ident(&self, pos: usize) -> (r: Option<(String, usize)>)
        requires
            self.wf(),
            pos <= self.chars@.len(),
        ensures
            r matches Some((name, e)) ==> pos < e <= self.chars@.len() && is_ident(name@) && e
                >= name@.len() && self.chars@.subrange(e - name@.len(), e as int) == name@,
            end_of(r) == ident_at(self.chars@, pos as int),
            r matches Some((name, e)) ==> name@ == self.chars@.subrange(
                trivia_end(self.chars@, pos as int),
                e as int,
            ),
            r matches Some((name, _)) ==> name@ == ident_text(self.chars@, pos as int),
    {
        let p = self.skip_trivia(pos);
        let e = self.ident_end(p);
        if e == p {
            None
        } else {
            Some((self.slice(p, e), e))
        }
    }

    /// Parses the exact text `w` (not empty) after trivia.
    pub fn token(&self, pos: usize, w: &str) -> (r: Option<usize>)
        requires
            pos <= self.chars@.len(),
        ensures
            r matches Some(e) ==> pos < e <= self.chars@.len() && e >= w@.len()
                && self.chars@.subrange(e - w@.len(), e as int) == w@,
            opt_int(r) == tok(self.chars@, pos as int, w@),
    {
        let n = self.chars.len();
        let p = self.skip_trivia(pos);
        if w.unicode_len() > 0 && self.looking_at(p, w) {
            Some(p + w.unicode_len())
        } else {
            None
        }
    }

    /// Parses the keyword `w` after trivia: not followed by an identifier character.
    pub fn keyword(&self, pos: usize, w: &str) -> (r: Option<usize>)
        requires
            pos <= self.chars@.len(),
        ensures
            r matches Some(e) ==> pos < e <= self.chars@.len() && e >= w@.len()
                && self.chars@.subrange(e - w@.len(), e as int) == w@ && (e == self.chars@.len()
                || !is_ident_char(self.chars@[e as int])),
            opt_int(r) == kw(self.chars@, pos as int, w@),
    {
        match self.token(pos, w) {
            Some(e) => {
                if e < self.chars.len() && is_ident_char_exec(self.chars[e]) {
                    None
                } else {
                    Some(e)
                }
            },
            None => None,
        }
    }

    /// The end of the digits from `pos` on.
    pub fn digits_end(&self, pos: usize) -> (r: usize)
        requires
            pos <= self.chars@.len(),
        ensures
            pos <= r <= self.chars@.len(),
            r == self.chars@.len() || !is_digit(self.chars@[r as int]),
            forall|k: int| pos <= k < r ==> is_digit(#[trigger] self.chars@[k]),
            r == digits_to(self.chars@, pos as int),
    {
        let mut p = pos;
        while p < self.chars.len() && '0' <= self.chars[p] && self.chars[p] <= '9'
            invariant
                pos <= p <= self.chars@.len(),
                forall|k: int| pos <= k < p ==> is_digit(#[trigger] self.chars@[k]),
                digits_to(self.chars@, pos as int) == digits_to(self.chars@, p as int),
            decreases self.chars@.len() - p,
        {
            p = p + 1;
        }
        p
    }
}

/// Whether `c` may start an identifier.
pub fn is_ident_start_exec(c: char) -> (r: bool)
    ensures
        r == is_ident_start(c),
{
    ('a' <= c && c <= 'z') || ('A' <= c && c <= 'Z') || c == '_'
}

/// Whether `c` may continue an identifier.
pub fn is_ident_char_exec(c: char) -> (r: bool)
    ensures
        r == is_ident_char(c),
{
    is_ident_start_exec(c) || ('0' <= c && c <= '9')
}

} // verus!
