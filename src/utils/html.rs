//! Markdown rendering of documentation, and plain-text summaries of it.

use vstd::prelude::*;
use vstd::string::*;

verus! {

/// The HTML that CommonMark rendering (raw HTML allowed) gives for a text.
pub uninterp spec fn markdown_html(s: Seq<char>) -> Seq<char>;

/// The text nodes of an HTML fragment, in document order.
pub uninterp spec fn html_text_pieces(html: Seq<char>) -> Seq<Seq<char>>;

/// A text without its leading and trailing Unicode whitespace.
pub uninterp spec fn trim_of(s: Seq<char>) -> Seq<char>;

/// The most characters a plain-text summary keeps before it is cut.
pub const SUMMARY_MAX_LENGTH: usize = 256;

/// Renders markdown documentation to HTML.
///
/// Relies on `markdown::to_html_with_options` with `allow_dangerous_html`: the
/// output depends on the text alone, and plain markdown (no MDX) never errors.
#[verifier::external_body]
pub fn to_html(value: &str) -> (r: String)
    ensures
        r@ == markdown_html(value@),
{
    let options = markdown::Options {
        compile: markdown::CompileOptions {
            allow_dangerous_html: true,
            ..markdown::CompileOptions::default()
        },
        ..markdown::Options::default()
    };
    markdown::to_html_with_options(value, &options).unwrap_or_default()
}

/// Relies on `scraper::Html::parse_fragment` and `ElementRef::text`: the text
/// nodes below the fragment's root, in order.
#[verifier::external_body]
fn text_pieces(html: &str) -> (r: Vec<String>)
    ensures
        r@.len() == html_text_pieces(html@).len(),
        forall|i: int| 0 <= i < r@.len() ==> #[trigger] r@[i]@ == html_text_pieces(html@)[i],
{
    let fragment = scraper::Html::parse_fragment(html);
    fragment.root_element().text().map(|t| t.to_string()).collect()
}

/// Relies on `str::trim`: removes leading and trailing whitespace.
#[verifier::external_body]
fn trimmed(s: &str) -> (r: String)
    ensures
        r@ == trim_of(s@),
{
    s.trim().to_string()
}

/// The pieces joined with a single space between neighbours.
pub open spec fn join_spaced(p: Seq<Seq<char>>) -> Seq<char>
    decreases p.len(),
{
    if p.len() == 0 {
        Seq::empty()
    } else if p.len() == 1 {
        p[0]
    } else {
        join_spaced(p.drop_last()) + seq![' '] + p.last()
    }
}

/// A summary cut to its first `SUMMARY_MAX_LENGTH` characters, marked by `...`.
pub open spec fn truncated(t: Seq<char>) -> Seq<char> {
    if t.len() > SUMMARY_MAX_LENGTH {
        t.subrange(0, SUMMARY_MAX_LENGTH as int) + seq!['.', '.', '.']
    } else {
        t
    }
}

/// The plain-text summary of a markdown text: the text of its HTML rendering,
/// pieces joined by spaces, trimmed, and cut to the maximum length.
pub open spec fn plain_summary_of(docs: Seq<char>) -> Seq<char> {
    plain_text_summary(html_text_pieces(markdown_html(docs)))
}

/// The summary built from the text pieces of a rendered document.
pub open spec fn plain_text_summary(pieces: Seq<Seq<char>>) -> Seq<char> {
    truncated(trim_of(join_spaced(pieces)))
}

/// Builds the summary from the text pieces of a rendered document.
pub fn summary_from_pieces(pieces: &Vec<String>) -> (r: String)
    ensures
        r@ == plain_text_summary(pieces@.map_values(|p: String| p@)),
{
    let ghost views = pieces@.map_values(|p: String| p@);
    let mut joined = String::new();
    let mut i: usize = 0;
    while i < pieces.len()
        invariant
            i <= pieces@.len(),
            views == pieces@.map_values(|p: String| p@),
            joined@ == join_spaced(views.subrange(0, i as int)),
        decreases pieces.len() - i,
    {
        proof {
            reveal_strlit(" ");
        }
        assert(views.subrange(0, i + 1).drop_last() =~= views.subrange(0, i as int));
        if i > 0 {
            joined = joined.concat(" ");
        }
        joined = joined.concat(pieces[i].as_str());
        i = i + 1;
        assert(joined@ =~= join_spaced(views.subrange(0, i as int)));
    }
    assert(views.subrange(0, i as int) =~= views);
    let t = trimmed(joined.as_str());
    let n = t.as_str().unicode_len();
    if n > SUMMARY_MAX_LENGTH {
        proof {
            reveal_strlit("...");
        }
        let head = t.as_str().substring_char(0, SUMMARY_MAX_LENGTH).to_owned();
        let r = head.concat("...");
        assert(r@ =~= truncated(t@));
        r
    } else {
        t
    }
}

/// The plain-text summary of markdown documentation.
pub fn plain_summary(docs: &str) -> (r: String)
    ensures
        r@ == plain_summary_of(docs@),
{
    let html = to_html(docs);
    let pieces = text_pieces(html.as_str());
    assert(pieces@.map_values(|p: String| p@) =~= html_text_pieces(html@));
    summary_from_pieces(&pieces)
}

} // verus!
