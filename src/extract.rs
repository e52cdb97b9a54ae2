//! The extractor: the text of the first element of a page that a CSS
//! selector matches.
use vstd::prelude::*;
use vstd::string::*;

verus! {

#[verifier::external_type_specification]
#[verifier::external_body]
pub struct ExSelector(scraper::Selector);

/// Whether `scraper::Selector::parse` accepts a selector text.
pub uninterp spec fn selector_parses(selector: Seq<char>) -> bool;

/// The descendant text nodes, in document order, of the first element that a
/// selector matches in markup parsed as a fragment; `None` where no element
/// matches.
pub uninterp spec fn first_match_text_nodes(html: Seq<char>, selector: Seq<char>) -> Option<
    Seq<Seq<char>>,
>;

#[derive(Clone, Copy, Debug, PartialEq, Eq)]
pub enum ExtractError {
    /// No element of the page matches the selector.
    NoMatch,
}

/// A compiled selector, with the text it was compiled from.
pub struct CssSelector {
    inner: scraper::Selector,
    source: Ghost<Seq<char>>,
}

impl CssSelector {
    pub closed spec fn source(&self) -> Seq<char> {
        self.source@
    }
}

/// Relies on `scraper::Selector::parse`: it compiles a selector group, and
/// whether it succeeds depends on the text alone. The error is kept as its
/// message.
#[verifier::external_body]
pub(crate) fn parse_selector(text: &str) -> (r: Result<CssSelector, String>)
    ensures
        r is Ok == selector_parses(text@),
        r matches Ok(c) ==> c.source() == text@,
{
    match scraper::Selector::parse(text) {
        Ok(inner) => Ok(CssSelector { inner, source: Ghost(text@) }),
        Err(e) => Err(e.to_string()),
    }
}

pub open spec fn nodes_view(o: Option<Vec<String>>) -> Option<Seq<Seq<char>>> {
    match o {
        Some(v) => Some(v@.map_values(|t: String| t@)),
        None => None,
    }
}

/// The texts of `nodes` joined in order, with nothing between them.
pub open spec fn concat_all(nodes: Seq<Seq<char>>) -> Seq<char>
    decreases nodes.len(),
{
    if nodes.len() == 0 {
        Seq::empty()
    } else {
        concat_all(nodes.drop_last()) + nodes.last()
    }
}

/// Relies on `scraper::Html::parse_fragment`, `Html::select` and
/// `ElementRef::text`: the markup is parsed as a fragment, the first element
/// that the selector matches is taken, and its text nodes are handed out.
#[verifier::external_body]
fn first_element_text_nodes(html: &str, selector: &CssSelector) -> (r: Option<Vec<String>>)
    ensures
        nodes_view(r) == first_match_text_nodes(html@, selector.source()),
{
    let fragment = scraper::Html::parse_fragment(html);
    fragment.select(&selector.inner).next().map(|e| e.text().map(|t| t.to_string()).collect())
}

/// The text of the first element of `html` that `selector` matches: its text
/// nodes joined with no separator.
pub fn scrape(html: &str, selector: &CssSelector) -> (r: Result<String, ExtractError>)
    ensures
        match first_match_text_nodes(html@, selector.source()) {
            Some(ns) => r matches Ok(s) && s@ == concat_all(ns),
            None => r == Err::<String, ExtractError>(ExtractError::NoMatch),
        },
{
    let nodes = match first_element_text_nodes(html, selector) {
        Some(nodes) => nodes,
        None => {
            return Err(ExtractError::NoMatch);
        },
    };
    let ghost ns = nodes@.map_values(|t: String| t@);
    let mut out = String::new();
    let mut i: usize = 0;
    while i < nodes.len()
        invariant
            ns == nodes@.map_values(|t: String| t@),
            i <= nodes@.len(),
            out@ == concat_all(ns.subrange(0, i as int)),
        decreases nodes@.len() - i,
    {
        proof {
            assert(ns.subrange(0, i + 1).drop_last() =~= ns.subrange(0, i as int));
        }
        out.append(nodes[i].as_str());
        i = i + 1;
    }
    assert(ns.subrange(0, nodes@.len() as int) =~= ns);
    Ok(out)
}

} // verus!
