//! Reading markup: the one place where the library hands text to the HTML
//! parser, and the plain values it takes back.

use vstd::prelude::*;

verus! {

/// A child of an element, as far as the library looks at it.
#[derive(Debug, Clone, PartialEq, Eq)]
pub enum HtmlNode {
    /// An element: its tag name and the values of the three attributes that
    /// were asked for, `None` where the element lacks the attribute.
    Element { tag: String, first: Option<String>, second: Option<String>, third: Option<String> },
    /// Text, a comment or anything else that is not an element.
    Other,
}

/// The mathematical content of an [`HtmlNode`].
pub enum HtmlNodeView {
    Element {
        tag: Seq<char>,
        first: Option<Seq<char>>,
        second: Option<Seq<char>>,
        third: Option<Seq<char>>,
    },
    Other,
}

/// The text of an optional string.
pub open spec fn text_of(s: Option<String>) -> Option<Seq<char>> {
    match s {
        Some(s) => Some(s@),
        None => None,
    }
}

impl View for HtmlNode {
    type V = HtmlNodeView;

    open spec fn view(&self) -> HtmlNodeView {
        match *self {
            HtmlNode::Element { tag, first, second, third } => HtmlNodeView::Element {
                tag: tag@,
                first: text_of(first),
                second: text_of(second),
                third: text_of(third),
            },
            HtmlNode::Other => HtmlNodeView::Other,
        }
    }
}

/// What a list of nodes holds.
pub open spec fn node_views(nodes: Seq<HtmlNode>) -> Seq<HtmlNodeView> {
    Seq::new(nodes.len(), |i: int| nodes[i]@)
}

/// What an optional list of nodes holds.
pub open spec fn nodes_view(nodes: Option<Vec<HtmlNode>>) -> Option<Seq<HtmlNodeView>> {
    match nodes {
        Some(nodes) => Some(node_views(nodes@)),
        None => None,
    }
}

/// The children of the element that the HTML parser finds first when it
/// looks through the document `html` for a match of the CSS selector
/// `selector`, each with the values of its attributes `first`, `second`
/// and `third`; `None` where the selector is not valid or matches nothing.
/// The parser decides what this is, and in which order it looks.
pub uninterp spec fn first_match_children(
    html: Seq<char>,
    selector: Seq<char>,
    first: Seq<char>,
    second: Seq<char>,
    third: Seq<char>,
) -> Option<Seq<HtmlNodeView>>;

/// Parses `html` with `scraper::Html::parse_document`, parses `selector`
/// with `scraper::Selector::parse`, takes the first element that
/// `Html::select` yields and walks its children. Each child that is an
/// element is returned with `Element::name` and with `Element::attr` of the
/// three attribute names; every other child is returned as `Other`.
/// Nothing is claimed about the outcome but that it depends on the five
/// texts alone.
#[verifier::external_body]
pub(crate) fn select_children(
    html: &str,
    selector: &str,
    first: &str,
    second: &str,
    third: &str,
) -> (r: Option<Vec<HtmlNode>>)
    ensures
        nodes_view(r) == first_match_children(html@, selector@, first@, second@, third@),
{
    let document = scraper::Html::parse_document(html);
    let parsed = scraper::Selector::parse(selector).ok()?;
    let found = document.select(&parsed).next()?;
    Some(found.children().map(|child| match child.value() {
        scraper::Node::Element(e) => HtmlNode::Element {
            tag: e.name().to_string(),
            first: e.attr(first).map(String::from),
            second: e.attr(second).map(String::from),
            third: e.attr(third).map(String::from),
        },
        _ => HtmlNode::Other,
    }).collect())
}

} // verus!
