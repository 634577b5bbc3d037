//! The parsed-document capability: structural queries over markup.
//!
//! Markup parsing and selector matching are the parsing library's work and
//! stand behind trusted wrappers; everything read out of a node is plain
//! data, and all selection logic downstream of a query is verified.

use vstd::prelude::*;

verus! {

/// What a query yields of one matching node: its concatenated descendant
/// text in document order, its own attributes in document order, and its
/// own markup, from which nested queries start.
pub struct NodeData {
    pub text: String,
    pub attrs: Vec<(String, String)>,
    pub html: String,
}

/// The model of a [`NodeData`].
pub struct NodeView {
    pub text: Seq<char>,
    pub attrs: Seq<(Seq<char>, Seq<char>)>,
    pub html: Seq<char>,
}

/// The model of an attribute list.
pub open spec fn attrs_view(attrs: Seq<(String, String)>) -> Seq<(Seq<char>, Seq<char>)> {
    attrs.map_values(|p: (String, String)| (p.0@, p.1@))
}

impl View for NodeData {
    type V = NodeView;

    open spec fn view(&self) -> NodeView {
        NodeView { text: self.text@, attrs: attrs_view(self.attrs@), html: self.html@ }
    }
}

/// The model of a query result.
pub open spec fn nodes_view(nodes: Seq<NodeData>) -> Seq<NodeView> {
    nodes.map_values(|n: NodeData| n@)
}

#[verifier::external_type_specification]
#[verifier::external_body]
pub struct ExHtml(scraper::Html);

/// The tree that parsing a whole page yields: a function of the markup text
/// alone.
pub uninterp spec fn parsed_doc(markup: Seq<char>) -> scraper::Html;

/// The tree that parsing a markup fragment yields: a function of the
/// fragment text alone.
pub uninterp spec fn parsed_fragment(markup: Seq<char>) -> scraper::Html;

/// The matches of a selector on a parsed tree, in document order: a
/// function of the tree and the selector alone.
pub uninterp spec fn doc_query(doc: scraper::Html, selector: Seq<char>) -> Seq<NodeView>;

/// Relies on scraper's `Html::parse_document`: parsing never fails hard and
/// depends on the markup text alone.
#[verifier::external_body]
pub fn parse_document(markup: &str) -> (d: scraper::Html)
    ensures
        d == parsed_doc(markup@),
{
    scraper::Html::parse_document(markup)
}

/// Relies on scraper's `Html::parse_fragment`: parsing never fails hard and
/// depends on the fragment text alone.
#[verifier::external_body]
pub fn parse_fragment(markup: &str) -> (d: scraper::Html)
    ensures
        d == parsed_fragment(markup@),
{
    scraper::Html::parse_fragment(markup)
}

/// Relies on scraper's `Selector::parse` and `Html::select`, and on
/// `ElementRef::text`, `ElementRef::html` and `Element::attrs`: the matches
/// of a selector on a tree come in document order and are a function of the
/// tree and the selector alone; a selector that does not parse matches
/// nothing.
#[verifier::external_body]
pub fn select_nodes(doc: &scraper::Html, selector: &str) -> (r: Vec<NodeData>)
    ensures
        nodes_view(r@) == doc_query(*doc, selector@),
{
    let sel = match scraper::Selector::parse(selector) {
        Ok(s) => s,
        Err(_) => return Vec::new(),
    };
    doc.select(&sel).map(|n| NodeData {
        text: n.text().collect::<String>(),
        attrs: n.value().attrs().map(|(k, v)| (k.to_string(), v.to_string())).collect(),
        html: n.html(),
    }).collect()
}

/// The value of the first attribute named `name`, if any.
pub open spec fn attr_of(attrs: Seq<(Seq<char>, Seq<char>)>, name: Seq<char>) -> Option<Seq<char>>
    decreases attrs.len(),
{
    if attrs.len() == 0 {
        None
    } else if attrs[0].0 == name {
        Some(attrs[0].1)
    } else {
        attr_of(attrs.drop_first(), name)
    }
}

/// Look up the first attribute named `name`.
pub fn find_attr(attrs: &Vec<(String, String)>, name: &str) -> (r: Option<String>)
    ensures
        match r {
            Some(v) => attr_of(attrs_view(attrs@), name@) == Some(v@),
            None => attr_of(attrs_view(attrs@), name@) is None,
        },
{
    let n = attrs.len();
    let mut i: usize = 0;
    proof {
        assert(attrs_view(attrs@).skip(0) =~= attrs_view(attrs@));
    }
    while i < n
        invariant
            0 <= i <= n,
            n == attrs@.len(),
            attr_of(attrs_view(attrs@), name@) == attr_of(
                attrs_view(attrs@).skip(i as int),
                name@,
            ),
        decreases n - i,
    {
        let p = &attrs[i];
        proof {
            let pv = attrs@[i as int];
            assert(attrs_view(attrs@).skip(i as int)[0] == (pv.0@, pv.1@));
        }
        if crate::text::str_eq(p.0.as_str(), name) {
            return Some(p.1.clone());
        }
        proof {
            assert(attrs_view(attrs@).skip(i as int).drop_first() =~= attrs_view(attrs@).skip(
                i + 1,
            ));
        }
        i = i + 1;
    }
    proof {
        assert(attrs_view(attrs@).skip(n as int) =~= Seq::empty());
    }
    None
}

} // verus!
