//! The markup data model: an attributed node tree with first-child /
//! next-sibling links, immutable once parsed, and the `<window>` fragment
//! wrapper the loader hands to the tree builder.

use vstd::prelude::*;

verus! {

/// One raw attribute: a name and its unparsed string value.
#[derive(Debug, PartialEq)]
pub struct Attr {
    pub name: String,
    pub value: String,
}

impl Clone for Attr {
    fn clone(&self) -> (r: Self)
        ensures
            r == *self,
    {
        Attr { name: self.name.clone(), value: self.value.clone() }
    }
}

/// Mathematical image of an attribute.
pub struct AttrV {
    pub name: Seq<char>,
    pub value: Seq<char>,
}

impl View for Attr {
    type V = AttrV;

    open spec fn view(&self) -> AttrV {
        AttrV { name: self.name@, value: self.value@ }
    }
}

/// Image of a string list.
pub open spec fn strings_view(v: Seq<String>) -> Seq<Seq<char>> {
    v.map_values(|s: String| s@)
}

/// Image of a whole attribute list.
pub open spec fn attrs_view(attrs: Seq<Attr>) -> Seq<AttrV> {
    attrs.map_values(|a: Attr| a@)
}

/// Clone an attribute list, element for element.
pub fn clone_attrs(attrs: &Vec<Attr>) -> (r: Vec<Attr>)
    ensures
        r@ == attrs@,
{
    let mut out: Vec<Attr> = Vec::new();
    let mut i: usize = 0;
    while i < attrs.len()
        invariant
            i <= attrs.len(),
            out@ == attrs@.subrange(0, i as int),
        decreases attrs.len() - i,
    {
        out.push(attrs[i].clone());
        i = i + 1;
        proof {
            assert(out@ =~= attrs@.subrange(0, i as int));
        }
    }
    proof {
        assert(out@ =~= attrs@);
    }
    out
}

/// A node of the parsed markup tree. An element carries its tag, its raw
/// attributes and a link to its first child; every node links to its next
/// sibling. Non-element content (text runs between tags) is kept as `Text`
/// nodes, which the tree builder skips.
#[derive(Debug, PartialEq)]
pub enum MarkupNode {
    Element {
        tag: String,
        attrs: Vec<Attr>,
        first_child: Option<Box<MarkupNode>>,
        next_sibling: Option<Box<MarkupNode>>,
    },
    Text { raw: String, next_sibling: Option<Box<MarkupNode>> },
}

/// Mathematical image of a markup node: a rose tree. The sibling links of
/// the executable representation become a child sequence here, so document
/// order is the sequence order.
pub enum NodeV {
    Elem { tag: Seq<char>, attrs: Seq<AttrV>, children: Seq<NodeV> },
    Text { raw: Seq<char> },
}

/// Image of one node, its following siblings ignored.
pub open spec fn node_view(n: MarkupNode) -> NodeV
    decreases n,
{
    match n {
        MarkupNode::Element { tag, attrs, first_child, .. } => NodeV::Elem {
            tag: tag@,
            attrs: attrs_view(attrs@),
            children: chain_view(first_child),
        },
        MarkupNode::Text { raw, .. } => NodeV::Text { raw: raw@ },
    }
}

/// Image of a sibling chain, in document order.
pub open spec fn chain_view(c: Option<Box<MarkupNode>>) -> Seq<NodeV>
    decreases c,
{
    match c {
        None => Seq::empty(),
        Some(b) => match *b {
            MarkupNode::Element { next_sibling, .. } => seq![node_view(*b)] + chain_view(
                next_sibling,
            ),
            MarkupNode::Text { next_sibling, .. } => seq![node_view(*b)] + chain_view(
                next_sibling,
            ),
        },
    }
}

impl View for MarkupNode {
    type V = NodeV;

    open spec fn view(&self) -> NodeV {
        node_view(*self)
    }
}

/// One parsed `<window>` fragment: the markup subtree rooted at the `window`
/// element, the stylesheet paths to merge into its theme, and an optional
/// display name.
#[derive(Debug, PartialEq)]
pub struct WindowMarkup {
    pub root: MarkupNode,
    pub css_paths: Vec<String>,
    pub name: Option<String>,
}

/// Mathematical image of a window fragment.
pub struct WindowMarkupV {
    pub root: NodeV,
    pub css_paths: Seq<Seq<char>>,
    pub name: Option<Seq<char>>,
}

impl View for WindowMarkup {
    type V = WindowMarkupV;

    open spec fn view(&self) -> WindowMarkupV {
        WindowMarkupV {
            root: node_view(self.root),
            css_paths: strings_view(self.css_paths@),
            name: match self.name {
                Some(ref s) => Some(s@),
                None => None,
            },
        }
    }
}

impl WindowMarkup {
    /// Wrap a markup subtree as a window fragment with no stylesheets yet.
    pub fn new(root: MarkupNode, name: Option<String>) -> (r: Self)
        ensures
            r@.root == node_view(root),
            r@.css_paths == Seq::<Seq<char>>::empty(),
            r@.name == match name {
                Some(s) => Some(s@),
                None => None::<Seq<char>>,
            },
    {
        let r = WindowMarkup { root, css_paths: Vec::new(), name };
        proof {
            assert(r@.css_paths =~= Seq::<Seq<char>>::empty());
        }
        r
    }

    /// Chain one more stylesheet path onto this window's theme, after those
    /// already recorded.
    pub fn add_css_path(self, path: &str) -> (r: Self)
        ensures
            r@.root == self@.root,
            r@.name == self@.name,
            r@.css_paths == self@.css_paths.push(path@),
    {
        let mut out = self;
        out.css_paths.push(path.to_owned());
        out
    }
}

} // verus!
