//! The markup loader: it tokenizes the source text, parses the token stream
//! into sibling chains of markup nodes, and extracts every top-level
//! `<window>` element as an independent window fragment, in document order.
//! A text with no `<window>` fragment loads as an empty sequence, which is
//! a valid outcome; only text the grammar rejects fails, with
//! `MalformedMarkup`.

use vstd::prelude::*;
use crate::lexer::{spec_tokenize, tokenize, tokens_view, Token, TokenV};
use crate::markup::{
    chain_view, clone_attrs, node_view, MarkupNode, NodeV, WindowMarkup, WindowMarkupV,
};
use crate::text::str_eq;
use crate::widget::{ErrV, MarkupError};

verus! {

/// Whether a token is the closing tag of `tag`.
pub open spec fn is_close_of(t: TokenV, tag: Seq<char>) -> bool {
    match t {
        TokenV::Close { tag: t2 } => t2 == tag,
        _ => false,
    }
}

/// Parse a sibling sequence from token position `i` until a closing tag or
/// the end of the stream: the nodes read and the position of the first
/// unconsumed token. An opening tag must be matched by a closing tag of the
/// same name enclosing its children; anything else refuses the stream.
pub open spec fn spec_parse_nodes(toks: Seq<TokenV>, i: int) -> Option<(Seq<NodeV>, int)>
    decreases toks.len() - i,
{
    if i < 0 || i >= toks.len() {
        Some((Seq::empty(), if i < 0 { 0 } else { i }))
    } else {
        match toks[i] {
            TokenV::Close { .. } => Some((Seq::empty(), i)),
            TokenV::Text { raw } => match spec_parse_nodes(toks, i + 1) {
                None => None,
                Some((rest, j)) => Some((seq![NodeV::Text { raw }] + rest, j)),
            },
            TokenV::SelfClose { tag, attrs } => match spec_parse_nodes(toks, i + 1) {
                None => None,
                Some((rest, j)) => Some(
                    (seq![NodeV::Elem { tag, attrs, children: Seq::empty() }] + rest, j),
                ),
            },
            TokenV::Open { tag, attrs } => match spec_parse_nodes(toks, i + 1) {
                None => None,
                Some((kids, j)) => {
                    if j < toks.len() && is_close_of(toks[j], tag) {
                        let jj = if j + 1 > i + 1 {
                            j + 1
                        } else {
                            i + 1
                        };
                        if jj > toks.len() {
                            None
                        } else {
                            match spec_parse_nodes(toks, jj) {
                                None => None,
                                Some((rest, k)) => Some(
                                    (seq![NodeV::Elem { tag, attrs, children: kids }] + rest, k),
                                ),
                            }
                        }
                    } else {
                        None
                    }
                },
            },
        }
    }
}

/// Executable mirror of `spec_parse_nodes`, building the sibling chain.
pub fn parse_nodes(toks: &Vec<Token>, i: usize) -> (r: Result<
    (Option<Box<MarkupNode>>, usize),
    (),
>)
    requires
        i <= toks.len(),
    ensures
        match r {
            Ok((chain, j)) => spec_parse_nodes(tokens_view(toks@), i as int) == Some(
                (chain_view(chain), j as int),
            ) && i <= j <= toks.len(),
            Err(()) => spec_parse_nodes(tokens_view(toks@), i as int) is None,
        },
    decreases toks.len() - i,
{
    let ghost tv = tokens_view(toks@);
    if i >= toks.len() {
        proof {
            assert(chain_view(None) =~= Seq::<NodeV>::empty());
        }
        return Ok((None, i));
    }
    proof {
        assert(tv[i as int] == toks@[i as int]@);
    }
    let t = &toks[i];
    match t {
        Token::Close { .. } => {
            proof {
                assert(chain_view(None) =~= Seq::<NodeV>::empty());
            }
            Ok((None, i))
        },
        Token::Text { raw } => {
            match parse_nodes(toks, i + 1) {
                Err(()) => Err(()),
                Ok((rest, j)) => {
                    let ghost rest_view = chain_view(rest);
                    let node = MarkupNode::Text { raw: raw.clone(), next_sibling: rest };
                    let boxed = Box::new(node);
                    proof {
                        assert(node_view(*boxed) == NodeV::Text { raw: raw@ });
                        assert(chain_view(Some(boxed)) =~= seq![
                            NodeV::Text { raw: raw@ },
                        ] + rest_view);
                    }
                    Ok((Some(boxed), j))
                },
            }
        },
        Token::SelfClose { tag, attrs } => {
            match parse_nodes(toks, i + 1) {
                Err(()) => Err(()),
                Ok((rest, j)) => {
                    let ghost rest_view = chain_view(rest);
                    let node = MarkupNode::Element {
                        tag: tag.clone(),
                        attrs: clone_attrs(attrs),
                        first_child: None,
                        next_sibling: rest,
                    };
                    let boxed = Box::new(node);
                    proof {
                        assert(chain_view(None) =~= Seq::<NodeV>::empty());
                        assert(node_view(*boxed) == NodeV::Elem {
                            tag: tag@,
                            attrs: crate::markup::attrs_view(attrs@),
                            children: Seq::empty(),
                        });
                        assert(chain_view(Some(boxed)) =~= seq![node_view(*boxed)] + rest_view);
                    }
                    Ok((Some(boxed), j))
                },
            }
        },
        Token::Open { tag, attrs } => {
            match parse_nodes(toks, i + 1) {
                Err(()) => Err(()),
                Ok((kids, j)) => {
                    if j >= toks.len() {
                        return Err(());
                    }
                    proof {
                        assert(tv[j as int] == toks@[j as int]@);
                    }
                    let tj = &toks[j];
                    match tj {
                        Token::Close { tag: t2 } => {
                            if !str_eq(t2.as_str(), tag.as_str()) {
                                return Err(());
                            }
                            match parse_nodes(toks, j + 1) {
                                Err(()) => Err(()),
                                Ok((rest, k)) => {
                                    let ghost kids_view = chain_view(kids);
                                    let ghost rest_view = chain_view(rest);
                                    let node = MarkupNode::Element {
                                        tag: tag.clone(),
                                        attrs: clone_attrs(attrs),
                                        first_child: kids,
                                        next_sibling: rest,
                                    };
                                    let boxed = Box::new(node);
                                    proof {
                                        assert(node_view(*boxed) == NodeV::Elem {
                                            tag: tag@,
                                            attrs: crate::markup::attrs_view(attrs@),
                                            children: kids_view,
                                        });
                                        assert(chain_view(Some(boxed)) =~= seq![
                                            node_view(*boxed),
                                        ] + rest_view);
                                    }
                                    Ok((Some(boxed), k))
                                },
                            }
                        },
                        _ => Err(()),
                    }
                },
            }
        },
    }
}

/// The top-level node sequence of a token stream: the whole stream must be
/// consumed, so a stray closing tag refuses it.
pub open spec fn spec_top(toks: Seq<TokenV>) -> Option<Seq<NodeV>> {
    match spec_parse_nodes(toks, 0) {
        None => None,
        Some((nodes, j)) => if j == toks.len() {
            Some(nodes)
        } else {
            None
        },
    }
}

/// The window fragments among a top-level node sequence: one per `window`
/// element, in document order; every other node is ignored.
pub open spec fn spec_windows(nodes: Seq<NodeV>) -> Seq<WindowMarkupV>
    decreases nodes.len(),
{
    if nodes.len() == 0 {
        Seq::empty()
    } else {
        let rest = spec_windows(nodes.drop_first());
        match nodes[0] {
            NodeV::Elem { tag, .. } => if tag == "window"@ {
                seq![
                    WindowMarkupV { root: nodes[0], css_paths: Seq::empty(), name: None },
                ] + rest
            } else {
                rest
            },
            NodeV::Text { .. } => rest,
        }
    }
}

/// Image of a window fragment list.
pub open spec fn windows_view(ws: Seq<WindowMarkup>) -> Seq<WindowMarkupV> {
    ws.map_values(|w: WindowMarkup| w@)
}

/// What loading a source text yields: its window fragments, or
/// `MalformedMarkup` exactly when the grammar rejects the text.
pub open spec fn spec_load(s: Seq<char>) -> Result<Seq<WindowMarkupV>, ErrV> {
    match spec_tokenize(s, 0) {
        None => Err(ErrV::MalformedMarkup),
        Some(toks) => match spec_top(toks) {
            None => Err(ErrV::MalformedMarkup),
            Some(nodes) => Ok(spec_windows(nodes)),
        },
    }
}

fn collect_windows(chain: Option<Box<MarkupNode>>) -> (r: Vec<WindowMarkup>)
    ensures
        windows_view(r@) == spec_windows(chain_view(chain)),
    decreases chain,
{
    let ghost cv = chain_view(chain);
    match chain {
        None => {
            let r: Vec<WindowMarkup> = Vec::new();
            proof {
                assert(cv =~= Seq::<NodeV>::empty());
                assert(windows_view(r@) =~= Seq::<WindowMarkupV>::empty());
                assert(spec_windows(cv) =~= Seq::<WindowMarkupV>::empty());
            }
            r
        },
        Some(b) => {
            let node = *b;
            match node {
                MarkupNode::Element { tag, attrs, first_child, next_sibling } => {
                    let ghost tag_v = tag@;
                    let ghost attrs_v = crate::markup::attrs_view(attrs@);
                    let ghost kids_v = chain_view(first_child);
                    proof {
                        assert(cv[0] == node_view(*b));
                        assert(cv.drop_first() =~= chain_view(next_sibling));
                    }
                    let mut rest = collect_windows(next_sibling);
                    if str_eq(tag.as_str(), "window") {
                        let ghost rest_snap = rest@;
                        let root = MarkupNode::Element {
                            tag,
                            attrs,
                            first_child,
                            next_sibling: None,
                        };
                        let wm = WindowMarkup { root, css_paths: Vec::new(), name: None };
                        proof {
                            assert(node_view(wm.root) == NodeV::Elem {
                                tag: tag_v,
                                attrs: attrs_v,
                                children: kids_v,
                            });
                            assert(node_view(wm.root) == cv[0]);
                            assert(wm@.css_paths =~= Seq::<Seq<char>>::empty());
                            assert(wm@ == WindowMarkupV {
                                root: cv[0],
                                css_paths: Seq::empty(),
                                name: None,
                            });
                        }
                        rest.insert(0, wm);
                        proof {
                            assert(windows_view(rest@) =~= seq![
                                WindowMarkupV { root: cv[0], css_paths: Seq::empty(), name: None },
                            ] + windows_view(rest_snap));
                        }
                    }
                    rest
                },
                MarkupNode::Text { next_sibling, .. } => {
                    proof {
                        assert(cv.drop_first() =~= chain_view(next_sibling));
                    }
                    collect_windows(next_sibling)
                },
            }
        },
    }
}

/// Load a source text: one window fragment per top-level `<window>` element
/// found, in document order; an empty result is a valid outcome. Fails with
/// `MalformedMarkup` exactly when the markup grammar rejects the text.
pub fn load(src: &str) -> (r: Result<Vec<WindowMarkup>, MarkupError>)
    ensures
        match r {
            Ok(ws) => spec_load(src@) == Ok::<_, ErrV>(windows_view(ws@)),
            Err(e) => spec_load(src@) == Err::<Seq<WindowMarkupV>, _>(e@),
        },
{
    let toks = match tokenize(src) {
        Ok(t) => t,
        Err(()) => {
            return Err(MarkupError::MalformedMarkup);
        },
    };
    let (chain, j) = match parse_nodes(&toks, 0) {
        Ok(p) => p,
        Err(()) => {
            return Err(MarkupError::MalformedMarkup);
        },
    };
    if j != toks.len() {
        return Err(MarkupError::MalformedMarkup);
    }
    Ok(collect_windows(chain))
}

} // verus!
