//! The tree builder: a bottom-up, depth-first, single-pass walk over a
//! window's markup tree. Leaves are finalized first; every element is
//! finalized strictly after all its children and attached to the
//! accumulating parent; siblings are finalized left to right in document
//! order. Finalizing appends one entity-creation operation to a build
//! context, so a context's operation sequence is the exact creation order
//! the host runtime must replay.

use vstd::prelude::*;
use crate::markup::{chain_view, node_view, strings_view, MarkupNode, NodeV, WindowMarkup};
use crate::text::str_eq;
use crate::widget::{
    props_view, spec_attach, spec_parse_attributes, ErrV, MarkupError, Prop, PropV, VariantV,
    WidgetKind, WidgetVariant,
};

verus! {

/// The stylesheet chain of one window: the paths are handed verbatim, in
/// the order supplied, to the host theme registry, which extends its
/// default theme with each in turn. An empty chain means the built-in
/// default theme.
#[derive(Debug, PartialEq)]
pub struct ThemeDescriptor {
    pub css_paths: Vec<String>,
}

impl View for ThemeDescriptor {
    type V = Seq<Seq<char>>;

    open spec fn view(&self) -> Seq<Seq<char>> {
        strings_view(self.css_paths@)
    }
}

/// Chain stylesheet paths into one theme descriptor, keeping their order.
pub fn resolve_theme(css_paths: &Vec<String>) -> (r: ThemeDescriptor)
    ensures
        r@ == strings_view(css_paths@),
{
    let mut paths: Vec<String> = Vec::new();
    let mut i: usize = 0;
    while i < css_paths.len()
        invariant
            i <= css_paths.len(),
            paths@.len() == i as int,
            forall|j: int| 0 <= j < i ==> paths@[j] == css_paths@[j],
        decreases css_paths.len() - i,
    {
        paths.push(css_paths[i].clone());
        i = i + 1;
    }
    proof {
        assert(paths@ =~= css_paths@);
    }
    ThemeDescriptor { css_paths: paths }
}

/// One entity-creation operation: the host runtime is to create an entity
/// of this kind, configured by these properties, holding these previously
/// created entities as children, and—for a window root—themed by this
/// stylesheet chain.
#[derive(Debug, PartialEq)]
pub struct BuildOp {
    pub kind: WidgetKind,
    pub props: Vec<Prop>,
    pub children: Vec<usize>,
    pub theme: Option<ThemeDescriptor>,
}

/// Mathematical image of an operation.
pub struct OpV {
    pub kind: WidgetKind,
    pub props: Seq<PropV>,
    pub children: Seq<int>,
    pub theme: Option<Seq<Seq<char>>>,
}

impl View for BuildOp {
    type V = OpV;

    open spec fn view(&self) -> OpV {
        OpV {
            kind: self.kind,
            props: props_view(self.props@),
            children: self.children@.map_values(|c: usize| c as int),
            theme: match self.theme {
                Some(ref t) => Some(t@),
                None => None,
            },
        }
    }
}

/// A build context: the entity store of one build pass. Entity handles are
/// the indices of the creation operations recorded so far, so the handle a
/// `finalize` returns always names the operation it appended.
pub struct BuildContext {
    pub ops: Vec<BuildOp>,
}

impl View for BuildContext {
    type V = Seq<OpV>;

    open spec fn view(&self) -> Seq<OpV> {
        self.ops@.map_values(|o: BuildOp| o@)
    }
}

impl BuildContext {
    /// A fresh context holding no entities.
    pub fn new() -> (r: Self)
        ensures
            r@ == Seq::<OpV>::empty(),
    {
        let r = BuildContext { ops: Vec::new() };
        proof {
            assert(r@ =~= Seq::<OpV>::empty());
        }
        r
    }
}

impl WidgetVariant {
    /// Finalize this variant into the context: append its creation
    /// operation and return the entity handle, the operation's index.
    pub fn finalize(self, ctx: &mut BuildContext) -> (r: usize)
        ensures
            final(ctx)@ == old(ctx)@.push(
                OpV { kind: self@.kind, props: self@.props, children: self@.children, theme: None },
            ),
            r as int == old(ctx)@.len(),
    {
        let id = ctx.ops.len();
        ctx.ops.push(BuildOp { kind: self.kind, props: self.props, children: self.children, theme: None });
        proof {
            assert(ctx@ =~= old(ctx)@.push(
                OpV { kind: self@.kind, props: self@.props, children: self@.children, theme: None },
            ));
        }
        id
    }

    /// Finalize a window root: as `finalize`, with the resolved theme
    /// recorded on the root operation.
    pub fn finalize_with_theme(self, theme: ThemeDescriptor, ctx: &mut BuildContext) -> (r: usize)
        ensures
            final(ctx)@ == old(ctx)@.push(
                OpV {
                    kind: self@.kind,
                    props: self@.props,
                    children: self@.children,
                    theme: Some(theme@),
                },
            ),
            r as int == old(ctx)@.len(),
    {
        let id = ctx.ops.len();
        let ghost tv = theme@;
        ctx.ops.push(BuildOp {
            kind: self.kind,
            props: self.props,
            children: self.children,
            theme: Some(theme),
        });
        proof {
            assert(ctx@ =~= old(ctx)@.push(
                OpV {
                    kind: self@.kind,
                    props: self@.props,
                    children: self@.children,
                    theme: Some(tv),
                },
            ));
        }
        id
    }
}

/// What building one element yields: the operations appended by its whole
/// subtree (its own creation last), and its entity handle. An element is
/// resolved, its attributes are coerced, its children are built and
/// attached in document order, and only then is it finalized.
pub open spec fn spec_build_elem(n: NodeV, ops: Seq<OpV>) -> Result<(Seq<OpV>, int), ErrV>
    decreases n, 0int,
{
    match n {
        NodeV::Text { .. } => Err(ErrV::NoWindowElement),
        NodeV::Elem { tag, attrs, children } => match crate::widget::spec_resolve(tag) {
            Err(e) => Err(e),
            Ok(kind) => {
                let v0 = VariantV { kind, props: Seq::empty(), children: Seq::empty() };
                match spec_parse_attributes(v0, attrs) {
                    Err(e) => Err(e),
                    Ok(v1) => match spec_build_children(children, ops, v1) {
                        Err(e) => Err(e),
                        Ok((ops2, v2)) => Ok(
                            (
                                ops2.push(
                                    OpV {
                                        kind: v2.kind,
                                        props: v2.props,
                                        children: v2.children,
                                        theme: None,
                                    },
                                ),
                                ops2.len() as int,
                            ),
                        ),
                    },
                }
            },
        },
    }
}

/// What building a child sequence onto an accumulating parent yields: text
/// nodes are skipped; each element is built bottom-up and its handle is
/// attached to the parent; the first failure aborts the whole build.
pub open spec fn spec_build_children(cs: Seq<NodeV>, ops: Seq<OpV>, parent: VariantV) -> Result<
    (Seq<OpV>, VariantV),
    ErrV,
>
    decreases cs, 1int,
{
    if cs.len() == 0 {
        Ok((ops, parent))
    } else {
        match cs[0] {
            NodeV::Text { .. } => spec_build_children(cs.drop_first(), ops, parent),
            NodeV::Elem { .. } => match spec_build_elem(cs[0], ops) {
                Err(e) => Err(e),
                Ok((ops2, id)) => match spec_attach(parent, id) {
                    Err(e) => Err(e),
                    Ok(p2) => spec_build_children(cs.drop_first(), ops2, p2),
                },
            },
        }
    }
}

/// Image of a node together with its following siblings, in document order.
pub open spec fn tail_view(n: MarkupNode) -> Seq<NodeV> {
    match n {
        MarkupNode::Element { next_sibling, .. } => seq![node_view(n)] + chain_view(next_sibling),
        MarkupNode::Text { next_sibling, .. } => seq![node_view(n)] + chain_view(next_sibling),
    }
}

/// What building a whole window tree yields: the root must be a `window`
/// element; its subtree is built onto the accumulating root variant, the
/// root's own attributes are coerced once the subtree is complete, and the
/// root is finalized last, carrying the window's resolved theme.
pub open spec fn spec_build_root(root: NodeV, css_paths: Seq<Seq<char>>, ops: Seq<OpV>) -> Result<
    (Seq<OpV>, int),
    ErrV,
> {
    match root {
        NodeV::Text { .. } => Err(ErrV::NoWindowElement),
        NodeV::Elem { tag, attrs, children } => {
            if tag != "window"@ {
                Err(ErrV::NoWindowElement)
            } else {
                let v0 = VariantV {
                    kind: WidgetKind::Window,
                    props: Seq::empty(),
                    children: Seq::empty(),
                };
                match spec_build_children(children, ops, v0) {
                    Err(e) => Err(e),
                    Ok((ops2, v1)) => match spec_parse_attributes(v1, attrs) {
                        Err(e) => Err(e),
                        Ok(v2) => Ok(
                            (
                                ops2.push(
                                    OpV {
                                        kind: v2.kind,
                                        props: v2.props,
                                        children: v2.children,
                                        theme: Some(css_paths),
                                    },
                                ),
                                ops2.len() as int,
                            ),
                        ),
                    },
                }
            }
        },
    }
}


pub proof fn lemma_prefix_refl(a: Seq<OpV>)
    ensures
        a.is_prefix_of(a),
{
    assert(a =~= a.subrange(0, a.len() as int));
}

pub proof fn lemma_prefix_push(a: Seq<OpV>, x: OpV)
    ensures
        a.is_prefix_of(a.push(x)),
{
    assert(a =~= a.push(x).subrange(0, a.len() as int));
}

pub proof fn lemma_prefix_trans(a: Seq<OpV>, b: Seq<OpV>, c: Seq<OpV>)
    requires
        a.is_prefix_of(b),
        b.is_prefix_of(c),
    ensures
        a.is_prefix_of(c),
{
    assert(a =~= c.subrange(0, a.len() as int));
}

impl WindowMarkup {
    /// Build a node and its following siblings onto the accumulating
    /// parent, appending every subtree's creation operations to the
    /// context.
    pub fn handle_children(
        node: &MarkupNode,
        ctx: &mut BuildContext,
        parent: WidgetVariant,
    ) -> (r: Result<WidgetVariant, MarkupError>)
        ensures
            old(ctx)@.is_prefix_of(final(ctx)@),
            match r {
                Ok(p2) => spec_build_children(tail_view(*node), old(ctx)@, parent@) == Ok::<
                    _,
                    ErrV,
                >((final(ctx)@, p2@)),
                Err(e) => spec_build_children(tail_view(*node), old(ctx)@, parent@) == Err::<
                    (Seq<OpV>, VariantV),
                    _,
                >(e@),
            },
        decreases node,
    {
        let ghost cs = tail_view(*node);
        match node {
            MarkupNode::Text { next_sibling, .. } => {
                proof {
                    assert(cs[0] is Text);
                    assert(cs.drop_first() =~= chain_view(*next_sibling));
                }
                match next_sibling {
                    Some(b) => {
                        proof {
                            assert(chain_view(*next_sibling) =~= tail_view(**b));
                        }
                        WindowMarkup::handle_children(&**b, ctx, parent)
                    },
                    None => {
                        proof {
                            lemma_prefix_refl(old(ctx)@);
                            assert(cs.drop_first() =~= Seq::<NodeV>::empty());
                            assert(spec_build_children(Seq::<NodeV>::empty(), old(ctx)@, parent@)
                                == Ok::<_, ErrV>((old(ctx)@, parent@)));
                        }
                        Ok(parent)
                    },
                }
            },
            MarkupNode::Element { tag, attrs, first_child, next_sibling } => {
                let ghost ops0 = old(ctx)@;
                proof {
                    assert(cs[0] == node_view(*node));
                    assert(cs.drop_first() =~= chain_view(*next_sibling));
                    lemma_prefix_refl(ops0);
                }
                let v0 = match WidgetVariant::resolve(tag.as_str()) {
                    Ok(v) => v,
                    Err(e) => {
                        return Err(e);
                    },
                };
                proof {
                    assert(v0@ == VariantV {
                        kind: v0.kind,
                        props: Seq::<PropV>::empty(),
                        children: Seq::<int>::empty(),
                    });
                }
                let v1 = match v0.parse_attributes(attrs) {
                    Ok(v) => v,
                    Err(e) => {
                        return Err(e);
                    },
                };
                let v2 = match first_child {
                    Some(c) => {
                        proof {
                            assert(chain_view(*first_child) =~= tail_view(**c));
                        }
                        match WindowMarkup::handle_children(&**c, ctx, v1) {
                            Ok(v) => v,
                            Err(e) => {
                                return Err(e);
                            },
                        }
                    },
                    None => {
                        proof {
                            assert(chain_view(*first_child) =~= Seq::<NodeV>::empty());
                        }
                        v1
                    },
                };
                proof {
                    assert(spec_build_children(chain_view(*first_child), ops0, v1@) == Ok::<
                        _,
                        ErrV,
                    >((ctx@, v2@)));
                }
                let ghost mid = ctx@;
                let id = v2.finalize(ctx);
                proof {
                    assert(spec_build_elem(cs[0], ops0) == Ok::<_, ErrV>((ctx@, id as int)));
                    lemma_prefix_push(mid, OpV {
                        kind: v2@.kind,
                        props: v2@.props,
                        children: v2@.children,
                        theme: None,
                    });
                    lemma_prefix_trans(ops0, mid, ctx@);
                }
                let p2 = match parent.attach_child(id) {
                    Ok(p) => p,
                    Err(e) => {
                        return Err(e);
                    },
                };
                proof {
                    assert(spec_build_children(cs, ops0, parent@) == spec_build_children(
                        cs.drop_first(),
                        ctx@,
                        p2@,
                    ));
                }
                let ghost pre_sib = ctx@;
                match next_sibling {
                    Some(b) => {
                        proof {
                            assert(chain_view(*next_sibling) =~= tail_view(**b));
                        }
                        let res = WindowMarkup::handle_children(&**b, ctx, p2);
                        proof {
                            lemma_prefix_trans(ops0, pre_sib, ctx@);
                        }
                        res
                    },
                    None => {
                        proof {
                            assert(cs.drop_first() =~= Seq::<NodeV>::empty());
                            assert(spec_build_children(Seq::<NodeV>::empty(), ctx@, p2@) == Ok::<
                                _,
                                ErrV,
                            >((ctx@, p2@)));
                        }
                        Ok(p2)
                    },
                }
            },
        }
    }

    /// Build the tree rooted at a `window` element, returning the root
    /// entity handle; refused with `NoWindowElement` on any other root.
    pub fn build_elements(
        root: &MarkupNode,
        ctx: &mut BuildContext,
        theme: ThemeDescriptor,
    ) -> (r: Result<usize, MarkupError>)
        ensures
            old(ctx)@.is_prefix_of(final(ctx)@),
            match r {
                Ok(id) => spec_build_root(node_view(*root), theme@, old(ctx)@) == Ok::<_, ErrV>(
                    (final(ctx)@, id as int),
                ),
                Err(e) => spec_build_root(node_view(*root), theme@, old(ctx)@) == Err::<
                    (Seq<OpV>, int),
                    _,
                >(e@),
            },
    {
        proof {
            lemma_prefix_refl(old(ctx)@);
        }
        match root {
            MarkupNode::Text { .. } => Err(MarkupError::NoWindowElement),
            MarkupNode::Element { tag, attrs, first_child, .. } => {
                let ghost ops0 = old(ctx)@;
                if !str_eq(tag.as_str(), "window") {
                    return Err(MarkupError::NoWindowElement);
                }
                let v0 = WidgetVariant {
                    kind: WidgetKind::Window,
                    props: Vec::new(),
                    children: Vec::new(),
                };
                proof {
                    assert(v0@.props =~= Seq::<PropV>::empty());
                    assert(v0@.children =~= Seq::<int>::empty());
                    assert(v0@ == VariantV {
                        kind: WidgetKind::Window,
                        props: Seq::<PropV>::empty(),
                        children: Seq::<int>::empty(),
                    });
                }
                let v1 = match first_child {
                    Some(c) => {
                        proof {
                            assert(chain_view(*first_child) =~= tail_view(**c));
                        }
                        match WindowMarkup::handle_children(&**c, ctx, v0) {
                            Ok(v) => v,
                            Err(e) => {
                                return Err(e);
                            },
                        }
                    },
                    None => {
                        proof {
                            assert(chain_view(*first_child) =~= Seq::<NodeV>::empty());
                        }
                        v0
                    },
                };
                proof {
                    assert(spec_build_children(chain_view(*first_child), ops0, v0@) == Ok::<
                        _,
                        ErrV,
                    >((ctx@, v1@)));
                }
                let v2 = match v1.parse_attributes(attrs) {
                    Ok(v) => v,
                    Err(e) => {
                        return Err(e);
                    },
                };
                let ghost mid = ctx@;
                let ghost tv = theme@;
                let id = v2.finalize_with_theme(theme, ctx);
                proof {
                    assert(spec_build_root(node_view(*root), tv, ops0) == Ok::<_, ErrV>(
                        (ctx@, id as int),
                    ));
                    lemma_prefix_push(mid, OpV {
                        kind: v2@.kind,
                        props: v2@.props,
                        children: v2@.children,
                        theme: Some(tv),
                    });
                    lemma_prefix_trans(ops0, mid, ctx@);
                }
                Ok(id)
            },
        }
    }

    /// Build this window fragment into the context and return the root
    /// entity handle. On failure the context is left exactly as it was: no
    /// partially built window is ever visible to the host runtime.
    pub fn build(&self, ctx: &mut BuildContext) -> (r: Result<usize, MarkupError>)
        ensures
            match r {
                Ok(id) => spec_build_root(self@.root, self@.css_paths, old(ctx)@) == Ok::<_, ErrV>(
                    (final(ctx)@, id as int),
                ),
                Err(e) => spec_build_root(self@.root, self@.css_paths, old(ctx)@) == Err::<
                    (Seq<OpV>, int),
                    _,
                >(e@) && final(ctx)@ == old(ctx)@,
            },
    {
        let len0 = ctx.ops.len();
        let theme = resolve_theme(&self.css_paths);
        match WindowMarkup::build_elements(&self.root, ctx, theme) {
            Ok(id) => Ok(id),
            Err(e) => {
                ctx.ops.truncate(len0);
                proof {
                    assert(ctx@ =~= old(ctx)@);
                }
                Err(e)
            },
        }
    }
}

} // verus!
