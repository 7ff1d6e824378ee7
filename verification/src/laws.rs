//! Laws of the compiler, each proved once and for all inputs: the closed
//! tag table, what coercion writes and what it refuses, the bottom-up
//! creation order of the tree builder, and the determinism of building.

use vstd::prelude::*;
use crate::builder::{
    lemma_prefix_push, lemma_prefix_refl, lemma_prefix_trans, spec_build_children,
    spec_build_elem, spec_build_root, OpV,
};
use crate::loader::spec_windows;
use crate::markup::{AttrV, NodeV, WindowMarkupV};
use crate::values::spec_coerce;
use crate::widget::{
    spec_apply, spec_attach, spec_lookup, spec_parse_attributes, spec_resolve, spec_schema, ErrV,
    PropV, VariantV, WidgetKind,
};

verus! {

/// Law: the tag table is closed. Each of the six supported tags resolves to
/// exactly its widget kind, and resolving any other string fails with
/// `UnknownWidgetKind` carrying that string.
pub proof fn lemma_resolve_closed(tag: Seq<char>)
    ensures
        spec_resolve("window"@) == Ok::<WidgetKind, ErrV>(WidgetKind::Window),
        spec_resolve("button"@) == Ok::<WidgetKind, ErrV>(WidgetKind::Button),
        spec_resolve("textbox"@) == Ok::<WidgetKind, ErrV>(WidgetKind::TextBox),
        spec_resolve("grid"@) == Ok::<WidgetKind, ErrV>(WidgetKind::Grid),
        spec_resolve("row"@) == Ok::<WidgetKind, ErrV>(WidgetKind::Row),
        spec_resolve("column"@) == Ok::<WidgetKind, ErrV>(WidgetKind::Column),
        !(tag == "window"@ || tag == "button"@ || tag == "textbox"@ || tag == "grid"@ || tag
            == "row"@ || tag == "column"@) ==> spec_resolve(tag) == Err::<WidgetKind, ErrV>(
            ErrV::UnknownWidgetKind(tag),
        ),
{
    reveal_strlit("window");
    reveal_strlit("button");
    reveal_strlit("textbox");
    reveal_strlit("grid");
    reveal_strlit("row");
    reveal_strlit("column");
    assert(("window"@)[0] == 'w');
    assert(("button"@)[0] == 'b');
    assert(("textbox"@)[0] == 't');
    assert(("grid"@)[0] == 'g');
    assert(("row"@)[0] == 'r');
    assert(("column"@)[0] == 'c');
    assert("button"@ != "window"@);
    assert("textbox"@ != "window"@ && "textbox"@ != "button"@);
    assert("grid"@ != "window"@ && "grid"@ != "button"@ && "grid"@ != "textbox"@);
    assert("row"@ != "window"@ && "row"@ != "button"@ && "row"@ != "textbox"@ && "row"@
        != "grid"@);
    assert("column"@ != "window"@ && "column"@ != "button"@ && "column"@ != "textbox"@
        && "column"@ != "grid"@ && "column"@ != "row"@);
}

/// Law: coercion writes exactly the recognized attributes that are present.
/// When coercion succeeds and the node carries schema attribute `k`, the
/// raw value coerces and the resulting property list contains that
/// attribute's name with exactly the coerced value.
pub proof fn lemma_coercion_present(
    kind: WidgetKind,
    attrs: Seq<AttrV>,
    i: int,
    k: int,
    props: Seq<PropV>,
)
    requires
        spec_apply(kind, attrs, i) == Ok::<Seq<PropV>, ErrV>(props),
        0 <= i <= k < spec_schema(kind).len(),
        spec_lookup(attrs, spec_schema(kind)[k].0) is Some,
    ensures
        spec_coerce(
            spec_schema(kind)[k].1,
            spec_lookup(attrs, spec_schema(kind)[k].0)->Some_0,
        ) is Some,
        props.contains(
            PropV {
                name: spec_schema(kind)[k].0,
                value: spec_coerce(
                    spec_schema(kind)[k].1,
                    spec_lookup(attrs, spec_schema(kind)[k].0)->Some_0,
                )->Some_0,
            },
        ),
    decreases k - i,
{
    let sch = spec_schema(kind);
    let name = sch[i].0;
    let ty = sch[i].1;
    if i == k {
        match spec_lookup(attrs, name) {
            Some(raw) => {
                let v = spec_coerce(ty, raw)->Some_0;
                let rest = spec_apply(kind, attrs, i + 1)->Ok_0;
                assert(props == seq![PropV { name, value: v }] + rest);
                assert(props[0] == PropV { name, value: v });
                assert(props.contains(PropV { name, value: v }));
            },
            None => {
                assert(false);
            },
        }
    } else {
        match spec_lookup(attrs, name) {
            None => {
                lemma_coercion_present(kind, attrs, i + 1, k, props);
            },
            Some(raw) => {
                let v = spec_coerce(ty, raw)->Some_0;
                let rest = spec_apply(kind, attrs, i + 1)->Ok_0;
                lemma_coercion_present(kind, attrs, i + 1, k, rest);
                assert(props == seq![PropV { name, value: v }] + rest);
                let p = PropV {
                    name: sch[k].0,
                    value: spec_coerce(sch[k].1, spec_lookup(attrs, sch[k].0)->Some_0)->Some_0,
                };
                let j = choose|j: int| 0 <= j < rest.len() && rest[j] == p;
                assert(props[j + 1] == p);
                assert(props.contains(p));
            },
        }
    }
}

/// Law: an absent attribute contributes nothing. When coercion succeeds, no
/// property carries the name of an attribute the node does not have, so the
/// kind's default stands for it.
pub proof fn lemma_coercion_absent(
    kind: WidgetKind,
    attrs: Seq<AttrV>,
    i: int,
    props: Seq<PropV>,
    name: Seq<char>,
)
    requires
        spec_apply(kind, attrs, i) == Ok::<Seq<PropV>, ErrV>(props),
        0 <= i,
        spec_lookup(attrs, name) is None,
    ensures
        forall|j: int| 0 <= j < props.len() ==> (#[trigger] props[j]).name != name,
    decreases spec_schema(kind).len() - i,
{
    let sch = spec_schema(kind);
    if i < sch.len() {
        match spec_lookup(attrs, sch[i].0) {
            None => {
                lemma_coercion_absent(kind, attrs, i + 1, props, name);
            },
            Some(raw) => {
                let v = spec_coerce(sch[i].1, raw)->Some_0;
                let rest = spec_apply(kind, attrs, i + 1)->Ok_0;
                lemma_coercion_absent(kind, attrs, i + 1, rest, name);
                assert(props == seq![PropV { name: sch[i].0, value: v }] + rest);
                assert(forall|j: int| 1 <= j < props.len() ==> props[j] == rest[j - 1]);
            },
        }
    }
}

/// Law: a malformed attribute value is never defaulted away. When the node
/// carries schema attribute `k` with a raw value its target grammar
/// rejects, coercion fails, and the failure is an `AttributeCoercionError`
/// naming this kind and a recognized attribute whose present raw value does
/// not coerce.
pub proof fn lemma_coercion_error(kind: WidgetKind, attrs: Seq<AttrV>, i: int, k: int)
    requires
        0 <= i <= k < spec_schema(kind).len(),
        spec_lookup(attrs, spec_schema(kind)[k].0) is Some,
        spec_coerce(
            spec_schema(kind)[k].1,
            spec_lookup(attrs, spec_schema(kind)[k].0)->Some_0,
        ) is None,
    ensures
        spec_apply(kind, attrs, i) is Err,
        match spec_apply(kind, attrs, i) {
            Err(e) => match e {
                ErrV::AttributeCoercionError { kind: k2, attribute, raw_value } => {
                    &&& k2 == kind
                    &&& spec_lookup(attrs, attribute) == Some(raw_value)
                    &&& exists|m: int|
                        i <= m < spec_schema(kind).len() && (#[trigger] spec_schema(kind)[m]).0
                            == attribute && spec_coerce(spec_schema(kind)[m].1, raw_value) is None
                },
                _ => false,
            },
            Ok(_) => false,
        },
    decreases k - i,
{
    let sch = spec_schema(kind);
    let name = sch[i].0;
    let ty = sch[i].1;
    if i == k {
        let raw = spec_lookup(attrs, name)->Some_0;
        assert(spec_apply(kind, attrs, i) == Err::<Seq<PropV>, ErrV>(
            ErrV::AttributeCoercionError { kind, attribute: name, raw_value: raw },
        ));
        assert(i <= i < sch.len() && sch[i].0 == name && spec_coerce(sch[i].1, raw) is None);
    } else {
        match spec_lookup(attrs, name) {
            None => {
                lemma_coercion_error(kind, attrs, i + 1, k);
            },
            Some(raw) => {
                match spec_coerce(ty, raw) {
                    None => {
                        assert(i <= i < sch.len() && sch[i].0 == name && spec_coerce(sch[i].1, raw)
                            is None);
                    },
                    Some(_) => {
                        lemma_coercion_error(kind, attrs, i + 1, k);
                    },
                }
            },
        }
    }
}

/// Number of element nodes in one subtree.
pub open spec fn elem_count(n: NodeV) -> nat
    decreases n, 0int,
{
    match n {
        NodeV::Text { .. } => 0,
        NodeV::Elem { children, .. } => 1 + elems_count(children),
    }
}

/// Number of element nodes in a node sequence's subtrees.
pub open spec fn elems_count(cs: Seq<NodeV>) -> nat
    decreases cs, 1int,
{
    if cs.len() == 0 {
        0
    } else {
        elem_count(cs[0]) + elems_count(cs.drop_first())
    }
}

/// A child list is sound below `bound`: every handle names an operation
/// created earlier than `bound`, and the handles grow left to right, the
/// attachment order.
pub open spec fn children_ok(children: Seq<int>, bound: int) -> bool {
    &&& forall|j: int| 0 <= j < children.len() ==> 0 <= #[trigger] children[j] < bound
    &&& forall|j1: int, j2: int|
        0 <= j1 < j2 < children.len() ==> children[j1] < children[j2]
}

/// An operation sequence is bottom-up: every operation's children were
/// created strictly before it, in increasing creation order.
pub open spec fn ops_ok(ops: Seq<OpV>) -> bool {
    forall|i: int| 0 <= i < ops.len() ==> children_ok((#[trigger] ops[i]).children, i)
}

/// Law (round trip of one element): a successful build of an element's
/// subtree appends exactly one creation operation per element of the
/// subtree, returns the last of them as the element's handle, keeps the
/// context's earlier operations untouched, emits no theme below a root,
/// and preserves bottom-up order.
pub proof fn lemma_build_elem_ops(n: NodeV, ops: Seq<OpV>, ops2: Seq<OpV>, id: int)
    requires
        spec_build_elem(n, ops) == Ok::<(Seq<OpV>, int), ErrV>((ops2, id)),
        ops_ok(ops),
    ensures
        ops.is_prefix_of(ops2),
        ops2.len() == ops.len() + elem_count(n),
        id == ops2.len() - 1,
        ops_ok(ops2),
        forall|i: int| ops.len() <= i < ops2.len() ==> (#[trigger] ops2[i]).theme is None,
    decreases n, 0int,
{
    match n {
        NodeV::Text { .. } => {
            assert(false);
        },
        NodeV::Elem { tag, attrs, children } => {
            let kind = spec_resolve(tag)->Ok_0;
            let v0 = VariantV { kind, props: Seq::empty(), children: Seq::empty() };
            let v1 = spec_parse_attributes(v0, attrs)->Ok_0;
            match spec_build_children(children, ops, v1) {
                Err(_) => {
                    assert(false);
                },
                Ok((mid, v2)) => {
                    lemma_build_children_ops(children, ops, v1, mid, v2);
                    let op = OpV {
                        kind: v2.kind,
                        props: v2.props,
                        children: v2.children,
                        theme: None,
                    };
                    assert(ops2 == mid.push(op));
                    lemma_prefix_push(mid, op);
                    lemma_prefix_trans(ops, mid, ops2);
                    assert forall|i: int| 0 <= i < ops2.len() implies children_ok(
                        (#[trigger] ops2[i]).children,
                        i,
                    ) by {
                        if i < mid.len() {
                            assert(ops2[i] == mid[i]);
                        } else {
                            assert(ops2[i] == op);
                        }
                    }
                },
            }
        },
    }
}

/// Law (round trip of a sibling sequence): a successful build of a node
/// sequence onto an accumulating parent appends exactly one creation
/// operation per element in the sequence's subtrees, attaches the elements'
/// handles to the parent left to right in increasing creation order, keeps
/// the parent's kind, and preserves bottom-up order.
pub proof fn lemma_build_children_ops(
    cs: Seq<NodeV>,
    ops: Seq<OpV>,
    parent: VariantV,
    ops2: Seq<OpV>,
    p2: VariantV,
)
    requires
        spec_build_children(cs, ops, parent) == Ok::<(Seq<OpV>, VariantV), ErrV>((ops2, p2)),
        ops_ok(ops),
        children_ok(parent.children, ops.len() as int),
    ensures
        ops.is_prefix_of(ops2),
        ops2.len() == ops.len() + elems_count(cs),
        ops_ok(ops2),
        children_ok(p2.children, ops2.len() as int),
        p2.kind == parent.kind,
        p2.props == parent.props,
        forall|i: int| ops.len() <= i < ops2.len() ==> (#[trigger] ops2[i]).theme is None,
    decreases cs, 1int,
{
    if cs.len() == 0 {
        lemma_prefix_refl(ops);
    } else {
        match cs[0] {
            NodeV::Text { .. } => {
                lemma_build_children_ops(cs.drop_first(), ops, parent, ops2, p2);
            },
            NodeV::Elem { .. } => {
                match spec_build_elem(cs[0], ops) {
                    Err(_) => {
                        assert(false);
                    },
                    Ok((ops_e, id)) => {
                        lemma_build_elem_ops(cs[0], ops, ops_e, id);
                        match spec_attach(parent, id) {
                            Err(_) => {
                                assert(false);
                            },
                            Ok(p_mid) => {
                                assert(elem_count(cs[0]) >= 1);
                                assert(children_ok(p_mid.children, ops_e.len() as int));
                                lemma_build_children_ops(cs.drop_first(), ops_e, p_mid, ops2, p2);
                                lemma_prefix_trans(ops, ops_e, ops2);
                                assert forall|i: int|
                                    ops.len() <= i < ops2.len() implies (#[trigger] ops2[i]).theme
                                    is None by {
                                    if i < ops_e.len() {
                                        assert(ops_e =~= ops2.subrange(0, ops_e.len() as int));
                                        assert(ops2[i] == ops_e[i]);
                                    }
                                }
                            },
                        }
                    },
                }
            },
        }
    }
}

/// Law (round trip of a whole window): a successful window build from a
/// fresh context creates exactly one entity per element of the markup tree;
/// the root entity is created last; every entity's children are created
/// strictly before it, left to right in document order; and the window's
/// theme is applied exactly once, on the root operation.
pub proof fn lemma_build_root_ops(
    root: NodeV,
    css_paths: Seq<Seq<char>>,
    ops: Seq<OpV>,
    id: int,
)
    requires
        spec_build_root(root, css_paths, Seq::empty()) == Ok::<(Seq<OpV>, int), ErrV>((ops, id)),
    ensures
        ops.len() == elem_count(root),
        id == ops.len() - 1,
        ops_ok(ops),
        ops.last().theme == Some(css_paths),
        forall|i: int| 0 <= i < ops.len() - 1 ==> (#[trigger] ops[i]).theme is None,
{
    match root {
        NodeV::Text { .. } => {
            assert(false);
        },
        NodeV::Elem { tag, attrs, children } => {
            let v0 = VariantV {
                kind: WidgetKind::Window,
                props: Seq::empty(),
                children: Seq::empty(),
            };
            match spec_build_children(children, Seq::empty(), v0) {
                Err(_) => {
                    assert(false);
                },
                Ok((mid, v1)) => {
                    assert(children_ok(v0.children, 0));
                    assert(ops_ok(Seq::<OpV>::empty()));
                    lemma_build_children_ops(children, Seq::empty(), v0, mid, v1);
                    let v2 = spec_parse_attributes(v1, attrs)->Ok_0;
                    let op = OpV {
                        kind: v2.kind,
                        props: v2.props,
                        children: v2.children,
                        theme: Some(css_paths),
                    };
                    assert(ops == mid.push(op));
                    assert(ops.last() == op);
                    assert forall|i: int| 0 <= i < ops.len() implies children_ok(
                        (#[trigger] ops[i]).children,
                        i,
                    ) by {
                        if i < mid.len() {
                            assert(ops[i] == mid[i]);
                        } else {
                            assert(ops[i] == op);
                        }
                    }
                },
            }
        },
    }
}

/// Law (idempotence): building one window fragment twice, each time against
/// an independent fresh build context, yields identical operation sequences
/// and identical root handles: the build is a function of the markup alone.
pub proof fn lemma_build_idempotent(
    wm: WindowMarkupV,
    ops1: Seq<OpV>,
    id1: int,
    ops2: Seq<OpV>,
    id2: int,
)
    requires
        spec_build_root(wm.root, wm.css_paths, Seq::empty()) == Ok::<(Seq<OpV>, int), ErrV>(
            (ops1, id1),
        ),
        spec_build_root(wm.root, wm.css_paths, Seq::empty()) == Ok::<(Seq<OpV>, int), ErrV>(
            (ops2, id2),
        ),
    ensures
        ops1 == ops2,
        id1 == id2,
{
}

/// Whether a node is a `window` element.
pub open spec fn is_window_elem(n: NodeV) -> bool {
    match n {
        NodeV::Elem { tag, .. } => tag == "window"@,
        NodeV::Text { .. } => false,
    }
}

/// Law: the loader only ever roots fragments at `window` elements.
pub proof fn lemma_loaded_roots_are_windows(nodes: Seq<NodeV>)
    ensures
        forall|i: int|
            0 <= i < spec_windows(nodes).len() ==> is_window_elem(
                (#[trigger] spec_windows(nodes)[i]).root,
            ),
    decreases nodes.len(),
{
    if nodes.len() > 0 {
        lemma_loaded_roots_are_windows(nodes.drop_first());
        let rest = spec_windows(nodes.drop_first());
        match nodes[0] {
            NodeV::Elem { tag, .. } => {
                if tag == "window"@ {
                    let first = WindowMarkupV {
                        root: nodes[0],
                        css_paths: Seq::empty(),
                        name: None,
                    };
                    assert(spec_windows(nodes) == seq![first] + rest);
                    assert(forall|i: int|
                        1 <= i < spec_windows(nodes).len() ==> spec_windows(nodes)[i] == rest[i
                            - 1]);
                }
            },
            NodeV::Text { .. } => {},
        }
    }
}

/// Coercion only ever fails with an `AttributeCoercionError`.
pub proof fn lemma_apply_err_is_coercion(kind: WidgetKind, attrs: Seq<AttrV>, i: int)
    requires
        0 <= i,
    ensures
        spec_apply(kind, attrs, i) is Err ==> spec_apply(
            kind,
            attrs,
            i,
        )->Err_0 is AttributeCoercionError,
    decreases spec_schema(kind).len() - i,
{
    let sch = spec_schema(kind);
    if i < sch.len() {
        lemma_apply_err_is_coercion(kind, attrs, i + 1);
    }
}

/// Building an element never fails with `NoWindowElement`: that error
/// belongs to the root check alone.
pub proof fn lemma_elem_no_root_error(n: NodeV, ops: Seq<OpV>)
    requires
        n is Elem,
    ensures
        spec_build_elem(n, ops) is Err ==> !(spec_build_elem(n, ops)->Err_0 is NoWindowElement),
    decreases n, 0int,
{
    match n {
        NodeV::Text { .. } => {},
        NodeV::Elem { tag, attrs, children } => {
            match spec_resolve(tag) {
                Err(_) => {},
                Ok(kind) => {
                    let v0 = VariantV { kind, props: Seq::empty(), children: Seq::empty() };
                    lemma_apply_err_is_coercion(kind, attrs, 0);
                    match spec_parse_attributes(v0, attrs) {
                        Err(_) => {},
                        Ok(v1) => {
                            lemma_children_no_root_error(children, ops, v1);
                        },
                    }
                },
            }
        },
    }
}

/// Building a child sequence never fails with `NoWindowElement` either.
pub proof fn lemma_children_no_root_error(cs: Seq<NodeV>, ops: Seq<OpV>, parent: VariantV)
    ensures
        spec_build_children(cs, ops, parent) is Err ==> !(spec_build_children(
            cs,
            ops,
            parent,
        )->Err_0 is NoWindowElement),
    decreases cs, 1int,
{
    if cs.len() > 0 {
        match cs[0] {
            NodeV::Text { .. } => {
                lemma_children_no_root_error(cs.drop_first(), ops, parent);
            },
            NodeV::Elem { .. } => {
                lemma_elem_no_root_error(cs[0], ops);
                match spec_build_elem(cs[0], ops) {
                    Err(_) => {},
                    Ok((ops2, id)) => {
                        match spec_attach(parent, id) {
                            Err(_) => {},
                            Ok(p2) => {
                                lemma_children_no_root_error(cs.drop_first(), ops2, p2);
                            },
                        }
                    },
                }
            },
        }
    }
}

/// Law: on a fragment rooted at a `window` element—as every loaded fragment
/// is—the tree builder never fails with `NoWindowElement`: the root check is
/// defensive, not a reachable path under loaded input.
pub proof fn lemma_no_window_element_on_loaded(root: NodeV, css_paths: Seq<Seq<char>>, ops: Seq<OpV>)
    requires
        is_window_elem(root),
    ensures
        spec_build_root(root, css_paths, ops) is Err ==> !(spec_build_root(
            root,
            css_paths,
            ops,
        )->Err_0 is NoWindowElement),
{
    match root {
        NodeV::Text { .. } => {},
        NodeV::Elem { tag, attrs, children } => {
            let v0 = VariantV {
                kind: WidgetKind::Window,
                props: Seq::empty(),
                children: Seq::empty(),
            };
            lemma_children_no_root_error(children, ops, v0);
            match spec_build_children(children, ops, v0) {
                Err(_) => {},
                Ok((ops2, v1)) => {
                    lemma_apply_err_is_coercion(v1.kind, attrs, 0);
                },
            }
        },
    }
}

} // verus!
