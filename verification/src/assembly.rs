//! Window and application assembly: extracting a window's chrome
//! description from its built root, packaging one window fragment into a
//! replayable plan, and assembling every fragment of a document into a list
//! of per-window outcomes. A failing window is reported in place and skipped;
//! it never aborts the other windows, and zero fragments assemble to zero
//! windows, a valid configuration.

use vstd::prelude::*;
use crate::builder::{
    resolve_theme, spec_build_root, BuildContext, BuildOp, OpV, ThemeDescriptor,
};
use crate::markup::WindowMarkup;
use crate::values::{AttrValue, Decimal, ValueV};
use crate::widget::{props_view, ErrV, MarkupError, Prop, PropV};

verus! {

/// First value of the property called `name` from position `i` on.
pub open spec fn spec_prop_lookup_from(props: Seq<PropV>, name: Seq<char>, i: int) -> Option<
    ValueV,
>
    decreases props.len() - i,
{
    if i < 0 || i >= props.len() {
        None
    } else if props[i].name == name {
        Some(props[i].value)
    } else {
        spec_prop_lookup_from(props, name, i + 1)
    }
}

/// First value of the property called `name`.
pub open spec fn spec_prop_lookup(props: Seq<PropV>, name: Seq<char>) -> Option<ValueV> {
    spec_prop_lookup_from(props, name, 0)
}

fn prop_lookup_from(props: &Vec<Prop>, name: &str, i: usize) -> (r: Option<AttrValue>)
    requires
        i <= props.len(),
    ensures
        match r {
            Some(v) => spec_prop_lookup_from(props_view(props@), name@, i as int) == Some(v@),
            None => spec_prop_lookup_from(props_view(props@), name@, i as int) is None,
        },
    decreases props.len() - i,
{
    if i >= props.len() {
        None
    } else if crate::text::str_eq(props[i].name.as_str(), name) {
        Some(props[i].value.clone())
    } else {
        prop_lookup_from(props, name, i + 1)
    }
}

/// Executable mirror of `spec_prop_lookup`.
pub fn prop_lookup(props: &Vec<Prop>, name: &str) -> (r: Option<AttrValue>)
    ensures
        match r {
            Some(v) => spec_prop_lookup(props_view(props@), name@) == Some(v@),
            None => spec_prop_lookup(props_view(props@), name@) is None,
        },
{
    prop_lookup_from(props, name, 0)
}

/// The chrome of a finished window, read from the built window root's typed
/// properties: its title, bounds and boolean flags. A `None` field was not
/// written in the markup and is left to the host runtime's default.
#[derive(Debug, PartialEq)]
pub struct WindowDescriptor {
    pub title: Option<String>,
    pub width: Option<Decimal>,
    pub height: Option<Decimal>,
    pub borderless: Option<bool>,
    pub resizeable: Option<bool>,
    pub always_on_top: Option<bool>,
}

/// Mathematical image of a window descriptor.
pub struct DescV {
    pub title: Option<Seq<char>>,
    pub width: Option<Decimal>,
    pub height: Option<Decimal>,
    pub borderless: Option<bool>,
    pub resizeable: Option<bool>,
    pub always_on_top: Option<bool>,
}

impl View for WindowDescriptor {
    type V = DescV;

    open spec fn view(&self) -> DescV {
        DescV {
            title: match self.title {
                Some(ref s) => Some(s@),
                None => None,
            },
            width: self.width,
            height: self.height,
            borderless: self.borderless,
            resizeable: self.resizeable,
            always_on_top: self.always_on_top,
        }
    }
}

/// What the descriptor of a built window root holds: each chrome field is
/// the typed value coerced for the matching attribute, or absent.
pub open spec fn spec_descriptor(props: Seq<PropV>) -> DescV {
    DescV {
        title: match spec_prop_lookup(props, "title"@) {
            Some(ValueV::Text(s)) => Some(s),
            _ => None,
        },
        width: match spec_prop_lookup(props, "width"@) {
            Some(ValueV::Dec(d)) => Some(d),
            _ => None,
        },
        height: match spec_prop_lookup(props, "height"@) {
            Some(ValueV::Dec(d)) => Some(d),
            _ => None,
        },
        borderless: match spec_prop_lookup(props, "borderless"@) {
            Some(ValueV::Flag(b)) => Some(b),
            _ => None,
        },
        resizeable: match spec_prop_lookup(props, "resizeable"@) {
            Some(ValueV::Flag(b)) => Some(b),
            _ => None,
        },
        always_on_top: match spec_prop_lookup(props, "always_on_top"@) {
            Some(ValueV::Flag(b)) => Some(b),
            _ => None,
        },
    }
}

/// Read a window root's chrome from its typed properties.
pub fn descriptor_of(props: &Vec<Prop>) -> (r: WindowDescriptor)
    ensures
        r@ == spec_descriptor(props_view(props@)),
{
    let title = match prop_lookup(props, "title") {
        Some(AttrValue::Text(s)) => Some(s),
        _ => None,
    };
    let width = match prop_lookup(props, "width") {
        Some(AttrValue::Dec(d)) => Some(d),
        _ => None,
    };
    let height = match prop_lookup(props, "height") {
        Some(AttrValue::Dec(d)) => Some(d),
        _ => None,
    };
    let borderless = match prop_lookup(props, "borderless") {
        Some(AttrValue::Flag(b)) => Some(b),
        _ => None,
    };
    let resizeable = match prop_lookup(props, "resizeable") {
        Some(AttrValue::Flag(b)) => Some(b),
        _ => None,
    };
    let always_on_top = match prop_lookup(props, "always_on_top") {
        Some(AttrValue::Flag(b)) => Some(b),
        _ => None,
    };
    WindowDescriptor { title, width, height, borderless, resizeable, always_on_top }
}

/// The finished plan of one window: the entity-creation operations in
/// replay order, the root entity's handle (always the last operation), the
/// window chrome, and the window's theme.
#[derive(Debug, PartialEq)]
pub struct WindowPlan {
    pub ops: Vec<BuildOp>,
    pub root: usize,
    pub descriptor: WindowDescriptor,
    pub theme: ThemeDescriptor,
}

/// Mathematical image of a window plan.
pub struct PlanV {
    pub ops: Seq<OpV>,
    pub root: int,
    pub descriptor: DescV,
    pub theme: Seq<Seq<char>>,
}

impl View for WindowPlan {
    type V = PlanV;

    open spec fn view(&self) -> PlanV {
        PlanV {
            ops: self.ops@.map_values(|o: BuildOp| o@),
            root: self.root as int,
            descriptor: self.descriptor@,
            theme: self.theme@,
        }
    }
}

/// What planning one window fragment yields: the operations of a build from
/// a fresh context, the root handle, the chrome read from the root
/// operation, and the fragment's stylesheet chain.
pub open spec fn spec_plan(wm: crate::markup::WindowMarkupV) -> Result<PlanV, ErrV> {
    match spec_build_root(wm.root, wm.css_paths, Seq::empty()) {
        Err(e) => Err(e),
        Ok((ops, root)) => Ok(
            PlanV {
                ops,
                root,
                descriptor: spec_descriptor(ops.last().props),
                theme: wm.css_paths,
            },
        ),
    }
}

/// Build one window fragment against a fresh build context into a plan.
pub fn build_window(wm: &WindowMarkup) -> (r: Result<WindowPlan, MarkupError>)
    ensures
        match r {
            Ok(p) => spec_plan(wm@) == Ok::<_, ErrV>(p@),
            Err(e) => spec_plan(wm@) == Err::<PlanV, _>(e@),
        },
{
    let mut ctx = BuildContext::new();
    match wm.build(&mut ctx) {
        Err(e) => Err(e),
        Ok(root) => {
            proof {
                assert(ctx@.len() > 0);
                assert(root as int == ctx@.len() - 1);
                assert(ctx@[root as int] == ctx.ops@[root as int]@);
            }
            let root_op = &ctx.ops[root];
            let descriptor = descriptor_of(&root_op.props);
            let theme = resolve_theme(&wm.css_paths);
            let plan = WindowPlan { ops: ctx.ops, root, descriptor, theme };
            proof {
                assert(plan@.ops == ctx@);
            }
            Ok(plan)
        },
    }
}

/// Image of one per-window outcome.
pub open spec fn res_view(r: Result<WindowPlan, MarkupError>) -> Result<PlanV, ErrV> {
    match r {
        Ok(p) => Ok(p@),
        Err(e) => Err(e@),
    }
}

/// Assemble every loaded window fragment: exactly one outcome per fragment,
/// in document order. A window that fails to build is reported as its error
/// and skipped; it aborts neither the application nor the other windows,
/// and an empty fragment list yields an empty application.
pub fn assemble(windows: &Vec<WindowMarkup>) -> (r: Vec<Result<WindowPlan, MarkupError>>)
    ensures
        r@.len() == windows@.len(),
        forall|i: int| 0 <= i < r@.len() ==> res_view(r@[i]) == spec_plan(windows@[i]@),
{
    let mut out: Vec<Result<WindowPlan, MarkupError>> = Vec::new();
    let mut i: usize = 0;
    while i < windows.len()
        invariant
            i <= windows.len(),
            out@.len() == i as int,
            forall|j: int| 0 <= j < i ==> res_view(out@[j]) == spec_plan(windows@[j]@),
        decreases windows.len() - i,
    {
        out.push(build_window(&windows[i]));
        i = i + 1;
    }
    out
}

/// Chain one stylesheet path onto every window of a document, keeping the
/// windows' order and everything else about them.
pub fn add_all(windows: Vec<WindowMarkup>, path: &str) -> (r: Vec<WindowMarkup>)
    ensures
        r@.len() == windows@.len(),
        forall|i: int| 0 <= i < r@.len() ==> {
            &&& r@[i]@.root == windows@[i]@.root
            &&& r@[i]@.name == windows@[i]@.name
            &&& r@[i]@.css_paths == windows@[i]@.css_paths.push(path@)
        },
{
    let ghost all = windows@;
    let mut rest = windows;
    let mut out: Vec<WindowMarkup> = Vec::new();
    while rest.len() > 0
        invariant
            out@.len() + rest@.len() == all.len(),
            forall|j: int| 0 <= j < rest@.len() ==> rest@[j] == all[out@.len() + j],
            forall|i: int| 0 <= i < out@.len() ==> {
                &&& out@[i]@.root == all[i]@.root
                &&& out@[i]@.name == all[i]@.name
                &&& out@[i]@.css_paths == all[i]@.css_paths.push(path@)
            },
        decreases rest.len(),
    {
        let wm = rest.remove(0);
        out.push(wm.add_css_path(path));
    }
    out
}

} // verus!
