use xml_orbtk::assembly::{add_all, assemble, build_window};
use xml_orbtk::dynamic::{CollectCallback, DynamicType};
use xml_orbtk::builder::BuildContext;
use xml_orbtk::loader::load;
use xml_orbtk::markup::Attr;
use xml_orbtk::values::{AttrValue, Decimal, SizePolicy};
use xml_orbtk::widget::{MarkupError, WidgetKind, WidgetVariant};

fn dec(neg: bool, mantissa: u64, scale: u32) -> Decimal {
    Decimal { neg, mantissa, scale }
}

fn one_window(src: &str) -> xml_orbtk::markup::WindowMarkup {
    let ws = load(src).unwrap();
    assert_eq!(ws.len(), 1);
    ws.into_iter().next().unwrap()
}

fn prop_of(op: &xml_orbtk::builder::BuildOp, name: &str) -> Option<AttrValue> {
    xml_orbtk::assembly::prop_lookup(&op.props, name)
}

#[test]
fn resolve_supported_tags() {
    assert_eq!(WidgetVariant::resolve("window").unwrap().kind, WidgetKind::Window);
    assert_eq!(WidgetVariant::resolve("button").unwrap().kind, WidgetKind::Button);
    assert_eq!(WidgetVariant::resolve("textbox").unwrap().kind, WidgetKind::TextBox);
    assert_eq!(WidgetVariant::resolve("grid").unwrap().kind, WidgetKind::Grid);
    assert_eq!(WidgetVariant::resolve("row").unwrap().kind, WidgetKind::Row);
    assert_eq!(WidgetVariant::resolve("column").unwrap().kind, WidgetKind::Column);
}

#[test]
fn resolve_unknown_tag_is_refused() {
    assert_eq!(
        WidgetVariant::resolve("frobnicate"),
        Err(MarkupError::UnknownWidgetKind("frobnicate".to_string()))
    );
    assert!(WidgetVariant::resolve("Window").is_err());
    assert!(WidgetVariant::resolve("").is_err());
}

#[test]
fn coercion_sets_present_fields() {
    let attrs = vec![
        Attr { name: "width".to_string(), value: "200".to_string() },
        Attr { name: "title".to_string(), value: "Hi".to_string() },
        Attr { name: "resizeable".to_string(), value: "true".to_string() },
    ];
    let v = WidgetVariant::resolve("window").unwrap().parse_attributes(&attrs).unwrap();
    assert_eq!(v.props.len(), 3);
    assert_eq!(
        xml_orbtk::assembly::prop_lookup(&v.props, "width"),
        Some(AttrValue::Dec(dec(false, 200, 0)))
    );
    assert_eq!(
        xml_orbtk::assembly::prop_lookup(&v.props, "title"),
        Some(AttrValue::Text("Hi".to_string()))
    );
    assert_eq!(
        xml_orbtk::assembly::prop_lookup(&v.props, "resizeable"),
        Some(AttrValue::Flag(true))
    );
    assert_eq!(xml_orbtk::assembly::prop_lookup(&v.props, "height"), None);
}

#[test]
fn coercion_is_order_independent() {
    let a = vec![
        Attr { name: "width".to_string(), value: "200".to_string() },
        Attr { name: "height".to_string(), value: "100".to_string() },
    ];
    let b = vec![
        Attr { name: "height".to_string(), value: "100".to_string() },
        Attr { name: "width".to_string(), value: "200".to_string() },
    ];
    let va = WidgetVariant::resolve("window").unwrap().parse_attributes(&a).unwrap();
    let vb = WidgetVariant::resolve("window").unwrap().parse_attributes(&b).unwrap();
    assert_eq!(va.props, vb.props);
}

#[test]
fn coercion_unrecognized_attribute_is_ignored() {
    let attrs = vec![Attr { name: "flavour".to_string(), value: "mint".to_string() }];
    let v = WidgetVariant::resolve("button").unwrap().parse_attributes(&attrs).unwrap();
    assert!(v.props.is_empty());
}

#[test]
fn coercion_fails_on_malformed_value() {
    let attrs = vec![Attr { name: "width".to_string(), value: "abc".to_string() }];
    let r = WidgetVariant::resolve("window").unwrap().parse_attributes(&attrs);
    assert_eq!(
        r.err().unwrap(),
        MarkupError::AttributeCoercionError {
            kind: WidgetKind::Window,
            attribute: "width".to_string(),
            raw_value: "abc".to_string(),
        }
    );
}

#[test]
fn attach_child_refused_on_non_container() {
    let button = WidgetVariant::resolve("button").unwrap();
    assert_eq!(button.attach_child(0), Err(MarkupError::NotAContainer(WidgetKind::Button)));
    let textbox = WidgetVariant::resolve("textbox").unwrap();
    assert!(textbox.attach_child(0).is_err());
    let grid = WidgetVariant::resolve("grid").unwrap();
    assert_eq!(grid.attach_child(7).unwrap().children, vec![7]);
}

#[test]
fn scenario_window_with_button() {
    let wm = one_window("<window title=\"Hi\" width=\"200\" height=\"100\"><button text=\"Go\"/></window>");
    let plan = build_window(&wm).unwrap();
    assert_eq!(plan.ops.len(), 2);
    assert_eq!(plan.ops[0].kind, WidgetKind::Button);
    assert_eq!(prop_of(&plan.ops[0], "text"), Some(AttrValue::Text("Go".to_string())));
    assert!(plan.ops[0].children.is_empty());
    assert_eq!(plan.ops[1].kind, WidgetKind::Window);
    assert_eq!(plan.ops[1].children, vec![0]);
    assert_eq!(plan.root, 1);
    assert_eq!(plan.descriptor.title, Some("Hi".to_string()));
    assert_eq!(plan.descriptor.width, Some(dec(false, 200, 0)));
    assert_eq!(plan.descriptor.height, Some(dec(false, 100, 0)));
    assert_eq!(plan.descriptor.borderless, None);
}

#[test]
fn scenario_unknown_tag_aborts_window() {
    let wm = one_window("<window><frobnicate/></window>");
    let mut ctx = BuildContext::new();
    let r = wm.build(&mut ctx);
    assert_eq!(r, Err(MarkupError::UnknownWidgetKind("frobnicate".to_string())));
    assert_eq!(ctx.ops.len(), 0);
}

#[test]
fn scenario_row_star_height() {
    let wm = one_window("<window><row height=\"star\"/></window>");
    let plan = build_window(&wm).unwrap();
    assert_eq!(plan.ops[0].kind, WidgetKind::Row);
    assert_eq!(prop_of(&plan.ops[0], "height"), Some(AttrValue::Policy(SizePolicy::Star)));
}

#[test]
fn scenario_zero_windows_zero_plans() {
    let ws = load("nothing to display here").unwrap();
    let plans = assemble(&ws);
    assert_eq!(plans.len(), 0);
}

#[test]
fn scenario_child_under_button_fails() {
    let wm = one_window("<window><button><textbox/></button></window>");
    let mut ctx = BuildContext::new();
    let r = wm.build(&mut ctx);
    assert_eq!(r, Err(MarkupError::NotAContainer(WidgetKind::Button)));
    assert_eq!(ctx.ops.len(), 0);
}

#[test]
fn build_is_bottom_up_and_counts_elements() {
    let wm = one_window(
        "<window><grid><row><button text=\"x\"/></row><row/></grid><textbox/></window>",
    );
    let plan = build_window(&wm).unwrap();
    assert_eq!(plan.ops.len(), 6);
    assert_eq!(plan.ops[0].kind, WidgetKind::Button);
    assert_eq!(plan.ops[1].kind, WidgetKind::Row);
    assert_eq!(plan.ops[1].children, vec![0]);
    assert_eq!(plan.ops[2].kind, WidgetKind::Row);
    assert_eq!(plan.ops[3].kind, WidgetKind::Grid);
    assert_eq!(plan.ops[3].children, vec![1, 2]);
    assert_eq!(plan.ops[4].kind, WidgetKind::TextBox);
    assert_eq!(plan.ops[5].kind, WidgetKind::Window);
    assert_eq!(plan.ops[5].children, vec![3, 4]);
    assert_eq!(plan.root, 5);
    for (i, op) in plan.ops.iter().enumerate() {
        for c in &op.children {
            assert!(*c < i, "child {} created after parent {}", c, i);
        }
    }
}

#[test]
fn build_skips_text_between_elements() {
    let wm = one_window("<window> padding <button text=\"a\"/> more padding </window>");
    let plan = build_window(&wm).unwrap();
    assert_eq!(plan.ops.len(), 2);
    assert_eq!(plan.ops[0].kind, WidgetKind::Button);
}

#[test]
fn build_twice_gives_identical_plans() {
    let wm = one_window("<window title=\"Hi\"><grid><button text=\"Go\"/></grid></window>");
    let mut ctx1 = BuildContext::new();
    let mut ctx2 = BuildContext::new();
    let r1 = wm.build(&mut ctx1).unwrap();
    let r2 = wm.build(&mut ctx2).unwrap();
    assert_eq!(r1, r2);
    assert_eq!(ctx1.ops, ctx2.ops);
}

#[test]
fn build_into_shared_context_appends() {
    let wm = one_window("<window><button text=\"a\"/></window>");
    let mut ctx = BuildContext::new();
    let r1 = wm.build(&mut ctx).unwrap();
    let r2 = wm.build(&mut ctx).unwrap();
    assert_eq!(ctx.ops.len(), 4);
    assert_eq!(r1, 1);
    assert_eq!(r2, 3);
    assert_eq!(ctx.ops[3].children, vec![2]);
}

#[test]
fn theme_applied_once_at_root() {
    let wm = one_window("<window><grid/></window>")
        .add_css_path("base.css")
        .add_css_path("extra.css");
    let plan = build_window(&wm).unwrap();
    assert_eq!(
        plan.theme.css_paths,
        vec!["base.css".to_string(), "extra.css".to_string()]
    );
    assert_eq!(plan.ops[0].theme, None);
    assert_eq!(
        plan.ops[1].theme.as_ref().unwrap().css_paths,
        vec!["base.css".to_string(), "extra.css".to_string()]
    );
}

#[test]
fn assemble_reports_failures_in_place() {
    let ws = load("<window id=\"good\"/><window><frobnicate/></window><window id=\"also\"/>")
        .unwrap();
    let plans = assemble(&ws);
    assert_eq!(plans.len(), 3);
    assert!(plans[0].is_ok());
    assert_eq!(
        plans[1],
        Err(MarkupError::UnknownWidgetKind("frobnicate".to_string()))
    );
    assert!(plans[2].is_ok());
}

#[test]
fn add_all_adds_path_to_every_window() {
    let ws = load("<window/><window/>").unwrap();
    let ws = add_all(ws, "app.css");
    assert_eq!(ws.len(), 2);
    assert_eq!(ws[0].css_paths, vec!["app.css".to_string()]);
    assert_eq!(ws[1].css_paths, vec!["app.css".to_string()]);
}

#[test]
fn root_must_be_window_element() {
    let ws = load("<grid/><window/>").unwrap();
    assert_eq!(ws.len(), 1);
    let mut grid_root = ws.into_iter().next().unwrap();
    grid_root.root = match load("<grid/>") {
        Ok(_) => {
            // A loader result never roots a fragment at a non-window tag, so
            // force one directly to exercise the defensive check.
            xml_orbtk::markup::MarkupNode::Element {
                tag: "grid".to_string(),
                attrs: Vec::new(),
                first_child: None,
                next_sibling: None,
            }
        },
        Err(_) => unreachable!(),
    };
    let mut ctx = BuildContext::new();
    assert_eq!(grid_root.build(&mut ctx), Err(MarkupError::NoWindowElement));
}

#[test]
fn window_kind_names() {
    assert_eq!(WidgetKind::Button.name(), "Button");
    assert_eq!(WidgetKind::Window.name(), "Window");
    assert!(!WidgetKind::Button.is_container());
    assert!(WidgetKind::Row.is_container());
}

#[test]
fn dynamic_type_round_trip() {
    let d = DynamicType::new(AttrValue::Dec(dec(false, 200, 0)));
    assert_eq!(d.typename, "Decimal");
    assert_eq!(d.convert(), AttrValue::Dec(dec(false, 200, 0)));
    let attrs = vec![
        Attr { name: "width".to_string(), value: "200".to_string() },
        Attr { name: "title".to_string(), value: "Hi".to_string() },
    ];
    let v = WidgetVariant::resolve("window").unwrap().parse_attributes(&attrs).unwrap();
    let map = v.collect();
    assert_eq!(map.len(), 2);
    assert_eq!(map.get("title").unwrap().typename, "String");
    assert_eq!(map.get("title").unwrap().value, AttrValue::Text("Hi".to_string()));
    assert_eq!(map.get("width").unwrap().typename, "Decimal");
}

#[test]
fn scenario_column_star_width() {
    let wm = one_window("<window><column width=\"star\" min_width=\"10\"/></window>");
    let plan = build_window(&wm).unwrap();
    assert_eq!(plan.ops[0].kind, WidgetKind::Column);
    assert_eq!(prop_of(&plan.ops[0], "width"), Some(AttrValue::Policy(SizePolicy::Star)));
    assert_eq!(prop_of(&plan.ops[0], "min_width"), Some(AttrValue::Dec(dec(false, 10, 0))));
}

#[test]
fn descriptor_reads_flags_and_fractions() {
    let wm = one_window(
        "<window title=\"W\" width=\"640.5\" borderless=\"true\" resizeable=\"false\" always_on_top=\"true\" opacity=\"0.5\"/>",
    );
    let plan = build_window(&wm).unwrap();
    assert_eq!(plan.descriptor.width, Some(dec(false, 6405, 1)));
    assert_eq!(plan.descriptor.borderless, Some(true));
    assert_eq!(plan.descriptor.resizeable, Some(false));
    assert_eq!(plan.descriptor.always_on_top, Some(true));
    assert_eq!(prop_of(&plan.ops[0], "opacity"), Some(AttrValue::Dec(dec(false, 5, 1))));
    assert_eq!(prop_of(&plan.ops[0], "id"), None);
}

#[test]
fn coercion_error_on_bad_row_policy() {
    let wm = one_window("<window><row height=\"wide\"/></window>");
    let mut ctx = BuildContext::new();
    let r = wm.build(&mut ctx);
    assert_eq!(
        r,
        Err(MarkupError::AttributeCoercionError {
            kind: WidgetKind::Row,
            attribute: "height".to_string(),
            raw_value: "wide".to_string(),
        })
    );
    assert_eq!(ctx.ops.len(), 0);
}

#[test]
fn first_attribute_occurrence_wins() {
    let wm = one_window("<window title=\"first\" title=\"second\"/>");
    let plan = build_window(&wm).unwrap();
    assert_eq!(plan.descriptor.title, Some("first".to_string()));
}
