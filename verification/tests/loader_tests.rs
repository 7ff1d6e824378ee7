use xml_orbtk::loader::load;
use xml_orbtk::markup::MarkupNode;
use xml_orbtk::widget::MarkupError;

fn root_tag(node: &MarkupNode) -> &str {
    match node {
        MarkupNode::Element { tag, .. } => tag.as_str(),
        MarkupNode::Text { .. } => panic!("window root must be an element"),
    }
}

#[test]
fn load_single_window() {
    let ws = load("<window title=\"Hi\"></window>").unwrap();
    assert_eq!(ws.len(), 1);
    assert_eq!(root_tag(&ws[0].root), "window");
    assert!(ws[0].css_paths.is_empty());
    assert!(ws[0].name.is_none());
}

#[test]
fn load_self_closing_window() {
    let ws = load("<window/>").unwrap();
    assert_eq!(ws.len(), 1);
}

#[test]
fn load_two_windows_in_document_order() {
    let ws = load("<window id=\"a\"/> stray text <window id=\"b\"/>").unwrap();
    assert_eq!(ws.len(), 2);
    match (&ws[0].root, &ws[1].root) {
        (
            MarkupNode::Element { attrs: a0, .. },
            MarkupNode::Element { attrs: a1, .. },
        ) => {
            assert_eq!(a0[0].value, "a");
            assert_eq!(a1[0].value, "b");
        },
        _ => panic!("expected two window elements"),
    }
}

#[test]
fn load_no_windows_is_empty_not_error() {
    let ws = load("plain text without any tags").unwrap();
    assert_eq!(ws.len(), 0);
    let ws2 = load("").unwrap();
    assert_eq!(ws2.len(), 0);
    let ws3 = load("<grid></grid>").unwrap();
    assert_eq!(ws3.len(), 0);
}

#[test]
fn load_ignores_comments() {
    let ws = load("<!-- a <window/> inside a comment does not count --><window/>").unwrap();
    assert_eq!(ws.len(), 1);
}

#[test]
fn load_keeps_nested_window_as_child_only() {
    let ws = load("<window><window/></window>").unwrap();
    assert_eq!(ws.len(), 1);
    match &ws[0].root {
        MarkupNode::Element { first_child, .. } => assert!(first_child.is_some()),
        _ => panic!("expected an element"),
    }
}

#[test]
fn load_rejects_unterminated_tag() {
    assert_eq!(load("<window"), Err(MarkupError::MalformedMarkup));
}

#[test]
fn load_rejects_mismatched_close() {
    assert_eq!(load("<window></grid>"), Err(MarkupError::MalformedMarkup));
}

#[test]
fn load_rejects_stray_close() {
    assert_eq!(load("</window>"), Err(MarkupError::MalformedMarkup));
}

#[test]
fn load_rejects_missing_close() {
    assert_eq!(load("<window><button/>"), Err(MarkupError::MalformedMarkup));
}

#[test]
fn load_rejects_bad_attribute_syntax() {
    assert_eq!(load("<window title=Hi/>"), Err(MarkupError::MalformedMarkup));
    assert_eq!(load("<window title=\"Hi/>"), Err(MarkupError::MalformedMarkup));
    assert_eq!(load("<window title/>"), Err(MarkupError::MalformedMarkup));
}

#[test]
fn load_rejects_unterminated_comment() {
    assert_eq!(load("<!-- never closed <window/>"), Err(MarkupError::MalformedMarkup));
}

#[test]
fn load_reads_attributes_in_order() {
    let ws = load("<window width=\"200\" height=\"100\" title=\"Hi\"/>").unwrap();
    match &ws[0].root {
        MarkupNode::Element { attrs, .. } => {
            assert_eq!(attrs.len(), 3);
            assert_eq!(attrs[0].name, "width");
            assert_eq!(attrs[0].value, "200");
            assert_eq!(attrs[1].name, "height");
            assert_eq!(attrs[2].name, "title");
            assert_eq!(attrs[2].value, "Hi");
        },
        _ => panic!("expected an element"),
    }
}

#[test]
fn add_css_path_chains_in_order() {
    let ws = load("<window/>").unwrap();
    let wm = ws.into_iter().next().unwrap();
    let wm = wm.add_css_path("base.css").add_css_path("extra.css");
    assert_eq!(wm.css_paths, vec!["base.css".to_string(), "extra.css".to_string()]);
}

#[test]
fn load_allows_whitespace_inside_tags() {
    let ws = load("<window \n  title = \"Hi\"   width=\"1\" />").unwrap();
    assert_eq!(ws.len(), 1);
    match &ws[0].root {
        MarkupNode::Element { attrs, .. } => {
            assert_eq!(attrs[0].name, "title");
            assert_eq!(attrs[0].value, "Hi");
        },
        _ => panic!("expected an element"),
    }
}

#[test]
fn load_attribute_value_may_hold_angle_brackets() {
    let ws = load("<window title=\"a <b> c\"/>").unwrap();
    match &ws[0].root {
        MarkupNode::Element { attrs, .. } => assert_eq!(attrs[0].value, "a <b> c"),
        _ => panic!("expected an element"),
    }
}
