//! The widget variant registry and the attribute coercion engine: the closed
//! tag table, each kind's attribute schema, and the generic routine that
//! coerces a markup node's raw attributes into typed properties.

use vstd::prelude::*;
use crate::markup::{attrs_view, Attr, AttrV};
use crate::text::str_eq;
use crate::values::{spec_coerce, AttrTy, AttrValue, TypeConverter, ValueV};

verus! {

/// The closed set of widget kinds.
#[derive(Clone, Copy, PartialEq, Eq, Structural, Debug)]
pub enum WidgetKind {
    Window,
    Button,
    TextBox,
    Grid,
    Row,
    Column,
}

/// Display name of a kind, as error reports show it.
pub open spec fn spec_kind_name(k: WidgetKind) -> Seq<char> {
    match k {
        WidgetKind::Window => "Window"@,
        WidgetKind::Button => "Button"@,
        WidgetKind::TextBox => "TextBox"@,
        WidgetKind::Grid => "Grid"@,
        WidgetKind::Row => "Row"@,
        WidgetKind::Column => "Column"@,
    }
}

/// Container-capable kinds: only these accept children.
pub open spec fn spec_is_container(k: WidgetKind) -> bool {
    match k {
        WidgetKind::Window => true,
        WidgetKind::Button => false,
        WidgetKind::TextBox => false,
        WidgetKind::Grid => true,
        WidgetKind::Row => true,
        WidgetKind::Column => true,
    }
}

impl WidgetKind {
    /// The kind's display name.
    pub fn name(&self) -> (r: &'static str)
        ensures
            r@ == spec_kind_name(*self),
    {
        match self {
            WidgetKind::Window => "Window",
            WidgetKind::Button => "Button",
            WidgetKind::TextBox => "TextBox",
            WidgetKind::Grid => "Grid",
            WidgetKind::Row => "Row",
            WidgetKind::Column => "Column",
        }
    }

    /// Whether this kind accepts children.
    pub fn is_container(&self) -> (r: bool)
        ensures
            r == spec_is_container(*self),
    {
        match self {
            WidgetKind::Window => true,
            WidgetKind::Button => false,
            WidgetKind::TextBox => false,
            WidgetKind::Grid => true,
            WidgetKind::Row => true,
            WidgetKind::Column => true,
        }
    }
}

/// Why loading or building a window failed. Every failure is a deterministic
/// function of the markup text; none is silently downgraded to a default.
#[derive(Debug, PartialEq)]
pub enum MarkupError {
    /// The source text could not be tokenized at all.
    MalformedMarkup,
    /// A tag outside the closed registry, carrying the tag.
    UnknownWidgetKind(String),
    /// An attribute value that its target type's grammar rejects.
    AttributeCoercionError { kind: WidgetKind, attribute: String, raw_value: String },
    /// A child was attached to a kind that takes none.
    NotAContainer(WidgetKind),
    /// A markup tree whose root is not a `window` element.
    NoWindowElement,
}

/// Mathematical image of an error.
pub enum ErrV {
    MalformedMarkup,
    UnknownWidgetKind(Seq<char>),
    AttributeCoercionError { kind: WidgetKind, attribute: Seq<char>, raw_value: Seq<char> },
    NotAContainer(WidgetKind),
    NoWindowElement,
}

impl View for MarkupError {
    type V = ErrV;

    open spec fn view(&self) -> ErrV {
        match self {
            MarkupError::MalformedMarkup => ErrV::MalformedMarkup,
            MarkupError::UnknownWidgetKind(tag) => ErrV::UnknownWidgetKind(tag@),
            MarkupError::AttributeCoercionError { kind, attribute, raw_value } => {
                ErrV::AttributeCoercionError {
                    kind: *kind,
                    attribute: attribute@,
                    raw_value: raw_value@,
                }
            },
            MarkupError::NotAContainer(kind) => ErrV::NotAContainer(*kind),
            MarkupError::NoWindowElement => ErrV::NoWindowElement,
        }
    }
}

/// One coerced property: an attribute name and its typed value.
#[derive(Debug, PartialEq)]
pub struct Prop {
    pub name: String,
    pub value: AttrValue,
}

/// Mathematical image of a property.
pub struct PropV {
    pub name: Seq<char>,
    pub value: ValueV,
}

impl View for Prop {
    type V = PropV;

    open spec fn view(&self) -> PropV {
        PropV { name: self.name@, value: self.value@ }
    }
}

/// Image of a property list.
pub open spec fn props_view(ps: Seq<Prop>) -> Seq<PropV> {
    ps.map_values(|p: Prop| p@)
}

/// Per-kind attribute schema: the recognized attribute names and the
/// semantic type each is coerced to. Fixed at compile time; extending a
/// kind's vocabulary means adding a row here and nowhere else.
pub open spec fn spec_schema(k: WidgetKind) -> Seq<(Seq<char>, AttrTy)> {
    match k {
        WidgetKind::Window => seq![
            ("width"@, AttrTy::Dec),
            ("height"@, AttrTy::Dec),
            ("borderless"@, AttrTy::Flag),
            ("title"@, AttrTy::Text),
            ("id"@, AttrTy::Text),
            ("max_height"@, AttrTy::Dec),
            ("max_width"@, AttrTy::Dec),
            ("min_width"@, AttrTy::Dec),
            ("min_height"@, AttrTy::Dec),
            ("opacity"@, AttrTy::Dec),
            ("resizeable"@, AttrTy::Flag),
            ("always_on_top"@, AttrTy::Flag),
        ],
        WidgetKind::Button => seq![("text"@, AttrTy::Text)],
        WidgetKind::TextBox => seq![
            ("text"@, AttrTy::Text),
            ("width"@, AttrTy::Dec),
            ("height"@, AttrTy::Dec),
            ("max_width"@, AttrTy::Dec),
            ("max_height"@, AttrTy::Dec),
            ("min_width"@, AttrTy::Dec),
            ("min_height"@, AttrTy::Dec),
        ],
        WidgetKind::Grid => seq![
            ("width"@, AttrTy::Dec),
            ("height"@, AttrTy::Dec),
            ("max_width"@, AttrTy::Dec),
            ("max_height"@, AttrTy::Dec),
            ("min_width"@, AttrTy::Dec),
            ("min_height"@, AttrTy::Dec),
        ],
        WidgetKind::Row => seq![
            ("height"@, AttrTy::Policy),
            ("max_height"@, AttrTy::Dec),
            ("min_height"@, AttrTy::Dec),
        ],
        WidgetKind::Column => seq![
            ("width"@, AttrTy::Policy),
            ("max_width"@, AttrTy::Dec),
            ("min_width"@, AttrTy::Dec),
        ],
    }
}

/// Image of an executable schema table.
pub open spec fn schema_view(s: Seq<(String, AttrTy)>) -> Seq<(Seq<char>, AttrTy)> {
    s.map_values(|p: (String, AttrTy)| (p.0@, p.1))
}

/// The executable schema table of a kind.
pub fn kind_schema(k: WidgetKind) -> (r: Vec<(String, AttrTy)>)
    ensures
        schema_view(r@) == spec_schema(k),
{
    let mut v: Vec<(String, AttrTy)> = Vec::new();
    match k {
        WidgetKind::Window => {
            v.push(("width".to_owned(), AttrTy::Dec));
            v.push(("height".to_owned(), AttrTy::Dec));
            v.push(("borderless".to_owned(), AttrTy::Flag));
            v.push(("title".to_owned(), AttrTy::Text));
            v.push(("id".to_owned(), AttrTy::Text));
            v.push(("max_height".to_owned(), AttrTy::Dec));
            v.push(("max_width".to_owned(), AttrTy::Dec));
            v.push(("min_width".to_owned(), AttrTy::Dec));
            v.push(("min_height".to_owned(), AttrTy::Dec));
            v.push(("opacity".to_owned(), AttrTy::Dec));
            v.push(("resizeable".to_owned(), AttrTy::Flag));
            v.push(("always_on_top".to_owned(), AttrTy::Flag));
        },
        WidgetKind::Button => {
            v.push(("text".to_owned(), AttrTy::Text));
        },
        WidgetKind::TextBox => {
            v.push(("text".to_owned(), AttrTy::Text));
            v.push(("width".to_owned(), AttrTy::Dec));
            v.push(("height".to_owned(), AttrTy::Dec));
            v.push(("max_width".to_owned(), AttrTy::Dec));
            v.push(("max_height".to_owned(), AttrTy::Dec));
            v.push(("min_width".to_owned(), AttrTy::Dec));
            v.push(("min_height".to_owned(), AttrTy::Dec));
        },
        WidgetKind::Grid => {
            v.push(("width".to_owned(), AttrTy::Dec));
            v.push(("height".to_owned(), AttrTy::Dec));
            v.push(("max_width".to_owned(), AttrTy::Dec));
            v.push(("max_height".to_owned(), AttrTy::Dec));
            v.push(("min_width".to_owned(), AttrTy::Dec));
            v.push(("min_height".to_owned(), AttrTy::Dec));
        },
        WidgetKind::Row => {
            v.push(("height".to_owned(), AttrTy::Policy));
            v.push(("max_height".to_owned(), AttrTy::Dec));
            v.push(("min_height".to_owned(), AttrTy::Dec));
        },
        WidgetKind::Column => {
            v.push(("width".to_owned(), AttrTy::Policy));
            v.push(("max_width".to_owned(), AttrTy::Dec));
            v.push(("min_width".to_owned(), AttrTy::Dec));
        },
    }
    proof {
        assert(schema_view(v@) =~= spec_schema(k));
    }
    v
}

/// First raw value of the attribute called `name` from position `i` on.
pub open spec fn spec_lookup_from(attrs: Seq<AttrV>, name: Seq<char>, i: int) -> Option<
    Seq<char>,
>
    decreases attrs.len() - i,
{
    if i < 0 || i >= attrs.len() {
        None
    } else if attrs[i].name == name {
        Some(attrs[i].value)
    } else {
        spec_lookup_from(attrs, name, i + 1)
    }
}

/// First raw value of the attribute called `name`; when a name is written
/// twice on one element, the first occurrence wins.
pub open spec fn spec_lookup(attrs: Seq<AttrV>, name: Seq<char>) -> Option<Seq<char>> {
    spec_lookup_from(attrs, name, 0)
}

fn lookup_from(attrs: &Vec<Attr>, name: &str, i: usize) -> (r: Option<String>)
    requires
        i <= attrs.len(),
    ensures
        match r {
            Some(v) => spec_lookup_from(attrs_view(attrs@), name@, i as int) == Some(v@),
            None => spec_lookup_from(attrs_view(attrs@), name@, i as int) is None,
        },
    decreases attrs.len() - i,
{
    if i >= attrs.len() {
        None
    } else if str_eq(attrs[i].name.as_str(), name) {
        Some(attrs[i].value.clone())
    } else {
        lookup_from(attrs, name, i + 1)
    }
}

/// Executable mirror of `spec_lookup`.
pub fn lookup_attr(attrs: &Vec<Attr>, name: &str) -> (r: Option<String>)
    ensures
        match r {
            Some(v) => spec_lookup(attrs_view(attrs@), name@) == Some(v@),
            None => spec_lookup(attrs_view(attrs@), name@) is None,
        },
{
    lookup_from(attrs, name, 0)
}

/// What coercing a node's attributes against a kind's schema yields, from
/// schema row `i` on: one typed property per recognized attribute present on
/// the node, in schema order; an absent attribute contributes nothing, so
/// the kind's default stands; the first recognized attribute whose raw value
/// its target grammar rejects fails the whole coercion.
pub open spec fn spec_apply(kind: WidgetKind, attrs: Seq<AttrV>, i: int) -> Result<
    Seq<PropV>,
    ErrV,
>
    decreases spec_schema(kind).len() - i,
{
    let sch = spec_schema(kind);
    if i < 0 || i >= sch.len() {
        Ok(Seq::empty())
    } else {
        let name = sch[i].0;
        let ty = sch[i].1;
        match spec_lookup(attrs, name) {
            None => spec_apply(kind, attrs, i + 1),
            Some(raw) => match spec_coerce(ty, raw) {
                None => Err(
                    ErrV::AttributeCoercionError { kind, attribute: name, raw_value: raw },
                ),
                Some(v) => match spec_apply(kind, attrs, i + 1) {
                    Err(e) => Err(e),
                    Ok(props) => Ok(seq![PropV { name, value: v }] + props),
                },
            },
        }
    }
}

fn apply_from(
    kind: WidgetKind,
    attrs: &Vec<Attr>,
    schema: &Vec<(String, AttrTy)>,
    i: usize,
) -> (r: Result<Vec<Prop>, MarkupError>)
    requires
        schema_view(schema@) == spec_schema(kind),
        i <= schema.len(),
    ensures
        match r {
            Ok(props) => spec_apply(kind, attrs_view(attrs@), i as int) == Ok::<_, ErrV>(
                props_view(props@),
            ),
            Err(e) => spec_apply(kind, attrs_view(attrs@), i as int) == Err::<Seq<PropV>, _>(e@),
        },
    decreases schema.len() - i,
{
    if i >= schema.len() {
        let props: Vec<Prop> = Vec::new();
        proof {
            assert(props_view(props@) =~= Seq::<PropV>::empty());
        }
        Ok(props)
    } else {
        let name = &schema[i].0;
        let ty = schema[i].1;
        match lookup_attr(attrs, name.as_str()) {
            None => apply_from(kind, attrs, schema, i + 1),
            Some(raw) => {
                let converter = TypeConverter::new(raw.as_str(), ty);
                match converter.get_output() {
                    None => Err(
                        MarkupError::AttributeCoercionError {
                            kind,
                            attribute: name.clone(),
                            raw_value: raw,
                        },
                    ),
                    Some(value) => match apply_from(kind, attrs, schema, i + 1) {
                        Err(e) => Err(e),
                        Ok(mut props) => {
                            let ghost old_props = props@;
                            props.insert(0, Prop { name: name.clone(), value });
                            proof {
                                assert(props_view(props@) =~= seq![
                                    PropV {
                                        name: schema@[i as int].0@,
                                        value: spec_coerce(ty, raw@)->Some_0,
                                    },
                                ] + props_view(old_props));
                            }
                            Ok(props)
                        },
                    },
                }
            },
        }
    }
}

/// A widget variant under construction: its kind, the typed properties
/// coerced from its attributes, and the handles of the children attached so
/// far, in attachment order.
#[derive(Debug, PartialEq)]
pub struct WidgetVariant {
    pub kind: WidgetKind,
    pub props: Vec<Prop>,
    pub children: Vec<usize>,
}

/// Mathematical image of a variant.
pub struct VariantV {
    pub kind: WidgetKind,
    pub props: Seq<PropV>,
    pub children: Seq<int>,
}

impl View for WidgetVariant {
    type V = VariantV;

    open spec fn view(&self) -> VariantV {
        VariantV {
            kind: self.kind,
            props: props_view(self.props@),
            children: self.children@.map_values(|c: usize| c as int),
        }
    }
}

/// The closed tag table: which tag resolves to which kind.
pub open spec fn spec_resolve(tag: Seq<char>) -> Result<WidgetKind, ErrV> {
    if tag == "window"@ {
        Ok(WidgetKind::Window)
    } else if tag == "button"@ {
        Ok(WidgetKind::Button)
    } else if tag == "textbox"@ {
        Ok(WidgetKind::TextBox)
    } else if tag == "grid"@ {
        Ok(WidgetKind::Grid)
    } else if tag == "row"@ {
        Ok(WidgetKind::Row)
    } else if tag == "column"@ {
        Ok(WidgetKind::Column)
    } else {
        Err(ErrV::UnknownWidgetKind(tag))
    }
}

/// Attaching a child handle: appended to the attachment order for a
/// container kind, refused for any other kind.
pub open spec fn spec_attach(v: VariantV, child: int) -> Result<VariantV, ErrV> {
    if spec_is_container(v.kind) {
        Ok(VariantV { kind: v.kind, props: v.props, children: v.children.push(child) })
    } else {
        Err(ErrV::NotAContainer(v.kind))
    }
}

/// Coercing a node's attributes onto a variant: the coerced properties are
/// appended to those the variant already holds.
pub open spec fn spec_parse_attributes(v: VariantV, attrs: Seq<AttrV>) -> Result<
    VariantV,
    ErrV,
> {
    match spec_apply(v.kind, attrs, 0) {
        Err(e) => Err(e),
        Ok(props) => Ok(VariantV { kind: v.kind, props: v.props + props, children: v.children }),
    }
}

impl WidgetVariant {
    /// Resolve a tag to a freshly default-constructed variant of the
    /// corresponding kind; any tag outside the closed table is refused with
    /// `UnknownWidgetKind` carrying that tag.
    pub fn resolve(tag: &str) -> (r: Result<WidgetVariant, MarkupError>)
        ensures
            match r {
                Ok(v) => spec_resolve(tag@) == Ok::<_, ErrV>(v.kind) && v@.props
                    == Seq::<PropV>::empty() && v@.children == Seq::<int>::empty(),
                Err(e) => spec_resolve(tag@) == Err::<WidgetKind, _>(e@),
            },
    {
        let kind = if str_eq(tag, "window") {
            WidgetKind::Window
        } else if str_eq(tag, "button") {
            WidgetKind::Button
        } else if str_eq(tag, "textbox") {
            WidgetKind::TextBox
        } else if str_eq(tag, "grid") {
            WidgetKind::Grid
        } else if str_eq(tag, "row") {
            WidgetKind::Row
        } else if str_eq(tag, "column") {
            WidgetKind::Column
        } else {
            return Err(MarkupError::UnknownWidgetKind(tag.to_owned()));
        };
        let v = WidgetVariant { kind, props: Vec::new(), children: Vec::new() };
        proof {
            assert(v@.props =~= Seq::<PropV>::empty());
            assert(v@.children =~= Seq::<int>::empty());
        }
        Ok(v)
    }

    /// Coerce a markup node's attributes onto this variant.
    pub fn parse_attributes(self, attrs: &Vec<Attr>) -> (r: Result<Self, MarkupError>)
        ensures
            match r {
                Ok(v) => spec_parse_attributes(self@, attrs_view(attrs@)) == Ok::<_, ErrV>(v@),
                Err(e) => spec_parse_attributes(self@, attrs_view(attrs@)) == Err::<VariantV, _>(
                    e@,
                ),
            },
    {
        let schema = kind_schema(self.kind);
        match apply_from(self.kind, attrs, &schema, 0) {
            Err(e) => Err(e),
            Ok(mut new_props) => {
                let mut out = self;
                let ghost old_props = out.props@;
                let ghost added = new_props@;
                out.props.append(&mut new_props);
                proof {
                    assert(props_view(out.props@) =~= props_view(old_props) + props_view(added));
                }
                Ok(out)
            },
        }
    }

    /// Attach a built child entity to this variant; refused with
    /// `NotAContainer` when the kind takes no children.
    pub fn attach_child(self, child: usize) -> (r: Result<Self, MarkupError>)
        ensures
            match r {
                Ok(v) => spec_attach(self@, child as int) == Ok::<_, ErrV>(v@),
                Err(e) => spec_attach(self@, child as int) == Err::<VariantV, _>(e@),
            },
    {
        if self.kind.is_container() {
            let mut out = self;
            out.children.push(child);
            proof {
                assert(out@.children =~= self@.children.push(child as int));
            }
            Ok(out)
        } else {
            Err(MarkupError::NotAContainer(self.kind))
        }
    }
}

} // verus!
