//! Dynamically typed configuration values: a coerced attribute value
//! carried together with the name of its semantic type, and the callback by
//! which a configured widget hands out its whole configuration as one
//! dynamic map.

use vstd::prelude::*;
use std::collections::HashMap;
use crate::values::{AttrValue, ValueV};
use crate::widget::WidgetVariant;

verus! {

/// The name of a dynamic value's semantic type.
pub open spec fn spec_type_name(v: ValueV) -> Seq<char> {
    match v {
        ValueV::Dec(_) => "Decimal"@,
        ValueV::Flag(_) => "bool"@,
        ValueV::Text(_) => "String"@,
        ValueV::Policy(_) => "SizePolicy"@,
    }
}

/// A typed attribute value together with its type's name, for callers that
/// inspect a widget's configuration without tracking the types statically.
#[derive(Debug, PartialEq)]
pub struct DynamicType {
    pub value: AttrValue,
    pub typename: String,
}

impl DynamicType {
    /// Wrap a value, recording the name of its semantic type.
    pub fn new(value: AttrValue) -> (r: Self)
        ensures
            r.value@ == value@,
            r.typename@ == spec_type_name(value@),
    {
        let typename: &'static str = match &value {
            AttrValue::Dec(_) => "Decimal",
            AttrValue::Flag(_) => "bool",
            AttrValue::Text(_) => "String",
            AttrValue::Policy(_) => "SizePolicy",
        };
        DynamicType { value, typename: typename.to_owned() }
    }

    /// Hand the wrapped value back out, unchanged.
    pub fn convert(self) -> (r: AttrValue)
        ensures
            r@ == self.value@,
    {
        self.value
    }
}

/// Implemented by configured widgets that can hand out their whole
/// configuration as one dynamic map, keyed by attribute name.
pub trait CollectCallback {
    fn collect(&self) -> HashMap<String, DynamicType>;
}

impl CollectCallback for WidgetVariant {
    fn collect(&self) -> HashMap<String, DynamicType> {
        let mut out: HashMap<String, DynamicType> = HashMap::new();
        let mut i: usize = 0;
        while i < self.props.len()
            decreases self.props.len() - i,
        {
            let p = &self.props[i];
            out.insert(p.name.clone(), DynamicType::new(p.value.clone()));
            i = i + 1;
        }
        out
    }
}

} // verus!
