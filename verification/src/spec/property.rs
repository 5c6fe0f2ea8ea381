use super::attribute::{Attribute, AttributeModel, attributes_model};
use super::value::{Value, ValueModel, value_model};
use crate::source::Span;
use vstd::prelude::*;

verus! {

/// A named property [`Value`], with any attributes.
pub struct Property<'a> {
    /// Property name.
    pub name: Span<'a>,
    /// Property value.
    pub value: Value<'a>,
    /// Any attributes.
    pub attributes: Vec<Attribute<'a>>,
}

/// A [`Property`] with its value and attributes modelled.
pub struct PropertyModel<'a> {
    pub name: Span<'a>,
    pub value: ValueModel<'a>,
    pub attributes: Seq<AttributeModel<'a>>,
}

impl<'a> View for Property<'a> {
    type V = PropertyModel<'a>;

    open spec fn view(&self) -> PropertyModel<'a> {
        PropertyModel {
            name: self.name,
            value: value_model(self.value),
            attributes: attributes_model(self.attributes@),
        }
    }
}

/// The models of properties `items`.
pub open spec fn properties_model<'a>(items: Seq<Property<'a>>) -> Seq<PropertyModel<'a>> {
    items.map_values(|p: Property<'a>| p@)
}

} // verus!
