use super::value::{Value, ValueModel, value_model};
use crate::source::Span;
use vstd::prelude::*;

verus! {

/// An arbitrary attribute, associated with some other specification element.
pub struct Attribute<'a> {
    /// Attribute name.
    pub name: Span<'a>,
    /// Arbitrary attribute value.
    pub value: Value<'a>,
}

/// An [`Attribute`] with its value modelled.
pub struct AttributeModel<'a> {
    pub name: Span<'a>,
    pub value: ValueModel<'a>,
}

impl<'a> View for Attribute<'a> {
    type V = AttributeModel<'a>;

    open spec fn view(&self) -> AttributeModel<'a> {
        AttributeModel { name: self.name, value: value_model(self.value) }
    }
}

/// The models of attributes `items`.
pub open spec fn attributes_model<'a>(items: Seq<Attribute<'a>>) -> Seq<AttributeModel<'a>> {
    items.map_values(|a: Attribute<'a>| a@)
}

} // verus!
