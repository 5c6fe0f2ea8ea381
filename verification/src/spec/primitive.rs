use super::attribute::{Attribute, AttributeModel, attributes_model};
use super::type_ref::{TypeRef, TypeRefModel, type_ref_model};
use super::verify::Named;
use crate::source::{Span, span_text};
use vstd::prelude::*;

verus! {

/// A primitive type definition.
pub struct Primitive<'a> {
    /// Names of the generic parameters of the type.
    pub generic_parameters: Vec<Span<'a>>,
    /// Type definition.
    pub definition: TypeRef<'a>,
    /// Any attributes.
    pub attributes: Vec<Attribute<'a>>,
}

/// A [`Primitive`] with its lists held as sequences.
pub struct PrimitiveModel<'a> {
    pub generic_parameters: Seq<Span<'a>>,
    pub definition: TypeRefModel<'a>,
    pub attributes: Seq<AttributeModel<'a>>,
}

impl<'a> View for Primitive<'a> {
    type V = PrimitiveModel<'a>;

    open spec fn view(&self) -> PrimitiveModel<'a> {
        PrimitiveModel {
            generic_parameters: self.generic_parameters@,
            definition: type_ref_model(self.definition),
            attributes: attributes_model(self.attributes@),
        }
    }
}

impl<'a> Primitive<'a> {
    /// Creates a primitive type definition without generic parameters.
    pub fn new(type_ref: TypeRef<'a>, attributes: Vec<Attribute<'a>>) -> (r: Self)
        ensures
            r.generic_parameters@.len() == 0,
            r.definition == type_ref,
            r.attributes@ == attributes@,
    {
        Primitive { generic_parameters: Vec::new(), definition: type_ref, attributes }
    }
}

impl<'a> Named for Primitive<'a> {
    open spec fn name_text(&self) -> Seq<char> {
        span_text(self.definition.name)
    }

    fn same_name(&self, other: &Self) -> (r: bool) {
        self.definition.name.same_text(&other.definition.name)
    }
}

} // verus!
