use super::attribute::{Attribute, AttributeModel, attributes_model};
use super::type_ref::{TypeRef, TypeRefModel, type_ref_model};
use super::verify::Named;
use crate::source::{Span, span_text};
use vstd::prelude::*;

verus! {

/// An abstract service definition.
pub struct Service<'a> {
    /// Service name.
    pub name: Span<'a>,
    /// Any service method definitions.
    pub methods: Vec<ServiceMethod<'a>>,
    /// Any attributes.
    pub attributes: Vec<Attribute<'a>>,
}

/// A [`Service`] with its lists held as sequences.
pub struct ServiceModel<'a> {
    pub name: Span<'a>,
    pub methods: Seq<ServiceMethodModel<'a>>,
    pub attributes: Seq<AttributeModel<'a>>,
}

impl<'a> View for Service<'a> {
    type V = ServiceModel<'a>;

    open spec fn view(&self) -> ServiceModel<'a> {
        ServiceModel {
            name: self.name,
            methods: self.methods@.map_values(|m: ServiceMethod<'a>| m@),
            attributes: attributes_model(self.attributes@),
        }
    }
}

/// Abstract service method definition.
pub struct ServiceMethod<'a> {
    /// Name of method.
    pub name: Span<'a>,
    /// Method input type, unless no input is accepted.
    pub input: Option<TypeRef<'a>>,
    /// Method output type, unless no output is provided.
    pub output: Option<TypeRef<'a>>,
    /// Any attributes.
    pub attributes: Vec<Attribute<'a>>,
}

/// A [`ServiceMethod`] with its types and attributes modelled.
pub struct ServiceMethodModel<'a> {
    pub name: Span<'a>,
    pub input: Option<TypeRefModel<'a>>,
    pub output: Option<TypeRefModel<'a>>,
    pub attributes: Seq<AttributeModel<'a>>,
}

/// The model of an optional type reference.
pub open spec fn option_type_ref_model<'a>(t: Option<TypeRef<'a>>) -> Option<TypeRefModel<'a>> {
    match t {
        Some(t) => Some(type_ref_model(t)),
        None => None,
    }
}

impl<'a> View for ServiceMethod<'a> {
    type V = ServiceMethodModel<'a>;

    open spec fn view(&self) -> ServiceMethodModel<'a> {
        ServiceMethodModel {
            name: self.name,
            input: option_type_ref_model(self.input),
            output: option_type_ref_model(self.output),
            attributes: attributes_model(self.attributes@),
        }
    }
}

/// A named abstract [`Service`] reference.
pub struct ServiceRef<'a> {
    /// Name of referred [`Service`].
    pub name: Span<'a>,
    /// Any attributes.
    pub attributes: Vec<Attribute<'a>>,
}

/// A [`ServiceRef`] with its attributes modelled.
pub struct ServiceRefModel<'a> {
    pub name: Span<'a>,
    pub attributes: Seq<AttributeModel<'a>>,
}

impl<'a> View for ServiceRef<'a> {
    type V = ServiceRefModel<'a>;

    open spec fn view(&self) -> ServiceRefModel<'a> {
        ServiceRefModel { name: self.name, attributes: attributes_model(self.attributes@) }
    }
}

impl<'a> Service<'a> {
    /// Creates an abstract service definition without methods.
    pub fn new(name: Span<'a>, attributes: Vec<Attribute<'a>>) -> (r: Self)
        ensures
            r.name == name,
            r.methods@.len() == 0,
            r.attributes@ == attributes@,
    {
        Service { name, methods: Vec::new(), attributes }
    }
}

impl<'a> ServiceMethod<'a> {
    /// Creates an abstract service method definition without input or
    /// output.
    pub fn new(name: Span<'a>, attributes: Vec<Attribute<'a>>) -> (r: Self)
        ensures
            r.name == name,
            r.input is None,
            r.output is None,
            r.attributes@ == attributes@,
    {
        ServiceMethod { name, input: None, output: None, attributes }
    }
}

impl<'a> Named for Service<'a> {
    open spec fn name_text(&self) -> Seq<char> {
        span_text(self.name)
    }

    fn same_name(&self, other: &Self) -> (r: bool) {
        self.name.same_text(&other.name)
    }
}

} // verus!
