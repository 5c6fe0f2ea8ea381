use super::attribute::{Attribute, AttributeModel, attributes_model};
use super::service::{ServiceRef, ServiceRefModel};
use super::verify::Named;
use crate::source::{Span, span_text};
use vstd::prelude::*;

verus! {

/// System definition.
pub struct System<'a> {
    /// Name of defined system.
    pub name: Span<'a>,
    /// The names of any services consumed by the system.
    pub consumes: Vec<ServiceRef<'a>>,
    /// The names of any services produced by the system.
    pub produces: Vec<ServiceRef<'a>>,
    /// Any attributes.
    pub attributes: Vec<Attribute<'a>>,
}

/// A [`System`] with its lists held as sequences.
pub struct SystemModel<'a> {
    pub name: Span<'a>,
    pub consumes: Seq<ServiceRefModel<'a>>,
    pub produces: Seq<ServiceRefModel<'a>>,
    pub attributes: Seq<AttributeModel<'a>>,
}

impl<'a> View for System<'a> {
    type V = SystemModel<'a>;

    open spec fn view(&self) -> SystemModel<'a> {
        SystemModel {
            name: self.name,
            consumes: self.consumes@.map_values(|s: ServiceRef<'a>| s@),
            produces: self.produces@.map_values(|s: ServiceRef<'a>| s@),
            attributes: attributes_model(self.attributes@),
        }
    }
}

impl<'a> System<'a> {
    /// Creates a system definition that consumes and produces nothing.
    pub fn new(name: Span<'a>, attributes: Vec<Attribute<'a>>) -> (r: Self)
        ensures
            r.name == name,
            r.consumes@.len() == 0,
            r.produces@.len() == 0,
            r.attributes@ == attributes@,
    {
        System { name, consumes: Vec::new(), produces: Vec::new(), attributes }
    }
}

impl<'a> Named for System<'a> {
    open spec fn name_text(&self) -> Seq<char> {
        span_text(self.name)
    }

    fn same_name(&self, other: &Self) -> (r: bool) {
        self.name.same_text(&other.name)
    }
}

} // verus!
