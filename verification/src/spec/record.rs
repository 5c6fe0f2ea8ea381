use super::attribute::{Attribute, AttributeModel, attributes_model};
use super::type_ref::{TypeRef, TypeRefModel, type_ref_model};
use super::verify::Named;
use crate::source::{Span, span_text};
use vstd::prelude::*;

verus! {

/// A record type definition.
pub struct Record<'a> {
    /// Name of record type.
    pub name: Span<'a>,
    /// Field definitions.
    pub entries: Vec<RecordEntry<'a>>,
    /// Any attributes.
    pub attributes: Vec<Attribute<'a>>,
}

/// A [`Record`] with its lists held as sequences.
pub struct RecordModel<'a> {
    pub name: Span<'a>,
    pub entries: Seq<RecordEntryModel<'a>>,
    pub attributes: Seq<AttributeModel<'a>>,
}

impl<'a> View for Record<'a> {
    type V = RecordModel<'a>;

    open spec fn view(&self) -> RecordModel<'a> {
        RecordModel {
            name: self.name,
            entries: self.entries@.map_values(|e: RecordEntry<'a>| e@),
            attributes: attributes_model(self.attributes@),
        }
    }
}

/// A record type definition field.
pub struct RecordEntry<'a> {
    /// Field name.
    pub name: Span<'a>,
    /// Field type reference.
    pub type_ref: TypeRef<'a>,
    /// Any attributes.
    pub attributes: Vec<Attribute<'a>>,
}

/// A [`RecordEntry`] with its type and attributes modelled.
pub struct RecordEntryModel<'a> {
    pub name: Span<'a>,
    pub type_ref: TypeRefModel<'a>,
    pub attributes: Seq<AttributeModel<'a>>,
}

impl<'a> View for RecordEntry<'a> {
    type V = RecordEntryModel<'a>;

    open spec fn view(&self) -> RecordEntryModel<'a> {
        RecordEntryModel {
            name: self.name,
            type_ref: type_ref_model(self.type_ref),
            attributes: attributes_model(self.attributes@),
        }
    }
}

impl<'a> Record<'a> {
    /// Creates a record type definition without fields.
    pub fn new(name: Span<'a>, attributes: Vec<Attribute<'a>>) -> (r: Self)
        ensures
            r.name == name,
            r.entries@.len() == 0,
            r.attributes@ == attributes@,
    {
        Record { name, entries: Vec::new(), attributes }
    }
}

impl<'a> Named for Record<'a> {
    open spec fn name_text(&self) -> Seq<char> {
        span_text(self.name)
    }

    fn same_name(&self, other: &Self) -> (r: bool) {
        self.name.same_text(&other.name)
    }
}

} // verus!
