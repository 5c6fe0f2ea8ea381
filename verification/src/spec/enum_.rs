use super::attribute::{Attribute, AttributeModel, attributes_model};
use crate::source::{Span, span_text};
use super::verify::{Named, find_duplicate, duplicate_pair};
use super::VerificationError;
use vstd::prelude::*;

verus! {

/// An enumerator type definition.
pub struct Enum<'a> {
    /// Name of enum type.
    pub name: Span<'a>,
    /// Variant names.
    pub variants: Vec<EnumVariant<'a>>,
    /// Any attributes.
    pub attributes: Vec<Attribute<'a>>,
}

/// An [`Enum`] with its lists held as sequences.
pub struct EnumModel<'a> {
    pub name: Span<'a>,
    pub variants: Seq<EnumVariantModel<'a>>,
    pub attributes: Seq<AttributeModel<'a>>,
}

impl<'a> View for Enum<'a> {
    type V = EnumModel<'a>;

    open spec fn view(&self) -> EnumModel<'a> {
        EnumModel {
            name: self.name,
            variants: self.variants@.map_values(|v: EnumVariant<'a>| v@),
            attributes: attributes_model(self.attributes@),
        }
    }
}

/// An enumerator variant definition.
pub struct EnumVariant<'a> {
    /// Name of enum variant.
    pub name: Span<'a>,
    /// Any attributes.
    pub attributes: Vec<Attribute<'a>>,
}

/// An [`EnumVariant`] with its attributes held as a sequence.
pub struct EnumVariantModel<'a> {
    pub name: Span<'a>,
    pub attributes: Seq<AttributeModel<'a>>,
}

impl<'a> View for EnumVariant<'a> {
    type V = EnumVariantModel<'a>;

    open spec fn view(&self) -> EnumVariantModel<'a> {
        EnumVariantModel { name: self.name, attributes: attributes_model(self.attributes@) }
    }
}

impl<'a> Enum<'a> {
    /// Creates an enum type definition without variants.
    pub fn new(name: Span<'a>, attributes: Vec<Attribute<'a>>) -> (r: Self)
        ensures
            r.name == name,
            r.variants@.len() == 0,
            r.attributes@ == attributes@,
    {
        Enum { name, variants: Vec::new(), attributes }
    }

    /// Asserts that no two variants of this enum share a name.
    pub fn verify(&self) -> (r: Result<(), VerificationError<'a>>)
        ensures
            match duplicate_pair(self.variants@) {
                None => r is Ok,
                Some((i, j)) => r == Err::<(), VerificationError<'a>>(
                    VerificationError::EnumVariantDuplicate {
                        duplicate: self.variants@[j].name,
                        original: self.variants@[i].name,
                    },
                ),
            },
    {
        match find_duplicate(self.variants.as_slice()) {
            Some(dup) => Err(
                VerificationError::EnumVariantDuplicate {
                    duplicate: dup.duplicate.name,
                    original: dup.original.name,
                },
            ),
            None => Ok(()),
        }
    }
}

impl<'a> EnumVariant<'a> {
    /// Creates an enum variant definition.
    pub fn new(name: Span<'a>, attributes: Vec<Attribute<'a>>) -> (r: Self)
        ensures
            r.name == name,
            r.attributes@ == attributes@,
    {
        EnumVariant { name, attributes }
    }
}

impl<'a> Named for Enum<'a> {
    open spec fn name_text(&self) -> Seq<char> {
        span_text(self.name)
    }

    fn same_name(&self, other: &Self) -> (r: bool) {
        self.name.same_text(&other.name)
    }
}

impl<'a> Named for EnumVariant<'a> {
    open spec fn name_text(&self) -> Seq<char> {
        span_text(self.name)
    }

    fn same_name(&self, other: &Self) -> (r: bool) {
        self.name.same_text(&other.name)
    }
}

} // verus!
