//! Arrowhead Framework specifications: their parsing and verification.

pub mod attribute;
pub mod enum_;
pub mod implement;
pub mod parser;
pub mod primitive;
pub mod property;
pub mod record;
pub mod service;
pub mod system;
pub mod type_ref;
pub mod value;
pub mod verify;

pub use self::attribute::Attribute;
pub use self::enum_::{Enum, EnumVariant};
pub use self::implement::{Implement, ImplementInterface, ImplementMethod};
pub use self::primitive::Primitive;
pub use self::property::Property;
pub use self::record::{Record, RecordEntry};
pub use self::service::{Service, ServiceMethod, ServiceRef};
pub use self::system::System;
pub use self::type_ref::TypeRef;
pub use self::value::Value;

use self::enum_::EnumModel;
use self::implement::{ImplementModel, implement_check};
use self::primitive::PrimitiveModel;
use self::record::RecordModel;
use self::service::ServiceModel;
use self::system::SystemModel;
use self::verify::{duplicate_pair, find_duplicate};
use crate::source::{Span, excerpt_text, span_text};
use vstd::string::StringExecFns;
use vstd::prelude::*;

verus! {

/// An Arrowhead Framework specification collection.
pub struct Specification<'a> {
    /// Enumerator type definitions.
    pub enums: Vec<Enum<'a>>,
    /// Service implementation definitions.
    pub implementations: Vec<Implement<'a>>,
    /// Primitive type definitions.
    pub primitives: Vec<Primitive<'a>>,
    /// Record type definitions.
    pub records: Vec<Record<'a>>,
    /// Abstract service definitions.
    pub services: Vec<Service<'a>>,
    /// System definitions.
    pub systems: Vec<System<'a>>,
}

/// A [`Specification`] with its lists held as sequences.
pub struct SpecificationModel<'a> {
    pub enums: Seq<EnumModel<'a>>,
    pub implementations: Seq<ImplementModel<'a>>,
    pub primitives: Seq<PrimitiveModel<'a>>,
    pub records: Seq<RecordModel<'a>>,
    pub services: Seq<ServiceModel<'a>>,
    pub systems: Seq<SystemModel<'a>>,
}

impl<'a> View for Specification<'a> {
    type V = SpecificationModel<'a>;

    open spec fn view(&self) -> SpecificationModel<'a> {
        SpecificationModel {
            enums: self.enums@.map_values(|e: Enum<'a>| e@),
            implementations: self.implementations@.map_values(|i: Implement<'a>| i@),
            primitives: self.primitives@.map_values(|p: Primitive<'a>| p@),
            records: self.records@.map_values(|r: Record<'a>| r@),
            services: self.services@.map_values(|s: Service<'a>| s@),
            systems: self.systems@.map_values(|s: System<'a>| s@),
        }
    }
}

/// A reason why a specification is inconsistent, with the spans it concerns.
#[derive(Copy, Clone)]
pub enum VerificationError<'a> {
    EnumNameDuplicate { duplicate: Span<'a>, original: Span<'a> },
    EnumVariantDuplicate { duplicate: Span<'a>, original: Span<'a> },
    InterfaceNotImplemented { interface: Span<'a>, implementation: Span<'a> },
    NoSuchInterfaceToImplement { service: Span<'a>, interface: Span<'a> },
    NoSuchServiceToImplement { service: Span<'a> },
    PrimitiveNameDuplicate { duplicate: Span<'a>, original: Span<'a> },
    RecordNameDuplicate { duplicate: Span<'a>, original: Span<'a> },
    ServiceNameDuplicate { duplicate: Span<'a>, original: Span<'a> },
    SystemNameDuplicate { duplicate: Span<'a>, original: Span<'a> },
    UnknownServiceEncoding { encoding: Span<'a> },
    UnknownServiceProtocol { protocol: Span<'a> },
}

/// Whether span `s` lies in a text short enough to count its characters.
pub open spec fn span_fits(s: Span) -> bool {
    s.source.body@.len() < usize::MAX
}

/// The message for a name given twice, by the kind of thing named.
pub open spec fn duplicate_message(kind: Seq<char>, duplicate: Span, original: Span) -> Seq<char> {
    kind + " named `"@ + span_text(original) + "` already exists.\nDuplicate located at:\n"@
        + excerpt_text(duplicate) + "\nOriginal located at:\n"@ + excerpt_text(original)
}

/// The message that describes error `e`, with excerpts of the spans it
/// concerns.
pub open spec fn verification_message(e: VerificationError) -> Seq<char> {
    match e {
        VerificationError::EnumNameDuplicate { duplicate, original } => duplicate_message(
            "Enum"@,
            duplicate,
            original,
        ),
        VerificationError::EnumVariantDuplicate { duplicate, original } => duplicate_message(
            "Enum variant"@,
            duplicate,
            original,
        ),
        VerificationError::InterfaceNotImplemented { interface, implementation } =>
            "Service interface not implemented.\nThe following service interface is defined:\n"@
            + excerpt_text(interface)
            + "\nThat service interface is, however, not provided by this implementation:\n"@
            + excerpt_text(implementation),
        VerificationError::NoSuchInterfaceToImplement { service, interface } =>
            "Superfluous interface implementation.\nThe following service interface definition is provided:\n"@
            + excerpt_text(interface)
            + "\nHowever, no interface with that name is specified by the implemented service:\n"@
            + excerpt_text(service),
        VerificationError::NoSuchServiceToImplement { service } =>
            "Cannot implement non-existing service.\n"@ + excerpt_text(service),
        VerificationError::PrimitiveNameDuplicate { duplicate, original } => duplicate_message(
            "Primitive"@,
            duplicate,
            original,
        ),
        VerificationError::RecordNameDuplicate { duplicate, original } => duplicate_message(
            "Record"@,
            duplicate,
            original,
        ),
        VerificationError::ServiceNameDuplicate { duplicate, original } => duplicate_message(
            "Service"@,
            duplicate,
            original,
        ),
        VerificationError::SystemNameDuplicate { duplicate, original } => duplicate_message(
            "System"@,
            duplicate,
            original,
        ),
        VerificationError::UnknownServiceEncoding { encoding } =>
            "Unknown service encoding. Valid encodings are `CBOR`, `JSON` and `XML`.\n"@
            + excerpt_text(encoding),
        VerificationError::UnknownServiceProtocol { protocol } =>
            "Unknown service protocol. Valid protocol are `COAP`, `HTTP` and `MQTT`.\n"@
            + excerpt_text(protocol),
    }
}

/// Whether all spans of error `e` lie in texts short enough to count their
/// characters.
pub open spec fn error_spans_fit(e: VerificationError) -> bool {
    match e {
        VerificationError::EnumNameDuplicate { duplicate, original } => span_fits(duplicate)
            && span_fits(original),
        VerificationError::EnumVariantDuplicate { duplicate, original } => span_fits(duplicate)
            && span_fits(original),
        VerificationError::InterfaceNotImplemented { interface, implementation } => span_fits(
            interface,
        ) && span_fits(implementation),
        VerificationError::NoSuchInterfaceToImplement { service, interface } => span_fits(service)
            && span_fits(interface),
        VerificationError::NoSuchServiceToImplement { service } => span_fits(service),
        VerificationError::PrimitiveNameDuplicate { duplicate, original } => span_fits(duplicate)
            && span_fits(original),
        VerificationError::RecordNameDuplicate { duplicate, original } => span_fits(duplicate)
            && span_fits(original),
        VerificationError::ServiceNameDuplicate { duplicate, original } => span_fits(duplicate)
            && span_fits(original),
        VerificationError::SystemNameDuplicate { duplicate, original } => span_fits(duplicate)
            && span_fits(original),
        VerificationError::UnknownServiceEncoding { encoding } => span_fits(encoding),
        VerificationError::UnknownServiceProtocol { protocol } => span_fits(protocol),
    }
}

fn duplicate_text(kind: &str, duplicate: &Span, original: &Span) -> (r: String)
    requires
        span_fits(*duplicate),
        span_fits(*original),
    ensures
        r@ == duplicate_message(kind@, *duplicate, *original),
{
    let mut out = String::new();
    out.append(kind);
    out.append(" named `");
    let name = original.as_str();
    out.append(name.as_str());
    out.append("` already exists.\nDuplicate located at:\n");
    let d = duplicate.excerpt();
    out.append(d.as_str());
    out.append("\nOriginal located at:\n");
    let o = original.excerpt();
    out.append(o.as_str());
    out
}

impl<'a> VerificationError<'a> {
    /// A description of the error, with excerpts of the spans it concerns.
    pub fn message(&self) -> (r: String)
        requires
            error_spans_fit(*self),
        ensures
            r@ == verification_message(*self),
    {
        match self {
            VerificationError::EnumNameDuplicate { duplicate, original } => duplicate_text(
                "Enum",
                duplicate,
                original,
            ),
            VerificationError::EnumVariantDuplicate { duplicate, original } => duplicate_text(
                "Enum variant",
                duplicate,
                original,
            ),
            VerificationError::InterfaceNotImplemented { interface, implementation } => {
                let mut out = String::new();
                out.append(
                    "Service interface not implemented.\nThe following service interface is defined:\n",
                );
                out.append(interface.excerpt().as_str());
                out.append(
                    "\nThat service interface is, however, not provided by this implementation:\n",
                );
                out.append(implementation.excerpt().as_str());
                out
            },
            VerificationError::NoSuchInterfaceToImplement { service, interface } => {
                let mut out = String::new();
                out.append(
                    "Superfluous interface implementation.\nThe following service interface definition is provided:\n",
                );
                out.append(interface.excerpt().as_str());
                out.append(
                    "\nHowever, no interface with that name is specified by the implemented service:\n",
                );
                out.append(service.excerpt().as_str());
                out
            },
            VerificationError::NoSuchServiceToImplement { service } => {
                let mut out = String::new();
                out.append("Cannot implement non-existing service.\n");
                out.append(service.excerpt().as_str());
                out
            },
            VerificationError::PrimitiveNameDuplicate { duplicate, original } => duplicate_text(
                "Primitive",
                duplicate,
                original,
            ),
            VerificationError::RecordNameDuplicate { duplicate, original } => duplicate_text(
                "Record",
                duplicate,
                original,
            ),
            VerificationError::ServiceNameDuplicate { duplicate, original } => duplicate_text(
                "Service",
                duplicate,
                original,
            ),
            VerificationError::SystemNameDuplicate { duplicate, original } => duplicate_text(
                "System",
                duplicate,
                original,
            ),
            VerificationError::UnknownServiceEncoding { encoding } => {
                let mut out = String::new();
                out.append(
                    "Unknown service encoding. Valid encodings are `CBOR`, `JSON` and `XML`.\n",
                );
                out.append(encoding.excerpt().as_str());
                out
            },
            VerificationError::UnknownServiceProtocol { protocol } => {
                let mut out = String::new();
                out.append(
                    "Unknown service protocol. Valid protocol are `COAP`, `HTTP` and `MQTT`.\n",
                );
                out.append(protocol.excerpt().as_str());
                out
            },
        }
    }
}

/// The first failure among the variant checks of `enums` from `k` on.
pub open spec fn enums_check<'a>(enums: Seq<Enum<'a>>, k: int) -> Result<(), VerificationError<'a>>
    decreases enums.len() - k,
{
    if k < 0 || k >= enums.len() {
        Ok(())
    } else {
        match duplicate_pair(enums[k].variants@) {
            Some((i, j)) => Err(
                VerificationError::EnumVariantDuplicate {
                    duplicate: enums[k].variants@[j].name,
                    original: enums[k].variants@[i].name,
                },
            ),
            None => enums_check(enums, k + 1),
        }
    }
}

/// The first failure among the checks of implementations `imps` from `k` on
/// against `services`.
pub open spec fn implementations_check<'a>(
    imps: Seq<Implement<'a>>,
    services: Seq<Service<'a>>,
    k: int,
) -> Result<(), VerificationError<'a>>
    decreases imps.len() - k,
{
    if k < 0 || k >= imps.len() {
        Ok(())
    } else {
        match implement_check(imps[k], services) {
            Err(e) => Err(e),
            Ok(()) => implementations_check(imps, services, k + 1),
        }
    }
}

/// The outcome of verifying `s`: each check in turn, the first failure
/// ending it.
pub open spec fn specification_check<'a>(s: Specification<'a>) -> Result<(), VerificationError<'a>> {
    match enums_check(s.enums@, 0) {
        Err(e) => Err(e),
        Ok(()) => match duplicate_pair(s.enums@) {
            Some((i, j)) => Err(
                VerificationError::EnumNameDuplicate {
                    duplicate: s.enums@[j].name,
                    original: s.enums@[i].name,
                },
            ),
            None => match implementations_check(s.implementations@, s.services@, 0) {
                Err(e) => Err(e),
                Ok(()) => match duplicate_pair(s.primitives@) {
                    Some((i, j)) => Err(
                        VerificationError::PrimitiveNameDuplicate {
                            duplicate: s.primitives@[j].definition.name,
                            original: s.primitives@[i].definition.name,
                        },
                    ),
                    None => match duplicate_pair(s.records@) {
                        Some((i, j)) => Err(
                            VerificationError::RecordNameDuplicate {
                                duplicate: s.records@[j].name,
                                original: s.records@[i].name,
                            },
                        ),
                        None => match duplicate_pair(s.services@) {
                            Some((i, j)) => Err(
                                VerificationError::ServiceNameDuplicate {
                                    duplicate: s.services@[j].name,
                                    original: s.services@[i].name,
                                },
                            ),
                            None => match duplicate_pair(s.systems@) {
                                Some((i, j)) => Err(
                                    VerificationError::SystemNameDuplicate {
                                        duplicate: s.systems@[j].name,
                                        original: s.systems@[i].name,
                                    },
                                ),
                                None => Ok(()),
                            },
                        },
                    },
                },
            },
        },
    }
}

impl<'a> Specification<'a> {
    /// The model of an empty specification collection.
    pub open spec fn new_model() -> SpecificationModel<'a> {
        SpecificationModel {
            enums: Seq::empty(),
            implementations: Seq::empty(),
            primitives: Seq::empty(),
            records: Seq::empty(),
            services: Seq::empty(),
            systems: Seq::empty(),
        }
    }

    /// A collection with no definitions models as the empty one.
    pub proof fn lemma_new_model(s: Specification<'a>)
        requires
            s.enums@.len() == 0,
            s.implementations@.len() == 0,
            s.primitives@.len() == 0,
            s.records@.len() == 0,
            s.services@.len() == 0,
            s.systems@.len() == 0,
        ensures
            s@ == Self::new_model(),
    {
        assert(s@.enums =~= Seq::empty());
        assert(s@.implementations =~= Seq::empty());
        assert(s@.primitives =~= Seq::empty());
        assert(s@.records =~= Seq::empty());
        assert(s@.services =~= Seq::empty());
        assert(s@.systems =~= Seq::empty());
    }

    /// Creates an empty specification collection.
    pub fn new() -> (r: Self)
        ensures
            r.enums@.len() == 0,
            r.implementations@.len() == 0,
            r.primitives@.len() == 0,
            r.records@.len() == 0,
            r.services@.len() == 0,
            r.systems@.len() == 0,
    {
        Specification {
            enums: Vec::new(),
            implementations: Vec::new(),
            primitives: Vec::new(),
            records: Vec::new(),
            services: Vec::new(),
            systems: Vec::new(),
        }
    }

    /// Performs naive specification verification: enum variants, then enum
    /// names, implementations, and the names of primitives, records,
    /// services and systems, in that order; the first failure is returned.
    pub fn verify(&self) -> (r: Result<(), VerificationError<'a>>)
        ensures
            r == specification_check(*self),
    {
        let enums = self.enums.as_slice();
        let mut k: usize = 0;
        while k < enums.len()
            invariant
                k <= enums@.len(),
                enums@ == self.enums@,
                enums_check(enums@, 0) == enums_check(enums@, k as int),
            decreases enums@.len() - k,
        {
            match enums[k].verify() {
                Err(e) => {
                    return Err(e);
                },
                Ok(()) => {},
            }
            k = k + 1;
        }
        match find_duplicate(enums) {
            Some(dup) => {
                return Err(
                    VerificationError::EnumNameDuplicate {
                        duplicate: dup.duplicate.name,
                        original: dup.original.name,
                    },
                );
            },
            None => {},
        }
        let imps = self.implementations.as_slice();
        let mut k: usize = 0;
        while k < imps.len()
            invariant
                k <= imps@.len(),
                imps@ == self.implementations@,
                enums_check(self.enums@, 0) == Ok::<(), VerificationError<'a>>(()),
                duplicate_pair(self.enums@) is None,
                implementations_check(imps@, self.services@, 0) == implementations_check(
                    imps@,
                    self.services@,
                    k as int,
                ),
            decreases imps@.len() - k,
        {
            match imps[k].verify(self) {
                Err(e) => {
                    return Err(e);
                },
                Ok(()) => {},
            }
            k = k + 1;
        }
        match find_duplicate(self.primitives.as_slice()) {
            Some(dup) => {
                return Err(
                    VerificationError::PrimitiveNameDuplicate {
                        duplicate: dup.duplicate.definition.name,
                        original: dup.original.definition.name,
                    },
                );
            },
            None => {},
        }
        match find_duplicate(self.records.as_slice()) {
            Some(dup) => {
                return Err(
                    VerificationError::RecordNameDuplicate {
                        duplicate: dup.duplicate.name,
                        original: dup.original.name,
                    },
                );
            },
            None => {},
        }
        match find_duplicate(self.services.as_slice()) {
            Some(dup) => {
                return Err(
                    VerificationError::ServiceNameDuplicate {
                        duplicate: dup.duplicate.name,
                        original: dup.original.name,
                    },
                );
            },
            None => {},
        }
        match find_duplicate(self.systems.as_slice()) {
            Some(dup) => {
                return Err(
                    VerificationError::SystemNameDuplicate {
                        duplicate: dup.duplicate.name,
                        original: dup.original.name,
                    },
                );
            },
            None => {},
        }
        Ok(())
    }
}

} // verus!
