use super::attribute::{Attribute, AttributeModel, attributes_model};
use super::property::{Property, PropertyModel, properties_model};
use super::service::Service;
use super::value::{Value, ValueModel, entries_model};
use super::{Specification, VerificationError};
use crate::source::{Span, span_text};
use vstd::prelude::*;

verus! {

/// Specifies how to implement a named [`Service`].
pub struct Implement<'a> {
    /// Name of implemented service.
    pub name: Span<'a>,
    /// Name of communication protocol to use.
    pub protocol: Span<'a>,
    /// Name of payload encoding to use.
    pub encoding: Span<'a>,
    /// Any implementation properties.
    pub properties: Vec<Property<'a>>,
    /// Any interface implementation definitions.
    pub interfaces: Vec<ImplementInterface<'a>>,
    /// Any method implementation definitions.
    pub methods: Vec<ImplementMethod<'a>>,
    /// Any attributes.
    pub attributes: Vec<Attribute<'a>>,
}

/// An [`Implement`] with its lists held as sequences.
pub struct ImplementModel<'a> {
    pub name: Span<'a>,
    pub protocol: Span<'a>,
    pub encoding: Span<'a>,
    pub properties: Seq<PropertyModel<'a>>,
    pub interfaces: Seq<ImplementInterfaceModel<'a>>,
    pub methods: Seq<ImplementMethodModel<'a>>,
    pub attributes: Seq<AttributeModel<'a>>,
}

impl<'a> View for Implement<'a> {
    type V = ImplementModel<'a>;

    open spec fn view(&self) -> ImplementModel<'a> {
        ImplementModel {
            name: self.name,
            protocol: self.protocol,
            encoding: self.encoding,
            properties: properties_model(self.properties@),
            interfaces: self.interfaces@.map_values(|i: ImplementInterface<'a>| i@),
            methods: implement_methods_model(self.methods@),
            attributes: attributes_model(self.attributes@),
        }
    }
}

/// Specifies how to implement a named service interface.
pub struct ImplementInterface<'a> {
    /// Name of implemented interface.
    pub name: Span<'a>,
    /// Any interface method implementations.
    pub methods: Vec<ImplementMethod<'a>>,
    /// Any interface properties.
    pub properties: Vec<Property<'a>>,
    /// Any attributes.
    pub attributes: Vec<Attribute<'a>>,
}

/// An [`ImplementInterface`] with its lists held as sequences.
pub struct ImplementInterfaceModel<'a> {
    pub name: Span<'a>,
    pub methods: Seq<ImplementMethodModel<'a>>,
    pub properties: Seq<PropertyModel<'a>>,
    pub attributes: Seq<AttributeModel<'a>>,
}

impl<'a> View for ImplementInterface<'a> {
    type V = ImplementInterfaceModel<'a>;

    open spec fn view(&self) -> ImplementInterfaceModel<'a> {
        ImplementInterfaceModel {
            name: self.name,
            methods: implement_methods_model(self.methods@),
            properties: properties_model(self.properties@),
            attributes: attributes_model(self.attributes@),
        }
    }
}

/// Specifies how to implement a named [`ServiceMethod`](super::ServiceMethod).
pub struct ImplementMethod<'a> {
    /// Name of implemented method.
    pub name: Span<'a>,
    /// Table of method specification data.
    pub data: Vec<(Span<'a>, Value<'a>)>,
    /// Any attributes.
    pub attributes: Vec<Attribute<'a>>,
}

/// An [`ImplementMethod`] with its lists held as sequences.
pub struct ImplementMethodModel<'a> {
    pub name: Span<'a>,
    pub data: Seq<(Span<'a>, ValueModel<'a>)>,
    pub attributes: Seq<AttributeModel<'a>>,
}

impl<'a> View for ImplementMethod<'a> {
    type V = ImplementMethodModel<'a>;

    open spec fn view(&self) -> ImplementMethodModel<'a> {
        ImplementMethodModel {
            name: self.name,
            data: entries_model(self.data@),
            attributes: attributes_model(self.attributes@),
        }
    }
}

/// The models of method implementations `items`.
pub open spec fn implement_methods_model<'a>(items: Seq<ImplementMethod<'a>>) -> Seq<ImplementMethodModel<'a>> {
    items.map_values(|m: ImplementMethod<'a>| m@)
}

/// Index of the first of `services` from `k` on named `name`.
pub open spec fn find_service(services: Seq<Service>, name: Seq<char>, k: int) -> Option<int>
    decreases services.len() - k,
{
    if k < 0 || k >= services.len() {
        None
    } else if span_text(services[k].name) == name {
        Some(k)
    } else {
        find_service(services, name, k + 1)
    }
}

/// Whether `p` names a known communication protocol.
pub open spec fn is_known_protocol(p: Seq<char>) -> bool {
    p == "COAP"@ || p == "HTTP"@ || p == "MQTT"@
}

/// Whether `e` names a known payload encoding.
pub open spec fn is_known_encoding(e: Seq<char>) -> bool {
    e == "CBOR"@ || e == "JSON"@ || e == "XML"@
}

/// The outcome of checking implementation `imp` against `services`: the
/// implemented service must exist; services define no interfaces, so no
/// interface can be implemented; and protocol and encoding must be known.
pub open spec fn implement_check<'a>(imp: Implement<'a>, services: Seq<Service<'a>>) -> Result<
    (),
    VerificationError<'a>,
> {
    match find_service(services, span_text(imp.name), 0) {
        None => Err(VerificationError::NoSuchServiceToImplement { service: imp.name }),
        Some(k) => if imp.interfaces@.len() > 0 {
            Err(
                VerificationError::NoSuchInterfaceToImplement {
                    service: services[k].name,
                    interface: imp.interfaces@[0].name,
                },
            )
        } else if !is_known_protocol(span_text(imp.protocol)) {
            Err(VerificationError::UnknownServiceProtocol { protocol: imp.protocol })
        } else if !is_known_encoding(span_text(imp.encoding)) {
            Err(VerificationError::UnknownServiceEncoding { encoding: imp.encoding })
        } else {
            Ok(())
        },
    }
}

/// A service named `name` at or after `j` is found.
proof fn lemma_find_service_finds(services: Seq<Service>, name: Seq<char>, j: int, k: int)
    requires
        0 <= j <= k < services.len(),
        span_text(services[k].name) == name,
    ensures
        find_service(services, name, j) is Some,
    decreases k - j,
{
    if span_text(services[j].name) != name {
        lemma_find_service_finds(services, name, j + 1, k);
    }
}

/// What the search finds is a service named `name`.
proof fn lemma_find_service_named(services: Seq<Service>, name: Seq<char>, j: int)
    ensures
        find_service(services, name, j) matches Some(k) ==> 0 <= k < services.len() && span_text(
            services[k].name,
        ) == name,
    decreases services.len() - j,
{
    if 0 <= j < services.len() && span_text(services[j].name) != name {
        lemma_find_service_named(services, name, j + 1);
    }
}

/// An implementation is accepted exactly when a service of its name exists,
/// it names no interfaces (services define none), its protocol is one of
/// `COAP`, `HTTP` and `MQTT`, and its encoding one of `CBOR`, `JSON` and
/// `XML`. Where all holds but the encoding, the encoding is the error.
pub proof fn law_implement_accepted<'a>(imp: Implement<'a>, services: Seq<Service<'a>>)
    ensures
        implement_check(imp, services) is Ok <==> {
            &&& exists|k: int|
                0 <= k < services.len() && span_text(#[trigger] services[k].name) == span_text(
                    imp.name,
                )
            &&& imp.interfaces@.len() == 0
            &&& {
                let p = span_text(imp.protocol);
                p == "COAP"@ || p == "HTTP"@ || p == "MQTT"@
            }
            &&& {
                let e = span_text(imp.encoding);
                e == "CBOR"@ || e == "JSON"@ || e == "XML"@
            }
        },
        ({
            let p = span_text(imp.protocol);
            let e = span_text(imp.encoding);
            &&& exists|k: int|
                0 <= k < services.len() && span_text(#[trigger] services[k].name) == span_text(
                    imp.name,
                )
            &&& imp.interfaces@.len() == 0
            &&& (p == "COAP"@ || p == "HTTP"@ || p == "MQTT"@)
            &&& !(e == "CBOR"@ || e == "JSON"@ || e == "XML"@)
        }) ==> implement_check(imp, services) == Err::<(), VerificationError<'a>>(
            VerificationError::UnknownServiceEncoding { encoding: imp.encoding },
        ),
{
    let name = span_text(imp.name);
    lemma_find_service_named(services, name, 0);
    if exists|k: int| 0 <= k < services.len() && span_text(#[trigger] services[k].name) == name {
        let k = choose|k: int| 0 <= k < services.len() && span_text(#[trigger] services[k].name) == name;
        lemma_find_service_finds(services, name, 0, k);
    }
}

/// Index of the first of `services` named like `name`.
fn position_of(services: &[Service], name: &Span) -> (r: Option<usize>)
    ensures
        match find_service(services@, span_text(*name), 0) {
            None => r is None,
            Some(k) => r == Some(k as usize) && 0 <= k < services@.len(),
        },
{
    let mut k: usize = 0;
    while k < services.len()
        invariant
            k <= services@.len(),
            find_service(services@, span_text(*name), 0) == find_service(
                services@,
                span_text(*name),
                k as int,
            ),
        decreases services@.len() - k,
    {
        if name.same_text(&services[k].name) {
            return Some(k);
        }
        k = k + 1;
    }
    None
}

impl<'a> Implement<'a> {
    /// Creates a service implementation specification without properties,
    /// interfaces or methods.
    pub fn new(
        name: Span<'a>,
        protocol: Span<'a>,
        encoding: Span<'a>,
        attributes: Vec<Attribute<'a>>,
    ) -> (r: Self)
        ensures
            r.name == name,
            r.protocol == protocol,
            r.encoding == encoding,
            r.properties@.len() == 0,
            r.interfaces@.len() == 0,
            r.methods@.len() == 0,
            r.attributes@ == attributes@,
    {
        Implement {
            name,
            protocol,
            encoding,
            properties: Vec::new(),
            interfaces: Vec::new(),
            methods: Vec::new(),
            attributes,
        }
    }

    /// Checks this implementation against the services of `spec`.
    pub fn verify(&self, spec: &Specification<'a>) -> (r: Result<(), VerificationError<'a>>)
        ensures
            r == implement_check(*self, spec.services@),
    {
        let services = spec.services.as_slice();
        let k = match position_of(services, &self.name) {
            None => {
                return Err(VerificationError::NoSuchServiceToImplement { service: self.name });
            },
            Some(k) => k,
        };
        let service = &services[k];
        if self.interfaces.len() > 0 {
            return Err(
                VerificationError::NoSuchInterfaceToImplement {
                    service: service.name,
                    interface: self.interfaces[0].name,
                },
            );
        }
        let p = &self.protocol;
        if !(p.text_is("COAP") || p.text_is("HTTP") || p.text_is("MQTT")) {
            return Err(VerificationError::UnknownServiceProtocol { protocol: self.protocol });
        }
        let e = &self.encoding;
        if !(e.text_is("CBOR") || e.text_is("JSON") || e.text_is("XML")) {
            return Err(VerificationError::UnknownServiceEncoding { encoding: self.encoding });
        }
        Ok(())
    }
}

impl<'a> ImplementInterface<'a> {
    /// Creates a service interface implementation definition without methods
    /// or properties.
    pub fn new(name: Span<'a>, attributes: Vec<Attribute<'a>>) -> (r: Self)
        ensures
            r.name == name,
            r.methods@.len() == 0,
            r.properties@.len() == 0,
            r.attributes@ == attributes@,
    {
        ImplementInterface { name, methods: Vec::new(), properties: Vec::new(), attributes }
    }
}

impl<'a> ImplementMethod<'a> {
    /// Creates a service method implementation definition without data.
    pub fn new(name: Span<'a>, attributes: Vec<Attribute<'a>>) -> (r: Self)
        ensures
            r.name == name,
            r.data@.len() == 0,
            r.attributes@ == attributes@,
    {
        ImplementMethod { name, data: Vec::new(), attributes }
    }
}

} // verus!
