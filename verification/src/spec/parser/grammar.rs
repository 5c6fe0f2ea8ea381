//! The grammar of specification texts, over their tokens: what each rule
//! reads from a token position, where it stops, and the first token that
//! breaks it.

use super::class::Class;
use crate::source::{Span, Text, Token, all_mismatch, class_in, span_of};
use crate::spec::attribute::AttributeModel;
use crate::spec::enum_::{EnumModel, EnumVariantModel};
use crate::spec::implement::{ImplementInterfaceModel, ImplementMethodModel, ImplementModel};
use crate::spec::primitive::PrimitiveModel;
use crate::spec::property::PropertyModel;
use crate::spec::record::{RecordEntryModel, RecordModel};
use crate::spec::service::{ServiceMethodModel, ServiceModel, ServiceRefModel};
use crate::spec::system::SystemModel;
use crate::spec::type_ref::TypeRefModel;
use crate::spec::value::ValueModel;
use crate::spec::SpecificationModel;
use vstd::prelude::*;

verus! {

/// The tokens of a specification text.
pub type Tokens = Seq<Token<Class>>;

/// A failure: the classes that would have been accepted, and the token found
/// instead, `None` at the end of the tokens.
pub type Failure = (Seq<Class>, Option<Token<Class>>);

/// The failure of expecting `cs` at position `i`.
pub open spec fn err_at(ts: Tokens, i: int, cs: Seq<Class>) -> Failure {
    (cs, if 0 <= i < ts.len() { Some(ts[i]) } else { None })
}

/// Whether the token at `i` is of class `c`.
pub open spec fn at(ts: Tokens, i: int, c: Class) -> bool {
    0 <= i < ts.len() && ts[i].class == c
}

/// Whether the token at `i` is of one of the classes `cs`.
pub open spec fn at_any(ts: Tokens, i: int, cs: Seq<Class>) -> bool {
    0 <= i < ts.len() && class_in(cs, ts[i].class)
}

/// The failure of reading tokens of classes `cs`, one by one, from `i`;
/// `None` if they are all there.
pub open spec fn all_error(ts: Tokens, i: int, cs: Seq<Class>) -> Option<Failure> {
    match all_mismatch(ts, i, cs, 0) {
        None => None,
        Some(k) => Some(err_at(ts, i + k, seq![cs[k]])),
    }
}

/// The classes a value starts with.
pub open spec fn value_classes() -> Seq<Class> {
    seq![
        Class::Null,
        Class::Boolean,
        Class::Integer,
        Class::Float,
        Class::String,
        Class::SquareLeft,
        Class::BraceLeft,
    ]
}

/// The value read at `i`, and the position after it.
pub open spec fn value<'a>(text: &'a Text, ts: Tokens, i: int) -> Result<(ValueModel<'a>, int), Failure>
    decreases ts.len() - i, 0int,
{
    if !at_any(ts, i, value_classes()) {
        Err(err_at(ts, i, value_classes()))
    } else {
        let t = ts[i];
        let s = span_of(text, t);
        match t.class {
            Class::Null => Ok((ValueModel::Null, i + 1)),
            Class::Boolean => Ok((ValueModel::Boolean(s), i + 1)),
            Class::Integer => Ok((ValueModel::Integer(s), i + 1)),
            Class::Float => Ok((ValueModel::Float(s), i + 1)),
            Class::String => Ok((ValueModel::String(s), i + 1)),
            Class::SquareLeft => match list(text, ts, i + 1, Seq::empty()) {
                Ok((items, j)) => Ok((ValueModel::List(items), j)),
                Err(e) => Err(e),
            },
            _ => match map(text, ts, i + 1, Seq::empty()) {
                Ok((items, j)) => Ok((ValueModel::Mapping(items), j)),
                Err(e) => Err(e),
            },
        }
    }
}

/// The items of a list read at `i`, after `acc`, through its closing `]`,
/// and the position after it.
pub open spec fn list<'a>(text: &'a Text, ts: Tokens, i: int, acc: Seq<ValueModel<'a>>) -> Result<
    (Seq<ValueModel<'a>>, int),
    Failure,
>
    decreases ts.len() - i, 1int,
{
    if at(ts, i, Class::SquareRight) {
        Ok((acc, i + 1))
    } else {
        match value(text, ts, i) {
            Err(e) => Err((e.0.push(Class::SquareRight), e.1)),
            Ok((v, j)) => if j <= i || j > ts.len() {
                Err(err_at(ts, i, value_classes()))
            } else if at(ts, j, Class::Comma) {
                list(text, ts, j + 1, acc.push(v))
            } else if at(ts, j, Class::SquareRight) {
                Ok((acc.push(v), j + 1))
            } else {
                Err(err_at(ts, j, seq![Class::Comma, Class::SquareRight]))
            },
        }
    }
}

/// The entries of a map read at `i`, after `acc`, through its closing `}`,
/// and the position after it.
pub open spec fn map<'a>(
    text: &'a Text,
    ts: Tokens,
    i: int,
    acc: Seq<(Span<'a>, ValueModel<'a>)>,
) -> Result<(Seq<(Span<'a>, ValueModel<'a>)>, int), Failure>
    decreases ts.len() - i, 1int,
{
    if at(ts, i, Class::BraceRight) {
        Ok((acc, i + 1))
    } else if !at(ts, i, Class::Identifier) {
        Err(err_at(ts, i, seq![Class::Identifier, Class::BraceRight]))
    } else if !at(ts, i + 1, Class::Colon) {
        Err(err_at(ts, i + 1, seq![Class::Colon]))
    } else {
        let key = span_of(text, ts[i]);
        match value(text, ts, i + 2) {
            Err(e) => Err(e),
            Ok((v, j)) => if j <= i || j > ts.len() {
                Err(err_at(ts, i, value_classes()))
            } else if at(ts, j, Class::Comma) {
                map(text, ts, j + 1, acc.push((key, v)))
            } else if at(ts, j, Class::BraceRight) {
                Ok((acc.push((key, v)), j + 1))
            } else {
                Err(err_at(ts, j, seq![Class::Comma, Class::BraceRight]))
            },
        }
    }
}

/// The attribute read after an `@` at `i`, and the position after it.
pub open spec fn attribute<'a>(text: &'a Text, ts: Tokens, i: int) -> Result<(AttributeModel<'a>, int), Failure> {
    match all_error(ts, i, seq![Class::Identifier, Class::ParenLeft]) {
        Some(e) => Err(e),
        None => match value(text, ts, i + 2) {
            Err(e) => Err(e),
            Ok((v, j)) => if at(ts, j, Class::ParenRight) {
                Ok((AttributeModel { name: span_of(text, ts[i]), value: v }, j + 1))
            } else {
                Err(err_at(ts, j, seq![Class::ParenRight]))
            },
        },
    }
}

/// The type parameters read at `i`, if a `<` starts them, and the position
/// after them; they come out last first.
pub open spec fn type_params<'a>(text: &'a Text, ts: Tokens, i: int) -> Result<(Seq<TypeRefModel<'a>>, int), Failure>
    decreases ts.len() - i, 1int,
{
    if !at(ts, i, Class::AngleLeft) {
        Ok((Seq::empty(), i))
    } else {
        type_params_entry(text, ts, i + 1)
    }
}

/// The type parameters read from the one at `i` through the closing `>`,
/// last first, and the position after them.
pub open spec fn type_params_entry<'a>(text: &'a Text, ts: Tokens, i: int) -> Result<
    (Seq<TypeRefModel<'a>>, int),
    Failure,
>
    decreases ts.len() - i, 0int,
{
    if !at(ts, i, Class::Identifier) {
        Err(err_at(ts, i, seq![Class::Identifier]))
    } else {
        match type_params(text, ts, i + 1) {
            Err(e) => Err(e),
            Ok((params, j)) => {
                let tr = TypeRefModel { name: span_of(text, ts[i]), params };
                if j <= i || j > ts.len() {
                    Err(err_at(ts, i, seq![Class::Identifier]))
                } else if at(ts, j, Class::Comma) {
                    match type_params_entry(text, ts, j + 1) {
                        Err(e) => Err(e),
                        Ok((rest, k)) => Ok((rest.push(tr), k)),
                    }
                } else if at(ts, j, Class::AngleRight) {
                    Ok((seq![tr], j + 1))
                } else {
                    Err(err_at(ts, j, seq![Class::Comma, Class::AngleRight]))
                }
            },
        }
    }
}

/// Attributes to come: none yet.
pub open spec fn no_attributes<'a>() -> Seq<AttributeModel<'a>> {
    Seq::empty()
}

/// The property read after `property` at `i`, with attributes `attrs`, and
/// the position after its `;`.
pub open spec fn property<'a>(text: &'a Text, ts: Tokens, i: int, attrs: Seq<AttributeModel<'a>>) -> Result<
    (PropertyModel<'a>, int),
    Failure,
> {
    match all_error(ts, i, seq![Class::Identifier, Class::Colon]) {
        Some(e) => Err(e),
        None => match value(text, ts, i + 2) {
            Err(e) => Err(e),
            Ok((v, j)) => if at(ts, j, Class::Semicolon) {
                Ok((PropertyModel { name: span_of(text, ts[i]), value: v, attributes: attrs }, j + 1))
            } else {
                Err(err_at(ts, j, seq![Class::Semicolon]))
            },
        },
    }
}

/// The method implementation read after `method` at `i`, with attributes
/// `attrs`, and the position after its `}`.
pub open spec fn implement_method<'a>(
    text: &'a Text,
    ts: Tokens,
    i: int,
    attrs: Seq<AttributeModel<'a>>,
) -> Result<(ImplementMethodModel<'a>, int), Failure> {
    match all_error(ts, i, seq![Class::Identifier, Class::BraceLeft]) {
        Some(e) => Err(e),
        None => match map(text, ts, i + 2, Seq::empty()) {
            Err(e) => Err(e),
            Ok((data, j)) => Ok(
                (ImplementMethodModel { name: span_of(text, ts[i]), data, attributes: attrs }, j),
            ),
        },
    }
}

/// The classes an interface implementation entry starts with.
pub open spec fn interface_classes() -> Seq<Class> {
    seq![Class::At, Class::Method, Class::Property, Class::BraceRight]
}

/// The interface implementation `acc` with the entries read at `i` added,
/// the next one having attributes `attrs`, and the position after its `}`.
pub open spec fn interface_entries<'a>(
    text: &'a Text,
    ts: Tokens,
    i: int,
    acc: ImplementInterfaceModel<'a>,
    attrs: Seq<AttributeModel<'a>>,
) -> Result<(ImplementInterfaceModel<'a>, int), Failure>
    decreases ts.len() - i,
{
    let cs = interface_classes();
    if !at_any(ts, i, cs) {
        Err(err_at(ts, i, cs))
    } else if ts[i].class == Class::BraceRight {
        Ok((acc, i + 1))
    } else if ts[i].class == Class::At {
        match attribute(text, ts, i + 1) {
            Err(e) => Err(e),
            Ok((a, j)) => if j <= i || j > ts.len() {
                Err(err_at(ts, i, cs))
            } else {
                interface_entries(text, ts, j, acc, attrs.push(a))
            },
        }
    } else if ts[i].class == Class::Method {
        match implement_method(text, ts, i + 1, attrs) {
            Err(e) => Err(e),
            Ok((x, j)) => if j <= i || j > ts.len() {
                Err(err_at(ts, i, cs))
            } else {
                interface_entries(
                    text,
                    ts,
                    j,
                    ImplementInterfaceModel { methods: acc.methods.push(x), ..acc },
                    Seq::empty(),
                )
            },
        }
    } else {
        match property(text, ts, i + 1, attrs) {
            Err(e) => Err(e),
            Ok((x, j)) => if j <= i || j > ts.len() {
                Err(err_at(ts, i, cs))
            } else {
                interface_entries(
                    text,
                    ts,
                    j,
                    ImplementInterfaceModel { properties: acc.properties.push(x), ..acc },
                    Seq::empty(),
                )
            },
        }
    }
}

/// The interface implementation read after `interface` at `i`, with
/// attributes `attrs`, and the position after its `}`.
pub open spec fn implement_interface<'a>(
    text: &'a Text,
    ts: Tokens,
    i: int,
    attrs: Seq<AttributeModel<'a>>,
) -> Result<(ImplementInterfaceModel<'a>, int), Failure> {
    match all_error(ts, i, seq![Class::Identifier, Class::BraceLeft]) {
        Some(e) => Err(e),
        None => interface_entries(
            text,
            ts,
            i + 2,
            ImplementInterfaceModel {
                name: span_of(text, ts[i]),
                methods: Seq::empty(),
                properties: Seq::empty(),
                attributes: attrs,
            },
            Seq::empty(),
        ),
    }
}

/// The classes an implementation entry starts with.
pub open spec fn implement_classes() -> Seq<Class> {
    seq![Class::At, Class::Interface, Class::Method, Class::Property, Class::BraceRight]
}

/// The implementation `acc` with the entries read at `i` added, the next one
/// having attributes `attrs`, and the position after its `}`.
pub open spec fn implement_entries<'a>(
    text: &'a Text,
    ts: Tokens,
    i: int,
    acc: ImplementModel<'a>,
    attrs: Seq<AttributeModel<'a>>,
) -> Result<(ImplementModel<'a>, int), Failure>
    decreases ts.len() - i,
{
    let cs = implement_classes();
    if !at_any(ts, i, cs) {
        Err(err_at(ts, i, cs))
    } else if ts[i].class == Class::BraceRight {
        Ok((acc, i + 1))
    } else if ts[i].class == Class::At {
        match attribute(text, ts, i + 1) {
            Err(e) => Err(e),
            Ok((a, j)) => if j <= i || j > ts.len() {
                Err(err_at(ts, i, cs))
            } else {
                implement_entries(text, ts, j, acc, attrs.push(a))
            },
        }
    } else if ts[i].class == Class::Interface {
        match implement_interface(text, ts, i + 1, attrs) {
            Err(e) => Err(e),
            Ok((x, j)) => if j <= i || j > ts.len() {
                Err(err_at(ts, i, cs))
            } else {
                implement_entries(
                    text,
                    ts,
                    j,
                    ImplementModel { interfaces: acc.interfaces.push(x), ..acc },
                    Seq::empty(),
                )
            },
        }
    } else if ts[i].class == Class::Method {
        match implement_method(text, ts, i + 1, attrs) {
            Err(e) => Err(e),
            Ok((x, j)) => if j <= i || j > ts.len() {
                Err(err_at(ts, i, cs))
            } else {
                implement_entries(
                    text,
                    ts,
                    j,
                    ImplementModel { methods: acc.methods.push(x), ..acc },
                    Seq::empty(),
                )
            },
        }
    } else {
        match property(text, ts, i + 1, attrs) {
            Err(e) => Err(e),
            Ok((x, j)) => if j <= i || j > ts.len() {
                Err(err_at(ts, i, cs))
            } else {
                implement_entries(
                    text,
                    ts,
                    j,
                    ImplementModel { properties: acc.properties.push(x), ..acc },
                    Seq::empty(),
                )
            },
        }
    }
}

/// The head of an implementation: service name, `using`, protocol, `/`,
/// encoding and `{`.
pub open spec fn implement_head() -> Seq<Class> {
    seq![
        Class::Identifier,
        Class::Using,
        Class::Identifier,
        Class::Slash,
        Class::Identifier,
        Class::BraceLeft,
    ]
}

/// The implementation read after `implement` at `i`, with attributes
/// `attrs`, and the position after its `}`.
pub open spec fn implement<'a>(text: &'a Text, ts: Tokens, i: int, attrs: Seq<AttributeModel<'a>>) -> Result<
    (ImplementModel<'a>, int),
    Failure,
> {
    match all_error(ts, i, implement_head()) {
        Some(e) => Err(e),
        None => implement_entries(
            text,
            ts,
            i + 6,
            ImplementModel {
                name: span_of(text, ts[i]),
                protocol: span_of(text, ts[i + 2]),
                encoding: span_of(text, ts[i + 4]),
                properties: Seq::empty(),
                interfaces: Seq::empty(),
                methods: Seq::empty(),
                attributes: attrs,
            },
            Seq::empty(),
        ),
    }
}

/// The classes an enum entry starts with.
pub open spec fn enum_classes() -> Seq<Class> {
    seq![Class::At, Class::Identifier, Class::BraceRight]
}

/// The enum `acc` with the variants read at `i` added, the next one having
/// attributes `attrs`, and the position after its `}`.
pub open spec fn enum_entries<'a>(
    text: &'a Text,
    ts: Tokens,
    i: int,
    acc: EnumModel<'a>,
    attrs: Seq<AttributeModel<'a>>,
) -> Result<(EnumModel<'a>, int), Failure>
    decreases ts.len() - i,
{
    let cs = enum_classes();
    if !at_any(ts, i, cs) {
        Err(err_at(ts, i, cs))
    } else if ts[i].class == Class::BraceRight {
        Ok((acc, i + 1))
    } else if ts[i].class == Class::At {
        match attribute(text, ts, i + 1) {
            Err(e) => Err(e),
            Ok((a, j)) => if j <= i || j > ts.len() {
                Err(err_at(ts, i, cs))
            } else {
                enum_entries(text, ts, j, acc, attrs.push(a))
            },
        }
    } else {
        let next = EnumModel {
            variants: acc.variants.push(
                EnumVariantModel { name: span_of(text, ts[i]), attributes: attrs },
            ),
            ..acc
        };
        if at(ts, i + 1, Class::Comma) {
            enum_entries(text, ts, i + 2, next, Seq::empty())
        } else if at(ts, i + 1, Class::BraceRight) {
            Ok((next, i + 2))
        } else {
            Err(err_at(ts, i + 1, seq![Class::Comma, Class::BraceRight]))
        }
    }
}

/// The enum read after `enum` at `i`, with attributes `attrs`, and the
/// position after its `}`.
pub open spec fn enum_<'a>(text: &'a Text, ts: Tokens, i: int, attrs: Seq<AttributeModel<'a>>) -> Result<
    (EnumModel<'a>, int),
    Failure,
> {
    match all_error(ts, i, seq![Class::Identifier, Class::BraceLeft]) {
        Some(e) => Err(e),
        None => enum_entries(
            text,
            ts,
            i + 2,
            EnumModel { name: span_of(text, ts[i]), variants: Seq::empty(), attributes: attrs },
            Seq::empty(),
        ),
    }
}

/// The generic parameter names read at `i`, after `acc`, through the closing
/// `>`, and the position after it.
pub open spec fn parameters<'a>(text: &'a Text, ts: Tokens, i: int, acc: Seq<Span<'a>>) -> Result<
    (Seq<Span<'a>>, int),
    Failure,
>
    decreases ts.len() - i,
{
    if at(ts, i, Class::AngleRight) {
        Ok((acc, i + 1))
    } else if !at(ts, i, Class::Identifier) {
        Err(err_at(ts, i, seq![Class::Identifier, Class::AngleRight]))
    } else {
        let next = acc.push(span_of(text, ts[i]));
        if at(ts, i + 1, Class::Comma) {
            parameters(text, ts, i + 2, next)
        } else if at(ts, i + 1, Class::AngleRight) {
            Ok((next, i + 2))
        } else {
            Err(err_at(ts, i + 1, seq![Class::Comma, Class::AngleRight]))
        }
    }
}

/// The primitive type read after `primitive` at `i`, with attributes
/// `attrs`, and the position after its `;`.
pub open spec fn primitive<'a>(text: &'a Text, ts: Tokens, i: int, attrs: Seq<AttributeModel<'a>>) -> Result<
    (PrimitiveModel<'a>, int),
    Failure,
> {
    let head: Result<(Seq<Span<'a>>, int), Failure> = if at(ts, i, Class::AngleLeft) {
        match parameters(text, ts, i + 1, Seq::empty()) {
            Err(e) => Err(e),
            Ok((gp, j)) => if at(ts, j, Class::Identifier) {
                Ok((gp, j))
            } else {
                Err(err_at(ts, j, seq![Class::Identifier]))
            },
        }
    } else if at(ts, i, Class::Identifier) {
        Ok((Seq::empty(), i))
    } else {
        Err(err_at(ts, i, seq![Class::AngleLeft, Class::Identifier]))
    };
    match head {
        Err(e) => Err(e),
        Ok((gp, k)) => match type_params(text, ts, k + 1) {
            Err(e) => Err(e),
            Ok((params, l)) => if at(ts, l, Class::Semicolon) {
                Ok(
                    (
                        PrimitiveModel {
                            generic_parameters: gp,
                            definition: TypeRefModel { name: span_of(text, ts[k]), params },
                            attributes: attrs,
                        },
                        l + 1,
                    ),
                )
            } else {
                Err(err_at(ts, l, seq![Class::Semicolon]))
            },
        },
    }
}

/// The record `acc` with the fields read at `i` added, the next one having
/// attributes `attrs`, and the position after its `}`.
pub open spec fn record_entries<'a>(
    text: &'a Text,
    ts: Tokens,
    i: int,
    acc: RecordModel<'a>,
    attrs: Seq<AttributeModel<'a>>,
) -> Result<(RecordModel<'a>, int), Failure>
    decreases ts.len() - i,
{
    let cs = enum_classes();
    if !at_any(ts, i, cs) {
        Err(err_at(ts, i, cs))
    } else if ts[i].class == Class::BraceRight {
        Ok((acc, i + 1))
    } else if ts[i].class == Class::At {
        match attribute(text, ts, i + 1) {
            Err(e) => Err(e),
            Ok((a, j)) => if j <= i || j > ts.len() {
                Err(err_at(ts, i, cs))
            } else {
                record_entries(text, ts, j, acc, attrs.push(a))
            },
        }
    } else {
        match all_error(ts, i + 1, seq![Class::Colon, Class::Identifier]) {
            Some(e) => Err(e),
            None => match type_params(text, ts, i + 3) {
                Err(e) => Err(e),
                Ok((params, j)) => {
                    let entry = RecordEntryModel {
                        name: span_of(text, ts[i]),
                        type_ref: TypeRefModel { name: span_of(text, ts[i + 2]), params },
                        attributes: attrs,
                    };
                    let next = RecordModel { entries: acc.entries.push(entry), ..acc };
                    if j <= i || j > ts.len() {
                        Err(err_at(ts, i, cs))
                    } else if at(ts, j, Class::Comma) {
                        record_entries(text, ts, j + 1, next, Seq::empty())
                    } else if at(ts, j, Class::BraceRight) {
                        Ok((next, j + 1))
                    } else {
                        Err(err_at(ts, j, seq![Class::Comma, Class::BraceRight]))
                    }
                },
            },
        }
    }
}

/// The record read after `record` at `i`, with attributes `attrs`, and the
/// position after its `}`.
pub open spec fn record<'a>(text: &'a Text, ts: Tokens, i: int, attrs: Seq<AttributeModel<'a>>) -> Result<
    (RecordModel<'a>, int),
    Failure,
> {
    match all_error(ts, i, seq![Class::Identifier, Class::BraceLeft]) {
        Some(e) => Err(e),
        None => record_entries(
            text,
            ts,
            i + 2,
            RecordModel { name: span_of(text, ts[i]), entries: Seq::empty(), attributes: attrs },
            Seq::empty(),
        ),
    }
}

/// The service reference read after `consumes` or `produces` at `i`, with
/// attributes `attrs`, and the position after its `;`.
pub open spec fn service_ref<'a>(text: &'a Text, ts: Tokens, i: int, attrs: Seq<AttributeModel<'a>>) -> Result<
    (ServiceRefModel<'a>, int),
    Failure,
> {
    match all_error(ts, i, seq![Class::Identifier, Class::Semicolon]) {
        Some(e) => Err(e),
        None => Ok((ServiceRefModel { name: span_of(text, ts[i]), attributes: attrs }, i + 2)),
    }
}

/// The classes a system entry starts with.
pub open spec fn system_classes() -> Seq<Class> {
    seq![Class::At, Class::Consumes, Class::Produces, Class::BraceRight]
}

/// The system `acc` with the entries read at `i` added, the next one having
/// attributes `attrs`, and the position after its `}`.
pub open spec fn system_entries<'a>(
    text: &'a Text,
    ts: Tokens,
    i: int,
    acc: SystemModel<'a>,
    attrs: Seq<AttributeModel<'a>>,
) -> Result<(SystemModel<'a>, int), Failure>
    decreases ts.len() - i,
{
    let cs = system_classes();
    if !at_any(ts, i, cs) {
        Err(err_at(ts, i, cs))
    } else if ts[i].class == Class::BraceRight {
        Ok((acc, i + 1))
    } else if ts[i].class == Class::At {
        match attribute(text, ts, i + 1) {
            Err(e) => Err(e),
            Ok((a, j)) => if j <= i || j > ts.len() {
                Err(err_at(ts, i, cs))
            } else {
                system_entries(text, ts, j, acc, attrs.push(a))
            },
        }
    } else {
        match service_ref(text, ts, i + 1, attrs) {
            Err(e) => Err(e),
            Ok((x, j)) => if j <= i || j > ts.len() {
                Err(err_at(ts, i, cs))
            } else if ts[i].class == Class::Consumes {
                system_entries(
                    text,
                    ts,
                    j,
                    SystemModel { consumes: acc.consumes.push(x), ..acc },
                    Seq::empty(),
                )
            } else {
                system_entries(
                    text,
                    ts,
                    j,
                    SystemModel { produces: acc.produces.push(x), ..acc },
                    Seq::empty(),
                )
            },
        }
    }
}

/// The system read after `system` at `i`, with attributes `attrs`, and the
/// position after its `}`.
pub open spec fn system<'a>(text: &'a Text, ts: Tokens, i: int, attrs: Seq<AttributeModel<'a>>) -> Result<
    (SystemModel<'a>, int),
    Failure,
> {
    match all_error(ts, i, seq![Class::Identifier, Class::BraceLeft]) {
        Some(e) => Err(e),
        None => system_entries(
            text,
            ts,
            i + 2,
            SystemModel {
                name: span_of(text, ts[i]),
                consumes: Seq::empty(),
                produces: Seq::empty(),
                attributes: attrs,
            },
            Seq::empty(),
        ),
    }
}

/// The failure of a method's type that a `closer` should have ended at `j`:
/// a `<` would also have been accepted where the type had no parameters.
pub open spec fn type_end_error(ts: Tokens, j: int, closer: Class, params_len: nat) -> Failure {
    let e = err_at(ts, j, seq![closer]);
    if params_len == 0 {
        (e.0.push(Class::AngleLeft), e.1)
    } else {
        e
    }
}

/// The optional type read at `i`, ended by a `closer`, and the position
/// after the closer.
pub open spec fn method_type<'a>(text: &'a Text, ts: Tokens, i: int, closer: Class) -> Result<
    (TypeRefModel<'a>, int),
    Failure,
> {
    match type_params(text, ts, i + 1) {
        Err(e) => Err(e),
        Ok((params, j)) => if at(ts, j, closer) {
            Ok((TypeRefModel { name: span_of(text, ts[i]), params }, j + 1))
        } else {
            Err(type_end_error(ts, j, closer, params.len()))
        },
    }
}

/// The service method read after `method` at `i`, with attributes `attrs`,
/// and the position after its `;`.
pub open spec fn service_method<'a>(
    text: &'a Text,
    ts: Tokens,
    i: int,
    attrs: Seq<AttributeModel<'a>>,
) -> Result<(ServiceMethodModel<'a>, int), Failure> {
    match all_error(ts, i, seq![Class::Identifier, Class::ParenLeft]) {
        Some(e) => Err(e),
        None => {
            let input: Result<(Option<TypeRefModel<'a>>, int), Failure> = if at(
                ts,
                i + 2,
                Class::Identifier,
            ) {
                match method_type(text, ts, i + 2, Class::ParenRight) {
                    Err(e) => Err(e),
                    Ok((t, k)) => Ok((Some(t), k)),
                }
            } else if at(ts, i + 2, Class::ParenRight) {
                Ok((None, i + 3))
            } else {
                Err(err_at(ts, i + 2, seq![Class::Identifier, Class::ParenRight]))
            };
            match input {
                Err(e) => Err(e),
                Ok((input, k)) => {
                    let output: Result<(Option<TypeRefModel<'a>>, int), Failure> = if at(
                        ts,
                        k,
                        Class::Colon,
                    ) {
                        if at(ts, k + 1, Class::Identifier) {
                            match method_type(text, ts, k + 1, Class::Semicolon) {
                                Err(e) => Err(e),
                                Ok((t, l)) => Ok((Some(t), l)),
                            }
                        } else {
                            Err(err_at(ts, k + 1, seq![Class::Identifier]))
                        }
                    } else if at(ts, k, Class::Semicolon) {
                        Ok((None, k + 1))
                    } else {
                        Err(err_at(ts, k, seq![Class::Colon, Class::Semicolon]))
                    };
                    match output {
                        Err(e) => Err(e),
                        Ok((output, l)) => Ok(
                            (
                                ServiceMethodModel {
                                    name: span_of(text, ts[i]),
                                    input,
                                    output,
                                    attributes: attrs,
                                },
                                l,
                            ),
                        ),
                    }
                },
            }
        },
    }
}

/// The classes a service entry starts with.
pub open spec fn service_classes() -> Seq<Class> {
    seq![Class::At, Class::Method, Class::BraceRight]
}

/// The service `acc` with the methods read at `i` added, the next one having
/// attributes `attrs`, and the position after its `}`.
pub open spec fn service_entries<'a>(
    text: &'a Text,
    ts: Tokens,
    i: int,
    acc: ServiceModel<'a>,
    attrs: Seq<AttributeModel<'a>>,
) -> Result<(ServiceModel<'a>, int), Failure>
    decreases ts.len() - i,
{
    let cs = service_classes();
    if !at_any(ts, i, cs) {
        Err(err_at(ts, i, cs))
    } else if ts[i].class == Class::BraceRight {
        Ok((acc, i + 1))
    } else if ts[i].class == Class::At {
        match attribute(text, ts, i + 1) {
            Err(e) => Err(e),
            Ok((a, j)) => if j <= i || j > ts.len() {
                Err(err_at(ts, i, cs))
            } else {
                service_entries(text, ts, j, acc, attrs.push(a))
            },
        }
    } else {
        match service_method(text, ts, i + 1, attrs) {
            Err(e) => Err(e),
            Ok((x, j)) => if j <= i || j > ts.len() {
                Err(err_at(ts, i, cs))
            } else {
                service_entries(
                    text,
                    ts,
                    j,
                    ServiceModel { methods: acc.methods.push(x), ..acc },
                    Seq::empty(),
                )
            },
        }
    }
}

/// The service read after `service` at `i`, with attributes `attrs`, and the
/// position after its `}`.
pub open spec fn service<'a>(text: &'a Text, ts: Tokens, i: int, attrs: Seq<AttributeModel<'a>>) -> Result<
    (ServiceModel<'a>, int),
    Failure,
> {
    match all_error(ts, i, seq![Class::Identifier, Class::BraceLeft]) {
        Some(e) => Err(e),
        None => service_entries(
            text,
            ts,
            i + 2,
            ServiceModel { name: span_of(text, ts[i]), methods: Seq::empty(), attributes: attrs },
            Seq::empty(),
        ),
    }
}

/// The classes a top-level entry starts with.
pub open spec fn root_classes() -> Seq<Class> {
    seq![
        Class::At,
        Class::Enum,
        Class::Implement,
        Class::Primitive,
        Class::Record,
        Class::Service,
        Class::System,
    ]
}

/// The specification `acc` with the definitions read at `i` added, the next
/// one having attributes `attrs`, through the last token.
pub open spec fn root<'a>(
    text: &'a Text,
    ts: Tokens,
    i: int,
    acc: SpecificationModel<'a>,
    attrs: Seq<AttributeModel<'a>>,
) -> Result<SpecificationModel<'a>, Failure>
    decreases ts.len() - i,
{
    let cs = root_classes();
    if !at_any(ts, i, cs) {
        Err(err_at(ts, i, cs))
    } else if ts[i].class == Class::At {
        match attribute(text, ts, i + 1) {
            Err(e) => Err(e),
            Ok((a, j)) => if j <= i || j > ts.len() {
                Err(err_at(ts, i, cs))
            } else {
                root(text, ts, j, acc, attrs.push(a))
            },
        }
    } else {
        let c = ts[i].class;
        let item: Result<(SpecificationModel<'a>, int), Failure> = if c == Class::Enum {
            match enum_(text, ts, i + 1, attrs) {
                Err(e) => Err(e),
                Ok((x, j)) => Ok((SpecificationModel { enums: acc.enums.push(x), ..acc }, j)),
            }
        } else if c == Class::Implement {
            match implement(text, ts, i + 1, attrs) {
                Err(e) => Err(e),
                Ok((x, j)) => Ok(
                    (SpecificationModel { implementations: acc.implementations.push(x), ..acc }, j),
                ),
            }
        } else if c == Class::Primitive {
            match primitive(text, ts, i + 1, attrs) {
                Err(e) => Err(e),
                Ok((x, j)) => Ok(
                    (SpecificationModel { primitives: acc.primitives.push(x), ..acc }, j),
                ),
            }
        } else if c == Class::Record {
            match record(text, ts, i + 1, attrs) {
                Err(e) => Err(e),
                Ok((x, j)) => Ok((SpecificationModel { records: acc.records.push(x), ..acc }, j)),
            }
        } else if c == Class::Service {
            match service(text, ts, i + 1, attrs) {
                Err(e) => Err(e),
                Ok((x, j)) => Ok((SpecificationModel { services: acc.services.push(x), ..acc }, j)),
            }
        } else {
            match system(text, ts, i + 1, attrs) {
                Err(e) => Err(e),
                Ok((x, j)) => Ok((SpecificationModel { systems: acc.systems.push(x), ..acc }, j)),
            }
        };
        match item {
            Err(e) => Err(e),
            Ok((next, j)) => if j <= i || j > ts.len() {
                Err(err_at(ts, i, cs))
            } else if j >= ts.len() {
                Ok(next)
            } else {
                root(text, ts, j, next, Seq::empty())
            },
        }
    }
}

/// Whether every one of type parameters `ps` is named by an identifier
/// token at a position in `lo..hi`.
pub open spec fn params_named_between<'a>(
    text: &'a Text,
    ts: Tokens,
    ps: Seq<TypeRefModel<'a>>,
    lo: int,
    hi: int,
) -> bool {
    forall|m: int|
        0 <= m < ps.len() ==> exists|q: int|
            lo <= q < hi && at(ts, q, Class::Identifier) && #[trigger] ps[m].name == span_of(
                text,
                ts[q],
            )
}

proof fn lemma_type_params<'a>(text: &'a Text, ts: Tokens, i: int)
    ensures
        type_params(text, ts, i) matches Ok((ps, j)) ==> {
            &&& i <= j
            &&& ps.len() > 0 <==> at(ts, i, Class::AngleLeft)
            &&& ps.len() > 0 ==> i + 1 < j - 1 && at(ts, j - 1, Class::AngleRight)
            &&& params_named_between(text, ts, ps, i + 1, j - 1)
        },
    decreases ts.len() - i, 1int,
{
    if at(ts, i, Class::AngleLeft) {
        lemma_type_params_entry(text, ts, i + 1);
    }
}

proof fn lemma_type_params_entry<'a>(text: &'a Text, ts: Tokens, i: int)
    ensures
        type_params_entry(text, ts, i) matches Ok((ps, k)) ==> {
            &&& ps.len() > 0
            &&& i < k - 1
            &&& at(ts, k - 1, Class::AngleRight)
            &&& params_named_between(text, ts, ps, i, k - 1)
        },
    decreases ts.len() - i, 0int,
{
    if at(ts, i, Class::Identifier) {
        lemma_type_params(text, ts, i + 1);
        match type_params(text, ts, i + 1) {
            Err(_) => {},
            Ok((params, j)) => {
                let tr = TypeRefModel { name: span_of(text, ts[i]), params };
                if j <= i || j > ts.len() {
                } else if at(ts, j, Class::Comma) {
                    lemma_type_params_entry(text, ts, j + 1);
                    match type_params_entry(text, ts, j + 1) {
                        Err(_) => {},
                        Ok((rest, k)) => {
                            let ps = rest.push(tr);
                            assert forall|m: int| 0 <= m < ps.len() implies exists|q: int|
                                i <= q < k - 1 && at(ts, q, Class::Identifier) && #[trigger] ps[m].name
                                    == span_of(text, ts[q]) by {
                                if m < rest.len() {
                                    assert(ps[m] == rest[m]);
                                } else {
                                    assert(ps[m] == tr);
                                    assert(at(ts, i, Class::Identifier));
                                }
                            }
                        },
                    }
                } else if at(ts, j, Class::AngleRight) {
                    let ps = seq![tr];
                    assert(ps[0] == tr);
                    assert(at(ts, i, Class::Identifier));
                }
            },
        }
    }
}

/// The type read for a method's input or output is named by the token at
/// `i` and has type parameters exactly when a `<` follows that name; they
/// are then named by identifiers written before the `>` that comes just
/// ahead of the closer.
pub proof fn law_method_type_params<'a>(text: &'a Text, ts: Tokens, i: int, closer: Class)
    requires
        0 <= i,
    ensures
        method_type(text, ts, i, closer) matches Ok((t, j)) ==> {
            &&& t.name == span_of(text, ts[i])
            &&& at(ts, j - 1, closer)
            &&& t.params.len() > 0 <==> at(ts, i + 1, Class::AngleLeft)
            &&& t.params.len() > 0 ==> at(ts, j - 2, Class::AngleRight)
            &&& params_named_between(text, ts, t.params, i + 2, j - 2)
        },
{
    lemma_type_params(text, ts, i + 1);
}

} // verus!
