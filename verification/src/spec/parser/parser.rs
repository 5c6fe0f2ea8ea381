//! Syntactic analysis of specification texts: the rules of
//! [`grammar`](super::grammar), read from a [`Matcher`].

use super::class::Class;
use super::grammar;
use crate::source::{Error, Matcher, Span, Text, class_in};
use crate::spec::attribute::{Attribute, AttributeModel, attributes_model};
use crate::spec::enum_::{Enum, EnumModel, EnumVariant};
use crate::spec::implement::{
    Implement,
    ImplementInterface,
    ImplementInterfaceModel,
    ImplementMethod,
    ImplementModel,
};
use crate::spec::primitive::Primitive;
use crate::spec::property::Property;
use crate::spec::record::{Record, RecordEntry, RecordModel};
use crate::spec::service::{Service, ServiceMethod, ServiceModel, ServiceRef, option_type_ref_model};
use crate::spec::system::{System, SystemModel};
use crate::spec::{Specification, SpecificationModel};
use crate::spec::type_ref::{TypeRef, lemma_type_ref_model, type_refs_model};
use crate::spec::value::{
    Value,
    entries_model,
    lemma_list_model,
    lemma_mapping_model,
    value_model,
    values_model,
};
use vstd::prelude::*;

verus! {

/// A matcher over the tokens of a specification text.
pub type M<'t> = Matcher<'t, Class>;

/// Reads a value.
pub fn value<'a>(m: &mut M, text: &'a Text) -> (r: Result<Value<'a>, Error<Class>>)
    requires
        old(m).in_range(),
    ensures
        final(m).spec_tokens() == old(m).spec_tokens(),
        final(m).in_range(),
        match grammar::value(text, old(m).spec_tokens(), old(m).spec_pos()) {
            Ok((v, j)) => r matches Ok(x) && value_model(x) == v && final(m).spec_pos() == j && j
                > old(m).spec_pos(),
            Err(e) => r matches Err(x) && x@ == e,
        },
    decreases old(m).spec_tokens().len() - old(m).spec_pos(), 0int,
{
    let classes = [
        Class::Null,
        Class::Boolean,
        Class::Integer,
        Class::Float,
        Class::String,
        Class::SquareLeft,
        Class::BraceLeft,
    ];
    assert(classes@ == grammar::value_classes());
    let token = match m.any(&classes) {
        Ok(token) => token,
        Err(e) => {
            return Err(e);
        },
    };
    let s = Span::of(text, token);
    if token.class == Class::Null {
        Ok(Value::Null)
    } else if token.class == Class::Boolean {
        Ok(Value::Boolean(s))
    } else if token.class == Class::Integer {
        Ok(Value::Integer(s))
    } else if token.class == Class::Float {
        Ok(Value::Float(s))
    } else if token.class == Class::String {
        Ok(Value::String(s))
    } else if token.class == Class::SquareLeft {
        match list(m, text) {
            Ok(items) => {
                proof {
                    lemma_list_model(items);
                }
                Ok(Value::List(items))
            },
            Err(e) => Err(e),
        }
    } else {
        proof {
            let k = choose|k: int| 0 <= k < classes@.len() && classes@[k] == token.class;
        }
        match map(m, text) {
            Ok(items) => {
                proof {
                    lemma_mapping_model(items);
                }
                Ok(Value::Mapping(items))
            },
            Err(e) => Err(e),
        }
    }
}

/// Reads the items of a list, after its `[`, through its `]`.
fn list<'a>(m: &mut M, text: &'a Text) -> (r: Result<Vec<Value<'a>>, Error<Class>>)
    requires
        old(m).in_range(),
    ensures
        final(m).spec_tokens() == old(m).spec_tokens(),
        final(m).in_range(),
        match grammar::list(text, old(m).spec_tokens(), old(m).spec_pos(), Seq::empty()) {
            Ok((items, j)) => r matches Ok(x) && values_model(x@) == items && final(m).spec_pos()
                == j && j > old(m).spec_pos(),
            Err(e) => r matches Err(x) && x@ == e,
        },
    decreases old(m).spec_tokens().len() - old(m).spec_pos(), 1int,
{
    let ghost ts = m.spec_tokens();
    let ghost i0 = m.spec_pos();
    let mut items: Vec<Value<'a>> = Vec::new();
    assert(values_model(items@) =~= Seq::empty());
    loop
        invariant
            m.spec_tokens() == ts,
            ts == old(m).spec_tokens(),
            i0 == old(m).spec_pos(),
            m.in_range(),
            i0 <= m.spec_pos(),
            grammar::list(text, ts, i0, Seq::empty()) == grammar::list(
                text,
                ts,
                m.spec_pos(),
                values_model(items@),
            ),
        decreases ts.len() - m.spec_pos(),
    {
        if m.one_optional(Class::SquareRight).is_some() {
            return Ok(items);
        }
        let v = match value(m, text) {
            Ok(v) => v,
            Err(e) => {
                let mut e = e;
                e.expected.push(Class::SquareRight);
                return Err(e);
            },
        };
        let ghost prev = items@;
        items.push(v);
        assert(values_model(items@) =~= values_model(prev).push(value_model(v)));
        let classes = [Class::Comma, Class::SquareRight];
        let token = match m.any(&classes) {
            Ok(token) => token,
            Err(e) => {
                return Err(e);
            },
        };
        if token.class != Class::Comma {
            proof {
                let k = choose|k: int| 0 <= k < classes@.len() && classes@[k] == token.class;
            }
            return Ok(items);
        }
    }
}

/// Reads the entries of a map, after its `{`, through its `}`.
fn map<'a>(m: &mut M, text: &'a Text) -> (r: Result<Vec<(Span<'a>, Value<'a>)>, Error<Class>>)
    requires
        old(m).in_range(),
    ensures
        final(m).spec_tokens() == old(m).spec_tokens(),
        final(m).in_range(),
        match grammar::map(text, old(m).spec_tokens(), old(m).spec_pos(), Seq::empty()) {
            Ok((items, j)) => r matches Ok(x) && entries_model(x@) == items && final(m).spec_pos()
                == j && j > old(m).spec_pos(),
            Err(e) => r matches Err(x) && x@ == e,
        },
    decreases old(m).spec_tokens().len() - old(m).spec_pos(), 1int,
{
    let ghost ts = m.spec_tokens();
    let ghost i0 = m.spec_pos();
    let mut items: Vec<(Span<'a>, Value<'a>)> = Vec::new();
    assert(entries_model(items@) =~= Seq::empty());
    loop
        invariant
            m.spec_tokens() == ts,
            ts == old(m).spec_tokens(),
            i0 == old(m).spec_pos(),
            m.in_range(),
            i0 <= m.spec_pos(),
            grammar::map(text, ts, i0, Seq::empty()) == grammar::map(
                text,
                ts,
                m.spec_pos(),
                entries_model(items@),
            ),
        decreases ts.len() - m.spec_pos(),
    {
        let classes = [Class::Identifier, Class::BraceRight];
        let token = match m.any(&classes) {
            Ok(token) => token,
            Err(e) => {
                return Err(e);
            },
        };
        if token.class != Class::Identifier {
            proof {
                let k = choose|k: int| 0 <= k < classes@.len() && classes@[k] == token.class;
            }
            return Ok(items);
        }
        let key = Span::of(text, token);
        match m.one(Class::Colon) {
            Ok(_) => {},
            Err(e) => {
                return Err(e);
            },
        }
        let v = match value(m, text) {
            Ok(v) => v,
            Err(e) => {
                return Err(e);
            },
        };
        let ghost prev = items@;
        items.push((key, v));
        assert(entries_model(items@) =~= entries_model(prev).push((key, value_model(v))));
        let classes = [Class::Comma, Class::BraceRight];
        let token = match m.any(&classes) {
            Ok(token) => token,
            Err(e) => {
                return Err(e);
            },
        };
        if token.class != Class::Comma {
            proof {
                let k = choose|k: int| 0 <= k < classes@.len() && classes@[k] == token.class;
            }
            return Ok(items);
        }
    }
}

/// Reads an attribute, after its `@`.
pub fn attribute<'a>(m: &mut M, text: &'a Text) -> (r: Result<Attribute<'a>, Error<Class>>)
    requires
        old(m).in_range(),
    ensures
        final(m).spec_tokens() == old(m).spec_tokens(),
        final(m).in_range(),
        match grammar::attribute(text, old(m).spec_tokens(), old(m).spec_pos()) {
            Ok((a, j)) => r matches Ok(x) && x@ == a && final(m).spec_pos() == j && j > old(
                m,
            ).spec_pos(),
            Err(e) => r matches Err(x) && x@ == e,
        },
{
    let ghost ts = m.spec_tokens();
    let ghost i = m.spec_pos();
    let classes = [Class::Identifier, Class::ParenLeft];
    let tokens = match m.all(&classes) {
        Ok(tokens) => tokens,
        Err(e) => {
            return Err(e);
        },
    };
    assert(tokens@[0] == ts[i]);
    let name = Span::of(text, tokens[0]);
    let v = match value(m, text) {
        Ok(v) => v,
        Err(e) => {
            return Err(e);
        },
    };
    match m.one(Class::ParenRight) {
        Ok(_) => {},
        Err(e) => {
            return Err(e);
        },
    }
    Ok(Attribute { name, value: v })
}

/// Reads type parameters, if a `<` starts them; they come out last first.
pub fn type_params<'a>(m: &mut M, text: &'a Text) -> (r: Result<Vec<TypeRef<'a>>, Error<Class>>)
    requires
        old(m).in_range(),
    ensures
        final(m).spec_tokens() == old(m).spec_tokens(),
        final(m).in_range(),
        match grammar::type_params(text, old(m).spec_tokens(), old(m).spec_pos()) {
            Ok((params, j)) => r matches Ok(x) && type_refs_model(x@) == params
                && final(m).spec_pos() == j && j >= old(m).spec_pos(),
            Err(e) => r matches Err(x) && x@ == e,
        },
    decreases old(m).spec_tokens().len() - old(m).spec_pos(), 1int,
{
    if m.one_optional(Class::AngleLeft).is_none() {
        let v: Vec<TypeRef<'a>> = Vec::new();
        assert(type_refs_model(v@) =~= Seq::empty());
        return Ok(v);
    }
    type_params_entry(m, text)
}

/// Reads the type parameters from the next one through the closing `>`,
/// last first.
fn type_params_entry<'a>(m: &mut M, text: &'a Text) -> (r: Result<Vec<TypeRef<'a>>, Error<Class>>)
    requires
        old(m).in_range(),
    ensures
        final(m).spec_tokens() == old(m).spec_tokens(),
        final(m).in_range(),
        match grammar::type_params_entry(text, old(m).spec_tokens(), old(m).spec_pos()) {
            Ok((params, j)) => r matches Ok(x) && type_refs_model(x@) == params
                && final(m).spec_pos() == j && j > old(m).spec_pos(),
            Err(e) => r matches Err(x) && x@ == e,
        },
    decreases old(m).spec_tokens().len() - old(m).spec_pos(), 0int,
{
    let token = match m.one(Class::Identifier) {
        Ok(token) => token,
        Err(e) => {
            return Err(e);
        },
    };
    let params = match type_params(m, text) {
        Ok(params) => params,
        Err(e) => {
            return Err(e);
        },
    };
    let type_ref = TypeRef { name: Span::of(text, token), params };
    proof {
        lemma_type_ref_model(type_ref);
    }
    let classes = [Class::Comma, Class::AngleRight];
    let next = match m.any(&classes) {
        Ok(next) => next,
        Err(e) => {
            return Err(e);
        },
    };
    if next.class == Class::Comma {
        let mut rest = match type_params_entry(m, text) {
            Ok(rest) => rest,
            Err(e) => {
                return Err(e);
            },
        };
        let ghost prev = rest@;
        rest.push(type_ref);
        assert(type_refs_model(rest@) =~= type_refs_model(prev).push(type_refs_model(rest@).last()));
        Ok(rest)
    } else {
        proof {
            let k = choose|k: int| 0 <= k < classes@.len() && classes@[k] == next.class;
        }
        let v = vec![type_ref];
        assert(type_refs_model(v@) =~= seq![type_refs_model(v@)[0]]);
        Ok(v)
    }
}

/// The attribute models of `attrs` with `a` added.
proof fn lemma_attributes_push<'a>(attrs: Seq<Attribute<'a>>, a: Attribute<'a>)
    ensures
        attributes_model(attrs.push(a)) == attributes_model(attrs).push(a@),
{
    assert(attributes_model(attrs.push(a)) =~= attributes_model(attrs).push(a@));
}

/// No attributes model as none.
proof fn lemma_attributes_empty<'a>(attrs: Seq<Attribute<'a>>)
    requires
        attrs.len() == 0,
    ensures
        attributes_model(attrs) == Seq::<AttributeModel<'a>>::empty(),
{
    assert(attributes_model(attrs) =~= Seq::<AttributeModel<'a>>::empty());
}

/// Reads an attribute after an `@` and adds it to `attrs`.
fn push_attribute<'a>(m: &mut M, text: &'a Text, attrs: &mut Vec<Attribute<'a>>) -> (r: Result<
    (),
    Error<Class>,
>)
    requires
        old(m).in_range(),
    ensures
        final(m).spec_tokens() == old(m).spec_tokens(),
        final(m).in_range(),
        match grammar::attribute(text, old(m).spec_tokens(), old(m).spec_pos()) {
            Ok((a, j)) => r is Ok && attributes_model(final(attrs)@) == attributes_model(
                old(attrs)@,
            ).push(a) && final(m).spec_pos() == j && j > old(m).spec_pos(),
            Err(e) => r matches Err(x) && x@ == e,
        },
{
    match attribute(m, text) {
        Ok(a) => {
            let ghost prev = attrs@;
            attrs.push(a);
            proof {
                lemma_attributes_push(prev, a);
            }
            Ok(())
        },
        Err(e) => Err(e),
    }
}

/// Reads a property after `property`.
fn property<'a>(m: &mut M, text: &'a Text, attrs: Vec<Attribute<'a>>) -> (r: Result<
    Property<'a>,
    Error<Class>,
>)
    requires
        old(m).in_range(),
    ensures
        final(m).spec_tokens() == old(m).spec_tokens(),
        final(m).in_range(),
        match grammar::property(
            text,
            old(m).spec_tokens(),
            old(m).spec_pos(),
            attributes_model(attrs@),
        ) {
            Ok((x, j)) => r matches Ok(p) && p@ == x && final(m).spec_pos() == j && j > old(
                m,
            ).spec_pos(),
            Err(e) => r matches Err(x) && x@ == e,
        },
{
    let ghost ts = m.spec_tokens();
    let ghost i = m.spec_pos();
    let classes = [Class::Identifier, Class::Colon];
    let tokens = match m.all(&classes) {
        Ok(tokens) => tokens,
        Err(e) => {
            return Err(e);
        },
    };
    assert(tokens@[0] == ts[i]);
    let name = Span::of(text, tokens[0]);
    let v = match value(m, text) {
        Ok(v) => v,
        Err(e) => {
            return Err(e);
        },
    };
    match m.one(Class::Semicolon) {
        Ok(_) => {},
        Err(e) => {
            return Err(e);
        },
    }
    Ok(Property { name, value: v, attributes: attrs })
}

/// Reads a method implementation after `method`.
fn implement_method<'a>(m: &mut M, text: &'a Text, attrs: Vec<Attribute<'a>>) -> (r: Result<
    ImplementMethod<'a>,
    Error<Class>,
>)
    requires
        old(m).in_range(),
    ensures
        final(m).spec_tokens() == old(m).spec_tokens(),
        final(m).in_range(),
        match grammar::implement_method(
            text,
            old(m).spec_tokens(),
            old(m).spec_pos(),
            attributes_model(attrs@),
        ) {
            Ok((x, j)) => r matches Ok(p) && p@ == x && final(m).spec_pos() == j && j > old(
                m,
            ).spec_pos(),
            Err(e) => r matches Err(x) && x@ == e,
        },
{
    let ghost ts = m.spec_tokens();
    let ghost i = m.spec_pos();
    let classes = [Class::Identifier, Class::BraceLeft];
    let tokens = match m.all(&classes) {
        Ok(tokens) => tokens,
        Err(e) => {
            return Err(e);
        },
    };
    assert(tokens@[0] == ts[i]);
    let name = Span::of(text, tokens[0]);
    let data = match map(m, text) {
        Ok(data) => data,
        Err(e) => {
            return Err(e);
        },
    };
    Ok(ImplementMethod { name, data, attributes: attrs })
}

/// Reads an interface implementation after `interface`.
fn implement_interface<'a>(m: &mut M, text: &'a Text, attrs: Vec<Attribute<'a>>) -> (r: Result<
    ImplementInterface<'a>,
    Error<Class>,
>)
    requires
        old(m).in_range(),
    ensures
        final(m).spec_tokens() == old(m).spec_tokens(),
        final(m).in_range(),
        match grammar::implement_interface(
            text,
            old(m).spec_tokens(),
            old(m).spec_pos(),
            attributes_model(attrs@),
        ) {
            Ok((x, j)) => r matches Ok(p) && p@ == x && final(m).spec_pos() == j && j > old(
                m,
            ).spec_pos(),
            Err(e) => r matches Err(x) && x@ == e,
        },
{
    let ghost ts = m.spec_tokens();
    let ghost i0 = m.spec_pos();
    let classes = [Class::Identifier, Class::BraceLeft];
    let tokens = match m.all(&classes) {
        Ok(tokens) => tokens,
        Err(e) => {
            return Err(e);
        },
    };
    assert(tokens@[0] == ts[i0]);
    let mut acc = ImplementInterface::new(Span::of(text, tokens[0]), attrs);
    let mut pending: Vec<Attribute<'a>> = Vec::new();
    proof {
        lemma_attributes_empty(pending@);
        assert(acc@.methods =~= Seq::empty());
        assert(acc@.properties =~= Seq::empty());
    }
    loop
        invariant
            m.spec_tokens() == ts,
            ts == old(m).spec_tokens(),
            i0 == old(m).spec_pos(),
            m.in_range(),
            i0 + 2 <= m.spec_pos(),
            grammar::implement_interface(text, ts, i0, attributes_model(attrs@))
                == grammar::interface_entries(
                text,
                ts,
                m.spec_pos(),
                acc@,
                attributes_model(pending@),
            ),
        decreases ts.len() - m.spec_pos(),
    {
        let classes = [Class::At, Class::Method, Class::Property, Class::BraceRight];
        assert(classes@ == grammar::interface_classes());
        let token = match m.any(&classes) {
            Ok(token) => token,
            Err(e) => {
                return Err(e);
            },
        };
        if token.class == Class::BraceRight {
            return Ok(acc);
        } else if token.class == Class::At {
            match push_attribute(m, text, &mut pending) {
                Ok(()) => {},
                Err(e) => {
                    return Err(e);
                },
            }
        } else {
            let attrs_now = pending;
            pending = Vec::new();
            proof {
                lemma_attributes_empty(pending@);
            }
            if token.class == Class::Method {
                let x = match implement_method(m, text, attrs_now) {
                    Ok(x) => x,
                    Err(e) => {
                        return Err(e);
                    },
                };
                let ghost prev = acc@;
                acc.methods.push(x);
                assert(acc@.methods =~= prev.methods.push(x@));
                assert(acc@ == ImplementInterfaceModel { methods: prev.methods.push(x@), ..prev });
            } else {
                proof {
                    let k = choose|k: int| 0 <= k < classes@.len() && classes@[k] == token.class;
                }
                let x = match property(m, text, attrs_now) {
                    Ok(x) => x,
                    Err(e) => {
                        return Err(e);
                    },
                };
                let ghost prev = acc@;
                acc.properties.push(x);
                assert(acc@.properties =~= prev.properties.push(x@));
                assert(acc@ == ImplementInterfaceModel { properties: prev.properties.push(x@), ..prev });
            }
        }
    }
}

/// Reads a service implementation after `implement`.
fn implement<'a>(m: &mut M, text: &'a Text, attrs: Vec<Attribute<'a>>) -> (r: Result<
    Implement<'a>,
    Error<Class>,
>)
    requires
        old(m).in_range(),
    ensures
        final(m).spec_tokens() == old(m).spec_tokens(),
        final(m).in_range(),
        match grammar::implement(
            text,
            old(m).spec_tokens(),
            old(m).spec_pos(),
            attributes_model(attrs@),
        ) {
            Ok((x, j)) => r matches Ok(p) && p@ == x && final(m).spec_pos() == j && j > old(
                m,
            ).spec_pos(),
            Err(e) => r matches Err(x) && x@ == e,
        },
{
    let ghost ts = m.spec_tokens();
    let ghost i0 = m.spec_pos();
    let head = [
        Class::Identifier,
        Class::Using,
        Class::Identifier,
        Class::Slash,
        Class::Identifier,
        Class::BraceLeft,
    ];
    assert(head@ == grammar::implement_head());
    let tokens = match m.all(&head) {
        Ok(tokens) => tokens,
        Err(e) => {
            return Err(e);
        },
    };
    assert(tokens@[0] == ts[i0] && tokens@[2] == ts[i0 + 2] && tokens@[4] == ts[i0 + 4]);
    let mut acc = Implement::new(
        Span::of(text, tokens[0]),
        Span::of(text, tokens[2]),
        Span::of(text, tokens[4]),
        attrs,
    );
    let mut pending: Vec<Attribute<'a>> = Vec::new();
    proof {
        lemma_attributes_empty(pending@);
        assert(acc@.methods =~= Seq::empty());
        assert(acc@.properties =~= Seq::empty());
        assert(acc@.interfaces =~= Seq::empty());
    }
    loop
        invariant
            m.spec_tokens() == ts,
            ts == old(m).spec_tokens(),
            i0 == old(m).spec_pos(),
            m.in_range(),
            i0 + 6 <= m.spec_pos(),
            grammar::implement(text, ts, i0, attributes_model(attrs@))
                == grammar::implement_entries(
                text,
                ts,
                m.spec_pos(),
                acc@,
                attributes_model(pending@),
            ),
        decreases ts.len() - m.spec_pos(),
    {
        let classes = [
            Class::At,
            Class::Interface,
            Class::Method,
            Class::Property,
            Class::BraceRight,
        ];
        assert(classes@ == grammar::implement_classes());
        let token = match m.any(&classes) {
            Ok(token) => token,
            Err(e) => {
                return Err(e);
            },
        };
        if token.class == Class::BraceRight {
            return Ok(acc);
        } else if token.class == Class::At {
            match push_attribute(m, text, &mut pending) {
                Ok(()) => {},
                Err(e) => {
                    return Err(e);
                },
            }
        } else {
            let attrs_now = pending;
            pending = Vec::new();
            proof {
                lemma_attributes_empty(pending@);
            }
            if token.class == Class::Interface {
                let x = match implement_interface(m, text, attrs_now) {
                    Ok(x) => x,
                    Err(e) => {
                        return Err(e);
                    },
                };
                let ghost prev = acc@;
                acc.interfaces.push(x);
                assert(acc@.interfaces =~= prev.interfaces.push(x@));
                assert(acc@ == ImplementModel { interfaces: prev.interfaces.push(x@), ..prev });
            } else if token.class == Class::Method {
                let x = match implement_method(m, text, attrs_now) {
                    Ok(x) => x,
                    Err(e) => {
                        return Err(e);
                    },
                };
                let ghost prev = acc@;
                acc.methods.push(x);
                assert(acc@.methods =~= prev.methods.push(x@));
                assert(acc@ == ImplementModel { methods: prev.methods.push(x@), ..prev });
            } else {
                proof {
                    let k = choose|k: int| 0 <= k < classes@.len() && classes@[k] == token.class;
                }
                let x = match property(m, text, attrs_now) {
                    Ok(x) => x,
                    Err(e) => {
                        return Err(e);
                    },
                };
                let ghost prev = acc@;
                acc.properties.push(x);
                assert(acc@.properties =~= prev.properties.push(x@));
                assert(acc@ == ImplementModel { properties: prev.properties.push(x@), ..prev });
            }
        }
    }
}

/// Reads an enum after `enum`.
fn enum_<'a>(m: &mut M, text: &'a Text, attrs: Vec<Attribute<'a>>) -> (r: Result<
    Enum<'a>,
    Error<Class>,
>)
    requires
        old(m).in_range(),
    ensures
        final(m).spec_tokens() == old(m).spec_tokens(),
        final(m).in_range(),
        match grammar::enum_(text, old(m).spec_tokens(), old(m).spec_pos(), attributes_model(attrs@)) {
            Ok((x, j)) => r matches Ok(p) && p@ == x && final(m).spec_pos() == j && j > old(
                m,
            ).spec_pos(),
            Err(e) => r matches Err(x) && x@ == e,
        },
{
    let ghost ts = m.spec_tokens();
    let ghost i0 = m.spec_pos();
    let head = [Class::Identifier, Class::BraceLeft];
    let tokens = match m.all(&head) {
        Ok(tokens) => tokens,
        Err(e) => {
            return Err(e);
        },
    };
    assert(tokens@[0] == ts[i0]);
    let mut acc = Enum::new(Span::of(text, tokens[0]), attrs);
    let mut pending: Vec<Attribute<'a>> = Vec::new();
    proof {
        lemma_attributes_empty(pending@);
        assert(acc@.variants =~= Seq::empty());
    }
    loop
        invariant
            m.spec_tokens() == ts,
            ts == old(m).spec_tokens(),
            i0 == old(m).spec_pos(),
            m.in_range(),
            i0 + 2 <= m.spec_pos(),
            grammar::enum_(text, ts, i0, attributes_model(attrs@)) == grammar::enum_entries(
                text,
                ts,
                m.spec_pos(),
                acc@,
                attributes_model(pending@),
            ),
        decreases ts.len() - m.spec_pos(),
    {
        let classes = [Class::At, Class::Identifier, Class::BraceRight];
        assert(classes@ == grammar::enum_classes());
        let token = match m.any(&classes) {
            Ok(token) => token,
            Err(e) => {
                return Err(e);
            },
        };
        if token.class == Class::BraceRight {
            return Ok(acc);
        } else if token.class == Class::At {
            match push_attribute(m, text, &mut pending) {
                Ok(()) => {},
                Err(e) => {
                    return Err(e);
                },
            }
        } else {
            let attrs_now = pending;
            pending = Vec::new();
            proof {
                lemma_attributes_empty(pending@);
                let k = choose|k: int| 0 <= k < classes@.len() && classes@[k] == token.class;
            }
            let x = EnumVariant::new(Span::of(text, token), attrs_now);
            let ghost prev = acc@;
            acc.variants.push(x);
            assert(acc@.variants =~= prev.variants.push(x@));
            assert(acc@ == EnumModel { variants: prev.variants.push(x@), ..prev });
            let classes = [Class::Comma, Class::BraceRight];
            let next = match m.any(&classes) {
                Ok(next) => next,
                Err(e) => {
                    return Err(e);
                },
            };
            if next.class != Class::Comma {
                proof {
                    let k = choose|k: int| 0 <= k < classes@.len() && classes@[k] == next.class;
                }
                return Ok(acc);
            }
        }
    }
}

/// Reads generic parameter names after a `<`, through the closing `>`.
fn parameters<'a>(m: &mut M, text: &'a Text) -> (r: Result<Vec<Span<'a>>, Error<Class>>)
    requires
        old(m).in_range(),
    ensures
        final(m).spec_tokens() == old(m).spec_tokens(),
        final(m).in_range(),
        match grammar::parameters(text, old(m).spec_tokens(), old(m).spec_pos(), Seq::empty()) {
            Ok((x, j)) => r matches Ok(p) && p@ == x && final(m).spec_pos() == j && j > old(
                m,
            ).spec_pos(),
            Err(e) => r matches Err(x) && x@ == e,
        },
{
    let ghost ts = m.spec_tokens();
    let ghost i0 = m.spec_pos();
    let mut acc: Vec<Span<'a>> = Vec::new();
    loop
        invariant
            m.spec_tokens() == ts,
            ts == old(m).spec_tokens(),
            i0 == old(m).spec_pos(),
            m.in_range(),
            i0 <= m.spec_pos(),
            grammar::parameters(text, ts, i0, Seq::empty()) == grammar::parameters(
                text,
                ts,
                m.spec_pos(),
                acc@,
            ),
        decreases ts.len() - m.spec_pos(),
    {
        let classes = [Class::Identifier, Class::AngleRight];
        let token = match m.any(&classes) {
            Ok(token) => token,
            Err(e) => {
                return Err(e);
            },
        };
        if token.class != Class::Identifier {
            proof {
                let k = choose|k: int| 0 <= k < classes@.len() && classes@[k] == token.class;
            }
            return Ok(acc);
        }
        acc.push(Span::of(text, token));
        let classes = [Class::Comma, Class::AngleRight];
        let next = match m.any(&classes) {
            Ok(next) => next,
            Err(e) => {
                return Err(e);
            },
        };
        if next.class != Class::Comma {
            proof {
                let k = choose|k: int| 0 <= k < classes@.len() && classes@[k] == next.class;
            }
            return Ok(acc);
        }
    }
}

/// Reads a primitive type definition after `primitive`.
fn primitive<'a>(m: &mut M, text: &'a Text, attrs: Vec<Attribute<'a>>) -> (r: Result<
    Primitive<'a>,
    Error<Class>,
>)
    requires
        old(m).in_range(),
    ensures
        final(m).spec_tokens() == old(m).spec_tokens(),
        final(m).in_range(),
        match grammar::primitive(
            text,
            old(m).spec_tokens(),
            old(m).spec_pos(),
            attributes_model(attrs@),
        ) {
            Ok((x, j)) => r matches Ok(p) && p@ == x && final(m).spec_pos() == j && j > old(
                m,
            ).spec_pos(),
            Err(e) => r matches Err(x) && x@ == e,
        },
{
    let classes = [Class::AngleLeft, Class::Identifier];
    let token = match m.any(&classes) {
        Ok(token) => token,
        Err(e) => {
            return Err(e);
        },
    };
    let mut generic_parameters: Vec<Span<'a>> = Vec::new();
    let name_token = if token.class == Class::AngleLeft {
        generic_parameters = match parameters(m, text) {
            Ok(p) => p,
            Err(e) => {
                return Err(e);
            },
        };
        match m.one(Class::Identifier) {
            Ok(t) => t,
            Err(e) => {
                return Err(e);
            },
        }
    } else {
        proof {
            let k = choose|k: int| 0 <= k < classes@.len() && classes@[k] == token.class;
        }
        token
    };
    let params = match type_params(m, text) {
        Ok(params) => params,
        Err(e) => {
            return Err(e);
        },
    };
    let definition = TypeRef { name: Span::of(text, name_token), params };
    proof {
        lemma_type_ref_model(definition);
    }
    match m.one(Class::Semicolon) {
        Ok(_) => {},
        Err(e) => {
            return Err(e);
        },
    }
    Ok(Primitive { generic_parameters, definition, attributes: attrs })
}

/// Reads a record after `record`.
fn record<'a>(m: &mut M, text: &'a Text, attrs: Vec<Attribute<'a>>) -> (r: Result<
    Record<'a>,
    Error<Class>,
>)
    requires
        old(m).in_range(),
    ensures
        final(m).spec_tokens() == old(m).spec_tokens(),
        final(m).in_range(),
        match grammar::record(text, old(m).spec_tokens(), old(m).spec_pos(), attributes_model(attrs@)) {
            Ok((x, j)) => r matches Ok(p) && p@ == x && final(m).spec_pos() == j && j > old(
                m,
            ).spec_pos(),
            Err(e) => r matches Err(x) && x@ == e,
        },
{
    let ghost ts = m.spec_tokens();
    let ghost i0 = m.spec_pos();
    let head = [Class::Identifier, Class::BraceLeft];
    let tokens = match m.all(&head) {
        Ok(tokens) => tokens,
        Err(e) => {
            return Err(e);
        },
    };
    assert(tokens@[0] == ts[i0]);
    let mut acc = Record::new(Span::of(text, tokens[0]), attrs);
    let mut pending: Vec<Attribute<'a>> = Vec::new();
    proof {
        lemma_attributes_empty(pending@);
        assert(acc@.entries =~= Seq::empty());
    }
    loop
        invariant
            m.spec_tokens() == ts,
            ts == old(m).spec_tokens(),
            i0 == old(m).spec_pos(),
            m.in_range(),
            i0 + 2 <= m.spec_pos(),
            grammar::record(text, ts, i0, attributes_model(attrs@)) == grammar::record_entries(
                text,
                ts,
                m.spec_pos(),
                acc@,
                attributes_model(pending@),
            ),
        decreases ts.len() - m.spec_pos(),
    {
        let ghost i = m.spec_pos();
        let classes = [Class::At, Class::Identifier, Class::BraceRight];
        assert(classes@ == grammar::enum_classes());
        let token = match m.any(&classes) {
            Ok(token) => token,
            Err(e) => {
                return Err(e);
            },
        };
        if token.class == Class::BraceRight {
            return Ok(acc);
        } else if token.class == Class::At {
            match push_attribute(m, text, &mut pending) {
                Ok(()) => {},
                Err(e) => {
                    return Err(e);
                },
            }
        } else {
            let attrs_now = pending;
            pending = Vec::new();
            proof {
                lemma_attributes_empty(pending@);
                let k = choose|k: int| 0 <= k < classes@.len() && classes@[k] == token.class;
            }
            let head = [Class::Colon, Class::Identifier];
            let tokens = match m.all(&head) {
                Ok(tokens) => tokens,
                Err(e) => {
                    return Err(e);
                },
            };
            assert(tokens@[1] == ts[i + 2]);
            let params = match type_params(m, text) {
                Ok(params) => params,
                Err(e) => {
                    return Err(e);
                },
            };
            let type_ref = TypeRef { name: Span::of(text, tokens[1]), params };
            proof {
                lemma_type_ref_model(type_ref);
            }
            let x = RecordEntry { name: Span::of(text, token), type_ref, attributes: attrs_now };
            let ghost prev = acc@;
            acc.entries.push(x);
            assert(acc@.entries =~= prev.entries.push(x@));
            assert(acc@ == RecordModel { entries: prev.entries.push(x@), ..prev });
            let classes = [Class::Comma, Class::BraceRight];
            let next = match m.any(&classes) {
                Ok(next) => next,
                Err(e) => {
                    return Err(e);
                },
            };
            if next.class != Class::Comma {
                proof {
                    let k = choose|k: int| 0 <= k < classes@.len() && classes@[k] == next.class;
                }
                return Ok(acc);
            }
        }
    }
}

/// Reads a service reference after `consumes` or `produces`.
fn service_ref<'a>(m: &mut M, text: &'a Text, attrs: Vec<Attribute<'a>>) -> (r: Result<
    ServiceRef<'a>,
    Error<Class>,
>)
    requires
        old(m).in_range(),
    ensures
        final(m).spec_tokens() == old(m).spec_tokens(),
        final(m).in_range(),
        match grammar::service_ref(
            text,
            old(m).spec_tokens(),
            old(m).spec_pos(),
            attributes_model(attrs@),
        ) {
            Ok((x, j)) => r matches Ok(p) && p@ == x && final(m).spec_pos() == j && j > old(
                m,
            ).spec_pos(),
            Err(e) => r matches Err(x) && x@ == e,
        },
{
    let ghost ts = m.spec_tokens();
    let ghost i0 = m.spec_pos();
    let head = [Class::Identifier, Class::Semicolon];
    let tokens = match m.all(&head) {
        Ok(tokens) => tokens,
        Err(e) => {
            return Err(e);
        },
    };
    assert(tokens@[0] == ts[i0]);
    Ok(ServiceRef { name: Span::of(text, tokens[0]), attributes: attrs })
}

/// Reads a system after `system`.
fn system<'a>(m: &mut M, text: &'a Text, attrs: Vec<Attribute<'a>>) -> (r: Result<
    System<'a>,
    Error<Class>,
>)
    requires
        old(m).in_range(),
    ensures
        final(m).spec_tokens() == old(m).spec_tokens(),
        final(m).in_range(),
        match grammar::system(text, old(m).spec_tokens(), old(m).spec_pos(), attributes_model(attrs@)) {
            Ok((x, j)) => r matches Ok(p) && p@ == x && final(m).spec_pos() == j && j > old(
                m,
            ).spec_pos(),
            Err(e) => r matches Err(x) && x@ == e,
        },
{
    let ghost ts = m.spec_tokens();
    let ghost i0 = m.spec_pos();
    let head = [Class::Identifier, Class::BraceLeft];
    let tokens = match m.all(&head) {
        Ok(tokens) => tokens,
        Err(e) => {
            return Err(e);
        },
    };
    assert(tokens@[0] == ts[i0]);
    let mut acc = System::new(Span::of(text, tokens[0]), attrs);
    let mut pending: Vec<Attribute<'a>> = Vec::new();
    proof {
        lemma_attributes_empty(pending@);
        assert(acc@.consumes =~= Seq::empty());
        assert(acc@.produces =~= Seq::empty());
    }
    loop
        invariant
            m.spec_tokens() == ts,
            ts == old(m).spec_tokens(),
            i0 == old(m).spec_pos(),
            m.in_range(),
            i0 + 2 <= m.spec_pos(),
            grammar::system(text, ts, i0, attributes_model(attrs@)) == grammar::system_entries(
                text,
                ts,
                m.spec_pos(),
                acc@,
                attributes_model(pending@),
            ),
        decreases ts.len() - m.spec_pos(),
    {
        let classes = [Class::At, Class::Consumes, Class::Produces, Class::BraceRight];
        assert(classes@ == grammar::system_classes());
        let token = match m.any(&classes) {
            Ok(token) => token,
            Err(e) => {
                return Err(e);
            },
        };
        if token.class == Class::BraceRight {
            return Ok(acc);
        } else if token.class == Class::At {
            match push_attribute(m, text, &mut pending) {
                Ok(()) => {},
                Err(e) => {
                    return Err(e);
                },
            }
        } else {
            let attrs_now = pending;
            pending = Vec::new();
            proof {
                lemma_attributes_empty(pending@);
            }
            let x = match service_ref(m, text, attrs_now) {
                Ok(x) => x,
                Err(e) => {
                    return Err(e);
                },
            };
            if token.class == Class::Consumes {
                let ghost prev = acc@;
                acc.consumes.push(x);
                assert(acc@.consumes =~= prev.consumes.push(x@));
                assert(acc@ == SystemModel { consumes: prev.consumes.push(x@), ..prev });
            } else {
                proof {
                    let k = choose|k: int| 0 <= k < classes@.len() && classes@[k] == token.class;
                }
                let ghost prev = acc@;
                acc.produces.push(x);
                assert(acc@.produces =~= prev.produces.push(x@));
                assert(acc@ == SystemModel { produces: prev.produces.push(x@), ..prev });
            }
        }
    }
}

/// Reads the parameters and the `closer` of a method type whose name is
/// `name`, the token just taken.
fn method_type<'a>(m: &mut M, text: &'a Text, name: crate::source::Token<Class>, closer: Class) -> (r: Result<
    TypeRef<'a>,
    Error<Class>,
>)
    requires
        old(m).in_range(),
        old(m).spec_pos() >= 1,
        old(m).spec_tokens()[old(m).spec_pos() - 1] == name,
    ensures
        final(m).spec_tokens() == old(m).spec_tokens(),
        final(m).in_range(),
        match grammar::method_type(text, old(m).spec_tokens(), old(m).spec_pos() - 1, closer) {
            Ok((x, j)) => r matches Ok(p) && p@ == x && final(m).spec_pos() == j && j > old(
                m,
            ).spec_pos(),
            Err(e) => r matches Err(x) && x@ == e,
        },
{
    let params = match type_params(m, text) {
        Ok(params) => params,
        Err(e) => {
            return Err(e);
        },
    };
    let type_ref = TypeRef { name: Span::of(text, name), params };
    proof {
        lemma_type_ref_model(type_ref);
    }
    match m.one(closer) {
        Ok(_) => Ok(type_ref),
        Err(e) => {
            let mut e = e;
            if type_ref.params.len() == 0 {
                e.expected.push(Class::AngleLeft);
            }
            Err(e)
        },
    }
}

/// Reads a service method after `method`.
fn service_method<'a>(m: &mut M, text: &'a Text, attrs: Vec<Attribute<'a>>) -> (r: Result<
    ServiceMethod<'a>,
    Error<Class>,
>)
    requires
        old(m).in_range(),
    ensures
        final(m).spec_tokens() == old(m).spec_tokens(),
        final(m).in_range(),
        match grammar::service_method(
            text,
            old(m).spec_tokens(),
            old(m).spec_pos(),
            attributes_model(attrs@),
        ) {
            Ok((x, j)) => r matches Ok(p) && p@ == x && final(m).spec_pos() == j && j > old(
                m,
            ).spec_pos(),
            Err(e) => r matches Err(x) && x@ == e,
        },
{
    let ghost ts = m.spec_tokens();
    let ghost i0 = m.spec_pos();
    let head = [Class::Identifier, Class::ParenLeft];
    let tokens = match m.all(&head) {
        Ok(tokens) => tokens,
        Err(e) => {
            return Err(e);
        },
    };
    assert(tokens@[0] == ts[i0]);
    let mut method = ServiceMethod::new(Span::of(text, tokens[0]), attrs);
    let classes = [Class::Identifier, Class::ParenRight];
    let token = match m.any(&classes) {
        Ok(token) => token,
        Err(e) => {
            return Err(e);
        },
    };
    if token.class == Class::Identifier {
        let t = match method_type(m, text, token, Class::ParenRight) {
            Ok(t) => t,
            Err(e) => {
                return Err(e);
            },
        };
        method.input = Some(t);
    } else {
        proof {
            let k = choose|k: int| 0 <= k < classes@.len() && classes@[k] == token.class;
        }
    }
    let classes = [Class::Colon, Class::Semicolon];
    let token = match m.any(&classes) {
        Ok(token) => token,
        Err(e) => {
            return Err(e);
        },
    };
    if token.class == Class::Colon {
        let name = match m.one(Class::Identifier) {
            Ok(name) => name,
            Err(e) => {
                return Err(e);
            },
        };
        let t = match method_type(m, text, name, Class::Semicolon) {
            Ok(t) => t,
            Err(e) => {
                return Err(e);
            },
        };
        method.output = Some(t);
    } else {
        proof {
            let k = choose|k: int| 0 <= k < classes@.len() && classes@[k] == token.class;
        }
    }
    Ok(method)
}

/// Reads a service after `service`.
fn service<'a>(m: &mut M, text: &'a Text, attrs: Vec<Attribute<'a>>) -> (r: Result<
    Service<'a>,
    Error<Class>,
>)
    requires
        old(m).in_range(),
    ensures
        final(m).spec_tokens() == old(m).spec_tokens(),
        final(m).in_range(),
        match grammar::service(text, old(m).spec_tokens(), old(m).spec_pos(), attributes_model(attrs@)) {
            Ok((x, j)) => r matches Ok(p) && p@ == x && final(m).spec_pos() == j && j > old(
                m,
            ).spec_pos(),
            Err(e) => r matches Err(x) && x@ == e,
        },
{
    let ghost ts = m.spec_tokens();
    let ghost i0 = m.spec_pos();
    let head = [Class::Identifier, Class::BraceLeft];
    let tokens = match m.all(&head) {
        Ok(tokens) => tokens,
        Err(e) => {
            return Err(e);
        },
    };
    assert(tokens@[0] == ts[i0]);
    let mut acc = Service::new(Span::of(text, tokens[0]), attrs);
    let mut pending: Vec<Attribute<'a>> = Vec::new();
    proof {
        lemma_attributes_empty(pending@);
        assert(acc@.methods =~= Seq::empty());
    }
    loop
        invariant
            m.spec_tokens() == ts,
            ts == old(m).spec_tokens(),
            i0 == old(m).spec_pos(),
            m.in_range(),
            i0 + 2 <= m.spec_pos(),
            grammar::service(text, ts, i0, attributes_model(attrs@)) == grammar::service_entries(
                text,
                ts,
                m.spec_pos(),
                acc@,
                attributes_model(pending@),
            ),
        decreases ts.len() - m.spec_pos(),
    {
        let classes = [Class::At, Class::Method, Class::BraceRight];
        assert(classes@ == grammar::service_classes());
        let token = match m.any(&classes) {
            Ok(token) => token,
            Err(e) => {
                return Err(e);
            },
        };
        if token.class == Class::BraceRight {
            return Ok(acc);
        } else if token.class == Class::At {
            match push_attribute(m, text, &mut pending) {
                Ok(()) => {},
                Err(e) => {
                    return Err(e);
                },
            }
        } else {
            let attrs_now = pending;
            pending = Vec::new();
            proof {
                lemma_attributes_empty(pending@);
                let k = choose|k: int| 0 <= k < classes@.len() && classes@[k] == token.class;
            }
            let x = match service_method(m, text, attrs_now) {
                Ok(x) => x,
                Err(e) => {
                    return Err(e);
                },
            };
            let ghost prev = acc@;
            acc.methods.push(x);
            assert(acc@.methods =~= prev.methods.push(x@));
            assert(acc@ == ServiceModel { methods: prev.methods.push(x@), ..prev });
        }
    }
}

/// Consumes all tokens of `m`, adding the definitions they hold to `spec`.
pub fn root<'a>(spec: &mut Specification<'a>, m: &mut M, text: &'a Text) -> (r: Result<
    (),
    Error<Class>,
>)
    requires
        old(m).in_range(),
    ensures
        final(m).spec_tokens() == old(m).spec_tokens(),
        match grammar::root(
            text,
            old(m).spec_tokens(),
            old(m).spec_pos(),
            old(spec)@,
            Seq::empty(),
        ) {
            Ok(x) => r is Ok && final(spec)@ == x && final(m).spec_pos() == old(m).spec_tokens().len(),
            Err(e) => r matches Err(x) && x@ == e,
        },
{
    let ghost ts = m.spec_tokens();
    let ghost i0 = m.spec_pos();
    let ghost s0 = spec@;
    let mut pending: Vec<Attribute<'a>> = Vec::new();
    proof {
        lemma_attributes_empty(pending@);
    }
    loop
        invariant
            m.spec_tokens() == ts,
            ts == old(m).spec_tokens(),
            i0 == old(m).spec_pos(),
            s0 == old(spec)@,
            m.in_range(),
            grammar::root(text, ts, i0, s0, Seq::empty()) == grammar::root(
                text,
                ts,
                m.spec_pos(),
                spec@,
                attributes_model(pending@),
            ),
        decreases ts.len() - m.spec_pos(),
    {
        let classes = [
            Class::At,
            Class::Enum,
            Class::Implement,
            Class::Primitive,
            Class::Record,
            Class::Service,
            Class::System,
        ];
        assert(classes@ == grammar::root_classes());
        let token = match m.any(&classes) {
            Ok(token) => token,
            Err(e) => {
                return Err(e);
            },
        };
        if token.class == Class::At {
            match push_attribute(m, text, &mut pending) {
                Ok(()) => {},
                Err(e) => {
                    return Err(e);
                },
            }
        } else {
            let attrs_now = pending;
            pending = Vec::new();
            proof {
                lemma_attributes_empty(pending@);
            }
            let ghost prev = spec@;
            if token.class == Class::Enum {
                let x = match enum_(m, text, attrs_now) {
                    Ok(x) => x,
                    Err(e) => {
                        return Err(e);
                    },
                };
                spec.enums.push(x);
                assert(spec@.enums =~= prev.enums.push(x@));
                assert(spec@ == (SpecificationModel { enums: prev.enums.push(x@), ..prev }));
            } else if token.class == Class::Implement {
                let x = match implement(m, text, attrs_now) {
                    Ok(x) => x,
                    Err(e) => {
                        return Err(e);
                    },
                };
                spec.implementations.push(x);
                assert(spec@.implementations =~= prev.implementations.push(x@));
                assert(spec@ == (SpecificationModel {
                    implementations: prev.implementations.push(x@),
                    ..prev
                }));
            } else if token.class == Class::Primitive {
                let x = match primitive(m, text, attrs_now) {
                    Ok(x) => x,
                    Err(e) => {
                        return Err(e);
                    },
                };
                spec.primitives.push(x);
                assert(spec@.primitives =~= prev.primitives.push(x@));
                assert(spec@ == (SpecificationModel { primitives: prev.primitives.push(x@), ..prev }));
            } else if token.class == Class::Record {
                let x = match record(m, text, attrs_now) {
                    Ok(x) => x,
                    Err(e) => {
                        return Err(e);
                    },
                };
                spec.records.push(x);
                assert(spec@.records =~= prev.records.push(x@));
                assert(spec@ == (SpecificationModel { records: prev.records.push(x@), ..prev }));
            } else if token.class == Class::Service {
                let x = match service(m, text, attrs_now) {
                    Ok(x) => x,
                    Err(e) => {
                        return Err(e);
                    },
                };
                spec.services.push(x);
                assert(spec@.services =~= prev.services.push(x@));
                assert(spec@ == (SpecificationModel { services: prev.services.push(x@), ..prev }));
            } else {
                proof {
                    let k = choose|k: int| 0 <= k < classes@.len() && classes@[k] == token.class;
                }
                let x = match system(m, text, attrs_now) {
                    Ok(x) => x,
                    Err(e) => {
                        return Err(e);
                    },
                };
                spec.systems.push(x);
                assert(spec@.systems =~= prev.systems.push(x@));
                assert(spec@ == (SpecificationModel { systems: prev.systems.push(x@), ..prev }));
            }
            if m.at_end() {
                return Ok(());
            }
        }
    }
}

} // verus!
