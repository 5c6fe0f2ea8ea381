use arspec::error::Error as _;
use arspec::source::Text;
use arspec::spec::parser::{parse, parse_into, Class};
use arspec::spec::{Specification, Value};

#[test]
fn empty_text_is_refused() {
    let text = Text::new("t", "  // nothing\n");
    let e = parse(&text).err().unwrap();
    assert_eq!(
        e.expected,
        vec![
            Class::At,
            Class::Enum,
            Class::Implement,
            Class::Primitive,
            Class::Record,
            Class::Service,
            Class::System,
        ]
    );
    assert!(e.actual.is_none());
    assert_eq!(e.code(), "PS01");
}

#[test]
fn unexpected_token_is_reported() {
    let text = Text::new("t", "record R { x Integer }");
    let e = parse(&text).err().unwrap();
    assert_eq!(e.expected, vec![Class::Colon]);
    assert_eq!(e.actual.unwrap().class, Class::Identifier);
    assert_eq!(e.code(), "PS02");
}

#[test]
fn method_type_error_adds_angle() {
    let text = Text::new("t", "service S { method M(A B); }");
    let e = parse(&text).err().unwrap();
    assert_eq!(e.expected, vec![Class::ParenRight, Class::AngleLeft]);
    let text = Text::new("t", "service S { method M(A<B> C); }");
    let e = parse(&text).err().unwrap();
    assert_eq!(e.expected, vec![Class::ParenRight]);
}

#[test]
fn list_value_error_adds_square() {
    let text = Text::new("t", "@A([1, ;]) record R { }");
    let e = parse(&text).err().unwrap();
    assert_eq!(
        e.expected,
        vec![
            Class::Null,
            Class::Boolean,
            Class::Integer,
            Class::Float,
            Class::String,
            Class::SquareLeft,
            Class::BraceLeft,
            Class::SquareRight,
        ]
    );
}

#[test]
fn values_and_type_parameters() {
    let text = Text::new(
        "t",
        "@Meta({ a: [1, 2.5, true, null], b: \"s\" }) primitive<K, V> Map<K, V>;\nrecord R { a: List<Option<Integer>>, @Doc(\"b\") b: Integer }\nsystem Y { consumes X; @Doc(\"p\") produces Z; }\nenum E { A, B, }",
    );
    let spec = parse(&text).ok().unwrap();
    assert_eq!(spec.primitives.len(), 1);
    let p = &spec.primitives[0];
    assert_eq!(p.generic_parameters.len(), 2);
    assert_eq!(p.generic_parameters[1].as_str(), "V");
    assert_eq!(p.definition.as_str(), "Map<K, V>");
    assert_eq!(p.definition.params[0].name.as_str(), "V");
    match &p.attributes[0].value {
        Value::Mapping(entries) => {
            assert_eq!(entries.len(), 2);
            assert_eq!(entries[0].0.as_str(), "a");
            match &entries[0].1 {
                Value::List(items) => {
                    assert_eq!(items.len(), 4);
                    assert!(matches!(items[1], Value::Float(_)));
                    assert!(matches!(items[3], Value::Null));
                }
                _ => panic!("expected a list"),
            }
        }
        _ => panic!("expected a map"),
    }
    let r = &spec.records[0];
    assert_eq!(r.entries.len(), 2);
    assert_eq!(r.entries[0].type_ref.as_str(), "List<Option<Integer>>");
    assert_eq!(r.entries[1].attributes.len(), 1);
    let y = &spec.systems[0];
    assert_eq!(y.consumes[0].name.as_str(), "X");
    assert_eq!(y.produces[0].name.as_str(), "Z");
    assert_eq!(y.produces[0].attributes.len(), 1);
    let e = &spec.enums[0];
    assert_eq!(e.variants.len(), 2);
}

#[test]
fn implementations() {
    let text = Text::new(
        "t",
        "implement S using HTTP/JSON { property P: 1; interface I { method M { K: \"v\" } property Q: []; } method N { } }",
    );
    let spec = parse(&text).ok().unwrap();
    let i = &spec.implementations[0];
    assert_eq!(i.protocol.as_str(), "HTTP");
    assert_eq!(i.encoding.as_str(), "JSON");
    assert_eq!(i.properties.len(), 1);
    assert_eq!(i.interfaces.len(), 1);
    assert_eq!(i.interfaces[0].methods[0].data.len(), 1);
    assert_eq!(i.interfaces[0].properties.len(), 1);
    assert_eq!(i.methods.len(), 1);
}

#[test]
fn texts_add_up() {
    let a = Text::new("a", "service A { }");
    let b = Text::new("b", "service B { }");
    let mut spec = Specification::new();
    assert!(parse_into(&mut spec, &a).is_ok());
    assert!(parse_into(&mut spec, &b).is_ok());
    assert_eq!(spec.services.len(), 2);
    assert_eq!(spec.services[1].name.as_str(), "B");
}
