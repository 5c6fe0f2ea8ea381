use arspec::source::{Span, Text};
use arspec::spec::parser::parse;
use arspec::spec::verify::find_duplicate;
use arspec::spec::{Enum, EnumVariant, VerificationError};

#[test]
fn duplicates_few_items() {
    let text = Text::new("t", "A B B A");
    let variant = |start: usize| EnumVariant::new(Span { source: &text, start, end: start + 1 }, Vec::new());
    let items = vec![variant(0), variant(2), variant(4), variant(6)];
    let d = find_duplicate(&items).unwrap();
    assert_eq!(d.original.name.start, 0);
    assert_eq!(d.duplicate.name.start, 6);
    let distinct = vec![variant(0), variant(2)];
    assert!(find_duplicate(&distinct).is_none());
}

#[test]
fn duplicates_many_items() {
    let body = "ABCDEFGHIJKLMNOPBB";
    let text = Text::new("t", body);
    let variant = |start: usize| EnumVariant::new(Span { source: &text, start, end: start + 1 }, Vec::new());
    let mut items: Vec<EnumVariant> = (0..16).map(variant).collect();
    items.push(variant(16));
    items.push(variant(0));
    let d = find_duplicate(&items).unwrap();
    assert_eq!(d.original.name.start, 1);
    assert_eq!(d.duplicate.name.start, 16);
    let items: Vec<EnumVariant> = (0..16).map(variant).collect();
    assert!(find_duplicate(&items).is_none());
}

#[test]
fn enum_variant_duplicate_is_reported() {
    let text = Text::new("t", "enum Color { Red, Green, Red }");
    let spec = parse(&text).ok().unwrap();
    match spec.verify() {
        Err(VerificationError::EnumVariantDuplicate { duplicate, original }) => {
            assert_eq!(original.start, 13);
            assert_eq!(duplicate.start, 25);
            let message = VerificationError::EnumVariantDuplicate { duplicate, original }.message();
            assert_eq!(
                message,
                "Enum variant named `Red` already exists.\nDuplicate located at:\nt:1:26: `Red`\nOriginal located at:\nt:1:14: `Red`"
            );
        }
        _ => panic!("expected a duplicate variant"),
    }
    let e = Enum::new(Span { source: &text, start: 5, end: 10 }, Vec::new());
    assert!(e.verify().is_ok());
}

#[test]
fn implementation_checks() {
    let ok = Text::new("t", "service S { method M(); } implement S using HTTP/JSON { }");
    assert!(parse(&ok).ok().unwrap().verify().is_ok());

    let missing = Text::new("t", "implement S using HTTP/JSON { }");
    match parse(&missing).ok().unwrap().verify() {
        Err(VerificationError::NoSuchServiceToImplement { service }) => {
            assert_eq!(service.as_str(), "S");
        }
        _ => panic!("expected a missing service"),
    }

    let protocol = Text::new("t", "service S { }\nimplement S using FTP/JSON { }");
    match parse(&protocol).ok().unwrap().verify() {
        Err(e @ VerificationError::UnknownServiceProtocol { .. }) => {
            assert_eq!(
                e.message(),
                "Unknown service protocol. Valid protocol are `COAP`, `HTTP` and `MQTT`.\nt:2:19: `FTP`"
            );
        }
        _ => panic!("expected an unknown protocol"),
    }

    let encoding = Text::new("t", "service S { } implement S using MQTT/YAML { }");
    assert!(matches!(
        parse(&encoding).ok().unwrap().verify(),
        Err(VerificationError::UnknownServiceEncoding { .. })
    ));

    let interface = Text::new("t", "service S { } implement S using COAP/CBOR { interface I { } }");
    assert!(matches!(
        parse(&interface).ok().unwrap().verify(),
        Err(VerificationError::NoSuchInterfaceToImplement { .. })
    ));
}

#[test]
fn name_duplicates() {
    let t = Text::new("t", "record R { } record R { }");
    assert!(matches!(
        parse(&t).ok().unwrap().verify(),
        Err(VerificationError::RecordNameDuplicate { .. })
    ));
    let t = Text::new("t", "system S { } system S { }");
    assert!(matches!(
        parse(&t).ok().unwrap().verify(),
        Err(VerificationError::SystemNameDuplicate { .. })
    ));
    let t = Text::new("t", "service S { } service S { }");
    assert!(matches!(
        parse(&t).ok().unwrap().verify(),
        Err(VerificationError::ServiceNameDuplicate { .. })
    ));
    let t = Text::new("t", "primitive P; primitive<T> P<T>;");
    assert!(matches!(
        parse(&t).ok().unwrap().verify(),
        Err(VerificationError::PrimitiveNameDuplicate { .. })
    ));
    let t = Text::new("t", "enum E { A } enum E { B }");
    assert!(matches!(
        parse(&t).ok().unwrap().verify(),
        Err(VerificationError::EnumNameDuplicate { .. })
    ));
}
