use arspec::source::{Span, Text, Token};
use arspec::spec::parser::lexer::scan;
use arspec::spec::parser::{parse, Class};
use arspec::spec::{TypeRef, Value};

fn strings(text: &Text, tokens: &[Token<Class>]) -> Vec<String> {
    tokens.iter().map(|t| Span::of(text, *t).as_str()).collect()
}

#[test]
fn all() {
    let source = Text::new(
        "alpha.ahfs",
        "consumes enum implement interface method\nproduces property record service system using\n\n<>{}:,()/[];\n\nnull\ntrue false\n0 1 202 -30 +40\n50.0 6.1234 7.e+20 8e-10 1e9\ninf +inf -inf NaN\n\"Hello, World!\" \"\\uBad\" \"\\uFree\"\n\"123\\uXYZ456\"\n\nIdentifierName smallCaps _underscore\n+ - * # ! ^ ~ ..\n/// This is an ignored doc comment.\n/** This too! */\n// This is an ignored plain comment.\n/* This too! */\n",
    );
    let tokens = scan(&source);

    // Check token strings.
    assert_eq!(
        vec![
            "consumes", "enum", "implement", "interface", "method",
            "produces", "property", "record", "service",
            "system", "using",
            "<", ">", "{", "}", ":", ",", "(", ")", "/", "[", "]", ";",
            "null",
            "true", "false",
            "0", "1", "202", "-30", "+40",
            "50.0", "6.1234", "7.e+20", "8e-10", "1e9",
            "inf", "+inf", "-inf", "NaN",
            "\"Hello, World!\"", "\"\\uBad\"", "\"\\uFree\"",
            "\"123\\uXYZ456\"",
            "IdentifierName", "smallCaps", "_underscore",
            "+", "-", "*", "#", "!", "^", "~", ".", ".",
        ],
        strings(&source, &tokens)
    );

    // Check token classes.
    assert_eq!(
        vec![
            Class::Consumes, Class::Enum, Class::Implement, Class::Interface, Class::Method,
            Class::Produces, Class::Property, Class::Record, Class::Service,
            Class::System, Class::Using,
            Class::AngleLeft, Class::AngleRight,
            Class::BraceLeft, Class::BraceRight,
            Class::Colon, Class::Comma,
            Class::ParenLeft, Class::ParenRight,
            Class::Slash,
            Class::SquareLeft, Class::SquareRight,
            Class::Semicolon,
            Class::Null,
            Class::Boolean, Class::Boolean,
            Class::Integer, Class::Integer, Class::Integer,
            Class::Integer, Class::Integer,
            Class::Float, Class::Float, Class::Float,
            Class::Float, Class::Float,
            Class::Float, Class::Float, Class::Float, Class::Float,
            Class::String, Class::InvalidStringEscape, Class::InvalidStringEscape,
            Class::InvalidStringEscape,
            Class::Identifier, Class::Identifier, Class::Identifier,
            Class::InvalidSymbolChar, Class::InvalidSymbolChar, Class::InvalidSymbolChar,
            Class::InvalidSymbolChar, Class::InvalidSymbolChar, Class::InvalidSymbolChar,
            Class::InvalidSymbolChar, Class::InvalidSymbolChar, Class::InvalidSymbolChar,
        ],
        tokens.iter().map(|item| item.class).collect::<Vec<_>>(),
    );
}

#[test]
fn lexer_example1() {
    let source = Text::new(
        "example1.ahfs",
        "/// Comment A.\nservice MyService {\n    /// Comment B.\n    interface MyInterface {\n        /// Comment C.\n        method MyMethod(Argument): Result;\n    }\n}\n",
    );
    let tokens = scan(&source);

    // Check token strings.
    assert_eq!(
        vec![
            "service", "MyService", "{",
            "interface", "MyInterface", "{",
            "method", "MyMethod", "(", "Argument", ")", ":", "Result", ";",
            "}",
            "}",
        ],
        strings(&source, &tokens)
    );

    // Check token classes.
    assert_eq!(
        vec![
            Class::Service, Class::Identifier, Class::BraceLeft,
            Class::Interface, Class::Identifier, Class::BraceLeft,
            Class::Method, Class::Identifier, Class::ParenLeft,
            Class::Identifier, Class::ParenRight, Class::Colon,
            Class::Identifier, Class::Semicolon,
            Class::BraceRight,
            Class::BraceRight,
        ],
        tokens.iter().map(|item| item.class).collect::<Vec<_>>(),
    );
}

fn assert_value_eq_str(actual: &Value<'_>, expected: &str) {
    match actual {
        Value::String(span) => assert_eq!(span.as_str(), expected),
        _ => panic!("Expected Value::String(_)"),
    }
}

#[test]
fn mod_example1() {
    let text = Text::new(
        "alpha.ahfs",
        "@Doc(\"Comment A.\")\n@Author(\"Author Name\")\nservice MyService {\n    @Doc(\"Comment B.\")\n    method MyMethod(Argument): Result;\n}\n",
    );
    let tree = match parse(&text) {
        Ok(tree) => tree,
        Err(err) => {
            panic!("{:?}", err.expected);
        }
    };

    assert_eq!(tree.implementations.len(), 0);
    assert_eq!(tree.records.len(), 0);
    assert_eq!(tree.services.len(), 1);
    assert_eq!(tree.systems.len(), 0);

    let service = &tree.services[0];
    assert_eq!(service.name.as_str(), "MyService");
    assert_eq!(service.methods.len(), 1);
    assert_eq!(service.attributes.len(), 2);
    assert_eq!(service.attributes[0].name.as_str(), "Doc");
    assert_value_eq_str(&service.attributes[0].value, "\"Comment A.\"");
    assert_eq!(service.attributes[1].name.as_str(), "Author");
    assert_value_eq_str(&service.attributes[1].value, "\"Author Name\"");

    let method = &service.methods[0];
    assert_eq!(method.name.as_str(), "MyMethod");
    assert_eq!(method.input.as_ref().unwrap().name.as_str(), "Argument");
    assert_eq!(method.output.as_ref().unwrap().name.as_str(), "Result");
    assert_eq!(method.attributes.len(), 1);
    assert_value_eq_str(&method.attributes[0].value, "\"Comment B.\"");
}

#[test]
fn example2() {
    let text = Text::new(
        "alpha.ahfs",
        "/*\n * Comment A.\n * More comment A.\n */\nsystem TestSystem {\n    // Comment B.\n    consumes TestServiceX;\n\n    /** Comment C. */\n    produces TestServiceA;\n}\n\n// Comment D.\nservice TestServiceX {\n    // Comment E.\n    method FireMissiles(Set<Target>);\n}\n\n// Comment E.\nimplement TestServiceX using HTTP/JSON {\n    // Comment F.\n    property BasePath: \"/x\";\n\n    // Comment G.\n    method FireMissiles {\n        Method: \"POST\",\n        Path: \"/missile-launches\",\n     }\n}\n\n// Comment H.\nrecord Target {\n    // Comment I.\n    X: Integer,\n}\n",
    );
    if let Err(error) = parse(&text) {
        panic!("{:?}", error.expected);
    }
}

#[test]
fn as_str() {
    let source = Text::new(
        "test",
        "Integer\nOption<Integer>\nAny<Integer, Option<Integer>>\nMap<String, String>\n",
    );
    let span = |range: std::ops::Range<usize>| Span { source: &source, start: range.start, end: range.end };
    let (a, b, c, d) = {
        let a = TypeRef {
            name: span(0..7),
            params: Vec::new(),
        };
        let b = TypeRef {
            name: span(8..14),
            params: vec![
                TypeRef {
                    name: span(15..22),
                    params: Vec::new(),
                }
            ],
        };
        let c = TypeRef {
            name: span(24..27),
            params: vec![
                TypeRef {
                    name: span(28..35),
                    params: Vec::new(),
                },
                TypeRef {
                    name: span(37..43),
                    params: vec![
                        TypeRef {
                            name: span(44..51),
                            params: Vec::new(),
                        }
                    ],
                }
            ],
        };
        let d = TypeRef {
            name: span(54..57),
            params: vec![
                TypeRef {
                    name: span(66..72),
                    params: Vec::new(),
                },
                TypeRef {
                    name: span(58..64),
                    params: Vec::new(),
                }
            ],
        };
        (a, b, c, d)
    };
    assert_eq!("Integer", a.as_str());
    assert_eq!("Option<Integer>", b.as_str());
    assert_eq!("Any<Integer, Option<Integer>>", c.as_str());
    assert_eq!("Map<String, String>", d.as_str());
}

#[test]
fn tokens_are_ordered_ranges() {
    let source = Text::new("t", "service A { method M(B<C>): D; } // end\n/* x */ enum E { F }");
    let tokens = scan(&source);
    assert!(!tokens.is_empty());
    for (k, t) in tokens.iter().enumerate() {
        assert!(t.start < t.end && t.end <= source.body.len());
        if k > 0 {
            assert!(tokens[k - 1].end <= t.start);
        }
    }
}

#[test]
fn excerpts_count_lines_and_columns() {
    let body = "\n".repeat(11) + "  record R { }";
    let source = Text::new("many.ahfs", &body);
    let span = Span { source: &source, start: 13, end: 19 };
    assert_eq!(span.excerpt(), "many.ahfs:12:3: `record`");
    assert_eq!(span.as_str(), "record");
    assert!(span.text_is("record"));
    assert!(!span.same_text(&Span { source: &source, start: 20, end: 21 }));
}

#[test]
fn unicode_white_space_separates_tokens() {
    let source = Text::new("t", "enum\u{3000}E\u{2003}{\u{85}F\u{a0}}\u{b}");
    let tokens = scan(&source);
    assert_eq!(vec!["enum", "E", "{", "F", "}"], strings(&source, &tokens));
}
