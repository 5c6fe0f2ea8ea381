use crate::source::Classify;
use vstd::prelude::*;

verus! {

/// Classifies the characters identified by a [`Token`](crate::source::Token)
/// of a specification source text.
#[derive(Clone, Copy, Debug, Eq, PartialEq, Structural)]
pub enum Class {
    // Delimiters.
    AngleLeft,
    AngleRight,
    At,
    BraceLeft,
    BraceRight,
    Colon,
    Comma,
    ParenLeft,
    ParenRight,
    Slash,
    SquareLeft,
    SquareRight,
    Semicolon,

    // Literals.
    Null,
    Boolean,
    Integer,
    Float,
    String,

    // Keywords.
    Consumes,
    Enum,
    Implement,
    Interface,
    Method,
    Primitive,
    Produces,
    Property,
    Record,
    Service,
    System,
    Using,

    // Other.
    Identifier,
    Comment,

    // Errors.
    InvalidStringEscape,
    InvalidStringChar,
    InvalidSymbolChar,
}

/// How class `c` is written in messages.
pub open spec fn class_text(c: Class) -> Seq<char> {
    match c {
        Class::AngleLeft => "<"@,
        Class::AngleRight => ">"@,
        Class::At => "@"@,
        Class::BraceLeft => "{"@,
        Class::BraceRight => "}"@,
        Class::Colon => ":"@,
        Class::Comma => ","@,
        Class::ParenLeft => "("@,
        Class::ParenRight => ")"@,
        Class::Slash => "/"@,
        Class::SquareLeft => "["@,
        Class::SquareRight => "]"@,
        Class::Semicolon => ";"@,
        Class::Null => "Null"@,
        Class::Boolean => "Boolean"@,
        Class::Integer => "Integer"@,
        Class::Float => "Float"@,
        Class::String => "String"@,
        Class::Consumes => "consumes"@,
        Class::Enum => "enum"@,
        Class::Implement => "implement"@,
        Class::Interface => "interface"@,
        Class::Method => "method"@,
        Class::Primitive => "primitive"@,
        Class::Produces => "produces"@,
        Class::Property => "property"@,
        Class::Record => "record"@,
        Class::Service => "service"@,
        Class::System => "system"@,
        Class::Using => "using"@,
        Class::Identifier => "Identifier"@,
        Class::Comment => "Comment"@,
        Class::InvalidStringEscape => "<InvalidStringEscape>"@,
        Class::InvalidStringChar => "<InvalidStringChar>"@,
        Class::InvalidSymbolChar => "<InvalidSymbolChar>"@,
    }
}

impl Classify for Class {
    fn is(&self, other: &Self) -> (r: bool) {
        *self == *other
    }
}

impl Class {
    /// How the class is written in messages.
    pub fn as_str(&self) -> (r: &'static str)
        ensures
            r@ == class_text(*self),
    {
        match *self {
            Class::AngleLeft => "<",
            Class::AngleRight => ">",
            Class::At => "@",
            Class::BraceLeft => "{",
            Class::BraceRight => "}",
            Class::Colon => ":",
            Class::Comma => ",",
            Class::ParenLeft => "(",
            Class::ParenRight => ")",
            Class::Slash => "/",
            Class::SquareLeft => "[",
            Class::SquareRight => "]",
            Class::Semicolon => ";",
            Class::Null => "Null",
            Class::Boolean => "Boolean",
            Class::Integer => "Integer",
            Class::Float => "Float",
            Class::String => "String",
            Class::Consumes => "consumes",
            Class::Enum => "enum",
            Class::Implement => "implement",
            Class::Interface => "interface",
            Class::Method => "method",
            Class::Primitive => "primitive",
            Class::Produces => "produces",
            Class::Property => "property",
            Class::Record => "record",
            Class::Service => "service",
            Class::System => "system",
            Class::Using => "using",
            Class::Identifier => "Identifier",
            Class::Comment => "Comment",
            Class::InvalidStringEscape => "<InvalidStringEscape>",
            Class::InvalidStringChar => "<InvalidStringChar>",
            Class::InvalidSymbolChar => "<InvalidSymbolChar>",
        }
    }
}

} // verus!
