//! Adobe Font Metrics texts: their token classes and lexemes.

pub mod class;
pub mod lexer;

pub use self::class::Class;
