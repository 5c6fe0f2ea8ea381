//! Lexical and syntactic analysis of specification source texts.

pub mod class;
pub mod grammar;
pub mod lexer;
pub mod parser;

pub use self::class::Class;

use crate::source::{Error, Matcher, Text};
use crate::spec::{Specification, SpecificationModel};
use vstd::prelude::*;

verus! {

/// The definitions of specification text `text` added to `acc`, or the
/// failure that stops its reading.
pub open spec fn spec_parse<'a>(text: &'a Text, acc: SpecificationModel<'a>) -> Result<
    SpecificationModel<'a>,
    grammar::Failure,
> {
    grammar::root(text, lexer::spec_scan(text.body@, 0), 0, acc, Seq::empty())
}

/// Adds the definitions of `text` to `spec`; on failure, what `spec` holds is
/// left unsaid.
pub fn parse_into<'a>(spec: &mut Specification<'a>, text: &'a Text) -> (r: Result<(), Error<Class>>)
    ensures
        match spec_parse(text, old(spec)@) {
            Ok(x) => r is Ok && final(spec)@ == x,
            Err(e) => r matches Err(x) && x@ == e,
        },
{
    let tokens = lexer::scan(text);
    let mut m = Matcher::new(tokens.as_slice());
    parser::root(spec, &mut m, text)
}

/// Attempts to create a [`Specification`] from source `text`.
pub fn parse<'a>(text: &'a Text) -> (r: Result<Specification<'a>, Error<Class>>)
    ensures
        match spec_parse(text, Specification::new_model()) {
            Ok(x) => r matches Ok(s) && s@ == x,
            Err(e) => r matches Err(x) && x@ == e,
        },
{
    let mut spec = Specification::new();
    proof {
        Specification::lemma_new_model(spec);
    }
    match parse_into(&mut spec, text) {
        Ok(()) => Ok(spec),
        Err(e) => Err(e),
    }
}

} // verus!
