//! Styled text, as lines of spans.

use vstd::prelude::*;

verus! {

/// The font a span of text is set in.
#[derive(Copy, Clone, Debug, Eq, PartialEq, Structural)]
pub enum TextStyle {
    Mono,
    Sans,
    SansBold,
    SansItalic,
}

/// A line of text, made of spans.
pub struct TextLine {
    pub spans: Vec<TextSpan>,
}

/// A run of text in one style.
pub struct TextSpan {
    pub style: TextStyle,
    pub data: String,
}

} // verus!
