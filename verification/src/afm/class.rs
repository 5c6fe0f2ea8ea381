use crate::source::Classify;
use vstd::prelude::*;

verus! {

/// Classifies the characters identified by a [`Token`](crate::source::Token)
/// of an Adobe Font Metrics text.
#[derive(Copy, Clone, Debug, Eq, PartialEq, Structural)]
pub enum Class {
    // Delimiters.
    Newline,
    Semicolon,

    // Literals.
    Integer,
    Array,
    Boolean,
    Name,
    Number,
    String,

    // Key: Comment.
    Comment,

    // Keys: AFM File Structure.
    StartFontMetrics,
    EndFontMetrics,

    // Keys: Global Font Information.
    FontName,
    FullName,
    FamilyName,
    Weight,
    FontBBox,
    Version,
    Notice,
    EncodingScheme,
    MappingScheme,
    EscChar,
    CharacterSet,
    Characters,
    IsBaseFont,
    VVector,
    IsFixedV,
    IsCIDFont,
    CapHeight,
    XHeight,
    Ascender,
    Descender,
    StdHW,
    StdVW,
    WeightVector,

    // Keys: Writing Direction Information.
    StartDirection,
    EndDirection,
    UnderlinePosition,
    UnderlineThickness,
    ItalicAngle,
    CharWidth,
    IsFixedPitch,

    // Keys: Individual Character Metrics.
    StartCharMetrics,
    EndCharMetrics,
    C,
    WX,
    N,
    B,

    // Keys: Kerning Data.
    StartKernData,
    EndKernData,
    StartKernPairs,
    EndKernPairs,
    KPX,

    // Errors.
    InvalidKey,
    InvalidName,
    InvalidString,
}

impl Classify for Class {
    fn is(&self, other: &Self) -> (r: bool) {
        *self == *other
    }
}

/// How class `c` is written in messages.
pub open spec fn class_text(c: Class) -> Seq<char> {
    match c {
        Class::Newline => "Newline"@,
        Class::Semicolon => ";"@,
        Class::Integer => "Integer"@,
        Class::Array => "Array"@,
        Class::Boolean => "Boolean"@,
        Class::Name => "Name"@,
        Class::Number => "Number"@,
        Class::String => "String"@,
        Class::Comment => "Comment"@,
        Class::StartFontMetrics => "StartFontMetrics"@,
        Class::EndFontMetrics => "EndFontMetrics"@,
        Class::FontName => "FontName"@,
        Class::FullName => "FullName"@,
        Class::FamilyName => "FamilyName"@,
        Class::Weight => "Weight"@,
        Class::FontBBox => "FontBBox"@,
        Class::Version => "Version"@,
        Class::Notice => "Notice"@,
        Class::EncodingScheme => "EncodingScheme"@,
        Class::MappingScheme => "MappingScheme"@,
        Class::EscChar => "EscChar"@,
        Class::CharacterSet => "CharacterSet"@,
        Class::Characters => "Characters"@,
        Class::IsBaseFont => "IsBaseFont"@,
        Class::VVector => "VVector"@,
        Class::IsFixedV => "IsFixedV"@,
        Class::IsCIDFont => "IsCIDFont"@,
        Class::CapHeight => "CapHeight"@,
        Class::XHeight => "XHeight"@,
        Class::Ascender => "Ascender"@,
        Class::Descender => "Descender"@,
        Class::StdHW => "StdHW"@,
        Class::StdVW => "StdVW"@,
        Class::WeightVector => "WeightVector"@,
        Class::StartDirection => "StartDirection"@,
        Class::EndDirection => "EndDirection"@,
        Class::UnderlinePosition => "UnderlinePosition"@,
        Class::UnderlineThickness => "UnderlineThickness"@,
        Class::ItalicAngle => "ItalicAngle"@,
        Class::CharWidth => "CharWidth"@,
        Class::IsFixedPitch => "IsFixedPitch"@,
        Class::StartCharMetrics => "StartCharMetrics"@,
        Class::EndCharMetrics => "EndCharMetrics"@,
        Class::C => "C"@,
        Class::WX => "WX"@,
        Class::N => "N"@,
        Class::B => "B"@,
        Class::StartKernData => "StartKernData"@,
        Class::EndKernData => "EndKernData"@,
        Class::StartKernPairs => "StartKernPairs"@,
        Class::EndKernPairs => "EndKernPairs"@,
        Class::KPX => "KPX"@,
        Class::InvalidKey => "<InvalidKey>"@,
        Class::InvalidName => "<InvalidName>"@,
        Class::InvalidString => "<InvalidString>"@,
    }
}

impl Class {
    /// How the class is written in messages.
    pub fn as_str(&self) -> (r: &'static str)
        ensures
            r@ == class_text(*self),
    {
        match *self {
            Class::Newline => "Newline",
            Class::Semicolon => ";",
            Class::Integer => "Integer",
            Class::Array => "Array",
            Class::Boolean => "Boolean",
            Class::Name => "Name",
            Class::Number => "Number",
            Class::String => "String",
            Class::Comment => "Comment",
            Class::StartFontMetrics => "StartFontMetrics",
            Class::EndFontMetrics => "EndFontMetrics",
            Class::FontName => "FontName",
            Class::FullName => "FullName",
            Class::FamilyName => "FamilyName",
            Class::Weight => "Weight",
            Class::FontBBox => "FontBBox",
            Class::Version => "Version",
            Class::Notice => "Notice",
            Class::EncodingScheme => "EncodingScheme",
            Class::MappingScheme => "MappingScheme",
            Class::EscChar => "EscChar",
            Class::CharacterSet => "CharacterSet",
            Class::Characters => "Characters",
            Class::IsBaseFont => "IsBaseFont",
            Class::VVector => "VVector",
            Class::IsFixedV => "IsFixedV",
            Class::IsCIDFont => "IsCIDFont",
            Class::CapHeight => "CapHeight",
            Class::XHeight => "XHeight",
            Class::Ascender => "Ascender",
            Class::Descender => "Descender",
            Class::StdHW => "StdHW",
            Class::StdVW => "StdVW",
            Class::WeightVector => "WeightVector",
            Class::StartDirection => "StartDirection",
            Class::EndDirection => "EndDirection",
            Class::UnderlinePosition => "UnderlinePosition",
            Class::UnderlineThickness => "UnderlineThickness",
            Class::ItalicAngle => "ItalicAngle",
            Class::CharWidth => "CharWidth",
            Class::IsFixedPitch => "IsFixedPitch",
            Class::StartCharMetrics => "StartCharMetrics",
            Class::EndCharMetrics => "EndCharMetrics",
            Class::C => "C",
            Class::WX => "WX",
            Class::N => "N",
            Class::B => "B",
            Class::StartKernData => "StartKernData",
            Class::EndKernData => "EndKernData",
            Class::StartKernPairs => "StartKernPairs",
            Class::EndKernPairs => "EndKernPairs",
            Class::KPX => "KPX",
            Class::InvalidKey => "<InvalidKey>",
            Class::InvalidName => "<InvalidName>",
            Class::InvalidString => "<InvalidString>",
        }
    }
}

/// The class of key `w`: the key named so, or `InvalidKey`.
pub open spec fn key_class(w: Seq<char>) -> Class {
    if w == "Comment"@ {
        Class::Comment
    } else if w == "StartFontMetrics"@ {
        Class::StartFontMetrics
    } else if w == "EndFontMetrics"@ {
        Class::EndFontMetrics
    } else if w == "FontName"@ {
        Class::FontName
    } else if w == "FullName"@ {
        Class::FullName
    } else if w == "FamilyName"@ {
        Class::FamilyName
    } else if w == "Weight"@ {
        Class::Weight
    } else if w == "FontBBox"@ {
        Class::FontBBox
    } else if w == "Version"@ {
        Class::Version
    } else if w == "Notice"@ {
        Class::Notice
    } else if w == "EncodingScheme"@ {
        Class::EncodingScheme
    } else if w == "MappingScheme"@ {
        Class::MappingScheme
    } else if w == "EscChar"@ {
        Class::EscChar
    } else if w == "CharacterSet"@ {
        Class::CharacterSet
    } else if w == "Characters"@ {
        Class::Characters
    } else if w == "IsBaseFont"@ {
        Class::IsBaseFont
    } else if w == "VVector"@ {
        Class::VVector
    } else if w == "IsFixedV"@ {
        Class::IsFixedV
    } else if w == "IsCIDFont"@ {
        Class::IsCIDFont
    } else if w == "CapHeight"@ {
        Class::CapHeight
    } else if w == "XHeight"@ {
        Class::XHeight
    } else if w == "Ascender"@ {
        Class::Ascender
    } else if w == "Descender"@ {
        Class::Descender
    } else if w == "StdHW"@ {
        Class::StdHW
    } else if w == "StdVW"@ {
        Class::StdVW
    } else if w == "WeightVector"@ {
        Class::WeightVector
    } else if w == "StartDirection"@ {
        Class::StartDirection
    } else if w == "EndDirection"@ {
        Class::EndDirection
    } else if w == "UnderlinePosition"@ {
        Class::UnderlinePosition
    } else if w == "UnderlineThickness"@ {
        Class::UnderlineThickness
    } else if w == "ItalicAngle"@ {
        Class::ItalicAngle
    } else if w == "CharWidth"@ {
        Class::CharWidth
    } else if w == "IsFixedPitch"@ {
        Class::IsFixedPitch
    } else if w == "StartCharMetrics"@ {
        Class::StartCharMetrics
    } else if w == "EndCharMetrics"@ {
        Class::EndCharMetrics
    } else if w == "C"@ {
        Class::C
    } else if w == "WX"@ {
        Class::WX
    } else if w == "N"@ {
        Class::N
    } else if w == "B"@ {
        Class::B
    } else if w == "StartKernData"@ {
        Class::StartKernData
    } else if w == "EndKernData"@ {
        Class::EndKernData
    } else if w == "StartKernPairs"@ {
        Class::StartKernPairs
    } else if w == "EndKernPairs"@ {
        Class::EndKernPairs
    } else if w == "KPX"@ {
        Class::KPX
    } else {
        Class::InvalidKey
    }
}

/// The class of key `w`: the key named so, or `InvalidKey`.
pub fn key_class_of(w: &[char]) -> (r: Class)
    ensures
        r == key_class(w@),
{
    if crate::source::chars_eq(w, "Comment") {
        Class::Comment
    } else if crate::source::chars_eq(w, "StartFontMetrics") {
        Class::StartFontMetrics
    } else if crate::source::chars_eq(w, "EndFontMetrics") {
        Class::EndFontMetrics
    } else if crate::source::chars_eq(w, "FontName") {
        Class::FontName
    } else if crate::source::chars_eq(w, "FullName") {
        Class::FullName
    } else if crate::source::chars_eq(w, "FamilyName") {
        Class::FamilyName
    } else if crate::source::chars_eq(w, "Weight") {
        Class::Weight
    } else if crate::source::chars_eq(w, "FontBBox") {
        Class::FontBBox
    } else if crate::source::chars_eq(w, "Version") {
        Class::Version
    } else if crate::source::chars_eq(w, "Notice") {
        Class::Notice
    } else if crate::source::chars_eq(w, "EncodingScheme") {
        Class::EncodingScheme
    } else if crate::source::chars_eq(w, "MappingScheme") {
        Class::MappingScheme
    } else if crate::source::chars_eq(w, "EscChar") {
        Class::EscChar
    } else if crate::source::chars_eq(w, "CharacterSet") {
        Class::CharacterSet
    } else if crate::source::chars_eq(w, "Characters") {
        Class::Characters
    } else if crate::source::chars_eq(w, "IsBaseFont") {
        Class::IsBaseFont
    } else if crate::source::chars_eq(w, "VVector") {
        Class::VVector
    } else if crate::source::chars_eq(w, "IsFixedV") {
        Class::IsFixedV
    } else if crate::source::chars_eq(w, "IsCIDFont") {
        Class::IsCIDFont
    } else if crate::source::chars_eq(w, "CapHeight") {
        Class::CapHeight
    } else if crate::source::chars_eq(w, "XHeight") {
        Class::XHeight
    } else if crate::source::chars_eq(w, "Ascender") {
        Class::Ascender
    } else if crate::source::chars_eq(w, "Descender") {
        Class::Descender
    } else if crate::source::chars_eq(w, "StdHW") {
        Class::StdHW
    } else if crate::source::chars_eq(w, "StdVW") {
        Class::StdVW
    } else if crate::source::chars_eq(w, "WeightVector") {
        Class::WeightVector
    } else if crate::source::chars_eq(w, "StartDirection") {
        Class::StartDirection
    } else if crate::source::chars_eq(w, "EndDirection") {
        Class::EndDirection
    } else if crate::source::chars_eq(w, "UnderlinePosition") {
        Class::UnderlinePosition
    } else if crate::source::chars_eq(w, "UnderlineThickness") {
        Class::UnderlineThickness
    } else if crate::source::chars_eq(w, "ItalicAngle") {
        Class::ItalicAngle
    } else if crate::source::chars_eq(w, "CharWidth") {
        Class::CharWidth
    } else if crate::source::chars_eq(w, "IsFixedPitch") {
        Class::IsFixedPitch
    } else if crate::source::chars_eq(w, "StartCharMetrics") {
        Class::StartCharMetrics
    } else if crate::source::chars_eq(w, "EndCharMetrics") {
        Class::EndCharMetrics
    } else if crate::source::chars_eq(w, "C") {
        Class::C
    } else if crate::source::chars_eq(w, "WX") {
        Class::WX
    } else if crate::source::chars_eq(w, "N") {
        Class::N
    } else if crate::source::chars_eq(w, "B") {
        Class::B
    } else if crate::source::chars_eq(w, "StartKernData") {
        Class::StartKernData
    } else if crate::source::chars_eq(w, "EndKernData") {
        Class::EndKernData
    } else if crate::source::chars_eq(w, "StartKernPairs") {
        Class::StartKernPairs
    } else if crate::source::chars_eq(w, "EndKernPairs") {
        Class::EndKernPairs
    } else if crate::source::chars_eq(w, "KPX") {
        Class::KPX
    } else {
        Class::InvalidKey
    }
}

} // verus!
