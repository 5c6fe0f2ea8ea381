//! Fonts whose metrics were read ahead of time, and the searches over their
//! sorted tables.

pub mod loaded;

use vstd::prelude::*;

verus! {

/// Identifies one particular font glyph.
pub type GlyphIndex = u16;

/// A font whose metrics were read ahead of time, in font design units.
pub struct Font<'a> {
    pub name: &'a str,
    pub style: FontStyle,
    pub weight: FontWeight,
    pub ascender: i16,
    pub descender: i16,
    pub line_gap: i16,
    /// Number of font size units per EM, where the canonical size of a glyph
    /// is exactly 1x1 EM.
    pub units_per_em: u16,
    /// The characters past ASCII that have glyphs, in increasing order; the
    /// glyph of the one at index `i` is `127 + i`.
    pub glyph_indexes_nonascii: &'a [u16],
    /// Advance width of each glyph.
    pub advance_widths: &'a [u16],
    /// For each glyph, the glyphs that follow it with a kerning, in
    /// increasing order, and that kerning.
    pub kernings: Option<&'a [&'a [(GlyphIndex, i16)]]>,
    /// Raw font source file.
    pub source: &'a [u8],
    /// File name of raw font source file.
    pub source_name: &'a str,
}

/// Whether `a` is in increasing order, equal neighbours allowed.
pub open spec fn non_decreasing(a: Seq<u16>) -> bool {
    forall|i: int, j: int| 0 <= i <= j < a.len() ==> a[i] <= a[j]
}

/// Whether the first components of `a` are in strictly increasing order.
pub open spec fn pairs_increasing(a: Seq<(u16, i16)>) -> bool {
    forall|i: int, j: int| 0 <= i < j < a.len() ==> a[i].0 < a[j].0
}

/// Whether the first components of `a` are in increasing order, equal
/// neighbours allowed.
pub open spec fn pairs_non_decreasing(a: Seq<(u16, i16)>) -> bool {
    forall|i: int, j: int| 0 <= i <= j < a.len() ==> a[i].0 <= a[j].0
}

/// `<[u16]>::binary_search`: on a slice in increasing order it finds an
/// index holding `x`, if any does. Its documentation leaves the result on
/// other slices unspecified, and so does this contract.
#[verifier::external_body]
fn binary_search(a: &[u16], x: u16) -> (r: Option<usize>)
    ensures
        non_decreasing(a@) ==> match r {
            Some(i) => i < a@.len() && a@[i as int] == x,
            None => !a@.contains(x),
        },
{
    match a.binary_search(&x) {
        Ok(i) => Some(i),
        Err(_) => None,
    }
}

/// `<[(u16, i16)]>::binary_search_by_key` on the first components: on a
/// slice in increasing order of them it finds an index whose pair starts
/// with `x`, if any does. Its documentation leaves the result on other
/// slices unspecified, and so does this contract.
#[verifier::external_body]
fn binary_search_by_first(a: &[(u16, i16)], x: u16) -> (r: Option<usize>)
    ensures
        pairs_non_decreasing(a@) ==> match r {
            Some(i) => i < a@.len() && a@[i as int].0 == x,
            None => forall|k: int| 0 <= k < a@.len() ==> a@[k].0 != x,
        },
{
    match a.binary_search_by_key(&x, |item| item.0) {
        Ok(i) => Some(i),
        Err(_) => None,
    }
}

impl<'a> Font<'a> {
    /// Acquires the glyph index of `ch`: ASCII characters but the last are
    /// their own glyphs; others are found in the sorted character list, and
    /// are glyph zero where they are missing.
    pub fn glyph_index_of(&self, ch: char) -> (r: GlyphIndex)
        requires
            self.glyph_indexes_nonascii@.len() <= 65409,
        ensures
            (ch as u32) < 127 ==> r == ch as u32,
            (ch as u32) > 65535 ==> r == 0,
            127 <= (ch as u32) <= 65535 && non_decreasing(self.glyph_indexes_nonascii@) ==> {
                &&& r == 0 || (127 <= r && self.glyph_indexes_nonascii@[r - 127] == ch as u16)
                &&& r == 0 <==> !self.glyph_indexes_nonascii@.contains(ch as u16)
            },
    {
        let c = ch as u32;
        if c < 127 {
            return c as u16;
        }
        if c > 65535 {
            return 0;
        }
        match binary_search(self.glyph_indexes_nonascii, c as u16) {
            Some(index) => {
                if index > 65408 {
                    // Only on a list out of order, where no index is promised.
                    return 0;
                }
                index as u16 + 127
            },
            None => 0,
        }
    }

    /// Advance width, in font design units, of glyph `gi`.
    pub fn advance_width_units_of(&self, gi: GlyphIndex) -> (r: u16)
        requires
            (gi as int) < self.advance_widths@.len(),
        ensures
            r == self.advance_widths@[gi as int],
    {
        self.advance_widths[gi as usize]
    }

    /// Kerning, in font design units, between glyph `a` and the glyph `b`
    /// that follows it; zero where the font has none for them.
    pub fn kerning_units_between(&self, a: GlyphIndex, b: GlyphIndex) -> (r: i16)
        ensures
            match self.kernings {
                None => r == 0,
                Some(k) => if (a as int) < k@.len() {
                    let list = k@[a as int]@;
                    &&& pairs_non_decreasing(list) ==> (r == 0 || exists|i: int|
                        0 <= i < list.len() && list[i].0 == b && list[i].1 == r)
                    &&& pairs_non_decreasing(list) && (forall|i: int|
                        0 <= i < list.len() ==> list[i].0 != b) ==> r == 0
                    &&& pairs_increasing(list) ==> forall|i: int|
                        0 <= i < list.len() && list[i].0 == b ==> r == list[i].1
                } else {
                    r == 0
                },
            },
    {
        match self.kernings {
            Some(kernings) => {
                if a as usize >= kernings.len() {
                    return 0;
                }
                let sublist = kernings[a as usize];
                match binary_search_by_first(sublist, b) {
                    Some(index) => {
                        if index >= sublist.len() {
                            // Only on a list out of order, where no index is promised.
                            return 0;
                        }
                        proof {
                            let list = sublist@;
                            if pairs_increasing(list) {
                                assert(pairs_non_decreasing(list));
                                assert forall|i: int| 0 <= i < list.len() && list[i].0 == b implies i
                                    == index by {
                                    if i < index {
                                        assert(list[i].0 < list[index as int].0);
                                    } else if i > index {
                                        assert(list[index as int].0 < list[i].0);
                                    }
                                }
                            }
                        }
                        sublist[index].1
                    },
                    None => 0,
                }
            },
            None => 0,
        }
    }

    /// Line height in font design units: ascender less descender plus line
    /// gap.
    pub fn line_height_units(&self) -> (r: i16)
        requires
            -32768 <= self.ascender - self.descender <= 32767,
            -32768 <= self.ascender - self.descender + self.line_gap <= 32767,
        ensures
            r == self.ascender - self.descender + self.line_gap,
    {
        self.ascender - self.descender + self.line_gap
    }
}

/// Style of a font.
#[derive(Copy, Clone, Debug, Eq, PartialEq, Structural)]
pub enum FontStyle {
    Normal,
    Italic,
}

impl FontStyle {
    /// The style as written in a style sheet.
    pub fn as_str(&self) -> (r: &'static str)
        ensures
            r@ == (match *self {
                FontStyle::Normal => "normal"@,
                FontStyle::Italic => "italic"@,
            }),
    {
        match *self {
            FontStyle::Normal => "normal",
            FontStyle::Italic => "italic",
        }
    }
}

/// Weight of a font.
#[derive(Copy, Clone, Debug, Eq, PartialEq, Structural)]
pub enum FontWeight {
    Normal,
    Bold,
}

impl FontWeight {
    /// The weight as written in a style sheet.
    pub fn as_str(&self) -> (r: &'static str)
        ensures
            r@ == (match *self {
                FontWeight::Normal => "normal"@,
                FontWeight::Bold => "bold"@,
            }),
    {
        match *self {
            FontWeight::Normal => "normal",
            FontWeight::Bold => "bold",
        }
    }
}

} // verus!
