//! Fonts read from OpenType files when they are loaded.

use crate::otf::cmap::spec_lookup;
use crate::otf::hmtx::spec_hmtx_lookup;
use crate::otf::kern::spec_kern_lookup;
use crate::otf::region::{i16_or_zero, u16_or_zero};
use crate::otf::{self, FontFile, spec_font_error};
use vstd::prelude::*;

verus! {

/// Font error type.
#[derive(Copy, Clone, Debug, PartialEq, Eq, Structural)]
pub enum Error {
    OTF(otf::Error),
}

impl From<otf::Error> for Error {
    fn from(error: otf::Error) -> (r: Self) {
        Error::OTF(error)
    }
}

impl vstd::std_specs::convert::FromSpecImpl<otf::Error> for Error {
    open spec fn obeys_from_spec() -> bool {
        true
    }

    open spec fn from_spec(error: otf::Error) -> Self {
        Error::OTF(error)
    }
}

/// A font, with the metrics that its file gives.
pub struct Font<'a> {
    file: FontFile<'a>,
    advance_width_max: u16,
    units_per_em: u16,
    line_height: i32,
}

/// `x`, or the largest `u32` where `x` is larger.
pub open spec fn clamp_u32(x: int) -> int {
    if x > u32::MAX {
        u32::MAX as int
    } else {
        x
    }
}

fn clamp(x: usize) -> (r: u32)
    ensures
        r == clamp_u32(x as int),
{
    if x > 0xffff_ffff {
        0xffff_ffff
    } else {
        x as u32
    }
}

impl<'a> Font<'a> {
    /// The font file.
    pub closed spec fn spec_file(&self) -> FontFile<'a> {
        self.file
    }

    /// Largest advance width, in font design units.
    pub closed spec fn spec_advance_width_max(&self) -> int {
        self.advance_width_max as int
    }

    /// Font design units per EM.
    pub closed spec fn spec_units_per_em(&self) -> int {
        self.units_per_em as int
    }

    /// Line height, in font design units.
    pub closed spec fn spec_line_height(&self) -> int {
        self.line_height as int
    }

    /// Reads a font from the bytes of an OpenType file, whatever its version
    /// number, with kerning from the subtable whose coverage is exactly the
    /// horizontal flag.
    pub fn try_from(bytes: &'a [u8]) -> (r: Result<Self, Error>)
        ensures
            match spec_font_error(bytes@, false) {
                Some(e) => r == Err::<Self, Error>(Error::OTF(e)),
                None => r matches Ok(f) && {
                    let hhea = f.spec_file().spec_hhea_table().spec_region();
                    &&& f.spec_file().spec_reads(bytes@, true)
                    &&& f.spec_advance_width_max() == u16_or_zero(hhea, 10)
                    &&& f.spec_units_per_em() == u16_or_zero(
                        f.spec_file().spec_head_table().spec_region(),
                        18,
                    )
                    &&& f.spec_line_height() == i16_or_zero(hhea, 4) - i16_or_zero(hhea, 6)
                        + i16_or_zero(hhea, 8)
                },
            },
    {
        let file = match FontFile::parse(bytes, false, true) {
            Ok(file) => file,
            Err(e) => {
                return Err(Error::OTF(e));
            },
        };
        let advance_width_max = file.hhea().advance_width_max();
        let units_per_em = file.head().units_per_em();
        let line_height = file.hhea().ascender() as i32 - file.hhea().descender() as i32
            + file.hhea().line_gap() as i32;
        Ok(Font { file, advance_width_max, units_per_em, line_height })
    }

    /// The font file.
    pub fn file(&self) -> (r: &FontFile<'a>)
        ensures
            *r == self.spec_file(),
    {
        &self.file
    }

    /// Font design units per EM.
    pub fn units_per_em(&self) -> (r: u16)
        ensures
            r == self.spec_units_per_em(),
    {
        self.units_per_em
    }

    /// Line height, in font design units: ascender less descender plus line
    /// gap.
    pub fn line_height_units(&self) -> (r: i32)
        ensures
            r == self.spec_line_height(),
    {
        self.line_height
    }

    /// Glyph index of `ch`, by the character to glyph mapping table.
    pub fn glyph_index_of(&self, ch: char) -> (r: usize)
        ensures
            r == spec_lookup(
                self.spec_file().spec_cmap_table().spec_subtable(),
                self.spec_file().spec_cmap_table().spec_format(),
                ch as int,
            ),
    {
        self.file.cmap().lookup(ch)
    }

    /// Advance width of `ch`, in font design units: that of its glyph, or the
    /// largest of all where the metrics table has none for it.
    pub fn advance_width_units_of(&self, ch: char) -> (r: u16)
        ensures
            ({
                let hmtx = self.spec_file().spec_hmtx_table();
                let gi = spec_lookup(
                    self.spec_file().spec_cmap_table().spec_subtable(),
                    self.spec_file().spec_cmap_table().spec_format(),
                    ch as int,
                );
                match spec_hmtx_lookup(
                    hmtx.spec_region(),
                    hmtx.spec_num_glyphs(),
                    hmtx.spec_number_of_h_metrics(),
                    clamp_u32(gi),
                ) {
                    Some((aw, _)) => r == aw,
                    None => r == self.spec_advance_width_max(),
                }
            }),
    {
        let gi = self.glyph_index_of(ch);
        match self.file.hmtx().lookup(clamp(gi)) {
            Some(metrics) => metrics.advance_width,
            None => self.advance_width_max,
        }
    }

    /// Kerning, in font design units, between `a` and the `b` that follows
    /// it; zero where the font has no kerning table.
    pub fn kerning_units_between(&self, a: char, b: char) -> (r: i16)
        ensures
            ({
                let cmap = self.spec_file().spec_cmap_table();
                match self.spec_file().spec_kern_table() {
                    None => r == 0,
                    Some(k) => r == spec_kern_lookup(
                        k.spec_subtable(),
                        clamp_u32(spec_lookup(cmap.spec_subtable(), cmap.spec_format(), a as int)),
                        clamp_u32(spec_lookup(cmap.spec_subtable(), cmap.spec_format(), b as int)),
                    ),
                }
            }),
    {
        match self.file.kern() {
            None => 0,
            Some(kern) => {
                let ga = self.glyph_index_of(a);
                let gb = self.glyph_index_of(b);
                kern.lookup(clamp(ga), clamp(gb))
            },
        }
    }
}

} // verus!
