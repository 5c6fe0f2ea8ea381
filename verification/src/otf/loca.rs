use super::region::{Region, be_u16, be_u32, fits};
use std::ops::Range;
use vstd::prelude::*;

verus! {

/// Width of the offsets stored in an index-to-location table.
#[derive(Copy, Clone, PartialEq, Eq, Structural)]
pub enum Format {
    Short,
    Long,
}

impl Format {
    /// Format 0 stores short offsets, format 1 long ones.
    pub fn try_new(format: i16) -> (r: Option<Format>)
        ensures
            format == 0 ==> r == Some(Format::Short),
            format == 1 ==> r == Some(Format::Long),
            format != 0 && format != 1 ==> r is None,
    {
        match format {
            0 => Some(Format::Short),
            1 => Some(Format::Long),
            _ => None,
        }
    }
}

/// Byte range, within the `glyf` table, of glyph `index` according to a
/// `loca` table `s` of the given `format`.
pub open spec fn spec_loca_lookup(s: Seq<u8>, format: Format, index: int) -> Option<(int, int)> {
    match format {
        Format::Short => if fits(s.len() as int, index * 2, 4) {
            Some((be_u16(s, index * 2) * 2, be_u16(s, index * 2 + 2) * 2))
        } else {
            None
        },
        Format::Long => if fits(s.len() as int, index * 4, 8) {
            Some((be_u32(s, index * 4), be_u32(s, index * 4 + 4)))
        } else {
            None
        },
    }
}

/// This table stores offsets to the locations of the glyphs in the font,
/// relative to the beginning of the `glyf` table.
pub struct IndexToLocation<'a> {
    region: Region<'a>,
    format: Format,
}

impl<'a> IndexToLocation<'a> {
    /// Bytes of the table.
    pub closed spec fn spec_region(&self) -> Seq<u8> {
        self.region@
    }

    /// Offset width of the table.
    pub closed spec fn spec_format(&self) -> Format {
        self.format
    }

    /// Creates a table of the given `format` code, if it is known.
    pub fn try_new(loca: Region<'a>, format: i16) -> (r: Option<Self>)
        ensures
            r is Some <==> (format == 0 || format == 1),
            r matches Some(t) ==> t.spec_region() == loca@ && t.spec_format() == if format == 0 {
                Format::Short
            } else {
                Format::Long
            },
    {
        Some(IndexToLocation { region: loca, format: Format::try_new(format)? })
    }

    /// Looks up range of bytes used by identified glyph in the `glyf` table.
    pub fn lookup(&self, glyph_index: u32) -> (r: Option<Range<usize>>)
        ensures
            match spec_loca_lookup(self.spec_region(), self.spec_format(), glyph_index as int) {
                Some((start, end)) => r matches Some(range) && range.start == start && range.end
                    == end,
                None => r is None,
            },
    {
        self.lookup_index(glyph_index as usize)
    }

    /// Same as `lookup`, for an index of any width.
    pub(crate) fn lookup_index(&self, glyph_index: usize) -> (r: Option<Range<usize>>)
        ensures
            match spec_loca_lookup(self.spec_region(), self.spec_format(), glyph_index as int) {
                Some((start, end)) => r matches Some(range) && range.start == start && range.end
                    == end,
                None => r is None,
            },
    {
        let _len = self.region.len();
        match self.format {
            Format::Short => {
                let offset = glyph_index.checked_mul(2)?;
                let (x1, x2) = self.region.read_2x_u16_at(offset)?;
                Some((x1 as usize * 2)..(x2 as usize * 2))
            },
            Format::Long => {
                let offset = glyph_index.checked_mul(4)?;
                let (x1, x2) = self.region.read_2x_u32_at(offset)?;
                Some((x1 as usize)..(x2 as usize))
            },
        }
    }
}

} // verus!
