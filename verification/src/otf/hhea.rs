use super::region::{Region, be_u16, be_u32, fits, i16_or_zero, i64_or_zero, u16_or_zero, u32_or_zero};
use vstd::prelude::*;

verus! {

/// Whether `hhea` is an acceptable horizontal header table.
pub open spec fn spec_hhea_valid(hhea: Seq<u8>) -> bool {
    &&& fits(hhea.len() as int, 0, 2) && be_u16(hhea, 0) >= 1
    &&& hhea.len() >= 36
}

/// Table containing metrics for horizontal text layout shared by all glyphs.
pub struct HorizontalHeaderTable<'a> {
    region: Region<'a>,
}

impl<'a> HorizontalHeaderTable<'a> {
    /// Bytes of the table.
    pub closed spec fn spec_region(&self) -> Seq<u8> {
        self.region@
    }

    /// Accepts `hhea` if its major version is at least 1 and it holds at
    /// least 36 bytes.
    pub fn try_new(hhea: Region<'a>) -> (r: Option<Self>)
        ensures
            r is Some <==> spec_hhea_valid(hhea@),
            r matches Some(t) ==> t.spec_region() == hhea@,
    {
        let major_version = hhea.read_u16_at(0)?;
        if major_version < 1 {
            return None;
        }
        if hhea.len() < 36 {
            return None;
        }
        Some(HorizontalHeaderTable { region: hhea })
    }

    /// Typographic ascent (distance from the baseline of highest ascender).
    pub fn ascender(&self) -> (r: i16)
        ensures
            r == i16_or_zero(self.spec_region(), 4),
    {
        self.region.i16_or_zero_at(4)
    }

    /// Typographic descent (distance from baseline of lowest descender).
    pub fn descender(&self) -> (r: i16)
        ensures
            r == i16_or_zero(self.spec_region(), 6),
    {
        self.region.i16_or_zero_at(6)
    }

    /// Typographic line gap.
    pub fn line_gap(&self) -> (r: i16)
        ensures
            r == i16_or_zero(self.spec_region(), 8),
    {
        self.region.i16_or_zero_at(8)
    }

    /// Maximum advance width value in 'hmtx' table.
    pub fn advance_width_max(&self) -> (r: u16)
        ensures
            r == u16_or_zero(self.spec_region(), 10),
    {
        self.region.u16_or_zero_at(10)
    }

    /// Minimum left sidebearing value in 'hmtx' table.
    pub fn min_lsb(&self) -> (r: i16)
        ensures
            r == i16_or_zero(self.spec_region(), 12),
    {
        self.region.i16_or_zero_at(12)
    }

    /// Minimum right sidebearing value; calculated as Min(aw - lsb - (xMax - xMin)).
    pub fn min_rsb(&self) -> (r: i16)
        ensures
            r == i16_or_zero(self.spec_region(), 14),
    {
        self.region.i16_or_zero_at(14)
    }

    /// Max(lsb + (xMax - xMin)).
    pub fn x_max_extent(&self) -> (r: i16)
        ensures
            r == i16_or_zero(self.spec_region(), 16),
    {
        self.region.i16_or_zero_at(16)
    }

    /// Used to calculate the slope of the cursor (rise/run); 1 for vertical.
    pub fn caret_slope_rise(&self) -> (r: i16)
        ensures
            r == i16_or_zero(self.spec_region(), 18),
    {
        self.region.i16_or_zero_at(18)
    }

    /// 0 for vertical.
    pub fn caret_slope_run(&self) -> (r: i16)
        ensures
            r == i16_or_zero(self.spec_region(), 20),
    {
        self.region.i16_or_zero_at(20)
    }

    /// The amount by which a slanted highlight on a glyph needs to be shifted.
    pub fn caret_offset(&self) -> (r: i16)
        ensures
            r == i16_or_zero(self.spec_region(), 22),
    {
        self.region.i16_or_zero_at(22)
    }

    /// Number of hMetric entries in 'hmtx' table.
    pub fn number_of_h_metrics(&self) -> (r: u16)
        ensures
            r == u16_or_zero(self.spec_region(), 34),
    {
        self.region.u16_or_zero_at(34)
    }
}

} // verus!
