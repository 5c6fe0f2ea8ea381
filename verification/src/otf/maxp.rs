use super::region::{Region, be_u16, be_u32, fits, i16_or_zero, i64_or_zero, u16_or_zero, u32_or_zero};
use vstd::prelude::*;

verus! {

/// Whether `maxp` is an acceptable maximum profile table.
pub open spec fn spec_maxp_valid(maxp: Seq<u8>) -> bool {
    &&& fits(maxp.len() as int, 0, 4)
    &&& (be_u32(maxp, 0) == 0x00005000 && maxp.len() >= 6) || (be_u32(maxp, 0) == 0x00010000
        && maxp.len() >= 32)
}

/// This table establishes the memory requirements for this font.
pub struct MaximumProfileTable<'a> {
    region: Region<'a>,
}

impl<'a> MaximumProfileTable<'a> {
    /// Bytes of the table.
    pub closed spec fn spec_region(&self) -> Seq<u8> {
        self.region@
    }

    /// Accepts `maxp` if it is of version 0.5 with at least 6 bytes, or of
    /// version 1.0 with at least 32 bytes.
    pub fn try_new(maxp: Region<'a>) -> (r: Option<Self>)
        ensures
            r is Some <==> spec_maxp_valid(maxp@),
            r matches Some(t) ==> t.spec_region() == maxp@,
    {
        let version = maxp.read_u32_at(0)?;
        if version == 0x00005000 {
            if maxp.len() < 6 {
                return None;
            }
        } else if version == 0x00010000 {
            if maxp.len() < 32 {
                return None;
            }
        } else {
            return None;
        }
        Some(MaximumProfileTable { region: maxp })
    }

    /// Profile table version, which must be either `0x00005000` or `0x00010000`.
    pub fn version(&self) -> (r: u32)
        ensures
            r == u32_or_zero(self.spec_region(), 0),
    {
        self.region.u32_or_zero_at(0)
    }

    /// The number of glyphs in the font.
    pub fn num_glyphs(&self) -> (r: u16)
        ensures
            r == u16_or_zero(self.spec_region(), 4),
    {
        self.region.u16_or_zero_at(4)
    }

    /// Maximum points in a non-composite glyph.
    pub fn max_points(&self) -> (r: u16)
        ensures
            r == u16_or_zero(self.spec_region(), 6),
    {
        self.region.u16_or_zero_at(6)
    }

    /// Maximum contours in a non-composite glyph.
    pub fn max_contours(&self) -> (r: u16)
        ensures
            r == u16_or_zero(self.spec_region(), 8),
    {
        self.region.u16_or_zero_at(8)
    }

    /// Maximum points in a composite glyph.
    pub fn max_composite_points(&self) -> (r: u16)
        ensures
            r == u16_or_zero(self.spec_region(), 10),
    {
        self.region.u16_or_zero_at(10)
    }

    /// Maximum contours in a composite glyph.
    pub fn max_composite_contours(&self) -> (r: u16)
        ensures
            r == u16_or_zero(self.spec_region(), 12),
    {
        self.region.u16_or_zero_at(12)
    }

    /// 1 if instructions do not use the twilight zone (Z0), or 2 if they do.
    pub fn max_zones(&self) -> (r: u16)
        ensures
            r == u16_or_zero(self.spec_region(), 14),
    {
        self.region.u16_or_zero_at(14)
    }

    /// Maximum points used in Z0.
    pub fn max_twilight_points(&self) -> (r: u16)
        ensures
            r == u16_or_zero(self.spec_region(), 16),
    {
        self.region.u16_or_zero_at(16)
    }

    /// Number of Storage Area locations.
    pub fn max_storage(&self) -> (r: u16)
        ensures
            r == u16_or_zero(self.spec_region(), 18),
    {
        self.region.u16_or_zero_at(18)
    }

    /// Number of FDEFs, equal to the highest function number + 1.
    pub fn max_function_defs(&self) -> (r: u16)
        ensures
            r == u16_or_zero(self.spec_region(), 20),
    {
        self.region.u16_or_zero_at(20)
    }

    /// Number of IDEFs.
    pub fn max_instruction_defs(&self) -> (r: u16)
        ensures
            r == u16_or_zero(self.spec_region(), 22),
    {
        self.region.u16_or_zero_at(22)
    }

    /// Maximum stack depth across font program, CVT program and all glyph instructions.
    pub fn max_stack_elements(&self) -> (r: u16)
        ensures
            r == u16_or_zero(self.spec_region(), 24),
    {
        self.region.u16_or_zero_at(24)
    }

    /// Maximum byte count for glyph instructions.
    pub fn max_size_of_instructions(&self) -> (r: u16)
        ensures
            r == u16_or_zero(self.spec_region(), 26),
    {
        self.region.u16_or_zero_at(26)
    }

    /// Maximum number of components referenced at top level for any composite glyph.
    pub fn max_component_elements(&self) -> (r: u16)
        ensures
            r == u16_or_zero(self.spec_region(), 28),
    {
        self.region.u16_or_zero_at(28)
    }

    /// Maximum levels of recursion; 1 for simple components.
    pub fn max_component_depth(&self) -> (r: u16)
        ensures
            r == u16_or_zero(self.spec_region(), 30),
    {
        self.region.u16_or_zero_at(30)
    }
}

} // verus!
