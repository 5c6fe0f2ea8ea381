use super::region::{Region, be_u16, be_u32, fits, i16_or_zero, i64_or_zero, u16_or_zero, u32_or_zero};
use vstd::prelude::*;

verus! {

const MAC_STYLE_FLAG_BOLD: u16 = 1;

const MAC_STYLE_FLAG_ITALIC: u16 = 2;

/// Whether `head` is an acceptable font header table.
pub open spec fn spec_head_valid(head: Seq<u8>) -> bool {
    &&& fits(head.len() as int, 0, 2) && be_u16(head, 0) == 1
    &&& fits(head.len() as int, 2, 2) && be_u16(head, 2) == 0
    &&& fits(head.len() as int, 12, 4) && be_u32(head, 12) == 0x5F0F3CF5
    &&& head.len() >= 54
}

/// Font-wide information, such as units per EM and bounding box.
pub struct FontHeaderTable<'a> {
    region: Region<'a>,
}

impl<'a> FontHeaderTable<'a> {
    /// Bytes of the table.
    pub closed spec fn spec_region(&self) -> Seq<u8> {
        self.region@
    }

    /// Accepts `head` if it has version 1.0, the right magic number and a
    /// length of at least 54 bytes.
    pub fn try_new(head: Region<'a>) -> (r: Option<Self>)
        ensures
            r is Some <==> spec_head_valid(head@),
            r matches Some(t) ==> t.spec_region() == head@,
    {
        let major_version = head.read_u16_at(0)?;
        if major_version != 1 {
            return None;
        }
        let minor_version = head.read_u16_at(2)?;
        if minor_version != 0 {
            return None;
        }
        let magic_number = head.read_u32_at(12)?;
        if magic_number != 0x5F0F3CF5 {
            return None;
        }
        if head.len() < 54 {
            return None;
        }
        Some(FontHeaderTable { region: head })
    }

    /// Major version number of the font header table — set to 1.
    pub fn major_version(&self) -> (r: u16)
        ensures
            r == u16_or_zero(self.spec_region(), 0),
    {
        self.region.u16_or_zero_at(0)
    }

    /// Minor version number of the font header table — set to 0.
    pub fn minor_version(&self) -> (r: u16)
        ensures
            r == u16_or_zero(self.spec_region(), 2),
    {
        self.region.u16_or_zero_at(2)
    }

    /// Set by font manufacturer.
    pub fn font_revision(&self) -> (r: u32)
        ensures
            r == u32_or_zero(self.spec_region(), 4),
    {
        self.region.u32_or_zero_at(4)
    }

    /// Checksum adjustment: the whole font summed as `u32` values, subtracted from `0xB1B0AFBA`.
    pub fn check_sum_adjustment(&self) -> (r: u32)
        ensures
            r == u32_or_zero(self.spec_region(), 8),
    {
        self.region.u32_or_zero_at(8)
    }

    /// Set to 0x5F0F3CF5.
    pub fn magic_number(&self) -> (r: u32)
        ensures
            r == u32_or_zero(self.spec_region(), 12),
    {
        self.region.u32_or_zero_at(12)
    }

    /// Bit flags.
    pub fn flags(&self) -> (r: u16)
        ensures
            r == u16_or_zero(self.spec_region(), 16),
    {
        self.region.u16_or_zero_at(16)
    }

    /// Set to a value from 16 to 16384.
    pub fn units_per_em(&self) -> (r: u16)
        ensures
            r == u16_or_zero(self.spec_region(), 18),
    {
        self.region.u16_or_zero_at(18)
    }

    /// Number of seconds since 12:00 midnight that started January 1st 1904 in GMT/UTC time zone.
    pub fn created(&self) -> (r: i64)
        ensures
            r == i64_or_zero(self.spec_region(), 20),
    {
        self.region.i64_or_zero_at(20)
    }

    /// Number of seconds since 12:00 midnight that started January 1st 1904 in GMT/UTC time zone.
    pub fn modified(&self) -> (r: i64)
        ensures
            r == i64_or_zero(self.spec_region(), 28),
    {
        self.region.i64_or_zero_at(28)
    }

    /// For all glyph bounding boxes.
    pub fn x_min(&self) -> (r: u16)
        ensures
            r == u16_or_zero(self.spec_region(), 36),
    {
        self.region.u16_or_zero_at(36)
    }

    /// For all glyph bounding boxes.
    pub fn y_min(&self) -> (r: u16)
        ensures
            r == u16_or_zero(self.spec_region(), 38),
    {
        self.region.u16_or_zero_at(38)
    }

    /// For all glyph bounding boxes.
    pub fn x_max(&self) -> (r: u16)
        ensures
            r == u16_or_zero(self.spec_region(), 40),
    {
        self.region.u16_or_zero_at(40)
    }

    /// For all glyph bounding boxes.
    pub fn y_max(&self) -> (r: u16)
        ensures
            r == u16_or_zero(self.spec_region(), 42),
    {
        self.region.u16_or_zero_at(42)
    }

    /// Mac style bit flags.
    pub fn mac_style(&self) -> (r: u16)
        ensures
            r == u16_or_zero(self.spec_region(), 44),
    {
        self.region.u16_or_zero_at(44)
    }

    /// Whether Mac style BOLD flag is set.
    pub fn mac_style_bold(&self) -> (r: bool)
        ensures
            r == (u16_or_zero(self.spec_region(), 44) % 2 == 1),
    {
        let style = self.mac_style();
        assert(style & MAC_STYLE_FLAG_BOLD != 0 <==> style % 2 == 1) by (bit_vector);
        style & MAC_STYLE_FLAG_BOLD != 0
    }

    /// Whether Mac style ITALIC flag is set.
    pub fn mac_style_italic(&self) -> (r: bool)
        ensures
            r == ((u16_or_zero(self.spec_region(), 44) / 2) % 2 == 1),
    {
        let style = self.mac_style();
        assert(style & MAC_STYLE_FLAG_ITALIC != 0 <==> (style / 2) % 2 == 1) by (bit_vector);
        style & MAC_STYLE_FLAG_ITALIC != 0
    }

    /// Smallest readable size in pixels.
    pub fn lowest_rec_ppem(&self) -> (r: u16)
        ensures
            r == u16_or_zero(self.spec_region(), 46),
    {
        self.region.u16_or_zero_at(46)
    }

    /// 0 for short offsets (Offset16), 1 for long (Offset32).
    pub fn index_to_loc_format(&self) -> (r: i16)
        ensures
            r == i16_or_zero(self.spec_region(), 50),
    {
        self.region.i16_or_zero_at(50)
    }

    /// 0 for current format.
    pub fn glyph_data_format(&self) -> (r: i16)
        ensures
            r == i16_or_zero(self.spec_region(), 52),
    {
        self.region.i16_or_zero_at(52)
    }
}

} // verus!
