use super::region::{Region, be_i16, be_u16, fits};
use vstd::prelude::*;

verus! {

/// Byte offsets of the advance width and left side bearing of glyph `index`
/// in an `hmtx` table holding `n_metrics` full metric records for a font of
/// `num_glyphs` glyphs.
pub open spec fn spec_metric_offsets(num_glyphs: int, n_metrics: int, index: int) -> Option<(int, int)> {
    if index < n_metrics {
        Some((4 * index, 4 * index + 2))
    } else if index < num_glyphs && n_metrics > 0 {
        Some((4 * (n_metrics - 1), 4 * n_metrics + 2 * (index - n_metrics)))
    } else {
        None
    }
}

/// Horizontal metrics of glyph `index` in table `s`.
pub open spec fn spec_hmtx_lookup(s: Seq<u8>, num_glyphs: int, n_metrics: int, index: int) -> Option<
    (int, int),
> {
    if index > 65535 {
        None
    } else {
        match spec_metric_offsets(num_glyphs, n_metrics, index) {
            Some((aw, lsb)) => if fits(s.len() as int, aw, 2) && fits(s.len() as int, lsb, 2) {
                Some((be_u16(s, aw), be_i16(s, lsb)))
            } else {
                None
            },
            None => None,
        }
    }
}

/// Table containing metrics for horizontal text layout for individual glyphs.
pub struct HorizontalMetricsTable<'a> {
    num_glyphs: u16,
    number_of_h_metrics: u16,
    region: Region<'a>,
}

/// Horizontal metrics of some glyph.
pub struct HorizontalMetrics {
    /// Advance width, in font design units.
    pub advance_width: u16,
    /// Glyph left side bearing, in font design units.
    pub lsb: i16,
}

impl<'a> HorizontalMetricsTable<'a> {
    /// Bytes of the table.
    pub closed spec fn spec_region(&self) -> Seq<u8> {
        self.region@
    }

    /// Number of glyphs in the font.
    pub closed spec fn spec_num_glyphs(&self) -> int {
        self.num_glyphs as int
    }

    /// Number of full metric records in the table.
    pub closed spec fn spec_number_of_h_metrics(&self) -> int {
        self.number_of_h_metrics as int
    }

    /// Creates a table, unless there are more metric records than glyphs.
    pub fn try_new(num_glyphs: u16, number_of_h_metrics: u16, hmtx: Region<'a>) -> (r: Option<
        Self,
    >)
        ensures
            r is Some <==> number_of_h_metrics <= num_glyphs,
            r matches Some(t) ==> t.spec_region() == hmtx@ && t.spec_num_glyphs() == num_glyphs
                && t.spec_number_of_h_metrics() == number_of_h_metrics,
    {
        if number_of_h_metrics > num_glyphs {
            return None;
        }
        Some(HorizontalMetricsTable { num_glyphs, number_of_h_metrics, region: hmtx })
    }

    /// Get horizontal metrics for glyph at given `index`.
    pub fn lookup(&self, index: u32) -> (r: Option<HorizontalMetrics>)
        ensures
            match spec_hmtx_lookup(
                self.spec_region(),
                self.spec_num_glyphs(),
                self.spec_number_of_h_metrics(),
                index as int,
            ) {
                Some((aw, lsb)) => r matches Some(m) && m.advance_width == aw && m.lsb == lsb,
                None => r is None,
            },
    {
        if index > 65535 {
            return None;
        }
        let index = index as usize;
        let n = self.number_of_h_metrics as usize;
        let (aw_offset, lsb_offset) = if index < n {
            (4 * index, 4 * index + 2)
        } else if index < self.num_glyphs as usize && n > 0 {
            (4 * (n - 1), 4 * n + 2 * (index - n))
        } else {
            return None;
        };
        let advance_width = self.region.read_u16_at(aw_offset)?;
        let lsb = self.region.read_i16_at(lsb_offset)?;
        Some(HorizontalMetrics { advance_width, lsb })
    }
}

} // verus!
