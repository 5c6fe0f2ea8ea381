use super::region::{Region, be_u16, be_u32, fits, u8_or_zero, u16_or_zero, u32_or_zero};
use vstd::prelude::*;

verus! {

const PLATFORM_UNICODE: u16 = 0;

const PLATFORM_WINDOWS: u16 = 3;

const PLATFORM_WINDOWS_UNICODE_BMP: u16 = 1;

const PLATFORM_WINDOWS_UNICODE_FULL: u16 = 10;

/// Subtable formats understood by the mapping table.
#[derive(Copy, Clone, PartialEq, Eq, Structural)]
pub enum Format {
    Type0 { length: usize },
    Type4 { seg_count: usize, range_shift: usize },
    Type6 { first: usize, end: usize },
    Type12,
    Type13,
}

/// Whether the encoding record at `offset` selects a Unicode subtable; `None`
/// where the record cannot be read.
pub open spec fn spec_record_pick(cmap: Seq<u8>, offset: int) -> Option<bool> {
    if !fits(cmap.len() as int, offset, 2) {
        None
    } else {
        let platform = be_u16(cmap, offset);
        if platform == 0 {
            Some(true)
        } else if platform == 3 {
            if !fits(cmap.len() as int, offset + 2, 2) {
                None
            } else {
                let encoding = be_u16(cmap, offset + 2);
                Some(encoding == 1 || encoding == 10)
            }
        } else {
            Some(false)
        }
    }
}

/// Scans encoding records `i..count`: `None` if a record cannot be read before
/// a Unicode one is found, `Some(None)` if there is none, and otherwise the
/// subtable offset of the first one.
pub open spec fn spec_find_subtable(cmap: Seq<u8>, i: int, count: int) -> Option<Option<int>>
    decreases count - i,
{
    if i >= count {
        Some(None)
    } else {
        let offset = 4 + 8 * i;
        match spec_record_pick(cmap, offset) {
            None => None,
            Some(false) => spec_find_subtable(cmap, i + 1, count),
            Some(true) => if fits(cmap.len() as int, offset + 4, 4) {
                Some(Some(be_u32(cmap, offset + 4)))
            } else {
                None
            },
        }
    }
}

/// Format of the subtable `s`, as read from its header.
pub open spec fn spec_format(s: Seq<u8>) -> Option<Format> {
    if !fits(s.len() as int, 0, 2) {
        None
    } else {
        let f = be_u16(s, 0);
        if f == 0 {
            let length = if fits(s.len() as int, 2, 2) {
                let l = be_u16(s, 2);
                if l >= 6 {
                    l - 6
                } else {
                    l + 65530
                }
            } else {
                0
            };
            Some(Format::Type0 { length: length as usize })
        } else if f == 4 {
            Some(
                Format::Type4 {
                    seg_count: (u16_or_zero(s, 6) / 2) as usize,
                    range_shift: (u16_or_zero(s, 12) / 2) as usize,
                },
            )
        } else if f == 6 {
            Some(
                Format::Type6 {
                    first: u16_or_zero(s, 6) as usize,
                    end: (u16_or_zero(s, 6) + u16_or_zero(s, 8)) as usize,
                },
            )
        } else if f == 12 {
            Some(Format::Type12)
        } else if f == 13 {
            Some(Format::Type13)
        } else {
            None
        }
    }
}

/// The subtable and its format selected by a `cmap` table lying at
/// `cmap_start` within `file`, whose region ends at `file_end`.
pub open spec fn spec_cmap(file: Seq<u8>, file_end: int, cmap: Seq<u8>, cmap_start: int) -> Option<
    (Seq<u8>, Format),
> {
    if !fits(cmap.len() as int, 0, 2) || be_u16(cmap, 0) != 0 || !fits(cmap.len() as int, 2, 2) {
        None
    } else {
        match spec_find_subtable(cmap, 0, be_u16(cmap, 2)) {
            Some(Some(index)) => {
                let start = cmap_start + index;
                if start <= file_end && file_end <= isize::MAX && file_end <= file.len() {
                    let sub = file.subrange(start, file_end);
                    match spec_format(sub) {
                        Some(f) => Some((sub, f)),
                        None => None,
                    }
                } else {
                    None
                }
            },
            _ => None,
        }
    }
}

/// Binary search over the segment end codes of a format 4 subtable, giving
/// the final search position.
pub open spec fn spec_segment_search(
    s: Seq<u8>,
    ch: int,
    search: int,
    search_range: int,
    selector: int,
) -> int
    decreases selector,
{
    if selector <= 0 {
        search
    } else {
        let range = search_range / 2;
        let end = u16_or_zero(s, search + range * 2);
        let next = if ch > end {
            search + range * 2
        } else {
            search
        };
        spec_segment_search(s, ch, next, range, selector - 1)
    }
}

/// Binary search over the groups `low..high` of a format 12 or 13 subtable.
pub open spec fn spec_group_search(s: Seq<u8>, ch: int, low: int, high: int, type12: bool) -> int
    decreases high - low,
{
    if low >= high {
        0
    } else {
        let mid = (low + high) / 2;
        let group = 16 + mid * 12;
        let start_c = u32_or_zero(s, group);
        if ch < start_c {
            spec_group_search(s, ch, low, mid, type12)
        } else if ch > u32_or_zero(s, group + 4) {
            spec_group_search(s, ch, mid + 1, high, type12)
        } else {
            let start_glyph = u32_or_zero(s, group + 8);
            if type12 {
                let sum = start_glyph + ch - start_c;
                if sum > usize::MAX {
                    sum - (usize::MAX + 1)
                } else {
                    sum
                }
            } else {
                start_glyph
            }
        }
    }
}

/// Glyph index of code point `ch` in a format 4 subtable.
pub open spec fn spec_lookup_type4(s: Seq<u8>, seg_count: int, range_shift: int, ch: int) -> int {
    if ch > 0xffff {
        0
    } else {
        let first = if ch >= u16_or_zero(s, 14 + range_shift * 2) {
            14 + range_shift * 2
        } else {
            14
        };
        let search = spec_segment_search(
            s,
            ch,
            first - 2,
            u16_or_zero(s, 8) / 2,
            u16_or_zero(s, 10),
        ) + 2;
        let item = (search - 14) / 2;
        if ch > u16_or_zero(s, 14 + 2 * item) {
            0
        } else {
            let start = u16_or_zero(s, 14 + seg_count * 2 + 2 + 2 * item);
            if ch < start {
                0
            } else {
                let offset = u16_or_zero(s, 14 + seg_count * 6 + 2 + 2 * item);
                let delta = u16_or_zero(s, 14 + seg_count * 4 + 2 + 2 * item);
                if offset == 0 {
                    (ch + delta) % 65536
                } else {
                    let g = u16_or_zero(
                        s,
                        offset + (ch - start) * 2 + 14 + seg_count * 6 + 2 + 2 * item,
                    );
                    if g == 0 {
                        0
                    } else {
                        (g + delta) % 65536
                    }
                }
            }
        }
    }
}

/// End code of segment `i` of a format 4 subtable.
pub open spec fn seg_end(s: Seq<u8>, i: int) -> int {
    u16_or_zero(s, 14 + 2 * i)
}

/// Start code of segment `i` of a format 4 subtable with `n` segments.
pub open spec fn seg_start(s: Seq<u8>, n: int, i: int) -> int {
    u16_or_zero(s, 16 + 2 * n + 2 * i)
}

/// The glyph that segment `i` of a format 4 subtable with `n` segments maps
/// code point `ch` to, as the format defines it: zero below the segment's
/// start code; where its range offset is zero, `ch` plus its delta; otherwise
/// the glyph that the offset points to in the glyph array, plus the delta
/// unless it is zero. Sums wrap around at 65536.
pub open spec fn segment_glyph(s: Seq<u8>, n: int, i: int, ch: int) -> int {
    let delta = u16_or_zero(s, 16 + 4 * n + 2 * i);
    let range_offset = u16_or_zero(s, 16 + 6 * n + 2 * i);
    if ch < seg_start(s, n, i) {
        0
    } else if range_offset == 0 {
        (ch + delta) % 65536
    } else {
        let g = u16_or_zero(s, 16 + 6 * n + 2 * i + range_offset + 2 * (ch - seg_start(s, n, i)));
        if g == 0 {
            0
        } else {
            (g + delta) % 65536
        }
    }
}

/// Whether `r` is two to the power `k`.
pub open spec fn power_of_two(r: int, k: int) -> bool
    decreases k,
{
    if k <= 0 {
        r == 1
    } else {
        r % 2 == 0 && power_of_two(r / 2, k - 1)
    }
}

/// Whether the header of a format 4 subtable describes `n` segments as the
/// format requires: twice `n` as the segment count field, a search range of
/// twice the largest power of two `2^k` not above `n`, `k` as the entry
/// selector, and the rest of the segments, doubled, as the range shift.
pub open spec fn type4_header_consistent(s: Seq<u8>, n: int) -> bool {
    let r = u16_or_zero(s, 8) / 2;
    &&& 1 <= n
    &&& u16_or_zero(s, 6) == 2 * n
    &&& u16_or_zero(s, 8) % 2 == 0
    &&& power_of_two(r, u16_or_zero(s, 10))
    &&& r <= n < 2 * r
    &&& u16_or_zero(s, 12) == 2 * (n - r)
}

/// Whether the end codes of the `n` segments increase strictly, as the
/// format requires.
pub open spec fn seg_ends_sorted(s: Seq<u8>, n: int) -> bool {
    forall|i: int, j: int| 0 <= i < j < n ==> #[trigger] seg_end(s, i) < #[trigger] seg_end(s, j)
}

/// The segment search, started before segment `p + 1` with `r` segments
/// to cover in `k` halvings, ends just before segment `i`, the first whose
/// end code is not below `ch`.
proof fn lemma_segment_search(s: Seq<u8>, ch: int, n: int, i: int, p: int, r: int, k: int)
    requires
        power_of_two(r, k),
        -1 <= p < i <= p + r <= n - 1,
        forall|q: int| 0 <= q < n ==> (#[trigger] seg_end(s, q) < ch <==> q < i),
    ensures
        spec_segment_search(s, ch, 14 + 2 * p, r, k) == 14 + 2 * i - 2,
    decreases k,
{
    if k > 0 {
        let q = p + r / 2;
        assert(u16_or_zero(s, 14 + 2 * p + (r / 2) * 2) == seg_end(s, q));
        if ch > seg_end(s, q) {
            assert(14 + 2 * p + (r / 2) * 2 == 14 + 2 * q);
            lemma_segment_search(s, ch, n, i, q, r / 2, k - 1);
        } else {
            lemma_segment_search(s, ch, n, i, p, r / 2, k - 1);
        }
    }
}

/// Where the header of a format 4 subtable is consistent and its end codes
/// are sorted, looking up `ch` finds the first segment whose end code is not
/// below `ch`, and gives the glyph that segment maps it to.
pub proof fn law_type4_first_segment(s: Seq<u8>, n: int, ch: int, i: int)
    requires
        type4_header_consistent(s, n),
        seg_ends_sorted(s, n),
        0 <= ch <= 0xffff,
        0 <= i < n,
        seg_end(s, i) >= ch,
        forall|j: int| 0 <= j < i ==> #[trigger] seg_end(s, j) < ch,
    ensures
        spec_lookup_type4(s, n, u16_or_zero(s, 12) / 2, ch) == segment_glyph(s, n, i, ch),
{
    let r = u16_or_zero(s, 8) / 2;
    let rs = u16_or_zero(s, 12) / 2;
    assert(rs == n - r);
    assert forall|q: int| 0 <= q < n implies (#[trigger] seg_end(s, q) < ch <==> q < i) by {
        if q > i {
            assert(seg_end(s, i) < seg_end(s, q));
        }
    }
    let p = if ch >= seg_end(s, n - r) {
        assert forall|q: int| 0 <= q < n - r implies #[trigger] seg_end(s, q) < ch by {
            assert(seg_end(s, q) < seg_end(s, n - r));
        }
        n - r - 1
    } else {
        -1
    };
    assert(u16_or_zero(s, 14 + rs * 2) == seg_end(s, n - r));
    lemma_segment_search(s, ch, n, i, p, r, u16_or_zero(s, 10));
}

/// Glyph index of code point `ch` in subtable `s` of the given `format`.
pub open spec fn spec_lookup(s: Seq<u8>, format: Format, ch: int) -> int {
    match format {
        Format::Type0 { length } => if ch < length {
            u8_or_zero(s, 6 + ch)
        } else {
            0
        },
        Format::Type4 { seg_count, range_shift } => spec_lookup_type4(
            s,
            seg_count as int,
            range_shift as int,
            ch,
        ),
        Format::Type6 { first, end } => if first <= ch < end {
            u16_or_zero(s, 10 + (ch - first) * 2)
        } else {
            0
        },
        Format::Type12 => spec_group_search(s, ch, 0, u32_or_zero(s, 12), true),
        Format::Type13 => spec_group_search(s, ch, 0, u32_or_zero(s, 12), false),
    }
}

/// First code point of sequential map group `k` of a format 12 or 13
/// subtable.
pub open spec fn group_start(s: Seq<u8>, k: int) -> int {
    u32_or_zero(s, 16 + k * 12)
}

/// Last code point of sequential map group `k`.
pub open spec fn group_end(s: Seq<u8>, k: int) -> int {
    u32_or_zero(s, 16 + k * 12 + 4)
}

/// Glyph index that group `k` maps code point `ch` to: for format 12, its
/// first glyph plus the offset of `ch` in the group, wrapping around a
/// `usize`; for format 13, its one glyph.
pub open spec fn group_glyph(s: Seq<u8>, k: int, ch: int, type12: bool) -> int {
    let start_glyph = u32_or_zero(s, 16 + k * 12 + 8);
    if type12 {
        let sum = start_glyph + ch - group_start(s, k);
        if sum > usize::MAX {
            sum - (usize::MAX + 1)
        } else {
            sum
        }
    } else {
        start_glyph
    }
}

/// Whether the `n` groups of `s` each run from their first code point to
/// their last, and follow one another in increasing order without
/// overlapping, as the format requires.
pub open spec fn groups_sorted(s: Seq<u8>, n: int) -> bool {
    &&& forall|k: int| 0 <= k < n ==> #[trigger] group_start(s, k) <= group_end(s, k)
    &&& forall|i: int, j: int|
        0 <= i < j < n ==> #[trigger] group_end(s, i) < #[trigger] group_start(s, j)
}

/// Whether group `k` holds code point `ch`.
pub open spec fn group_holds(s: Seq<u8>, k: int, ch: int) -> bool {
    group_start(s, k) <= ch <= group_end(s, k)
}

proof fn lemma_group_search(s: Seq<u8>, ch: int, low: int, high: int, n: int, type12: bool)
    requires
        0 <= low,
        high <= n,
        groups_sorted(s, n),
    ensures
        forall|k: int|
            low <= k < high && #[trigger] group_holds(s, k, ch) ==> spec_group_search(
                s,
                ch,
                low,
                high,
                type12,
            ) == group_glyph(s, k, ch, type12),
        (forall|k: int| low <= k < high ==> !#[trigger] group_holds(s, k, ch)) ==> spec_group_search(
            s,
            ch,
            low,
            high,
            type12,
        ) == 0,
    decreases high - low,
{
    if low < high {
        let mid = (low + high) / 2;
        assert(group_start(s, mid) == u32_or_zero(s, 16 + mid * 12));
        if ch < group_start(s, mid) {
            lemma_group_search(s, ch, low, mid, n, type12);
            assert forall|k: int| low <= k < high && #[trigger] group_holds(s, k, ch) implies k < mid by {
                if k > mid {
                    assert(group_end(s, mid) < group_start(s, k));
                    assert(group_start(s, mid) <= group_end(s, mid));
                }
            }
        } else if ch > group_end(s, mid) {
            lemma_group_search(s, ch, mid + 1, high, n, type12);
            assert forall|k: int| low <= k < high && #[trigger] group_holds(s, k, ch) implies k > mid by {
                if k < mid {
                    assert(group_end(s, k) < group_start(s, mid));
                    assert(group_start(s, mid) <= group_end(s, mid));
                }
            }
        } else {
            assert(group_holds(s, mid, ch));
            assert forall|k: int| low <= k < high && #[trigger] group_holds(s, k, ch) implies k == mid by {
                if k < mid {
                    assert(group_end(s, k) < group_start(s, mid));
                } else if k > mid {
                    assert(group_end(s, mid) < group_start(s, k));
                }
            }
        }
    }
}

/// Where the groups of a format 12 or 13 subtable are sorted, looking up a
/// code point gives the glyph that the group holding it maps it to, and
/// zero where no group holds it.
pub proof fn law_group_lookup(s: Seq<u8>, ch: int, type12: bool)
    requires
        groups_sorted(s, u32_or_zero(s, 12)),
    ensures
        ({
            let f = if type12 { Format::Type12 } else { Format::Type13 };
            &&& forall|k: int|
                0 <= k < u32_or_zero(s, 12) && #[trigger] group_holds(s, k, ch) ==> spec_lookup(
                    s,
                    f,
                    ch,
                ) == group_glyph(s, k, ch, type12)
            &&& (forall|k: int| 0 <= k < u32_or_zero(s, 12) ==> !#[trigger] group_holds(s, k, ch))
                ==> spec_lookup(s, f, ch) == 0
        }),
{
    lemma_group_search(s, ch, 0, u32_or_zero(s, 12), u32_or_zero(s, 12), type12);
}

/// Where the subtable that a `cmap` table selects has format 4, a header
/// that describes its `n` segments as the format requires, and sorted end
/// codes, looking up a code point in it (as
/// [`CharacterToGlyphIndexMappingTable::lookup`] does, with the format that
/// [`CharacterToGlyphIndexMappingTable::try_new`] stores) gives the glyph
/// that the first segment whose end code is not below the code point maps
/// it to; code points past `0xFFFF` map to glyph zero.
pub proof fn law_cmap_type4_lookup(
    file: Seq<u8>,
    file_end: int,
    cmap: Seq<u8>,
    cmap_start: int,
    ch: int,
    i: int,
)
    requires
        spec_cmap(file, file_end, cmap, cmap_start) is Some,
        ({
            let sub = spec_cmap(file, file_end, cmap, cmap_start).unwrap().0;
            let n = u16_or_zero(sub, 6) / 2;
            &&& fits(sub.len() as int, 0, 2)
            &&& be_u16(sub, 0) == 4
            &&& type4_header_consistent(sub, n)
            &&& seg_ends_sorted(sub, n)
            &&& 0 <= ch
            &&& ch <= 0xffff ==> {
                &&& 0 <= i < n
                &&& seg_end(sub, i) >= ch
                &&& forall|j: int| 0 <= j < i ==> #[trigger] seg_end(sub, j) < ch
            }
        }),
    ensures
        ({
            let (sub, format) = spec_cmap(file, file_end, cmap, cmap_start).unwrap();
            let n = u16_or_zero(sub, 6) / 2;
            &&& ch <= 0xffff ==> spec_lookup(sub, format, ch) == segment_glyph(sub, n, i, ch)
            &&& ch > 0xffff ==> spec_lookup(sub, format, ch) == 0
        }),
{
    let (sub, format) = spec_cmap(file, file_end, cmap, cmap_start).unwrap();
    let n = u16_or_zero(sub, 6) / 2;
    assert(format == spec_format(sub).unwrap());
    assert(format == Format::Type4 {
        seg_count: n as usize,
        range_shift: (u16_or_zero(sub, 12) / 2) as usize,
    });
    if ch <= 0xffff {
        law_type4_first_segment(sub, n, ch, i);
    }
}

/// This table defines the mapping of character codes to the glyph index values
/// used in the font.
pub struct CharacterToGlyphIndexMappingTable<'a> {
    subtable: Region<'a>,
    format: Format,
}

/// Bounds that every format read from a subtable header satisfies.
pub open spec fn format_bounded(format: Format) -> bool {
    match format {
        Format::Type0 { length } => length <= 65535,
        Format::Type4 { seg_count, range_shift } => seg_count <= 32767 && range_shift <= 32767,
        Format::Type6 { first, end } => first <= end <= 131070,
        _ => true,
    }
}

impl<'a> CharacterToGlyphIndexMappingTable<'a> {
    #[verifier::type_invariant]
    spec fn inv(self) -> bool {
        format_bounded(self.format)
    }

    /// Bytes of the selected subtable.
    pub closed spec fn spec_subtable(&self) -> Seq<u8> {
        self.subtable@
    }

    /// Format of the selected subtable.
    pub closed spec fn spec_format(&self) -> Format {
        self.format
    }

    fn find_subtable(cmap: &Region<'a>) -> (r: Option<Option<u32>>)
        ensures
            fits(cmap@.len() as int, 2, 2) ==> match spec_find_subtable(
                cmap@,
                0,
                be_u16(cmap@, 2),
            ) {
                None => r is None,
                Some(None) => r == Some(None::<u32>),
                Some(Some(i)) => r matches Some(Some(v)) && v == i,
            },
    {
        let table_count = match cmap.read_u16_at(2) {
            Some(n) => n as usize,
            None => {
                return None;
            },
        };
        let mut i: usize = 0;
        while i < table_count
            invariant
                0 <= i <= table_count,
                table_count == be_u16(cmap@, 2),
                fits(cmap@.len() as int, 2, 2),
                spec_find_subtable(cmap@, 0, table_count as int) == spec_find_subtable(
                    cmap@,
                    i as int,
                    table_count as int,
                ),
            decreases table_count - i,
        {
            let offset = 4 + 8 * i;
            let platform = match cmap.read_u16_at(offset) {
                Some(p) => p,
                None => {
                    return None;
                },
            };
            if platform == PLATFORM_UNICODE {
            } else if platform == PLATFORM_WINDOWS {
                let encoding = match cmap.read_u16_at(offset + 2) {
                    Some(e) => e,
                    None => {
                        return None;
                    },
                };
                if encoding != PLATFORM_WINDOWS_UNICODE_BMP && encoding
                    != PLATFORM_WINDOWS_UNICODE_FULL {
                    i = i + 1;
                    continue ;
                }
            } else {
                i = i + 1;
                continue ;
            }
            return match cmap.read_u32_at(offset + 4) {
                Some(index) => Some(Some(index)),
                None => None,
            };
        }
        Some(None)
    }

    /// Selects the first Unicode subtable of `cmap`, a region of `file`.
    pub fn try_new(file: &Region<'a>, cmap: Region<'a>) -> (r: Option<Self>)
        ensures
            r is Some <==> spec_cmap(file@, file.spec_end(), cmap@, cmap.spec_start()) is Some,
            r matches Some(t) ==> spec_cmap(file@, file.spec_end(), cmap@, cmap.spec_start())
                == Some((t.spec_subtable(), t.spec_format())),
    {
        let version = cmap.read_u16_at(0)?;
        if version != 0 {
            return None;
        }
        cmap.read_u16_at(2)?;
        let index = match Self::find_subtable(&cmap) {
            Some(Some(index)) => index,
            _ => {
                return None;
            },
        };
        let start = match cmap.range().start.checked_add(index as usize) {
            Some(start) => start,
            None => {
                return None;
            },
        };
        let subtable = file.subregion(start..file.range().end)?;
        let format = match subtable.read_u16_at(0)? {
            0 => Format::Type0 {
                length: match subtable.read_u16_at(2) {
                    Some(len) => if len >= 6 {
                        (len - 6) as usize
                    } else {
                        (len + 65530) as usize
                    },
                    None => 0,
                },
            },
            4 => Format::Type4 {
                seg_count: subtable.u16_or_zero_at(6) as usize / 2,
                range_shift: subtable.u16_or_zero_at(12) as usize / 2,
            },
            6 => {
                let first = subtable.u16_or_zero_at(6) as usize;
                Format::Type6 { first, end: first + subtable.u16_or_zero_at(8) as usize }
            },
            12 => Format::Type12,
            13 => Format::Type13,
            _ => {
                return None;
            },
        };
        Some(CharacterToGlyphIndexMappingTable { subtable, format })
    }

    fn lookup_type4(&self, ch: usize, seg_count: usize, range_shift: usize) -> (r: usize)
        requires
            seg_count <= 32767,
            range_shift <= 32767,
        ensures
            r == spec_lookup_type4(self.subtable@, seg_count as int, range_shift as int, ch as int),
    {
        let s = &self.subtable;
        if ch > 0xffff {
            return 0;
        }
        let mut search_range = (s.u16_or_zero_at(8) / 2) as usize;
        let mut entry_selector = s.u16_or_zero_at(10);
        let end_count: usize = 14;
        let mut search = end_count;
        if ch >= s.u16_or_zero_at(search + range_shift * 2) as usize {
            search = search + range_shift * 2;
        }
        search = search - 2;
        let ghost search0 = search as int;
        let ghost range0 = search_range as int;
        let ghost selector0 = entry_selector as int;
        while entry_selector != 0
            invariant
                search + 2 * search_range <= search0 + 2 * range0,
                search0 + 2 * range0 <= 14 + 2 * 32767 + 65535,
                12 <= search,
                spec_segment_search(s@, ch as int, search as int, search_range as int, entry_selector as int)
                    == spec_segment_search(s@, ch as int, search0, range0, selector0),
            decreases entry_selector,
        {
            search_range = search_range / 2;
            let end = s.u16_or_zero_at(search + search_range * 2) as usize;
            if ch > end {
                search = search + search_range * 2;
            }
            entry_selector = entry_selector - 1;
        }
        search = search + 2;
        let item = (search - end_count) / 2;
        if ch > s.u16_or_zero_at(end_count + 2 * item) as usize {
            return 0;
        }
        let start = s.u16_or_zero_at(14 + seg_count * 2 + 2 + 2 * item) as usize;
        if ch < start {
            return 0;
        }
        let offset = s.u16_or_zero_at(14 + seg_count * 6 + 2 + 2 * item) as usize;
        let delta = s.u16_or_zero_at(14 + seg_count * 4 + 2 + 2 * item) as usize;
        if offset == 0 {
            (ch + delta) % 65536
        } else {
            let g = s.u16_or_zero_at(offset + (ch - start) * 2 + 14 + seg_count * 6 + 2 + 2 * item) as usize;
            if g == 0 {
                0
            } else {
                (g + delta) % 65536
            }
        }
    }

    /// Field at byte `field` of sequential map group `k`, or zero where it
    /// lies outside the subtable.
    fn group_field(&self, k: usize, field: usize) -> (r: usize)
        requires
            field <= 8,
        ensures
            r == u32_or_zero(self.subtable@, 16 + k * 12 + field),
    {
        let len = self.subtable.len();
        let o = match k.checked_mul(12) {
            Some(x) => x.checked_add(16 + field),
            None => None,
        };
        match o {
            Some(o) => self.subtable.u32_or_zero_at(o) as usize,
            None => {
                assert(!fits(len as int, 16 + k * 12 + field, 4));
                0
            },
        }
    }

    fn lookup_groups(&self, ch: usize, type12: bool) -> (r: usize)
        requires
            ch <= 0x10ffff,
        ensures
            r == spec_group_search(self.subtable@, ch as int, 0, u32_or_zero(self.subtable@, 12), type12),
    {
        let mut low: usize = 0;
        let mut high = self.subtable.u32_or_zero_at(12) as usize;
        while low < high
            invariant
                low <= high <= u32::MAX,
                spec_group_search(self.subtable@, ch as int, low as int, high as int, type12)
                    == spec_group_search(self.subtable@, ch as int, 0, u32_or_zero(self.subtable@, 12), type12),
            decreases high - low,
        {
            let mid = low + (high - low) / 2;
            assert(mid as int == (low as int + high as int) / 2);
            let start_c = self.group_field(mid, 0);
            if ch < start_c {
                high = mid;
            } else if ch > self.group_field(mid, 4) {
                low = mid + 1;
            } else {
                let mut start_glyph = self.group_field(mid, 8);
                assert(spec_group_search(self.subtable@, ch as int, low as int, high as int, type12) == if type12 {
                    let sum = start_glyph + ch - start_c;
                    if sum > usize::MAX {
                        sum - (usize::MAX + 1)
                    } else {
                        sum
                    }
                } else {
                    start_glyph as int
                });
                if type12 {
                    let ghost sum = start_glyph + (ch - start_c);
                    start_glyph = start_glyph.wrapping_add(ch - start_c);
                    assert(start_glyph == if sum > usize::MAX {
                        sum - (usize::MAX + 1)
                    } else {
                        sum
                    });
                }
                return start_glyph;
            }
        }
        0
    }

    /// Acquires glyph index for given char `ch`.
    pub fn lookup(&self, ch: char) -> (r: usize)
        ensures
            r == spec_lookup(self.spec_subtable(), self.spec_format(), ch as int),
    {
        proof {
            use_type_invariant(self);
        }
        let ch = ch as u32 as usize;
        assert(ch <= 0x10ffff);
        match self.format {
            Format::Type0 { length } => {
                if ch < length {
                    self.subtable.u8_or_zero_at(6 + ch) as usize
                } else {
                    0
                }
            },
            Format::Type4 { seg_count, range_shift } => {
                self.lookup_type4(ch, seg_count, range_shift)
            },
            Format::Type6 { first, end } => {
                if ch >= first && ch < end {
                    return self.subtable.u16_or_zero_at(10 + (ch - first) * 2) as usize;
                }
                0
            },
            Format::Type12 => self.lookup_groups(ch, true),
            Format::Type13 => self.lookup_groups(ch, false),
        }
    }
}

} // verus!
