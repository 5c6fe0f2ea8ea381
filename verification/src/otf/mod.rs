//! Reading of the OpenType Font (OTF) tables needed for text layout.

pub mod cmap;
pub mod glyf;
pub mod head;
pub mod hhea;
pub mod hmtx;
pub mod kern;
pub mod loca;
pub mod maxp;
pub mod region;

use self::cmap::{CharacterToGlyphIndexMappingTable, spec_cmap, spec_find_subtable};
use self::glyf::GlyphDataTable;
use self::head::{FontHeaderTable, spec_head_valid};
use self::hhea::{HorizontalHeaderTable, spec_hhea_valid};
use self::hmtx::HorizontalMetricsTable;
use self::kern::{KerningTable, spec_kern};
use self::loca::{Format, IndexToLocation};
use self::maxp::{MaximumProfileTable, spec_maxp_valid};
use self::region::{Region, be_u16, be_u32, fits, i16_or_zero, u16_or_zero};
use vstd::prelude::*;

verus! {

/// Identifies the table of an OTF file that could not be read.
#[derive(Debug, Copy, Clone, PartialEq, Eq, Structural)]
pub enum Error {
    /// The file header or table directory is malformed or incomplete.
    SFNT,
    /// The character to glyph mapping table is invalid.
    CMAP,
    /// The font header table is invalid.
    HEAD,
    /// The horizontal header table is invalid.
    HHEA,
    /// The horizontal metrics table is invalid.
    HMTX,
    /// The index to location table is invalid.
    LOCA,
    /// The maximum profile table is invalid.
    MAXP,
}

pub const TAG_CMAP: u32 = 0x636D6170;

pub const TAG_GLYF: u32 = 0x676C7966;

pub const TAG_HEAD: u32 = 0x68656164;

pub const TAG_HHEA: u32 = 0x68686561;

pub const TAG_HMTX: u32 = 0x686D7478;

pub const TAG_KERN: u32 = 0x6B65726E;

pub const TAG_LOCA: u32 = 0x6C6F6361;

pub const TAG_MAXP: u32 = 0x6D617870;

/// Whether `tag` names one of the tables that are read.
pub open spec fn known_tag(tag: int) -> bool {
    tag == TAG_CMAP || tag == TAG_GLYF || tag == TAG_HEAD || tag == TAG_HHEA || tag == TAG_HMTX
        || tag == TAG_KERN || tag == TAG_LOCA || tag == TAG_MAXP
}

/// Byte offset of table record `i` in the table directory.
pub open spec fn record_offset(i: int) -> int {
    12 + 16 * i
}

/// Whether table record `i` of `file` can be read as far as it is needed.
pub open spec fn record_ok(file: Seq<u8>, i: int) -> bool {
    let o = record_offset(i);
    &&& fits(file.len() as int, o, 4)
    &&& known_tag(be_u32(file, o)) ==> fits(file.len() as int, o + 8, 8)
}

/// Whether table records `0..n` of `file` can all be read.
pub open spec fn directory_ok(file: Seq<u8>, n: int) -> bool {
    forall|i: int| 0 <= i < n ==> #[trigger] record_ok(file, i)
}

/// Byte range of the table named by record `i`, if it lies within `file`.
pub open spec fn record_range(file: Seq<u8>, i: int) -> Option<(int, int)> {
    let o = record_offset(i);
    let from = be_u32(file, o + 8);
    let to = from + be_u32(file, o + 12);
    if to <= isize::MAX && to <= file.len() {
        Some((from, to))
    } else {
        None
    }
}

/// Byte range of the table named `tag` among records `0..n`: the last record
/// with that tag decides.
pub open spec fn spec_table(file: Seq<u8>, n: int, tag: u32) -> Option<(int, int)>
    decreases n,
{
    if n <= 0 {
        None
    } else if be_u32(file, record_offset(n - 1)) == tag {
        record_range(file, n - 1)
    } else {
        spec_table(file, n - 1, tag)
    }
}

/// Bytes of the table at `range` of `file`.
pub open spec fn table_bytes(file: Seq<u8>, range: (int, int)) -> Seq<u8> {
    file.subrange(range.0, range.1)
}

/// Whether `r` is the region of `file` that `t` designates.
pub open spec fn region_is(r: Option<Region>, t: Option<(int, int)>, file: Seq<u8>) -> bool {
    match (r, t) {
        (None, None) => true,
        (Some(reg), Some((a, b))) => reg@ == file.subrange(a, b) && reg.spec_start() == a
            && reg.spec_end() == b,
        _ => false,
    }
}

/// The error met when reading `file`, if any; the file version is checked
/// only if `check_version` holds.
pub open spec fn spec_font_error(file: Seq<u8>, check_version: bool) -> Option<Error> {
    if check_version && !(fits(file.len() as int, 0, 4) && be_u32(file, 0) == 0x00010000) {
        Some(Error::SFNT)
    } else if !fits(file.len() as int, 4, 2) || !directory_ok(file, be_u16(file, 4)) {
        Some(Error::SFNT)
    } else {
        let n = be_u16(file, 4);
        let cmap = spec_table(file, n, TAG_CMAP);
        let glyf = spec_table(file, n, TAG_GLYF);
        let head = spec_table(file, n, TAG_HEAD);
        let hhea = spec_table(file, n, TAG_HHEA);
        let hmtx = spec_table(file, n, TAG_HMTX);
        let loca = spec_table(file, n, TAG_LOCA);
        let maxp = spec_table(file, n, TAG_MAXP);
        if cmap is None || glyf is None || head is None || hhea is None || hmtx is None
            || loca is None || maxp is None {
            Some(Error::SFNT)
        } else if spec_cmap(file, file.len() as int, table_bytes(file, cmap.unwrap()), cmap.unwrap().0)
            is None {
            Some(Error::CMAP)
        } else if !spec_head_valid(table_bytes(file, head.unwrap())) {
            Some(Error::HEAD)
        } else if !spec_hhea_valid(table_bytes(file, hhea.unwrap())) {
            Some(Error::HHEA)
        } else if !(i16_or_zero(table_bytes(file, head.unwrap()), 50) == 0 || i16_or_zero(
            table_bytes(file, head.unwrap()),
            50,
        ) == 1) {
            Some(Error::LOCA)
        } else if !spec_maxp_valid(table_bytes(file, maxp.unwrap())) {
            Some(Error::MAXP)
        } else if u16_or_zero(table_bytes(file, hhea.unwrap()), 34) > u16_or_zero(
            table_bytes(file, maxp.unwrap()),
            4,
        ) {
            Some(Error::HMTX)
        } else {
            None
        }
    }
}

/// Start, within `file`, of the `cmap` subtable that reading selects, where
/// the table directory and the encoding records of the `cmap` table name one.
pub open spec fn spec_cmap_subtable_start(file: Seq<u8>) -> Option<int> {
    match spec_table(file, be_u16(file, 4), TAG_CMAP) {
        Some((c0, c1)) => {
            let cmap = file.subrange(c0, c1);
            match spec_find_subtable(cmap, 0, be_u16(cmap, 2)) {
                Some(Some(i)) => Some(c0 + i),
                _ => None,
            }
        },
        None => None,
    }
}

/// Whether the table named `tag` in the directory of `f1` holds the same
/// bytes in `f2`.
pub open spec fn table_agrees(f1: Seq<u8>, f2: Seq<u8>, tag: u32) -> bool {
    match spec_table(f1, be_u16(f1, 4), tag) {
        Some((x, y)) => f1.subrange(x, y) == f2.subrange(x, y),
        None => true,
    }
}

/// Whether `f1` and `f2` agree on every byte that reading a font file
/// checks: the file header and table directory, the `cmap`, `glyf`, `head`,
/// `hhea`, `hmtx`, `loca` and `maxp` tables, and the format field of the
/// selected `cmap` subtable. The `kern` table is not among them.
pub open spec fn agree_where_read(f1: Seq<u8>, f2: Seq<u8>) -> bool {
    &&& f1.len() == f2.len()
    &&& forall|i: int| 0 <= i < f1.len() && i < 12 + 16 * be_u16(f1, 4) ==> f1[i] == f2[i]
    &&& table_agrees(f1, f2, TAG_CMAP)
    &&& table_agrees(f1, f2, TAG_GLYF)
    &&& table_agrees(f1, f2, TAG_HEAD)
    &&& table_agrees(f1, f2, TAG_HHEA)
    &&& table_agrees(f1, f2, TAG_HMTX)
    &&& table_agrees(f1, f2, TAG_LOCA)
    &&& table_agrees(f1, f2, TAG_MAXP)
    &&& match spec_cmap_subtable_start(f1) {
        Some(s) => forall|i: int| s <= i < s + 2 && 0 <= i < f1.len() ==> f1[i] == f2[i],
        None => true,
    }
}

/// Records `0..k` of two directories that agree, and that `f1` can read,
/// name the same table ranges.
proof fn lemma_spec_table_agrees(f1: Seq<u8>, f2: Seq<u8>, n: int, k: int, tag: u32)
    requires
        0 <= k <= n,
        f1.len() == f2.len(),
        directory_ok(f1, n),
        forall|i: int| 0 <= i < f1.len() && i < 12 + 16 * n ==> f1[i] == f2[i],
        known_tag(tag as int),
    ensures
        spec_table(f1, k, tag) == spec_table(f2, k, tag),
    decreases k,
{
    if k > 0 {
        let o = record_offset(k - 1);
        assert(record_ok(f1, k - 1));
        assert(f1[o] == f2[o] && f1[o + 1] == f2[o + 1] && f1[o + 2] == f2[o + 2] && f1[o + 3]
            == f2[o + 3]);
        if be_u32(f1, o) == tag {
            assert(known_tag(be_u32(f1, o)));
            assert(forall|j: int| o + 8 <= j < o + 16 ==> f1[j] == f2[j]);
            assert(f1[o + 8] == f2[o + 8] && f1[o + 9] == f2[o + 9] && f1[o + 10] == f2[o + 10]
                && f1[o + 11] == f2[o + 11]);
            assert(f1[o + 12] == f2[o + 12] && f1[o + 13] == f2[o + 13] && f1[o + 14] == f2[o
                + 14] && f1[o + 15] == f2[o + 15]);
        } else {
            lemma_spec_table_agrees(f1, f2, n, k - 1, tag);
        }
    }
}

/// A table range that the directory names starts at a byte offset of zero
/// or more.
proof fn lemma_spec_table_start(file: Seq<u8>, k: int, tag: u32)
    ensures
        spec_table(file, k, tag) matches Some((a, _)) ==> 0 <= a,
    decreases k,
{
    if k > 0 {
        let o = record_offset(k - 1);
        assert(be_u32(file, o + 8) >= 0);
        lemma_spec_table_start(file, k - 1, tag);
    }
}

/// A `cmap` subtable offset that the encoding records name is zero or more.
proof fn lemma_find_subtable_offset(cmap: Seq<u8>, i: int, count: int)
    ensures
        spec_find_subtable(cmap, i, count) matches Some(Some(x)) ==> 0 <= x,
    decreases count - i,
{
    if i < count {
        assert(be_u32(cmap, 4 + 8 * i + 4) >= 0);
        lemma_find_subtable_offset(cmap, i + 1, count);
    }
}

/// Whether a font file is read, and which error reading reports, depend
/// only on the bytes that [`agree_where_read`] lists: never on the `kern`
/// table, which may be missing, malformed or anything else.
pub proof fn law_read_ignores_kern(f1: Seq<u8>, f2: Seq<u8>, check_version: bool)
    requires
        agree_where_read(f1, f2),
    ensures
        spec_font_error(f1, check_version) == spec_font_error(f2, check_version),
{
    let len = f1.len() as int;
    if fits(len, 0, 4) {
        assert(f1[0] == f2[0] && f1[1] == f2[1] && f1[2] == f2[2] && f1[3] == f2[3]);
    }
    if fits(len, 4, 2) {
        assert(f1[4] == f2[4] && f1[5] == f2[5]);
        let n = be_u16(f1, 4);
        assert(be_u16(f2, 4) == n);
        assert forall|i: int| 0 <= i < n implies record_ok(f1, i) == record_ok(f2, i) by {
            let o = record_offset(i);
            if fits(len, o, 4) {
                assert(f1[o] == f2[o] && f1[o + 1] == f2[o + 1] && f1[o + 2] == f2[o + 2] && f1[o
                    + 3] == f2[o + 3]);
            }
        }
        if directory_ok(f1, n) {
            assert forall|i: int| 0 <= i < n implies #[trigger] record_ok(f2, i) by {
                assert(record_ok(f1, i));
            }
        } else {
            let i = choose|i: int| 0 <= i < n && !record_ok(f1, i);
            assert(!record_ok(f2, i));
        }
        assert(directory_ok(f1, n) == directory_ok(f2, n));
        if directory_ok(f1, n) {
            lemma_spec_table_agrees(f1, f2, n, n, TAG_CMAP);
            lemma_spec_table_agrees(f1, f2, n, n, TAG_GLYF);
            lemma_spec_table_agrees(f1, f2, n, n, TAG_HEAD);
            lemma_spec_table_agrees(f1, f2, n, n, TAG_HHEA);
            lemma_spec_table_agrees(f1, f2, n, n, TAG_HMTX);
            lemma_spec_table_agrees(f1, f2, n, n, TAG_LOCA);
            lemma_spec_table_agrees(f1, f2, n, n, TAG_MAXP);
            let cmap = spec_table(f1, n, TAG_CMAP);
            if cmap is Some {
                let (c0, c1) = cmap.unwrap();
                let bytes = table_bytes(f1, (c0, c1));
                assert(table_bytes(f2, (c0, c1)) == bytes);
                match spec_find_subtable(bytes, 0, be_u16(bytes, 2)) {
                    Some(Some(index)) => {
                        let start = c0 + index;
                        assert(spec_cmap_subtable_start(f1) == Some(start));
                        assert(0 <= c0 && 0 <= index) by {
                            lemma_spec_table_start(f1, n, TAG_CMAP);
                            lemma_find_subtable_offset(bytes, 0, be_u16(bytes, 2));
                        }
                        if start < len {
                            assert(f1[start] == f2[start]);
                            assert(f1.subrange(start, len)[0] == f2.subrange(start, len)[0]);
                        }
                        if start + 1 < len {
                            assert(f1[start + 1] == f2[start + 1]);
                            assert(f1.subrange(start, len)[1] == f2.subrange(start, len)[1]);
                        }
                        assert((spec_cmap(f1, len, bytes, c0) is None) == (spec_cmap(
                            f2,
                            len,
                            bytes,
                            c0,
                        ) is None));
                    },
                    _ => {},
                }
            }
        }
    }
}

/// Bytes of glyph `i` of `file`, read straight from its tables: the `loca`
/// table gives the glyph's start and end within the `glyf` table, as two
/// 16-bit offsets counted in words where the `head` table names the short
/// format, and as two 32-bit byte offsets otherwise. `None` where those
/// offsets lie outside the `loca` table or the range they bound outside the
/// `glyf` table.
pub open spec fn spec_file_glyph(file: Seq<u8>, i: int) -> Option<Seq<u8>> {
    let n = be_u16(file, 4);
    let glyf = table_bytes(file, spec_table(file, n, TAG_GLYF).unwrap());
    let loca = table_bytes(file, spec_table(file, n, TAG_LOCA).unwrap());
    let head = table_bytes(file, spec_table(file, n, TAG_HEAD).unwrap());
    let range = if i16_or_zero(head, 50) == 0 {
        if fits(loca.len() as int, 2 * i, 4) {
            Some((2 * be_u16(loca, 2 * i), 2 * be_u16(loca, 2 * i + 2)))
        } else {
            None
        }
    } else {
        if fits(loca.len() as int, 4 * i, 8) {
            Some((be_u32(loca, 4 * i), be_u32(loca, 4 * i + 4)))
        } else {
            None
        }
    };
    match range {
        None => None,
        Some((start, end)) => if start <= end && end <= isize::MAX && end <= glyf.len() {
            Some(glyf.subrange(start, end))
        } else {
            None
        },
    }
}

/// An OpenType Font (OTF) file.
///
/// Provides access to some of the tables in an OTF file. The implementation is
/// only guaranteed to support reading the fonts that come bundled with this
/// package.
pub struct FontFile<'a> {
    file: Region<'a>,
    cmap: CharacterToGlyphIndexMappingTable<'a>,
    glyf: GlyphDataTable<'a>,
    head: FontHeaderTable<'a>,
    hhea: HorizontalHeaderTable<'a>,
    hmtx: HorizontalMetricsTable<'a>,
    kern: Option<KerningTable<'a>>,
    maxp: MaximumProfileTable<'a>,
}

impl<'a> FontFile<'a> {
    /// Bytes of the whole file.
    pub closed spec fn spec_bytes(&self) -> Seq<u8> {
        self.file@
    }

    /// The `cmap` table.
    pub closed spec fn spec_cmap_table(&self) -> CharacterToGlyphIndexMappingTable<'a> {
        self.cmap
    }

    /// The `glyf` table.
    pub closed spec fn spec_glyf_table(&self) -> GlyphDataTable<'a> {
        self.glyf
    }

    /// The `head` table.
    pub closed spec fn spec_head_table(&self) -> FontHeaderTable<'a> {
        self.head
    }

    /// The `hhea` table.
    pub closed spec fn spec_hhea_table(&self) -> HorizontalHeaderTable<'a> {
        self.hhea
    }

    /// The `hmtx` table.
    pub closed spec fn spec_hmtx_table(&self) -> HorizontalMetricsTable<'a> {
        self.hmtx
    }

    /// The `maxp` table.
    pub closed spec fn spec_maxp_table(&self) -> MaximumProfileTable<'a> {
        self.maxp
    }

    /// The `kern` table, if any.
    pub closed spec fn spec_kern_table(&self) -> Option<KerningTable<'a>> {
        self.kern
    }

    /// Whether the tables of this font are those that `bytes` holds, its
    /// kerning subtable chosen by the rule that `exact` names (see
    /// [`kern::coverage_selected`]).
    pub open spec fn spec_reads(&self, bytes: Seq<u8>, exact: bool) -> bool {
        let file = bytes;
        let n = be_u16(file, 4);
        let cmap = spec_table(file, n, TAG_CMAP).unwrap();
        let glyf = spec_table(file, n, TAG_GLYF).unwrap();
        let head = spec_table(file, n, TAG_HEAD).unwrap();
        let hhea = spec_table(file, n, TAG_HHEA).unwrap();
        let hmtx = spec_table(file, n, TAG_HMTX).unwrap();
        let loca = spec_table(file, n, TAG_LOCA).unwrap();
        let maxp = spec_table(file, n, TAG_MAXP).unwrap();
        &&& self.spec_bytes() == file
        &&& spec_cmap(file, file.len() as int, table_bytes(file, cmap), cmap.0) == Some(
            (self.spec_cmap_table().spec_subtable(), self.spec_cmap_table().spec_format()),
        )
        &&& self.spec_glyf_table().spec_region() == table_bytes(file, glyf)
        &&& self.spec_glyf_table().spec_loca().spec_region() == table_bytes(file, loca)
        &&& self.spec_glyf_table().spec_loca().spec_format() == if i16_or_zero(table_bytes(file, head), 50) == 0 {
            Format::Short
        } else {
            Format::Long
        }
        &&& self.spec_head_table().spec_region() == table_bytes(file, head)
        &&& self.spec_hhea_table().spec_region() == table_bytes(file, hhea)
        &&& self.spec_hmtx_table().spec_region() == table_bytes(file, hmtx)
        &&& self.spec_hmtx_table().spec_num_glyphs() == u16_or_zero(table_bytes(file, maxp), 4)
        &&& self.spec_hmtx_table().spec_number_of_h_metrics() == u16_or_zero(table_bytes(file, hhea), 34)
        &&& self.spec_maxp_table().spec_region() == table_bytes(file, maxp)
        &&& match spec_table(file, n, TAG_KERN) {
            None => self.spec_kern_table() is None,
            Some(k) => match spec_kern(table_bytes(file, k), exact) {
                None => self.spec_kern_table() is None,
                Some(sub) => self.spec_kern_table() matches Some(t) && t.spec_subtable() == sub,
            },
        }
    }

    fn read_directory(file: &Region<'a>, n: usize) -> (r: Option<[Option<Region<'a>>; 8]>)
        requires
            n <= 65535,
        ensures
            r is Some <==> directory_ok(file@, n as int),
            r matches Some(t) ==> {
                &&& region_is(t[0], spec_table(file@, n as int, TAG_CMAP), file@)
                &&& region_is(t[1], spec_table(file@, n as int, TAG_GLYF), file@)
                &&& region_is(t[2], spec_table(file@, n as int, TAG_HEAD), file@)
                &&& region_is(t[3], spec_table(file@, n as int, TAG_HHEA), file@)
                &&& region_is(t[4], spec_table(file@, n as int, TAG_HMTX), file@)
                &&& region_is(t[5], spec_table(file@, n as int, TAG_KERN), file@)
                &&& region_is(t[6], spec_table(file@, n as int, TAG_LOCA), file@)
                &&& region_is(t[7], spec_table(file@, n as int, TAG_MAXP), file@)
            },
    {
        let mut tables: [Option<Region<'a>>; 8] = [None, None, None, None, None, None, None, None];
        let tags: [u32; 8] = [
            TAG_CMAP,
            TAG_GLYF,
            TAG_HEAD,
            TAG_HHEA,
            TAG_HMTX,
            TAG_KERN,
            TAG_LOCA,
            TAG_MAXP,
        ];
        let mut i: usize = 0;
        while i < n
            invariant
                i <= n <= 65535,
                tags@ == seq![TAG_CMAP, TAG_GLYF, TAG_HEAD, TAG_HHEA, TAG_HMTX, TAG_KERN, TAG_LOCA, TAG_MAXP],
                directory_ok(file@, i as int),
                forall|t: int| 0 <= t < 8 ==> region_is(#[trigger] tables@[t], spec_table(file@, i as int, tags@[t]), file@),
            decreases n - i,
        {
            let offset = 12 + 16 * i;
            let tag = match file.read_u32_at(offset) {
                Some(tag) => tag,
                None => {
                    proof {
                        assert(!record_ok(file@, i as int));
                    }
                    return None;
                },
            };
            let mut t: usize = 0;
            while t < 8 && tags[t] != tag
                invariant
                    t <= 8,
                    forall|u: int| 0 <= u < t ==> tags@[u] != tag,
                decreases 8 - t,
            {
                t = t + 1;
            }
            if t < 8 {
                let from = match file.read_u32_at(offset + 8) {
                    Some(from) => from as usize,
                    None => {
                        proof {
                            assert(!record_ok(file@, i as int));
                        }
                        return None;
                    },
                };
                let length = match file.read_u32_at(offset + 12) {
                    Some(length) => length as usize,
                    None => {
                        proof {
                            assert(!record_ok(file@, i as int));
                        }
                        return None;
                    },
                };
                let sub = match from.checked_add(length) {
                    Some(to) => file.subregion(from..to),
                    None => None,
                };
                tables[t] = sub;
            }
            proof {
                assert(record_ok(file@, i as int));
                assert forall|j: int| 0 <= j < i + 1 implies #[trigger] record_ok(file@, j) by {
                    if j < i {
                        assert(record_ok(file@, j));
                    }
                }
            }
            i = i + 1;
        }
        Some(tables)
    }

    /// Reads the tables of `bytes`, checking the file version only where
    /// `check_version` holds and choosing the kerning subtable by the rule
    /// that `exact` names; reports the first table that cannot be read.
    pub(crate) fn parse(bytes: &'a [u8], check_version: bool, exact: bool) -> (r: Result<
        Self,
        Error,
    >)
        ensures
            match spec_font_error(bytes@, check_version) {
                Some(e) => r == Err::<Self, Error>(e),
                None => r matches Ok(f) && f.spec_reads(bytes@, exact),
            },
    {
        let file = Region::new(bytes);

        // Check file version.
        if check_version {
            match file.read_u32_at(0) {
                Some(version) => if version != 0x00010000 {
                    return Err(Error::SFNT);
                },
                None => {
                    return Err(Error::SFNT);
                },
            }
        }

        // Load table regions.
        let table_count = match file.read_u16_at(4) {
            Some(n) => n as usize,
            None => {
                return Err(Error::SFNT);
            },
        };
        let tables = match Self::read_directory(&file, table_count) {
            Some(tables) => tables,
            None => {
                return Err(Error::SFNT);
            },
        };
        let cmap = match tables[0] {
            Some(t) => t,
            None => {
                return Err(Error::SFNT);
            },
        };
        let glyf = match tables[1] {
            Some(t) => t,
            None => {
                return Err(Error::SFNT);
            },
        };
        let head = match tables[2] {
            Some(t) => t,
            None => {
                return Err(Error::SFNT);
            },
        };
        let hhea = match tables[3] {
            Some(t) => t,
            None => {
                return Err(Error::SFNT);
            },
        };
        let hmtx = match tables[4] {
            Some(t) => t,
            None => {
                return Err(Error::SFNT);
            },
        };
        let kern = tables[5];
        let loca = match tables[6] {
            Some(t) => t,
            None => {
                return Err(Error::SFNT);
            },
        };
        let maxp = match tables[7] {
            Some(t) => t,
            None => {
                return Err(Error::SFNT);
            },
        };

        // Initialize tables.
        let cmap = match CharacterToGlyphIndexMappingTable::try_new(&file, cmap) {
            Some(t) => t,
            None => {
                return Err(Error::CMAP);
            },
        };
        let head = match FontHeaderTable::try_new(head) {
            Some(t) => t,
            None => {
                return Err(Error::HEAD);
            },
        };
        let hhea = match HorizontalHeaderTable::try_new(hhea) {
            Some(t) => t,
            None => {
                return Err(Error::HHEA);
            },
        };
        let kern = match kern {
            Some(kern) => if exact {
                KerningTable::try_new_exact(kern)
            } else {
                KerningTable::try_new(kern)
            },
            None => None,
        };
        let loca = match IndexToLocation::try_new(loca, head.index_to_loc_format()) {
            Some(t) => t,
            None => {
                return Err(Error::LOCA);
            },
        };
        let maxp = match MaximumProfileTable::try_new(maxp) {
            Some(t) => t,
            None => {
                return Err(Error::MAXP);
            },
        };
        let glyf = GlyphDataTable::new(glyf, loca);
        let hmtx = match HorizontalMetricsTable::try_new(
            maxp.num_glyphs(),
            hhea.number_of_h_metrics(),
            hmtx,
        ) {
            Some(t) => t,
            None => {
                return Err(Error::HMTX);
            },
        };
        Ok(FontFile { file, cmap, glyf, head, hhea, hmtx, kern, maxp })
    }

    /// Reads the tables of the OTF file `file`, which must start with the
    /// version number `0x00010000`; reports the first table that cannot be
    /// read. Kerning comes from the first subtable whose coverage has the
    /// horizontal flag set.
    pub fn try_new(file: &'a [u8]) -> (r: Result<Self, Error>)
        ensures
            match spec_font_error(file@, true) {
                Some(e) => r == Err::<Self, Error>(e),
                None => r matches Ok(f) && f.spec_reads(file@, false),
            },
    {
        Self::parse(file, true, false)
    }

    /// Reads the tables of the OTF file `file`, whatever its version number.
    /// Kerning comes from the first subtable whose coverage is exactly the
    /// horizontal flag.
    pub fn try_from(file: &'a [u8]) -> (r: Option<Self>)
        ensures
            r is Some <==> spec_font_error(file@, false) is None,
            r matches Some(f) ==> f.spec_reads(file@, true),
    {
        match Self::parse(file, false, true) {
            Ok(f) => Some(f),
            Err(_) => None,
        }
    }

    /// The glyph table of a font read from `bytes` locates each glyph as the
    /// file's own `loca`, `glyf` and `head` tables direct, in either `loca`
    /// format: what [`glyf::GlyphDataTable::lookup`] decodes for glyph `i` are
    /// the bytes [`spec_file_glyph`] gives.
    pub proof fn law_glyph_bytes_from_file(&self, bytes: Seq<u8>, exact: bool, i: int)
        requires
            self.spec_reads(bytes, exact),
        ensures
            self.spec_glyf_table().spec_glyph_bytes(i) == spec_file_glyph(bytes, i),
    {
    }

    /// A font read from `bytes` has a kerning table exactly when the
    /// directory names a `kern` table within the file and a subtable of it
    /// is selected by the rule that `exact` names; that subtable's bytes are
    /// then the table's.
    pub proof fn law_kern_from_file(&self, bytes: Seq<u8>, exact: bool)
        requires
            self.spec_reads(bytes, exact),
        ensures
            self.spec_kern_table() is Some <==> (spec_table(bytes, be_u16(bytes, 4), TAG_KERN) matches Some(
                k,
            ) && spec_kern(table_bytes(bytes, k), exact) is Some),
            self.spec_kern_table() matches Some(t) ==> Some(t.spec_subtable()) == spec_kern(
                table_bytes(bytes, spec_table(bytes, be_u16(bytes, 4), TAG_KERN).unwrap()),
                exact,
            ),
    {
    }

    /// Get font file as slice of bytes.
    pub fn as_bytes(&self) -> (r: &'a [u8])
        ensures
            r@ == self.spec_bytes(),
    {
        self.file.bytes()
    }

    /// Character to glyph mapping.
    pub fn cmap(&self) -> (r: &CharacterToGlyphIndexMappingTable<'a>)
        ensures
            *r == self.spec_cmap_table(),
    {
        &self.cmap
    }

    /// Glyph table.
    pub fn glyf(&self) -> (r: &GlyphDataTable<'a>)
        ensures
            *r == self.spec_glyf_table(),
    {
        &self.glyf
    }

    /// Font header.
    pub fn head(&self) -> (r: &FontHeaderTable<'a>)
        ensures
            *r == self.spec_head_table(),
    {
        &self.head
    }

    /// Horizontal header.
    pub fn hhea(&self) -> (r: &HorizontalHeaderTable<'a>)
        ensures
            *r == self.spec_hhea_table(),
    {
        &self.hhea
    }

    /// Horizontal metrics.
    pub fn hmtx(&self) -> (r: &HorizontalMetricsTable<'a>)
        ensures
            *r == self.spec_hmtx_table(),
    {
        &self.hmtx
    }

    /// Kerning.
    pub fn kern(&self) -> (r: Option<&KerningTable<'a>>)
        ensures
            match self.spec_kern_table() {
                Some(k) => r matches Some(t) && *t == k,
                None => r is None,
            },
    {
        self.kern.as_ref()
    }

    /// Maximum profile.
    pub fn maxp(&self) -> (r: &MaximumProfileTable<'a>)
        ensures
            *r == self.spec_maxp_table(),
    {
        &self.maxp
    }
}

} // verus!
