use super::region::{Region, be_i16, be_u16, be_u32, fits, i16_or_zero};
use vstd::prelude::*;

verus! {

/// If set, the subtable holds horizontal data.
const COVERAGE_MASK_HORIZONTAL: u16 = 0x0001;

/// Whether a subtable of coverage `coverage` is selected: where `exact`
/// holds, only one whose coverage is exactly the horizontal flag, with no
/// other flag or format set; otherwise any with the horizontal flag set.
pub open spec fn coverage_selected(coverage: int, exact: bool) -> bool {
    if exact {
        coverage == 1
    } else {
        coverage % 2 == 1
    }
}

/// Scans subtables `i..n` starting at byte `offset` for the first selected
/// one (see [`coverage_selected`]): `None` if a header cannot be read first,
/// `Some(None)` if there is no such subtable, otherwise its byte range.
pub open spec fn spec_kern_find(kern: Seq<u8>, i: int, n: int, offset: int, exact: bool) -> Option<
    Option<(int, int)>,
>
    decreases n - i,
{
    if i >= n {
        Some(None)
    } else if !fits(kern.len() as int, offset + 2, 4) {
        None
    } else {
        let length = be_u16(kern, offset + 2);
        let coverage = be_u16(kern, offset + 4);
        if coverage_selected(coverage, exact) {
            Some(Some((offset, offset + length)))
        } else {
            spec_kern_find(kern, i + 1, n, offset + length, exact)
        }
    }
}

/// The horizontal kerning subtable selected from `kern`, if any, by the rule
/// that `exact` chooses (see [`coverage_selected`]).
pub open spec fn spec_kern(kern: Seq<u8>, exact: bool) -> Option<Seq<u8>> {
    if !fits(kern.len() as int, 0, 2) || be_u16(kern, 0) != 0 || !fits(kern.len() as int, 2, 2) {
        None
    } else {
        match spec_kern_find(kern, 0, be_u16(kern, 2), 4, exact) {
            Some(Some((start, end))) => if end <= isize::MAX && end <= kern.len() {
                Some(kern.subrange(start, end))
            } else {
                None
            },
            _ => None,
        }
    }
}

/// Key under which the pair of glyphs `a` and `b` is stored.
pub open spec fn pair_key(a: int, b: int) -> int {
    a * 65536 + b
}

/// Byte offset of kerning pair record `k` in a subtable.
pub open spec fn pair_offset(k: int) -> int {
    14 + k * 6
}

/// Binary search for `key` among the pair records `left..=right` of `s`.
pub open spec fn spec_kern_search(s: Seq<u8>, key: int, left: int, right: int) -> int
    decreases right - left + 1,
{
    if left > right {
        0
    } else {
        let middle = (left + right) / 2;
        let offset = pair_offset(middle);
        if !fits(s.len() as int, offset, 4) {
            0
        } else {
            let key0 = be_u32(s, offset);
            if key < key0 {
                spec_kern_search(s, key, left, middle - 1)
            } else if key > key0 {
                spec_kern_search(s, key, middle + 1, right)
            } else {
                i16_or_zero(s, offset + 4)
            }
        }
    }
}

/// Kerning between glyphs `a` and `b` according to subtable `s`.
pub open spec fn spec_kern_lookup(s: Seq<u8>, a: int, b: int) -> int {
    if a > 65535 || b > 65535 || !fits(s.len() as int, 6, 2) {
        0
    } else {
        spec_kern_search(s, pair_key(a, b), 0, be_u16(s, 6) - 1)
    }
}

/// The key of pair record `k`: its left glyph times 65536 plus its right
/// glyph.
pub open spec fn pair_key_at(s: Seq<u8>, k: int) -> int {
    be_u32(s, pair_offset(k))
}

/// Whether the `n` pair records of subtable `s` lie within it, in strictly
/// increasing order of their keys, as the format requires.
pub open spec fn pairs_sorted(s: Seq<u8>, n: int) -> bool {
    &&& forall|k: int| 0 <= k < n ==> #[trigger] fits(s.len() as int, pair_offset(k), 6)
    &&& forall|i: int, j: int|
        0 <= i < j < n ==> #[trigger] pair_key_at(s, i) < #[trigger] pair_key_at(s, j)
}

/// On sorted records, the search over `left..=right` finds the kerning of
/// the record with the key searched for, and gives zero where no record has
/// that key.
proof fn lemma_kern_search(s: Seq<u8>, key: int, left: int, right: int, n: int)
    requires
        0 <= left,
        right < n,
        pairs_sorted(s, n),
    ensures
        forall|k: int|
            left <= k <= right && #[trigger] pair_key_at(s, k) == key ==> spec_kern_search(
                s,
                key,
                left,
                right,
            ) == i16_or_zero(s, pair_offset(k) + 4),
        (forall|k: int| left <= k <= right ==> #[trigger] pair_key_at(s, k) != key)
            ==> spec_kern_search(s, key, left, right) == 0,
    decreases right - left + 1,
{
    if left <= right {
        let middle = (left + right) / 2;
        assert(fits(s.len() as int, pair_offset(middle), 6));
        let key0 = be_u32(s, pair_offset(middle));
        assert(key0 == pair_key_at(s, middle));
        if key < key0 {
            lemma_kern_search(s, key, left, middle - 1, n);
            assert forall|k: int| left <= k <= right && #[trigger] pair_key_at(s, k) == key implies k
                < middle by {
                if k >= middle {
                    if k > middle {
                        assert(pair_key_at(s, middle) < pair_key_at(s, k));
                    }
                }
            }
        } else if key > key0 {
            lemma_kern_search(s, key, middle + 1, right, n);
            assert forall|k: int| left <= k <= right && #[trigger] pair_key_at(s, k) == key implies k
                > middle by {
                if k <= middle {
                    if k < middle {
                        assert(pair_key_at(s, k) < pair_key_at(s, middle));
                    }
                }
            }
        } else {
            assert forall|k: int| left <= k <= right && #[trigger] pair_key_at(s, k) == key implies k
                == middle by {
                if k < middle {
                    assert(pair_key_at(s, k) < pair_key_at(s, middle));
                } else if k > middle {
                    assert(pair_key_at(s, middle) < pair_key_at(s, k));
                }
            }
        }
    }
}

/// Where the pair records of a subtable are sorted, looking up glyphs `a`
/// and `b` gives the kerning of the record for that pair, and zero where
/// the subtable has no record for it.
pub proof fn law_kern_lookup_finds_pair(s: Seq<u8>, a: int, b: int)
    requires
        0 <= a <= 65535,
        0 <= b <= 65535,
        fits(s.len() as int, 6, 2),
        pairs_sorted(s, be_u16(s, 6)),
    ensures
        forall|k: int|
            0 <= k < be_u16(s, 6) && #[trigger] pair_key_at(s, k) == pair_key(a, b)
                ==> spec_kern_lookup(s, a, b) == i16_or_zero(s, pair_offset(k) + 4),
        (forall|k: int| 0 <= k < be_u16(s, 6) ==> #[trigger] pair_key_at(s, k) != pair_key(a, b))
            ==> spec_kern_lookup(s, a, b) == 0,
{
    lemma_kern_search(s, pair_key(a, b), 0, be_u16(s, 6) - 1, be_u16(s, 6));
}

/// Pair record `k` of subtable `s`: its left glyph, its right glyph and
/// their kerning.
pub open spec fn spec_kern_pair(s: Seq<u8>, k: int) -> (u16, u16, i16) {
    let o = pair_offset(k);
    (be_u16(s, o) as u16, be_u16(s, o + 2) as u16, be_i16(s, o + 4) as i16)
}

/// Where the pair records of a subtable are sorted, every record that
/// [`KerningIter::next`] yields is found again by [`KerningTable::lookup`]:
/// looking up its two glyphs gives its kerning.
pub proof fn law_kern_yielded_pair_found(s: Seq<u8>, k: int)
    requires
        fits(s.len() as int, 6, 2),
        pairs_sorted(s, be_u16(s, 6)),
        0 <= k < be_u16(s, 6),
    ensures
        fits(s.len() as int, pair_offset(k), 6),
        spec_kern_lookup(s, spec_kern_pair(s, k).0 as int, spec_kern_pair(s, k).1 as int)
            == spec_kern_pair(s, k).2 as int,
{
    let o = pair_offset(k);
    assert(fits(s.len() as int, o, 6));
    let l = be_u16(s, o);
    let r = be_u16(s, o + 2);
    assert(0 <= l <= 65535 && 0 <= r <= 65535);
    assert(-32768 <= be_i16(s, o + 4) <= 32767);
    assert(pair_key_at(s, k) == pair_key(l, r));
    law_kern_lookup_finds_pair(s, l, r);
}

/// The pairs that walking subtable `s` from record `from` to record `end`
/// yields: each record in turn, up to the first that lies outside `s`.
pub open spec fn spec_kern_yields(s: Seq<u8>, from: int, end: int) -> Seq<(u16, u16, i16)>
    decreases end - from,
{
    if from < end && fits(s.len() as int, pair_offset(from), 6) {
        seq![spec_kern_pair(s, from)] + spec_kern_yields(s, from + 1, end)
    } else {
        Seq::empty()
    }
}

proof fn lemma_kern_yields_all(s: Seq<u8>, from: int, n: int)
    requires
        0 <= from <= n,
        pairs_sorted(s, n),
    ensures
        spec_kern_yields(s, from, n) == Seq::new(
            (n - from) as nat,
            |k: int| spec_kern_pair(s, from + k),
        ),
    decreases n - from,
{
    if from < n {
        assert(fits(s.len() as int, pair_offset(from), 6));
        lemma_kern_yields_all(s, from + 1, n);
        assert(spec_kern_yields(s, from, n) =~= Seq::new(
            (n - from) as nat,
            |k: int| spec_kern_pair(s, from + k),
        ));
    } else {
        assert(spec_kern_yields(s, from, n) =~= Seq::new(
            (n - from) as nat,
            |k: int| spec_kern_pair(s, from + k),
        ));
    }
}

/// Where the pair records of a subtable are sorted, walking it from the
/// start (see [`KerningTable::iter`]) yields every pair record, in order.
pub proof fn law_kern_iter_yields_all(s: Seq<u8>)
    requires
        fits(s.len() as int, 6, 2),
        pairs_sorted(s, be_u16(s, 6)),
    ensures
        spec_kern_yields(s, 0, be_u16(s, 6)) == Seq::new(
            be_u16(s, 6) as nat,
            |k: int| spec_kern_pair(s, k),
        ),
{
    lemma_kern_yields_all(s, 0, be_u16(s, 6));
    assert(Seq::new(be_u16(s, 6) as nat, |k: int| spec_kern_pair(s, 0 + k)) =~= Seq::new(
        be_u16(s, 6) as nat,
        |k: int| spec_kern_pair(s, k),
    ));
}

/// The kerning table contains the values that control the inter-character
/// spacing for the glyphs in a font.
pub struct KerningTable<'a> {
    subtable: Region<'a>,
}

/// Walks the kerning pairs of a [`KerningTable`].
pub struct KerningIter<'a> {
    subtable: &'a Region<'a>,
    offset: usize,
    end: usize,
}

impl<'a> KerningTable<'a> {
    /// Bytes of the selected subtable.
    pub closed spec fn spec_subtable(&self) -> Seq<u8> {
        self.subtable@
    }

    fn find(kern: &Region<'a>, n_tables: usize, exact: bool) -> (r: Option<Option<(usize, usize)>>)
        requires
            n_tables <= 65535,
        ensures
            match spec_kern_find(kern@, 0, n_tables as int, 4, exact) {
                None => r is None,
                Some(None) => r == Some(None::<(usize, usize)>),
                Some(Some((s, e))) => r matches Some(Some(v)) && v.0 == s && v.1 == e,
            },
            r matches Some(Some(v)) ==> v.0 <= v.1,
    {
        let mut offset: usize = 4;
        let mut i: usize = 0;
        while i < n_tables
            invariant
                i <= n_tables <= 65535,
                offset <= 4 + i * 65535,
                spec_kern_find(kern@, 0, n_tables as int, 4, exact) == spec_kern_find(
                    kern@,
                    i as int,
                    n_tables as int,
                    offset as int,
                    exact,
                ),
            decreases n_tables - i,
        {
            assert(offset + 65535 <= 4 + (i + 1) * 65535) by (nonlinear_arith)
                requires
                    offset <= 4 + i * 65535,
            ;
            assert(4 + (i + 1) * 65535 <= 4 + 65535 * 65535) by (nonlinear_arith)
                requires
                    i < 65535,
            ;
            let (length, coverage) = kern.read_2x_u16_at(offset + 2)?;
            assert(coverage & COVERAGE_MASK_HORIZONTAL != 0 <==> coverage % 2 == 1) by (bit_vector);
            let selected = if exact {
                coverage == COVERAGE_MASK_HORIZONTAL
            } else {
                coverage & COVERAGE_MASK_HORIZONTAL != 0
            };
            if selected {
                return Some(Some((offset, offset + length as usize)));
            }
            offset = offset + length as usize;
            i = i + 1;
        }
        Some(None)
    }

    /// Selects, from a `kern` table of version 0, the first subtable whose
    /// coverage has the horizontal flag set.
    pub fn try_new(kern: Region<'a>) -> (r: Option<Self>)
        ensures
            r is Some <==> spec_kern(kern@, false) is Some,
            r matches Some(t) ==> spec_kern(kern@, false) == Some(t.spec_subtable()),
    {
        Self::select(kern, false)
    }

    /// Selects, from a `kern` table of version 0, the first subtable whose
    /// coverage is exactly the horizontal flag: horizontal kerning values of
    /// format 0, with no other flag set.
    pub fn try_new_exact(kern: Region<'a>) -> (r: Option<Self>)
        ensures
            r is Some <==> spec_kern(kern@, true) is Some,
            r matches Some(t) ==> spec_kern(kern@, true) == Some(t.spec_subtable()),
    {
        Self::select(kern, true)
    }

    fn select(kern: Region<'a>, exact: bool) -> (r: Option<Self>)
        ensures
            r is Some <==> spec_kern(kern@, exact) is Some,
            r matches Some(t) ==> spec_kern(kern@, exact) == Some(t.spec_subtable()),
    {
        let version = kern.read_u16_at(0)?;
        if version != 0 {
            return None;
        }
        let n_tables = kern.read_u16_at(2)? as usize;
        let (start, end) = match Self::find(&kern, n_tables, exact) {
            Some(Some(range)) => range,
            _ => {
                return None;
            },
        };
        let subtable = kern.subregion(start..end)?;
        Some(KerningTable { subtable })
    }

    /// Iterates over all kerning pairs of the table.
    pub fn iter(&'a self) -> (r: KerningIter<'a>)
        ensures
            r.spec_remaining() == spec_kern_yields(self.spec_subtable(), 0, r.spec_end()),
            r.spec_subtable() == self.spec_subtable(),
            r.spec_offset() == 0,
            r.spec_end() == if fits(self.spec_subtable().len() as int, 6, 2) {
                be_u16(self.spec_subtable(), 6)
            } else {
                0
            },
    {
        KerningIter {
            subtable: &self.subtable,
            offset: 0,
            end: match self.subtable.read_u16_at(6) {
                Some(n) => n as usize,
                None => 0,
            },
        }
    }

    /// Looks up the space, in font design units, between glyphs `a` and `b`.
    ///
    /// The order of `a` and `b` is significant.
    pub fn lookup(&self, a: u32, b: u32) -> (r: i16)
        ensures
            r == spec_kern_lookup(self.spec_subtable(), a as int, b as int),
    {
        if a > 65535 || b > 65535 {
            return 0;
        }
        let mut left: i32 = 0;
        let mut right: i32 = match self.subtable.read_u16_at(6) {
            Some(x) => x as i32 - 1,
            None => {
                return 0;
            },
        };
        assert((a << 16u32 | b) == a * 65536 + b) by (bit_vector)
            requires
                a <= 65535,
                b <= 65535,
        ;
        let ab = a << 16u32 | b;
        let ghost right0 = right;
        while left <= right
            invariant
                0 <= left,
                right <= 65534,
                ab == pair_key(a as int, b as int),
                a <= 65535,
                b <= 65535,
                fits(self.spec_subtable().len() as int, 6, 2),
                right0 == be_u16(self.spec_subtable(), 6) - 1,
                spec_kern_search(self.spec_subtable(), ab as int, left as int, right as int)
                    == spec_kern_search(self.spec_subtable(), ab as int, 0, right0 as int),
            decreases right - left + 1,
        {
            let middle = (left + right) / 2;
            assert(middle as int == (left as int + right as int) / 2);
            let offset = 14 + (middle as usize) * 6;
            let ab0 = match self.subtable.read_u32_at(offset) {
                Some(x) => x,
                None => {
                    return 0;
                },
            };
            if ab < ab0 {
                right = middle - 1;
            } else if ab > ab0 {
                left = middle + 1;
            } else {
                return self.subtable.i16_or_zero_at(offset + 4);
            }
        }
        0
    }
}

impl<'a> KerningIter<'a> {
    #[verifier::type_invariant]
    spec fn inv(self) -> bool {
        self.end <= 65535
    }

    /// Bytes of the walked subtable.
    pub closed spec fn spec_subtable(&self) -> Seq<u8> {
        self.subtable@
    }

    /// Index of the next pair.
    pub closed spec fn spec_offset(&self) -> int {
        self.offset as int
    }

    /// Number of pairs.
    pub closed spec fn spec_end(&self) -> int {
        self.end as int
    }

    /// The pairs still to be yielded.
    pub open spec fn spec_remaining(&self) -> Seq<(u16, u16, i16)> {
        spec_kern_yields(self.spec_subtable(), self.spec_offset(), self.spec_end())
    }

    /// Yields the next pair of glyphs and their kerning, if any remains and
    /// can be read.
    pub fn next(&mut self) -> (r: Option<(u16, u16, i16)>)
        ensures
            match r {
                Some(p) => old(self).spec_remaining() == seq![p] + final(self).spec_remaining(),
                None => old(self).spec_remaining().len() == 0 && final(self).spec_remaining().len()
                    == 0,
            },
            final(self).spec_subtable() == old(self).spec_subtable(),
            final(self).spec_end() == old(self).spec_end(),
            ({
                let s = old(self).spec_subtable();
                let o = pair_offset(old(self).spec_offset());
                if old(self).spec_offset() < old(self).spec_end() && fits(s.len() as int, o, 6) {
                    &&& r == Some(spec_kern_pair(s, old(self).spec_offset()))
                    &&& final(self).spec_offset() == old(self).spec_offset() + 1
                } else {
                    &&& r is None
                    &&& final(self).spec_offset() == old(self).spec_offset()
                }
            }),
    {
        if self.offset >= self.end {
            return None;
        }
        proof {
            use_type_invariant(&*self);
        }
        let offset = 14 + self.offset * 6;
        let (left, right) = self.subtable.read_2x_u16_at(offset)?;
        let kerning = self.subtable.read_i16_at(offset + 4)?;
        self.offset = self.offset + 1;
        Some((left, right, kerning))
    }
}

} // verus!
