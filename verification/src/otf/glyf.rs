use super::loca::{IndexToLocation, spec_loca_lookup};
use super::region::{Region, be_i16, be_u16, fits};
use vstd::prelude::*;

verus! {

// Simple glyph flags.
pub const FLAGS_ON_CURVE_POINT: u8 = 0x01;

pub const FLAGS_X_SHORT_VECTOR: u8 = 0x02;

pub const FLAGS_Y_SHORT_VECTOR: u8 = 0x04;

pub const FLAGS_REPEAT_FLAG: u8 = 0x08;

pub const FLAGS_X_IS_SAME_OR_POSITIVE_X_SHORT_VECTOR: u8 = 0x10;

pub const FLAGS_Y_IS_SAME_OR_POSITIVE_Y_SHORT_VECTOR: u8 = 0x20;

// Composite glyph flags.
pub const FLAGS_ARG_1_AND_2_ARE_WORDS: u16 = 0x0001;

pub const FLAGS_ARGS_ARE_XY_VALUES: u16 = 0x0002;

pub const FLAGS_WE_HAVE_A_SCALE: u16 = 0x0008;

pub const FLAGS_MORE_COMPONENTS: u16 = 0x0020;

pub const FLAGS_WE_HAVE_AN_X_AND_Y_SCALE: u16 = 0x0040;

pub const FLAGS_WE_HAVE_A_TWO_BY_TWO: u16 = 0x0080;

/// A TrueType outline point.
///
/// Sequences of these points are used to describe the contours of glyphs,
/// where a contour is a distinct shape part of the glyph. All coordinates are
/// relative to the previous ones. If there is no previous point, (0, 0) is
/// assumed.
#[derive(Copy, Clone, PartialEq, Eq, Structural)]
pub struct Point {
    /// Whether or not this point is on the current contour curve.
    pub on_curve: bool,
    /// Whether or not this point is the last in its contour.
    pub contour_end: bool,
    /// X-coordinate relative to last point.
    pub x: i16,
    /// Y-coordinate relative to last point.
    pub y: i16,
}

/// Transformation applied to a component of a composite glyph, given as raw
/// 2.14 fixed-point numbers.
#[derive(Copy, Clone, PartialEq, Eq, Structural)]
pub enum Transform {
    Identity,
    Scale(i16),
    XYScale(i16, i16),
    TwoByTwo(i16, i16, i16, i16),
}

/// One component of a composite glyph.
#[derive(Copy, Clone, PartialEq, Eq, Structural)]
pub struct Component {
    /// Raw component flags.
    pub flags: u16,
    /// Index of the referenced glyph.
    pub glyph_index: u16,
    /// Horizontal offset of the component.
    pub x: i16,
    /// Vertical offset of the component.
    pub y: i16,
    /// Transformation of the component.
    pub transform: Transform,
}

/// The outline description of a glyph.
pub enum Glyph {
    /// Contour points of a simple glyph.
    Simple(Vec<Point>),
    /// Components of a composite glyph.
    Composite(Vec<Component>),
}

/// Flags of `remaining` points, read from `offset` in glyph `g`, with
/// `repeat` further copies of `flags` still to emit; also yields the offset
/// just after the flags.
pub open spec fn spec_flags(g: Seq<u8>, offset: int, remaining: nat, repeat: int, flags: u8) -> Option<
    (Seq<u8>, int),
>
    decreases remaining,
{
    if remaining == 0 {
        Some((Seq::empty(), offset))
    } else if repeat == 0 {
        if !fits(g.len() as int, offset, 1) {
            None
        } else {
            let f = g[offset];
            if f & FLAGS_REPEAT_FLAG != 0 {
                if !fits(g.len() as int, offset + 1, 1) {
                    None
                } else {
                    match spec_flags(g, offset + 2, (remaining - 1) as nat, g[offset + 1] as int, f) {
                        Some((rest, end)) => Some((seq![f] + rest, end)),
                        None => None,
                    }
                }
            } else {
                match spec_flags(g, offset + 1, (remaining - 1) as nat, 0, f) {
                    Some((rest, end)) => Some((seq![f] + rest, end)),
                    None => None,
                }
            }
        }
    } else {
        match spec_flags(g, offset, (remaining - 1) as nat, repeat - 1, flags) {
            Some((rest, end)) => Some((seq![flags] + rest, end)),
            None => None,
        }
    }
}

/// Coordinate deltas for points `i..` of `flags`, read from `offset` in glyph
/// `g`, where `short` marks one-byte deltas and `same` marks either a positive
/// one-byte delta or, for long deltas, a zero delta; also yields the offset
/// just after the deltas.
pub open spec fn spec_coords(g: Seq<u8>, offset: int, flags: Seq<u8>, i: int, short: u8, same: u8) -> Option<
    (Seq<i16>, int),
>
    decreases flags.len() - i,
{
    if i >= flags.len() {
        Some((Seq::empty(), offset))
    } else {
        let f = flags[i];
        if f & short != 0 {
            if !fits(g.len() as int, offset, 1) {
                None
            } else {
                let v = if f & same != 0 {
                    g[offset] as int
                } else {
                    -(g[offset] as int)
                };
                match spec_coords(g, offset + 1, flags, i + 1, short, same) {
                    Some((rest, end)) => Some((seq![v as i16] + rest, end)),
                    None => None,
                }
            }
        } else if f & same == 0 {
            if !fits(g.len() as int, offset, 2) {
                None
            } else {
                match spec_coords(g, offset + 2, flags, i + 1, short, same) {
                    Some((rest, end)) => Some((seq![be_i16(g, offset) as i16] + rest, end)),
                    None => None,
                }
            }
        } else {
            match spec_coords(g, offset, flags, i + 1, short, same) {
                Some((rest, end)) => Some((seq![0i16] + rest, end)),
                None => None,
            }
        }
    }
}

/// Number of bytes that the coordinate delta of a point with flags `f`
/// takes: one for a short delta, none for a repeated coordinate, two
/// otherwise.
pub open spec fn coord_size(f: u8, short: u8, same: u8) -> int {
    if f & short != 0 {
        1
    } else if f & same != 0 {
        0
    } else {
        2
    }
}

/// Byte offset, counted from the start of the deltas, of the delta of point
/// `k`: the sizes of the deltas of the points before it, from point `i` on.
pub open spec fn coord_offset(flags: Seq<u8>, i: int, k: int, short: u8, same: u8) -> int
    decreases k - i,
{
    if i >= k {
        0
    } else {
        coord_size(flags[i], short, same) + coord_offset(flags, i + 1, k, short, same)
    }
}

/// The delta of a point with flags `f` whose bytes start at `o` in `g`: a
/// short delta is the byte read, made negative unless the `same` flag marks
/// it positive; a long delta is the signed 16-bit value read; a repeated
/// coordinate has delta zero.
pub open spec fn coord_delta(g: Seq<u8>, o: int, f: u8, short: u8, same: u8) -> int {
    if f & short != 0 {
        if f & same != 0 {
            g[o] as int
        } else {
            -(g[o] as int)
        }
    } else if f & same != 0 {
        0
    } else {
        be_i16(g, o)
    }
}

proof fn lemma_coords_follow_flags(
    g: Seq<u8>,
    offset: int,
    flags: Seq<u8>,
    i: int,
    short: u8,
    same: u8,
)
    requires
        0 <= i <= flags.len(),
        spec_coords(g, offset, flags, i, short, same) is Some,
    ensures
        ({
            let (vs, end) = spec_coords(g, offset, flags, i, short, same).unwrap();
            &&& vs.len() == flags.len() - i
            &&& end == offset + coord_offset(flags, i, flags.len() as int, short, same)
            &&& forall|m: int|
                0 <= m < flags.len() - i ==> #[trigger] vs[m] as int == coord_delta(
                    g,
                    offset + coord_offset(flags, i, i + m, short, same),
                    flags[i + m],
                    short,
                    same,
                )
        }),
    decreases flags.len() - i,
{
    if i < flags.len() {
        let f = flags[i];
        let next = offset + coord_size(f, short, same);
        lemma_coords_follow_flags(g, next, flags, i + 1, short, same);
        let (vs, end) = spec_coords(g, offset, flags, i, short, same).unwrap();
        let (rest, end2) = spec_coords(g, next, flags, i + 1, short, same).unwrap();
        assert(vs == seq![vs[0]] + rest);
        assert(coord_offset(flags, i, i, short, same) == 0);
        if f & short != 0 {
            assert(0 <= g[offset] <= 255);
        } else if f & same == 0 {
            assert(-32768 <= be_i16(g, offset) <= 32767);
        }
        assert(vs[0] as int == coord_delta(g, offset, f, short, same));
        assert forall|m: int| 0 <= m < flags.len() - i implies #[trigger] vs[m] as int == coord_delta(
            g,
            offset + coord_offset(flags, i, i + m, short, same),
            flags[i + m],
            short,
            same,
        ) by {
            if m > 0 {
                assert(vs[m] == rest[m - 1]);
                assert(coord_offset(flags, i, i + m, short, same) == coord_size(f, short, same)
                    + coord_offset(flags, i + 1, (i + 1) + (m - 1), short, same));
            }
        }
    }
}

/// The deltas read for the points of a glyph follow their flags: point `k`'s
/// delta is read at the offset that the sizes of the points before it add
/// up to; a short delta is the byte read, negative unless the `same` flag
/// marks it positive; a long delta is the signed 16-bit value read; a
/// repeated coordinate has delta zero.
pub proof fn law_coords_follow_flags(g: Seq<u8>, offset: int, flags: Seq<u8>, short: u8, same: u8)
    requires
        spec_coords(g, offset, flags, 0, short, same) is Some,
    ensures
        ({
            let (vs, end) = spec_coords(g, offset, flags, 0, short, same).unwrap();
            &&& vs.len() == flags.len()
            &&& end == offset + coord_offset(flags, 0, flags.len() as int, short, same)
            &&& forall|k: int|
                0 <= k < flags.len() ==> #[trigger] vs[k] as int == coord_delta(
                    g,
                    offset + coord_offset(flags, 0, k, short, same),
                    flags[k],
                    short,
                    same,
                )
        }),
{
    lemma_coords_follow_flags(g, offset, flags, 0, short, same);
    let (vs, end) = spec_coords(g, offset, flags, 0, short, same).unwrap();
    assert forall|k: int| 0 <= k < flags.len() implies #[trigger] vs[k] as int == coord_delta(
        g,
        offset + coord_offset(flags, 0, k, short, same),
        flags[k],
        short,
        same,
    ) by {
        assert(0 + k == k);
    }
}

/// End point index of contour `k` of glyph `g`.
pub open spec fn spec_end_point(g: Seq<u8>, k: int) -> int {
    be_u16(g, 10 + 2 * k)
}

/// Whether point `p` ends one of the `n` contours of glyph `g`.
pub open spec fn spec_is_contour_end(g: Seq<u8>, n: int, p: int) -> bool {
    exists|k: int| 0 <= k < n && #[trigger] spec_end_point(g, k) == p
}

/// Contour points of simple glyph `g` with `n` contours.
pub open spec fn spec_simple_glyph(g: Seq<u8>, n: int) -> Option<Seq<Point>> {
    if !fits(g.len() as int, 10, 2 * n) || !fits(g.len() as int, 10 + 2 * n, 2) {
        None
    } else {
        let count = spec_end_point(g, n - 1) + 1;
        let start = 10 + 2 * n + 2 + be_u16(g, 10 + 2 * n);
        if exists|k: int| 0 <= k < n && #[trigger] spec_end_point(g, k) >= count {
            None
        } else {
            match spec_flags(g, start, count as nat, 0, 0) {
                None => None,
                Some((flags, x_start)) => match spec_coords(
                    g,
                    x_start,
                    flags,
                    0,
                    FLAGS_X_SHORT_VECTOR,
                    FLAGS_X_IS_SAME_OR_POSITIVE_X_SHORT_VECTOR,
                ) {
                    None => None,
                    Some((xs, y_start)) => match spec_coords(
                        g,
                        y_start,
                        flags,
                        0,
                        FLAGS_Y_SHORT_VECTOR,
                        FLAGS_Y_IS_SAME_OR_POSITIVE_Y_SHORT_VECTOR,
                    ) {
                        None => None,
                        Some((ys, _)) => Some(
                            Seq::new(
                                count as nat,
                                |p: int|
                                    Point {
                                        on_curve: flags[p] & FLAGS_ON_CURVE_POINT != 0,
                                        contour_end: spec_is_contour_end(g, n, p),
                                        x: xs[p],
                                        y: ys[p],
                                    },
                            ),
                        ),
                    },
                },
            }
        }
    }
}

/// The points of a simple glyph follow their flags: with the flags read at
/// the start of the flag array, each point's x delta is read from the x
/// deltas that follow the flags, and its y delta from the y deltas that
/// follow those, as [`law_coords_follow_flags`] gives them; a short delta is
/// negative unless its positive flag is set.
pub proof fn law_simple_glyph_points(g: Seq<u8>, n: int)
    requires
        spec_simple_glyph(g, n) is Some,
    ensures
        ({
            let points = spec_simple_glyph(g, n).unwrap();
            let count = spec_end_point(g, n - 1) + 1;
            let start = 10 + 2 * n + 2 + be_u16(g, 10 + 2 * n);
            let (flags, x_start) = spec_flags(g, start, count as nat, 0, 0).unwrap();
            let xs = FLAGS_X_SHORT_VECTOR;
            let xp = FLAGS_X_IS_SAME_OR_POSITIVE_X_SHORT_VECTOR;
            let ys = FLAGS_Y_SHORT_VECTOR;
            let yp = FLAGS_Y_IS_SAME_OR_POSITIVE_Y_SHORT_VECTOR;
            let y_start = x_start + coord_offset(flags, 0, flags.len() as int, xs, xp);
            &&& points.len() == count
            &&& flags.len() == count
            &&& forall|k: int|
                0 <= k < count ==> {
                    &&& #[trigger] points[k].x as int == coord_delta(
                        g,
                        x_start + coord_offset(flags, 0, k, xs, xp),
                        flags[k],
                        xs,
                        xp,
                    )
                    &&& points[k].y as int == coord_delta(
                        g,
                        y_start + coord_offset(flags, 0, k, ys, yp),
                        flags[k],
                        ys,
                        yp,
                    )
                    &&& points[k].on_curve == (flags[k] & FLAGS_ON_CURVE_POINT != 0)
                }
        }),
{
    let count = spec_end_point(g, n - 1) + 1;
    let start = 10 + 2 * n + 2 + be_u16(g, 10 + 2 * n);
    let (flags, x_start) = spec_flags(g, start, count as nat, 0, 0).unwrap();
    lemma_flags_len(g, start, count as nat, 0, 0);
    let xs = FLAGS_X_SHORT_VECTOR;
    let xp = FLAGS_X_IS_SAME_OR_POSITIVE_X_SHORT_VECTOR;
    law_coords_follow_flags(g, x_start, flags, xs, xp);
    let (xv, y_start) = spec_coords(g, x_start, flags, 0, xs, xp).unwrap();
    law_coords_follow_flags(
        g,
        y_start,
        flags,
        FLAGS_Y_SHORT_VECTOR,
        FLAGS_Y_IS_SAME_OR_POSITIVE_Y_SHORT_VECTOR,
    );
}

/// Transformation of a component with `flags`, read from `offset`, together
/// with the offset just after it.
pub open spec fn spec_transform(g: Seq<u8>, flags: u16, offset: int) -> Option<(Transform, int)> {
    if flags & FLAGS_WE_HAVE_A_SCALE != 0 {
        if fits(g.len() as int, offset, 2) {
            Some((Transform::Scale(be_i16(g, offset) as i16), offset + 2))
        } else {
            None
        }
    } else if flags & FLAGS_WE_HAVE_AN_X_AND_Y_SCALE != 0 {
        if fits(g.len() as int, offset, 4) {
            Some(
                (
                    Transform::XYScale(be_i16(g, offset) as i16, be_i16(g, offset + 2) as i16),
                    offset + 4,
                ),
            )
        } else {
            None
        }
    } else if flags & FLAGS_WE_HAVE_A_TWO_BY_TWO != 0 {
        if fits(g.len() as int, offset, 8) {
            Some(
                (
                    Transform::TwoByTwo(
                        be_i16(g, offset) as i16,
                        be_i16(g, offset + 2) as i16,
                        be_i16(g, offset + 4) as i16,
                        be_i16(g, offset + 6) as i16,
                    ),
                    offset + 8,
                ),
            )
        } else {
            None
        }
    } else {
        Some((Transform::Identity, offset))
    }
}

/// The component described at `offset` of composite glyph `g`, together with
/// the offset just after it.
pub open spec fn spec_component(g: Seq<u8>, offset: int) -> Option<(Component, int)> {
    if !fits(g.len() as int, offset, 4) {
        None
    } else {
        let flags = be_u16(g, offset) as u16;
        let glyph_index = be_u16(g, offset + 2) as u16;
        let args = offset + 4;
        if flags & FLAGS_ARGS_ARE_XY_VALUES == 0 {
            None
        } else {
            let xy = if flags & FLAGS_ARG_1_AND_2_ARE_WORDS != 0 {
                if fits(g.len() as int, args, 4) {
                    Some((be_i16(g, args) as i16, be_i16(g, args + 2) as i16, args + 4))
                } else {
                    None
                }
            } else {
                if fits(g.len() as int, args, 2) {
                    Some((g[args] as i16, g[args + 1] as i16, args + 2))
                } else {
                    None
                }
            };
            match xy {
                None => None,
                Some((x, y, next)) => match spec_transform(g, flags, next) {
                    None => None,
                    Some((transform, end)) => Some(
                        (Component { flags, glyph_index, x, y, transform }, end),
                    ),
                },
            }
        }
    }
}

/// Components of composite glyph `g` from `offset` on.
pub open spec fn spec_components(g: Seq<u8>, offset: int) -> Option<Seq<Component>>
    decreases g.len() - offset,
{
    match spec_component(g, offset) {
        None => None,
        Some((c, next)) => if c.flags & FLAGS_MORE_COMPONENTS == 0 {
            Some(seq![c])
        } else if next <= offset || next > g.len() {
            None
        } else {
            match spec_components(g, next) {
                Some(rest) => Some(seq![c] + rest),
                None => None,
            }
        },
    }
}

/// This table contains information that describes the glyphs in the font in
/// the TrueType outline format.
pub struct GlyphDataTable<'a> {
    region: Region<'a>,
    loca: IndexToLocation<'a>,
}

impl<'a> GlyphDataTable<'a> {
    /// Bytes of the `glyf` table.
    pub closed spec fn spec_region(&self) -> Seq<u8> {
        self.region@
    }

    /// The `loca` table locating the glyphs.
    pub closed spec fn spec_loca(&self) -> &IndexToLocation<'a> {
        &self.loca
    }

    /// Bytes of glyph `i`: those of the `glyf` table between the two offsets
    /// that the `loca` table gives for it, if both can be read and the range
    /// lies within the table.
    pub open spec fn spec_glyph_bytes(&self, i: int) -> Option<Seq<u8>> {
        let loca = self.spec_loca();
        match spec_loca_lookup(loca.spec_region(), loca.spec_format(), i) {
            None => None,
            Some((start, end)) => if start <= end && end <= isize::MAX && end
                <= self.spec_region().len() {
                Some(self.spec_region().subrange(start, end))
            } else {
                None
            },
        }
    }

    /// Creates a glyph table from its `glyf` and `loca` tables.
    pub fn new(glyf: Region<'a>, loca: IndexToLocation<'a>) -> (r: Self)
        ensures
            r.spec_region() == glyf@,
            r.spec_loca() == loca,
    {
        GlyphDataTable { region: glyf, loca }
    }

    /// Looks up the outline of the identified glyph: the contour points of a
    /// simple glyph, or the components of a composite one.
    pub fn lookup(&self, glyph_index: usize) -> (r: Option<Glyph>)
        ensures
            match self.spec_glyph_bytes(glyph_index as int) {
                None => r is None,
                Some(g) => if !fits(g.len() as int, 0, 2) || be_i16(g, 0) == 0 {
                    r is None
                } else if be_i16(g, 0) > 0 {
                    match spec_simple_glyph(g, be_i16(g, 0)) {
                        Some(points) => r matches Some(Glyph::Simple(v)) && v@ == points,
                        None => r is None,
                    }
                } else {
                    match spec_components(g, 10) {
                        Some(cs) => r matches Some(Glyph::Composite(v)) && v@ == cs,
                        None => r is None,
                    }
                },
            },
    {
        let glyph_range = self.loca.lookup_index(glyph_index)?;
        let glyph = self.region.subregion(glyph_range)?;
        let number_of_contours = glyph.read_i16_at(0)?;
        if number_of_contours > 0 {
            match self.lookup_simple(glyph, number_of_contours as usize) {
                Some(points) => Some(Glyph::Simple(points)),
                None => None,
            }
        } else if number_of_contours < 0 {
            match self.lookup_composite(glyph) {
                Some(components) => Some(Glyph::Composite(components)),
                None => None,
            }
        } else {
            None
        }
    }

    fn read_flags(glyph: &Region<'a>, start: usize, count: usize) -> (r: Option<(Vec<u8>, usize)>)
        requires
            start <= 200000,
        ensures
            match spec_flags(glyph@, start as int, count as nat, 0, 0) {
                Some((flags, e)) => r matches Some((v, o)) && v@ == flags && o == e,
                None => r is None,
            },
            r matches Some((v, o)) ==> o <= 200000 || o <= glyph@.len(),
    {
        let mut flags_all: Vec<u8> = Vec::new();
        let _len = glyph.len();
        let mut offset = start;
        let mut repeat: u8 = 0;
        let mut flags: u8 = 0;
        let mut i: usize = 0;
        while i < count
            invariant
                i <= count,
                start <= 200000,
                glyph@.len() <= usize::MAX,
                offset == start || offset <= glyph@.len(),
                flags_all@.len() == i,
                spec_flags(glyph@, start as int, count as nat, 0, 0) == match spec_flags(
                    glyph@,
                    offset as int,
                    (count - i) as nat,
                    repeat as int,
                    flags,
                ) {
                    Some((rest, e)) => Some((flags_all@ + rest, e)),
                    None => None,
                },
            decreases count - i,
        {
            let ghost prev = flags_all@;
            if repeat == 0 {
                flags = glyph.read_u8_at(offset)?;
                if flags & FLAGS_REPEAT_FLAG != 0 {
                    repeat = glyph.read_u8_at(offset + 1)?;
                    offset = offset + 2;
                } else {
                    offset = offset + 1;
                }
            } else {
                repeat = repeat - 1;
            }
            flags_all.push(flags);
            proof {
                assert(flags_all@ == prev + seq![flags]);
                assert forall|rest: Seq<u8>| (prev + seq![flags]) + rest == prev + (seq![flags] + rest) by {
                    assert((prev + seq![flags]) + rest =~= prev + (seq![flags] + rest));
                }
            }
            i = i + 1;
        }
        proof {
            assert(flags_all@ + Seq::<u8>::empty() =~= flags_all@);
        }
        Some((flags_all, offset))
    }

    fn read_coords(glyph: &Region<'a>, start: usize, flags: &Vec<u8>, short: u8, same: u8) -> (r:
        Option<(Vec<i16>, usize)>)
        requires
            start <= 200000 || start <= glyph@.len(),
        ensures
            match spec_coords(glyph@, start as int, flags@, 0, short, same) {
                Some((cs, e)) => r matches Some((v, o)) && v@ == cs && o == e,
                None => r is None,
            },
            r matches Some((v, o)) ==> o <= 200000 || o <= glyph@.len(),
    {
        let mut coords: Vec<i16> = Vec::new();
        let _len = glyph.len();
        let mut offset = start;
        let mut i: usize = 0;
        while i < flags.len()
            invariant
                i <= flags@.len(),
                offset <= 200000 || offset <= glyph@.len(),
                glyph@.len() <= usize::MAX,
                coords@.len() == i,
                spec_coords(glyph@, start as int, flags@, 0, short, same) == match spec_coords(
                    glyph@,
                    offset as int,
                    flags@,
                    i as int,
                    short,
                    same,
                ) {
                    Some((rest, e)) => Some((coords@ + rest, e)),
                    None => None,
                },
            decreases flags@.len() - i,
        {
            let ghost prev = coords@;
            let f = flags[i];
            let v: i16;
            if f & short != 0 {
                let b = glyph.read_u8_at(offset)? as i16;
                offset = offset + 1;
                v = if f & same != 0 {
                    b
                } else {
                    -b
                };
            } else if f & same == 0 {
                v = glyph.read_i16_at(offset)?;
                offset = offset + 2;
            } else {
                v = 0;
            }
            coords.push(v);
            proof {
                assert(coords@ == prev + seq![v]);
                assert forall|rest: Seq<i16>| (prev + seq![v]) + rest == prev + (seq![v] + rest) by {
                    assert((prev + seq![v]) + rest =~= prev + (seq![v] + rest));
                }
            }
            i = i + 1;
        }
        proof {
            assert(coords@ + Seq::<i16>::empty() =~= coords@);
        }
        Some((coords, offset))
    }

    fn lookup_simple(&self, glyph: Region<'a>, number_of_contours: usize) -> (r: Option<Vec<Point>>)
        requires
            1 <= number_of_contours <= 32767,
        ensures
            match spec_simple_glyph(glyph@, number_of_contours as int) {
                Some(points) => r matches Some(v) && v@ == points,
                None => r is None,
            },
    {
        let n = number_of_contours;
        let g = Ghost(glyph@);
        if !(10 + 2 * n <= glyph.len()) {
            return None;
        }
        let mut end_pts_of_contours: Vec<u16> = Vec::new();
        let mut k: usize = 0;
        while k < n
            invariant
                k <= n <= 32767,
                10 + 2 * n <= glyph@.len(),
                end_pts_of_contours@.len() == k,
                forall|j: int| 0 <= j < k ==> end_pts_of_contours@[j] == spec_end_point(glyph@, j),
            decreases n - k,
        {
            let e = glyph.read_u16_at(10 + 2 * k).unwrap();
            end_pts_of_contours.push(e);
            k = k + 1;
        }

        // Skip instructions.
        let mut offset = 10 + n * 2;
        let instruction_length = glyph.read_u16_at(offset)? as usize;
        offset = offset + 2 + instruction_length;

        let number_of_points = end_pts_of_contours[n - 1] as usize + 1;

        let (flags_all, x_start) = Self::read_flags(&glyph, offset, number_of_points)?;
        let (xs, y_start) = Self::read_coords(
            &glyph,
            x_start,
            &flags_all,
            FLAGS_X_SHORT_VECTOR,
            FLAGS_X_IS_SAME_OR_POSITIVE_X_SHORT_VECTOR,
        )?;
        let (ys, _) = Self::read_coords(
            &glyph,
            y_start,
            &flags_all,
            FLAGS_Y_SHORT_VECTOR,
            FLAGS_Y_IS_SAME_OR_POSITIVE_Y_SHORT_VECTOR,
        )?;
        proof {
            lemma_flags_len(glyph@, offset as int, number_of_points as nat, 0, 0);
            lemma_coords_len(glyph@, x_start as int, flags_all@, 0, FLAGS_X_SHORT_VECTOR, FLAGS_X_IS_SAME_OR_POSITIVE_X_SHORT_VECTOR);
            lemma_coords_len(glyph@, y_start as int, flags_all@, 0, FLAGS_Y_SHORT_VECTOR, FLAGS_Y_IS_SAME_OR_POSITIVE_Y_SHORT_VECTOR);
        }

        // Collect contour ends; each must name one of the points.
        let mut k: usize = 0;
        while k < n
            invariant
                k <= n <= 32767,
                end_pts_of_contours@.len() == n,
                forall|j: int| 0 <= j < n ==> end_pts_of_contours@[j] == spec_end_point(g@, j),
                forall|j: int| 0 <= j < k ==> spec_end_point(g@, j) < number_of_points,
                g@ == glyph@,
                n == number_of_contours,
                number_of_points == spec_end_point(g@, n - 1) + 1,
                fits(glyph@.len() as int, 10, 2 * n),
                fits(glyph@.len() as int, 10 + 2 * n, 2),
            decreases n - k,
        {
            if end_pts_of_contours[k] as usize >= number_of_points {
                assert(spec_end_point(glyph@, k as int) >= number_of_points);
                return None;
            }
            k = k + 1;
        }

        let mut points: Vec<Point> = Vec::new();
        let mut p: usize = 0;
        while p < number_of_points
            invariant
                p <= number_of_points,
                flags_all@.len() == number_of_points,
                xs@.len() == number_of_points,
                ys@.len() == number_of_points,
                end_pts_of_contours@.len() == n,
                forall|j: int| 0 <= j < n ==> end_pts_of_contours@[j] == spec_end_point(g@, j),
                points@.len() == p,
                forall|q: int|
                    0 <= q < p ==> #[trigger] points@[q] == (Point {
                        on_curve: flags_all@[q] & FLAGS_ON_CURVE_POINT != 0,
                        contour_end: spec_is_contour_end(g@, n as int, q),
                        x: xs@[q],
                        y: ys@[q],
                    }),
            decreases number_of_points - p,
        {
            let mut contour_end = false;
            let mut k: usize = 0;
            while k < n
                invariant
                    k <= n,
                    end_pts_of_contours@.len() == n,
                    forall|j: int| 0 <= j < n ==> end_pts_of_contours@[j] == spec_end_point(g@, j),
                    contour_end == exists|j: int| 0 <= j < k && #[trigger] spec_end_point(g@, j) == p,
                decreases n - k,
            {
                let ghost before = contour_end;
                if end_pts_of_contours[k] as usize == p {
                    contour_end = true;
                }
                proof {
                    assert(end_pts_of_contours@[k as int] == spec_end_point(g@, k as int));
                    if contour_end {
                        if !before {
                            assert(spec_end_point(g@, k as int) == p);
                        }
                    } else {
                        assert forall|j: int| 0 <= j < k + 1 implies #[trigger] spec_end_point(g@, j) != p by {
                            if j < k {
                            } else {
                                assert(end_pts_of_contours@[j] == spec_end_point(g@, j));
                            }
                        }
                    }
                }
                k = k + 1;
            }
            let f = flags_all[p];
            points.push(Point { on_curve: f & FLAGS_ON_CURVE_POINT != 0, contour_end, x: xs[p], y: ys[p] });
            p = p + 1;
        }
        proof {
            assert(points@ =~= spec_simple_glyph(glyph@, n as int).unwrap());
        }
        Some(points)
    }

    #[verifier::spinoff_prover]
    #[verifier::rlimit(40)]
    fn lookup_composite(&self, glyph: Region<'a>) -> (r: Option<Vec<Component>>)
        ensures
            match spec_components(glyph@, 10) {
                Some(cs) => r matches Some(v) && v@ == cs,
                None => r is None,
            },
    {
        let mut components: Vec<Component> = Vec::new();
        let mut offset: usize = 10;
        let len = glyph.len();
        loop
            invariant
                len == glyph@.len(),
                offset == 10 || offset <= len,
                spec_components(glyph@, 10) == match spec_components(glyph@, offset as int) {
                    Some(rest) => Some(components@ + rest),
                    None => None,
                },
            decreases len - offset,
        {
            let ghost prev = components@;
            let (flags, glyph_index) = glyph.read_2x_u16_at(offset)?;
            let mut next = offset + 4;
            let (x, y);
            if flags & FLAGS_ARGS_ARE_XY_VALUES != 0 {
                if flags & FLAGS_ARG_1_AND_2_ARE_WORDS != 0 {
                    let (a, b) = glyph.read_2x_i16_at(next)?;
                    next = next + 4;
                    x = a;
                    y = b;
                } else {
                    let (a, b) = glyph.read_2x_u8_at(next)?;
                    next = next + 2;
                    x = a as i16;
                    y = b as i16;
                }
            } else {
                // Matching points not supported.
                return None;
            }
            let transform;
            if flags & FLAGS_WE_HAVE_A_SCALE != 0 {
                transform = Transform::Scale(glyph.read_i16_at(next)?);
                next = next + 2;
            } else if flags & FLAGS_WE_HAVE_AN_X_AND_Y_SCALE != 0 {
                let (a, b) = glyph.read_2x_i16_at(next)?;
                next = next + 4;
                transform = Transform::XYScale(a, b);
            } else if flags & FLAGS_WE_HAVE_A_TWO_BY_TWO != 0 {
                let (a, b) = glyph.read_2x_i16_at(next)?;
                let (c, d) = glyph.read_2x_i16_at(next + 4)?;
                next = next + 8;
                transform = Transform::TwoByTwo(a, b, c, d);
            } else {
                transform = Transform::Identity;
            }
            let component = Component { flags, glyph_index, x, y, transform };
            assert(spec_component(glyph@, offset as int) == Some((component, next as int)));
            components.push(component);
            proof {
                assert(components@ == prev + seq![component]);
                assert forall|rest: Seq<Component>| (prev + seq![component]) + rest == prev + (seq![component] + rest) by {
                    assert((prev + seq![component]) + rest =~= prev + (seq![component] + rest));
                }
            }
            if flags & FLAGS_MORE_COMPONENTS == 0 {
                proof {
                    assert(components@ =~= prev + seq![component]);
                }
                return Some(components);
            }
            offset = next;
        }
    }
}

/// Reading flags yields exactly as many flags as requested.
proof fn lemma_flags_len(g: Seq<u8>, offset: int, remaining: nat, repeat: int, flags: u8)
    ensures
        spec_flags(g, offset, remaining, repeat, flags) matches Some((fs, _)) ==> fs.len()
            == remaining,
    decreases remaining,
{
    if remaining > 0 {
        if repeat == 0 {
            if fits(g.len() as int, offset, 1) {
                let f = g[offset];
                if f & FLAGS_REPEAT_FLAG != 0 {
                    if fits(g.len() as int, offset + 1, 1) {
                        lemma_flags_len(g, offset + 2, (remaining - 1) as nat, g[offset + 1] as int, f);
                    }
                } else {
                    lemma_flags_len(g, offset + 1, (remaining - 1) as nat, 0, f);
                }
            }
        } else {
            lemma_flags_len(g, offset, (remaining - 1) as nat, repeat - 1, flags);
        }
    }
}

/// Reading coordinates yields one per remaining flag.
proof fn lemma_coords_len(g: Seq<u8>, offset: int, flags: Seq<u8>, i: int, short: u8, same: u8)
    requires
        0 <= i <= flags.len(),
    ensures
        spec_coords(g, offset, flags, i, short, same) matches Some((cs, _)) ==> cs.len()
            == flags.len() - i,
    decreases flags.len() - i,
{
    if i < flags.len() {
        let f = flags[i];
        if f & short != 0 {
            lemma_coords_len(g, offset + 1, flags, i + 1, short, same);
        } else if f & same == 0 {
            lemma_coords_len(g, offset + 2, flags, i + 1, short, same);
        } else {
            lemma_coords_len(g, offset, flags, i + 1, short, same);
        }
    }
}

} // verus!
