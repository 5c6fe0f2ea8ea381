use arspec::otf::glyf::{Component, Glyph, GlyphDataTable, Transform};
use arspec::otf::loca::IndexToLocation;
use arspec::otf::region::Region;

fn glyphs() -> Vec<u8> {
    let mut g = vec![0, 1, 0, 0, 0, 0, 0, 0, 0, 0];
    g.extend_from_slice(&[0, 1, 0, 0]);
    g.extend_from_slice(&[0x37, 0x37, 5, 3, 7, 1]);
    g.extend_from_slice(&[0xff, 0xff, 0, 0, 0, 0, 0, 0, 0, 0]);
    g.extend_from_slice(&[0, 0x0a, 0, 0, 3, 4, 0x40, 0]);
    g
}

#[test]
fn simple_and_composite_glyphs() {
    let g = glyphs();
    let loca_bytes = [0u8, 0, 0, 10, 0, 19];
    let loca = IndexToLocation::try_new(Region::new(&loca_bytes), 0).unwrap();
    assert_eq!(loca.lookup(0), Some(0..20));
    assert_eq!(loca.lookup(1), Some(20..38));
    assert_eq!(loca.lookup(2), None);
    let table = GlyphDataTable::new(Region::new(&g), loca);
    match table.lookup(0) {
        Some(Glyph::Simple(points)) => {
            assert_eq!(points.len(), 2);
            assert!(points[0].on_curve && !points[0].contour_end);
            assert_eq!((points[0].x, points[0].y), (5, 7));
            assert!(points[1].on_curve && points[1].contour_end);
            assert_eq!((points[1].x, points[1].y), (3, 1));
        }
        _ => panic!("expected a simple glyph"),
    }
    match table.lookup(1) {
        Some(Glyph::Composite(components)) => {
            assert_eq!(components.len(), 1);
            let c: Component = components[0];
            assert_eq!((c.flags, c.glyph_index, c.x, c.y), (0x0a, 0, 3, 4));
            assert!(c.transform == Transform::Scale(0x4000));
        }
        _ => panic!("expected a composite glyph"),
    }
    assert!(IndexToLocation::try_new(Region::new(&loca_bytes), 2).is_none());
}
