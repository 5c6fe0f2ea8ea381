use arspec::otf::cmap::CharacterToGlyphIndexMappingTable;
use arspec::otf::hmtx::HorizontalMetricsTable;
use arspec::otf::kern::KerningTable;
use arspec::otf::region::Region;

fn kern_bytes() -> Vec<u8> {
    let pairs: [(u16, u16, i16); 3] = [(1, 2, -50), (1, 5, 30), (3, 4, -7)];
    let mut b = vec![0, 0, 0, 1];
    let length = 14 + 6 * pairs.len() as u16;
    b.extend_from_slice(&[0, 0]);
    b.extend_from_slice(&length.to_be_bytes());
    b.extend_from_slice(&[0, 1]);
    b.extend_from_slice(&(pairs.len() as u16).to_be_bytes());
    b.extend_from_slice(&[0, 0, 0, 0, 0, 0]);
    for (l, r, v) in pairs.iter() {
        b.extend_from_slice(&l.to_be_bytes());
        b.extend_from_slice(&r.to_be_bytes());
        b.extend_from_slice(&v.to_be_bytes());
    }
    b
}

#[test]
fn kern_lookup_finds_sorted_pairs() {
    let bytes = kern_bytes();
    let kern = KerningTable::try_new(Region::new(&bytes)).unwrap();
    assert_eq!(kern.lookup(1, 2), -50);
    assert_eq!(kern.lookup(1, 5), 30);
    assert_eq!(kern.lookup(3, 4), -7);
    assert_eq!(kern.lookup(2, 2), 0);
    assert_eq!(kern.lookup(70000, 1), 0);
}

#[test]
fn kern_iter_walks_pairs() {
    let bytes = kern_bytes();
    let kern = KerningTable::try_new(Region::new(&bytes)).unwrap();
    let mut iter = kern.iter();
    assert_eq!(iter.next(), Some((1, 2, -50)));
    assert_eq!(iter.next(), Some((1, 5, 30)));
    assert_eq!(iter.next(), Some((3, 4, -7)));
    assert_eq!(iter.next(), None);
}

#[test]
fn kern_without_horizontal_subtable_is_refused() {
    let mut bytes = kern_bytes();
    bytes[9] = 0;
    assert!(KerningTable::try_new(Region::new(&bytes)).is_none());
    let mut bytes = kern_bytes();
    bytes[1] = 1;
    assert!(KerningTable::try_new(Region::new(&bytes)).is_none());
}

#[test]
fn kern_yielded_pairs_are_found() {
    let bytes = kern_bytes();
    let kern = KerningTable::try_new(Region::new(&bytes)).unwrap();
    let mut iter = kern.iter();
    let mut count = 0;
    while let Some((l, r, v)) = iter.next() {
        assert_eq!(kern.lookup(l as u32, r as u32), v);
        count += 1;
    }
    assert_eq!(count, 3);
}

#[test]
fn kern_coverage_rules_differ_on_other_flags() {
    let mut bytes = kern_bytes();
    bytes[9] = 3;
    assert!(KerningTable::try_new(Region::new(&bytes)).is_some());
    assert!(KerningTable::try_new_exact(Region::new(&bytes)).is_none());
    let bytes = kern_bytes();
    let kern = KerningTable::try_new_exact(Region::new(&bytes)).unwrap();
    assert_eq!(kern.lookup(1, 5), 30);
}

fn cmap12_bytes(format: u8) -> Vec<u8> {
    let mut b = vec![0, 0, 0, 1, 0, 3, 0, 10, 0, 0, 0, 12];
    b.extend_from_slice(&[0, format, 0, 0, 0, 0, 0, 40, 0, 0, 0, 0, 0, 0, 0, 2]);
    for (start, end, glyph) in [(65u32, 70u32, 10u32), (100, 100, 20)].iter() {
        b.extend_from_slice(&start.to_be_bytes());
        b.extend_from_slice(&end.to_be_bytes());
        b.extend_from_slice(&glyph.to_be_bytes());
    }
    b
}

#[test]
fn cmap_format12_maps_groups() {
    let bytes = cmap12_bytes(12);
    let file = Region::new(&bytes);
    let cmap = CharacterToGlyphIndexMappingTable::try_new(&file, Region::new(&bytes)).unwrap();
    assert_eq!(cmap.lookup('A'), 10);
    assert_eq!(cmap.lookup('C'), 12);
    assert_eq!(cmap.lookup('d'), 20);
    assert_eq!(cmap.lookup('z'), 0);
    assert_eq!(cmap.lookup('@'), 0);
}

#[test]
fn cmap_format13_maps_groups_to_one_glyph() {
    let bytes = cmap12_bytes(13);
    let file = Region::new(&bytes);
    let cmap = CharacterToGlyphIndexMappingTable::try_new(&file, Region::new(&bytes)).unwrap();
    assert_eq!(cmap.lookup('A'), 10);
    assert_eq!(cmap.lookup('C'), 10);
    assert_eq!(cmap.lookup('d'), 20);
}

fn cmap4_bytes() -> Vec<u8> {
    let mut b = vec![0, 0, 0, 1, 0, 3, 0, 1, 0, 0, 0, 12];
    let words: [u16; 22] = [
        4, 44, 0, 6, 4, 1, 2, // header: segCountX2 6, searchRange 4, entrySelector 1, rangeShift 2
        0x42, 0x63, 0xffff, 0, // end codes, pad
        0x41, 0x61, 0xffff, // start codes
        5, 10, 1, // deltas
        6, 0, 0, // range offsets
        10, 0, // glyph ids
    ];
    for w in words.iter() {
        b.extend_from_slice(&w.to_be_bytes());
    }
    b
}

#[test]
fn cmap_format4_adds_delta_to_glyphs_from_the_array() {
    let bytes = cmap4_bytes();
    let file = Region::new(&bytes);
    let cmap = CharacterToGlyphIndexMappingTable::try_new(&file, Region::new(&bytes)).unwrap();
    assert_eq!(cmap.lookup('A'), 15);
    assert_eq!(cmap.lookup('B'), 0);
    assert_eq!(cmap.lookup('a'), 107);
    assert_eq!(cmap.lookup('c'), 109);
    assert_eq!(cmap.lookup('C'), 0);
    assert_eq!(cmap.lookup('z'), 0);
    assert_eq!(cmap.lookup('\u{1f600}'), 0);
}

#[test]
fn cmap_without_unicode_record_is_refused() {
    let mut bytes = cmap12_bytes(12);
    bytes[5] = 1;
    let file = Region::new(&bytes);
    assert!(CharacterToGlyphIndexMappingTable::try_new(&file, Region::new(&bytes)).is_none());
}

#[test]
fn hmtx_repeats_last_advance_width() {
    let bytes = [0u8, 100, 0, 5, 0, 200, 255, 254, 0, 7];
    let hmtx = HorizontalMetricsTable::try_new(3, 2, Region::new(&bytes)).unwrap();
    let m = hmtx.lookup(0).unwrap();
    assert_eq!((m.advance_width, m.lsb), (100, 5));
    let m = hmtx.lookup(1).unwrap();
    assert_eq!((m.advance_width, m.lsb), (200, -2));
    let m = hmtx.lookup(2).unwrap();
    assert_eq!((m.advance_width, m.lsb), (200, 7));
    assert!(hmtx.lookup(3).is_none());
    assert!(HorizontalMetricsTable::try_new(1, 2, Region::new(&bytes)).is_none());
}

#[test]
fn region_reads_big_endian() {
    let bytes = [0x12u8, 0x34, 0x56, 0x78, 0xff, 0xfe];
    let r = Region::new(&bytes);
    assert_eq!(r.len(), 6);
    assert_eq!(r.read_u16_at(0), Some(0x1234));
    assert_eq!(r.read_u32_at(0), Some(0x12345678));
    assert_eq!(r.read_i16_at(4), Some(-2));
    assert_eq!(r.read_u16_at(5), None);
    let sub = r.subregion(2..6).unwrap();
    assert_eq!(sub.read_u16_at(0), Some(0x5678));
    assert!(r.subregion(4..8).is_none());
}
