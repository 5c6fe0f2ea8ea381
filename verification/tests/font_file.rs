use arspec::font::loaded;
use arspec::otf::glyf::Glyph;
use arspec::otf::{Error, FontFile};

struct Parts {
    head: Vec<u8>,
    hhea: Vec<u8>,
    maxp: Vec<u8>,
    hmtx: Vec<u8>,
    loca: Vec<u8>,
    glyf: Vec<u8>,
    kern: Vec<u8>,
    cmap: Vec<u8>,
}

fn put16(b: &mut [u8], at: usize, v: u16) {
    b[at..at + 2].copy_from_slice(&v.to_be_bytes());
}

fn parts() -> Parts {
    let mut head = vec![0u8; 54];
    put16(&mut head, 0, 1);
    head[12..16].copy_from_slice(&0x5F0F3CF5u32.to_be_bytes());
    put16(&mut head, 18, 1000);
    put16(&mut head, 44, 3);
    let mut hhea = vec![0u8; 36];
    put16(&mut hhea, 0, 1);
    put16(&mut hhea, 4, 800);
    put16(&mut hhea, 6, (-200i16) as u16);
    put16(&mut hhea, 8, 90);
    put16(&mut hhea, 10, 600);
    put16(&mut hhea, 34, 2);
    let mut maxp = vec![0u8; 6];
    maxp[0..4].copy_from_slice(&0x00005000u32.to_be_bytes());
    put16(&mut maxp, 4, 3);
    let hmtx = vec![1, 244, 0, 0, 2, 88, 0, 0, 0, 0];
    let loca = vec![0u8; 8];
    let glyf = Vec::new();
    let mut kern = vec![0, 0, 0, 1, 0, 0, 0, 20, 0, 1, 0, 1, 0, 0, 0, 0, 0, 0];
    kern.extend_from_slice(&[0, 0, 0, 1]);
    kern.extend_from_slice(&(-50i16).to_be_bytes());
    let mut cmap = vec![0, 0, 0, 1, 0, 3, 0, 10, 0, 0, 0, 12];
    cmap.extend_from_slice(&[0, 12, 0, 0, 0, 0, 0, 28, 0, 0, 0, 0, 0, 0, 0, 1]);
    for v in [65u32, 70, 0].iter() {
        cmap.extend_from_slice(&v.to_be_bytes());
    }
    Parts { head, hhea, maxp, hmtx, loca, glyf, kern, cmap }
}

fn build(p: &Parts) -> Vec<u8> {
    let tables: [(&[u8; 4], &Vec<u8>); 8] = [
        (b"head", &p.head),
        (b"hhea", &p.hhea),
        (b"maxp", &p.maxp),
        (b"hmtx", &p.hmtx),
        (b"loca", &p.loca),
        (b"glyf", &p.glyf),
        (b"kern", &p.kern),
        (b"cmap", &p.cmap),
    ];
    let mut out = vec![0, 1, 0, 0, 0, 8, 0, 0, 0, 0, 0, 0];
    let mut offset = 12 + 16 * tables.len();
    for (tag, data) in tables.iter() {
        out.extend_from_slice(&tag[..]);
        out.extend_from_slice(&[0, 0, 0, 0]);
        out.extend_from_slice(&(offset as u32).to_be_bytes());
        out.extend_from_slice(&(data.len() as u32).to_be_bytes());
        offset += data.len();
    }
    for (_, data) in tables.iter() {
        out.extend_from_slice(data);
    }
    out
}

fn error_of(bytes: &[u8]) -> Option<Error> {
    FontFile::try_new(bytes).err()
}

#[test]
fn font_file_reads_tables() {
    let bytes = build(&parts());
    let file = FontFile::try_new(&bytes).ok().unwrap();
    assert_eq!(file.as_bytes().len(), bytes.len());
    assert_eq!(file.head().units_per_em(), 1000);
    assert!(file.head().mac_style_bold());
    assert!(file.head().mac_style_italic());
    assert_eq!(file.hhea().ascender(), 800);
    assert_eq!(file.hhea().descender(), -200);
    assert_eq!(file.maxp().num_glyphs(), 3);
    assert!(file.kern().is_some());
    assert_eq!(file.cmap().lookup('B'), 1);
    assert!(FontFile::try_from(&bytes).is_some());
}

#[test]
fn font_file_errors() {
    let mut bytes = build(&parts());
    bytes[0] = 9;
    assert_eq!(error_of(&bytes), Some(Error::SFNT));
    assert!(FontFile::try_from(&bytes).is_some());

    let mut p = parts();
    p.head[12] = 0;
    assert_eq!(error_of(&build(&p)), Some(Error::HEAD));

    let mut p = parts();
    put16(&mut p.hhea, 0, 0);
    assert_eq!(error_of(&build(&p)), Some(Error::HHEA));

    let mut p = parts();
    put16(&mut p.head, 50, 2);
    assert_eq!(error_of(&build(&p)), Some(Error::LOCA));

    let mut p = parts();
    p.maxp[2] = 0x51;
    assert_eq!(error_of(&build(&p)), Some(Error::MAXP));

    let mut p = parts();
    put16(&mut p.hhea, 34, 5);
    assert_eq!(error_of(&build(&p)), Some(Error::HMTX));

    let mut p = parts();
    p.cmap[5] = 1;
    assert_eq!(error_of(&build(&p)), Some(Error::CMAP));

    let mut bytes = build(&parts());
    bytes[12] = b'x';
    assert_eq!(error_of(&bytes), Some(Error::SFNT));
}

#[test]
fn kern_table_never_decides_reading() {
    let mut p = parts();
    p.kern = vec![9, 9, 9];
    let bytes = build(&p);
    let file = FontFile::try_new(&bytes).ok().unwrap();
    assert!(file.kern().is_none());
    let mut p = parts();
    p.kern = Vec::new();
    assert!(FontFile::try_new(&build(&p)).is_ok());
    let mut p = parts();
    p.kern = vec![9, 9, 9];
    p.head[12] = 0;
    assert_eq!(error_of(&build(&p)), Some(Error::HEAD));
}

#[test]
fn kern_subtable_rule_depends_on_reader() {
    let mut p = parts();
    p.kern[9] = 3;
    let bytes = build(&p);
    assert!(FontFile::try_new(&bytes).ok().unwrap().kern().is_some());
    assert!(FontFile::try_from(&bytes).unwrap().kern().is_none());
    let font = loaded::Font::try_from(&bytes).ok().unwrap();
    assert_eq!(font.kerning_units_between('A', 'B'), 0);
}

#[test]
fn loaded_font_ignores_version() {
    let mut bytes = build(&parts());
    bytes[0] = 9;
    assert!(loaded::Font::try_from(&bytes).is_ok());
}

fn simple_glyph() -> Vec<u8> {
    vec![0, 1, 0, 0, 0, 0, 0, 0, 0, 0, 0, 1, 0, 0, 0x37, 0x37, 5, 3, 7, 1]
}

fn points_of(file: &FontFile, i: usize) -> Option<usize> {
    match file.glyf().lookup(i) {
        Some(Glyph::Simple(points)) => Some(points.len()),
        _ => None,
    }
}

#[test]
fn glyphs_located_in_either_loca_format() {
    let mut p = parts();
    p.glyf = simple_glyph();
    p.loca = vec![0, 0, 0, 10, 0, 10, 0, 20];
    let bytes = build(&p);
    let file = FontFile::try_new(&bytes).ok().unwrap();
    assert_eq!(points_of(&file, 0), Some(2));
    assert_eq!(points_of(&file, 1), None);
    assert_eq!(points_of(&file, 2), None);
    assert_eq!(points_of(&file, 3), None);

    let mut p = parts();
    p.glyf = simple_glyph();
    put16(&mut p.head, 50, 1);
    p.loca = vec![0, 0, 0, 0, 0, 0, 0, 20, 0, 0, 0, 20];
    let bytes = build(&p);
    let file = FontFile::try_new(&bytes).ok().unwrap();
    assert_eq!(points_of(&file, 0), Some(2));
    assert_eq!(points_of(&file, 1), None);
    assert_eq!(points_of(&file, 2), None);
}

#[test]
fn loaded_font_metrics() {
    let bytes = build(&parts());
    let font = loaded::Font::try_from(&bytes).ok().unwrap();
    assert_eq!(font.units_per_em(), 1000);
    assert_eq!(font.line_height_units(), 1090);
    assert_eq!(font.glyph_index_of('A'), 0);
    assert_eq!(font.glyph_index_of('B'), 1);
    assert_eq!(font.glyph_index_of('z'), 0);
    assert_eq!(font.advance_width_units_of('A'), 500);
    assert_eq!(font.advance_width_units_of('B'), 600);
    assert_eq!(font.advance_width_units_of('D'), 600);
    assert_eq!(font.kerning_units_between('A', 'B'), -50);
    assert_eq!(font.kerning_units_between('B', 'A'), 0);
}
