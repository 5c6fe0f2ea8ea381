use arspec::font::loaded;
use arspec::font::{Font, FontStyle, FontWeight};
use arspec::html::{font_face_css, Style, StyleMedia};
use arspec::otf::Error as OtfError;
use arspec::svg::escape;

const NONASCII: [u16; 3] = [200, 300, 400];
const WIDTHS: [u16; 4] = [10, 20, 30, 40];
const KERN_A: [(u16, i16); 2] = [(2, -5), (9, 7)];
const KERN_B: [(u16, i16); 0] = [];
const KERNINGS: [&[(u16, i16)]; 2] = [&KERN_A, &KERN_B];

fn font() -> Font<'static> {
    Font {
        name: "Test",
        style: FontStyle::Italic,
        weight: FontWeight::Bold,
        ascender: 800,
        descender: -200,
        line_gap: 90,
        units_per_em: 1000,
        glyph_indexes_nonascii: &NONASCII,
        advance_widths: &WIDTHS,
        kernings: Some(&KERNINGS),
        source: &[],
        source_name: "test.ttf",
    }
}

#[test]
fn glyph_indexes() {
    let f = font();
    assert_eq!(f.glyph_index_of('A'), 65);
    assert_eq!(f.glyph_index_of('\u{12c}'), 128);
    assert_eq!(f.glyph_index_of('\u{190}'), 129);
    assert_eq!(f.glyph_index_of('\u{12d}'), 0);
    assert_eq!(f.glyph_index_of('\u{1f600}'), 0);
}

#[test]
fn glyph_indexes_with_repeated_characters() {
    const REPEATED: [u16; 4] = [200, 300, 300, 400];
    let mut f = font();
    f.glyph_indexes_nonascii = &REPEATED;
    let gi = f.glyph_index_of('\u{12c}');
    assert!(gi == 128 || gi == 129);
    assert_eq!(f.glyph_index_of('\u{190}'), 130);
    assert_eq!(f.glyph_index_of('\u{12d}'), 0);
    assert_eq!(f.glyph_index_of('\u{fa}'), 0);
}

#[test]
fn font_face_rules() {
    assert_eq!(
        font_face_css("Noto Sans", "NotoSans-Bold.ttf", FontStyle::Normal, FontWeight::Bold),
        "@font-face {\n  font-family: \"Noto Sans\";\n  src: \"../fonts/NotoSans-Bold.ttf\" format('truetype');\n  font-weight: \"bold\";\n}\n\n"
    );
    assert_eq!(
        font_face_css("Noto Sans", "NotoSans-Italic.ttf", FontStyle::Italic, FontWeight::Normal),
        "@font-face {\n  font-family: \"Noto Sans\";\n  src: \"../fonts/NotoSans-Italic.ttf\" format('truetype');\n  font-style: \"italic\";\n}\n\n"
    );
    assert_eq!(
        font_face_css("Mono", "m.ttf", FontStyle::Normal, FontWeight::Normal),
        "@font-face {\n  font-family: \"Mono\";\n  src: \"../fonts/m.ttf\" format('truetype');\n}\n\n"
    );
}

#[test]
fn metrics() {
    let f = font();
    assert_eq!(f.advance_width_units_of(2), 30);
    assert_eq!(f.kerning_units_between(0, 9), 7);
    assert_eq!(f.kerning_units_between(0, 3), 0);
    assert_eq!(f.kerning_units_between(1, 2), 0);
    assert_eq!(f.kerning_units_between(5, 2), 0);
    assert_eq!(f.line_height_units(), 1090);
    assert_eq!(f.style.as_str(), "italic");
    assert_eq!(f.weight.as_str(), "bold");
    assert_eq!(FontStyle::Normal.as_str(), "normal");
}

#[test]
fn loaded_font_needs_a_font_file() {
    match loaded::Font::try_from(&[0, 1, 0, 0]) {
        Err(loaded::Error::OTF(e)) => assert_eq!(e, OtfError::SFNT),
        Ok(_) => panic!("expected an error"),
    }
    assert_eq!(loaded::Error::from(OtfError::CMAP), loaded::Error::OTF(OtfError::CMAP));
}

#[test]
fn style_links() {
    let s = Style { path: "styles/print.css", media: StyleMedia::PRINT };
    assert_eq!(
        s.to_html(),
        "<link rel=\"stylesheet\" type=\"text/css\" href=\"styles/print.css\" media=\"print\" />"
    );
    let s = Style { path: "a.css", media: StyleMedia::ALL };
    assert_eq!(s.to_html(), "<link rel=\"stylesheet\" type=\"text/css\" href=\"a.css\" />");
}

#[test]
fn svg_escapes_angles() {
    assert_eq!(escape("Map<String, List<X>>"), "Map&lt;String, List&lt;X&gt;&gt;");
    assert_eq!(escape("plain"), "plain");
}

#[test]
fn page_heads() {
    let styles = [
        Style { path: "styles/fonts.css", media: StyleMedia::ALL },
        Style { path: "styles/print.css", media: StyleMedia::PRINT },
    ];
    assert_eq!(
        arspec::html::page_head("Sys", &["scripts/main.js"], &styles),
        "<!DOCTYPE html>\n<html lang=\"en-US\">\n<head>\n  <meta charset=\"utf-8\">\n  <title>Sys</title>\n  <script src=\"scripts/main.js\"></script>  <link rel=\"stylesheet\" type=\"text/css\" href=\"styles/fonts.css\" />\n  <link rel=\"stylesheet\" type=\"text/css\" href=\"styles/print.css\" media=\"print\" />\n</head>\n<body>\n"
    );
    assert_eq!(
        arspec::html::page_head("X", &[], &[]),
        "<!DOCTYPE html>\n<html lang=\"en-US\">\n<head>\n  <meta charset=\"utf-8\">\n  <title>X</title>\n</head>\n<body>\n"
    );
}
