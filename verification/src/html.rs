//! HTML documents: the style sheets that pages link to, and the font rules
//! of the style sheet that names the fonts.

use crate::font::{FontStyle, FontWeight};
use vstd::prelude::*;
use vstd::string::{StrSliceExecFns, StringExecFns};

verus! {

/// The media a style sheet applies to.
#[derive(Copy, Clone, Debug, Eq, PartialEq, Structural)]
pub enum StyleMedia {
    ALL,
    PRINT,
    SCREEN,
}

/// A style sheet that a page links to.
pub struct Style<'a> {
    /// Path of the style sheet.
    pub path: &'a str,
    /// The media it applies to.
    pub media: StyleMedia,
}

/// The attribute that restricts a style sheet to `media`.
pub open spec fn media_attribute(media: StyleMedia) -> Seq<char> {
    match media {
        StyleMedia::ALL => ""@,
        StyleMedia::PRINT => " media=\"print\""@,
        StyleMedia::SCREEN => " media=\"screen\""@,
    }
}

/// The `link` element of style sheet `path` for `media`.
pub open spec fn style_link(path: Seq<char>, media: StyleMedia) -> Seq<char> {
    "<link rel=\"stylesheet\" type=\"text/css\" href=\""@ + path + "\""@ + media_attribute(media)
        + " />"@
}

/// The `@font-face` rule of the font `name`, whose file `source_name` lies
/// in the `fonts` directory beside the style sheet; style and weight are
/// written only where they differ from normal.
pub open spec fn font_face_rule(
    name: Seq<char>,
    source_name: Seq<char>,
    style: FontStyle,
    weight: FontWeight,
) -> Seq<char> {
    "@font-face {\n  font-family: \""@ + name + "\";\n  src: \"../fonts/"@ + source_name
        + "\" format('truetype');\n"@ + match style {
        FontStyle::Normal => ""@,
        FontStyle::Italic => "  font-style: \""@ + "italic"@ + "\";\n"@,
    } + match weight {
        FontWeight::Normal => ""@,
        FontWeight::Bold => "  font-weight: \""@ + "bold"@ + "\";\n"@,
    } + "}\n\n"@
}

/// Writes the `@font-face` rule of a font (see [`font_face_rule`]).
pub fn font_face_css(name: &str, source_name: &str, style: FontStyle, weight: FontWeight) -> (r:
    String)
    ensures
        r@ == font_face_rule(name@, source_name@, style, weight),
{
    let mut out = String::new();
    out.append("@font-face {\n  font-family: \"");
    out.append(name);
    out.append("\";\n  src: \"../fonts/");
    out.append(source_name);
    out.append("\" format('truetype');\n");
    proof {
        reveal_strlit("");
    }
    let ghost head = out@;
    if style != FontStyle::Normal {
        out.append("  font-style: \"");
        out.append(style.as_str());
        out.append("\";\n");
        assert(out@ =~= head + ("  font-style: \""@ + "italic"@ + "\";\n"@));
    } else {
        assert(out@ =~= head + ""@);
    }
    let ghost head = out@;
    if weight != FontWeight::Normal {
        out.append("  font-weight: \"");
        out.append(weight.as_str());
        out.append("\";\n");
        assert(out@ =~= head + ("  font-weight: \""@ + "bold"@ + "\";\n"@));
    } else {
        assert(out@ =~= head + ""@);
    }
    out.append("}\n\n");
    out
}

impl<'a> Style<'a> {
    /// The `link` element that links a page to this style sheet.
    pub fn to_html(&self) -> (r: String)
        ensures
            r@ == style_link(self.path@, self.media),
    {
        let mut out = String::new();
        out.append("<link rel=\"stylesheet\" type=\"text/css\" href=\"");
        out.append(self.path);
        out.append("\"");
        out.append(
            match self.media {
                StyleMedia::ALL => "",
                StyleMedia::PRINT => " media=\"print\"",
                StyleMedia::SCREEN => " media=\"screen\"",
            },
        );
        out.append(" />");
        out
    }
}

/// The `script` elements of the pages, one after the other on one line.
pub open spec fn scripts_text(scripts: Seq<Seq<char>>) -> Seq<char>
    decreases scripts.len(),
{
    if scripts.len() == 0 {
        Seq::empty()
    } else {
        scripts_text(scripts.drop_last()) + "  <script src=\""@ + scripts.last() + "\"></script>"@
    }
}

/// The `link` elements of the style sheets, one per line.
pub open spec fn styles_text(styles: Seq<Style>) -> Seq<char>
    decreases styles.len(),
{
    if styles.len() == 0 {
        Seq::empty()
    } else {
        styles_text(styles.drop_last()) + "  "@ + style_link(
            styles.last().path@,
            styles.last().media,
        ) + "\n"@
    }
}

/// The start of the page titled `name`, up to the opening of its body:
/// document type, title, scripts and style sheets.
pub open spec fn page_head_text(name: Seq<char>, scripts: Seq<Seq<char>>, styles: Seq<Style>) -> Seq<
    char,
> {
    "<!DOCTYPE html>\n<html lang=\"en-US\">\n<head>\n  <meta charset=\"utf-8\">\n  <title>"@ + name
        + "</title>\n"@ + scripts_text(scripts) + styles_text(styles) + "</head>\n<body>\n"@
}

/// Writes the start of the page titled `name` (see [`page_head_text`]).
pub fn page_head(name: &str, scripts: &[&str], styles: &[Style]) -> (r: String)
    ensures
        r@ == page_head_text(name@, scripts@.map_values(|s: &str| s@), styles@),
{
    let mut out = String::new();
    out.append("<!DOCTYPE html>\n<html lang=\"en-US\">\n<head>\n  <meta charset=\"utf-8\">\n  <title>");
    out.append(name);
    out.append("</title>\n");
    let ghost head = out@;
    let mut i: usize = 0;
    while i < scripts.len()
        invariant
            i <= scripts@.len(),
            out@ == head + scripts_text(scripts@.map_values(|s: &str| s@).take(i as int)),
        decreases scripts@.len() - i,
    {
        let ghost before = out@;
        out.append("  <script src=\"");
        out.append(scripts[i]);
        out.append("\"></script>");
        proof {
            let all = scripts@.map_values(|s: &str| s@);
            assert(all.take(i + 1).drop_last() =~= all.take(i as int));
            assert(all.take(i + 1).last() == scripts@[i as int]@);
            assert(out@ =~= before + "  <script src=\""@ + scripts@[i as int]@ + "\"></script>"@);
        }
        i = i + 1;
    }
    proof {
        assert(scripts@.map_values(|s: &str| s@).take(scripts@.len() as int) =~= scripts@.map_values(
            |s: &str| s@,
        ));
    }
    let ghost head = out@;
    let mut i: usize = 0;
    while i < styles.len()
        invariant
            i <= styles@.len(),
            out@ == head + styles_text(styles@.take(i as int)),
        decreases styles@.len() - i,
    {
        let ghost before = out@;
        out.append("  ");
        let link = styles[i].to_html();
        out.append(link.as_str());
        out.append("\n");
        proof {
            assert(styles@.take(i + 1).drop_last() =~= styles@.take(i as int));
            assert(styles@.take(i + 1).last() == styles@[i as int]);
            assert(out@ =~= before + "  "@ + style_link(styles@[i as int].path@, styles@[i as int].media)
                + "\n"@);
        }
        i = i + 1;
    }
    proof {
        assert(styles@.take(styles@.len() as int) =~= styles@);
    }
    out.append("</head>\n<body>\n");
    out
}

} // verus!
