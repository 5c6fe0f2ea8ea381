use arspec::afm::class::key_class_of;
use arspec::afm::lexer::{scan, scan_integer_or_number, scan_key_standard, scan_name, scan_string};
use arspec::afm::Class;
use arspec::source::Text;

fn chars(s: &str) -> Vec<char> {
    s.chars().collect()
}

#[test]
fn numbers() {
    let s = chars("123 ");
    assert_eq!(scan_integer_or_number(&s, 1), Some((3, Class::Integer)));
    let s = chars("12.50\n");
    assert_eq!(scan_integer_or_number(&s, 1), Some((5, Class::Number)));
    let s = chars("12");
    assert_eq!(scan_integer_or_number(&s, 1), None);
}

#[test]
fn keys() {
    let s = chars("FontName Foo");
    assert_eq!(scan_key_standard(&s, 0, 1), Some((8, Class::FontName)));
    let s = chars("KPX A");
    assert_eq!(scan_key_standard(&s, 0, 1), Some((3, Class::KPX)));
    let s = chars("Font-Name x");
    assert_eq!(scan_key_standard(&s, 0, 1), Some((9, Class::InvalidKey)));
    let s = chars("Unknown x");
    assert_eq!(scan_key_standard(&s, 0, 1), Some((7, Class::InvalidKey)));
    let s = chars("Comment");
    assert_eq!(scan_key_standard(&s, 0, 1), None);
    assert_eq!(key_class_of(&chars("EndKernPairs")), Class::EndKernPairs);
}

#[test]
fn names_and_strings() {
    let s = chars("abc def");
    assert_eq!(scan_name(&s, 1), Some((3, Class::Name)));
    let s = chars("aé\tx");
    assert_eq!(scan_name(&s, 1), Some((2, Class::InvalidName)));
    let s = chars("Hello there\nNext");
    assert_eq!(scan_string(&s, 1), Some((12, Class::String)));
    let s = chars("Tab\tok\n");
    assert_eq!(scan_string(&s, 1), Some((7, Class::String)));
    let s = chars("Bad\u{1}\n");
    assert_eq!(scan_string(&s, 1), Some((5, Class::InvalidString)));
    assert_eq!(Class::Semicolon.as_str(), ";");
    assert_eq!(Class::InvalidKey.as_str(), "<InvalidKey>");
    assert!(scan(&Text::new("f.afm", "StartFontMetrics 4.1\n")).is_empty());
}
