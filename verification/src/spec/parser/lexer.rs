//! Lexical analysis of specification source texts.

use super::class::Class;
use crate::source::{
    Text,
    Token,
    char_is_alphabetic,
    char_is_alphanumeric,
    char_is_whitespace,
    chars_eq,
    is_alphabetic,
    is_alphanumeric,
    is_whitespace,
};
use vstd::prelude::*;

verus! {

/// Sets of characters that the lexer skips over.
#[derive(Copy, Clone, PartialEq, Eq, Structural)]
pub enum CharSet {
    /// `0` to `9`.
    Digit,
    /// `0` and `1`.
    Binary,
    /// `0` to `7`.
    Octal,
    /// `0` to `9`, `A` to `F` and `a` to `f`.
    Hex,
    /// Alphanumeric characters and `_`.
    Ident,
    /// Any character but `\r` and `\n`.
    NotNewline,
    /// `A` to `Z` and `a` to `z`.
    AsciiAlphabetic,
}

/// Whether `c` is a decimal digit.
pub open spec fn is_digit(c: char) -> bool {
    '0' <= c <= '9'
}

/// Whether `c` is a hexadecimal digit.
pub open spec fn is_hex(c: char) -> bool {
    is_digit(c) || ('A' <= c <= 'F') || ('a' <= c <= 'f')
}

/// Whether `c` belongs to `set`.
pub open spec fn in_set(set: CharSet, c: char) -> bool {
    match set {
        CharSet::Digit => is_digit(c),
        CharSet::Binary => c == '0' || c == '1',
        CharSet::Octal => '0' <= c <= '7',
        CharSet::Hex => is_hex(c),
        CharSet::Ident => char_is_alphanumeric(c) || c == '_',
        CharSet::NotNewline => c != '\r' && c != '\n',
        CharSet::AsciiAlphabetic => ('A' <= c <= 'Z') || ('a' <= c <= 'z'),
    }
}

/// Index of the first character at or after `i` that is not in `set`, or the
/// length of `s` if there is none.
pub open spec fn skip_set(s: Seq<char>, i: int, set: CharSet) -> int
    decreases s.len() - i,
{
    if i >= s.len() {
        i
    } else if in_set(set, s[i]) {
        skip_set(s, i + 1, set)
    } else {
        i
    }
}

/// End and class of a number whose remaining digits start at `q`; `None` if
/// the text ends first.
pub open spec fn spec_number(s: Seq<char>, q: int) -> Option<(int, Class)> {
    let i1 = skip_set(s, q, CharSet::Digit);
    if i1 >= s.len() {
        None
    } else {
        let t = if s[i1] == '.' {
            skip_set(s, i1 + 1, CharSet::Digit)
        } else {
            i1
        };
        let is_float = s[i1] == '.';
        if t >= s.len() {
            None
        } else if s[t] == 'E' || s[t] == 'e' {
            let u = t + 1;
            if u >= s.len() {
                None
            } else {
                let v = if s[u] == '+' || s[u] == '-' {
                    u + 1
                } else {
                    u
                };
                if v >= s.len() {
                    None
                } else {
                    let w = skip_set(s, v, CharSet::Digit);
                    if w >= s.len() {
                        None
                    } else {
                        Some((w, Class::Float))
                    }
                }
            }
        } else {
            Some(
                (
                    t,
                    if is_float {
                        Class::Float
                    } else {
                        Class::Integer
                    },
                ),
            )
        }
    }
}

/// End and class of a number starting with `0` at `q - 1`.
pub open spec fn spec_radix_number(s: Seq<char>, q: int) -> Option<(int, Class)> {
    if q >= s.len() {
        None
    } else {
        let c = s[q];
        let set = if c == 'b' {
            CharSet::Binary
        } else if c == 'c' {
            CharSet::Octal
        } else {
            CharSet::Hex
        };
        if c == 'b' || c == 'c' || c == 'x' {
            let r = skip_set(s, q + 1, set);
            if r >= s.len() {
                None
            } else {
                Some((r, Class::Integer))
            }
        } else if is_digit(c) {
            spec_number(s, q + 1)
        } else {
            Some((q, Class::Integer))
        }
    }
}

/// Class of a symbol made of the characters `w`.
pub open spec fn spec_keyword(w: Seq<char>) -> Class {
    if w == "consumes"@ {
        Class::Consumes
    } else if w == "enum"@ {
        Class::Enum
    } else if w == "implement"@ {
        Class::Implement
    } else if w == "interface"@ {
        Class::Interface
    } else if w == "method"@ {
        Class::Method
    } else if w == "primitive"@ {
        Class::Primitive
    } else if w == "produces"@ {
        Class::Produces
    } else if w == "property"@ {
        Class::Property
    } else if w == "record"@ {
        Class::Record
    } else if w == "service"@ {
        Class::Service
    } else if w == "system"@ {
        Class::System
    } else if w == "using"@ {
        Class::Using
    } else if w == "null"@ {
        Class::Null
    } else if w == "true"@ || w == "false"@ {
        Class::Boolean
    } else if w == "inf"@ || w == "+inf"@ || w == "-inf"@ || w == "NaN"@ {
        Class::Float
    } else if w == "+"@ || w == "-"@ {
        Class::InvalidSymbolChar
    } else {
        Class::Identifier
    }
}

/// End and class of a symbol starting at `start` whose first letter, after
/// any sign, is at `c`.
pub open spec fn spec_symbol(s: Seq<char>, start: int, c: int) -> Option<(int, Class)> {
    let ch = s[c];
    if !(char_is_alphabetic(ch) || ch == '_') {
        Some((c + 1, Class::InvalidSymbolChar))
    } else {
        let e = skip_set(s, c + 1, CharSet::Ident);
        if e >= s.len() {
            None
        } else {
            Some((e, spec_keyword(s.subrange(start, e))))
        }
    }
}

/// End and class of a number or symbol starting with a sign at `q - 1`.
pub open spec fn spec_number_or_symbol(s: Seq<char>, q: int) -> Option<(int, Class)> {
    if q >= s.len() {
        None
    } else {
        let c = s[q];
        if is_digit(c) {
            spec_number(s, q + 1)
        } else if char_is_whitespace(c) {
            Some((q, Class::InvalidSymbolChar))
        } else {
            spec_symbol(s, q - 1, q)
        }
    }
}

/// Position after the up to `i` hexadecimal digits of a `\u` escape read
/// from `pos`, and the class of the string so far; a quote ends the escape
/// early without being consumed, and any other non-digit is consumed and
/// makes the string invalid.
pub open spec fn spec_unicode_escape(s: Seq<char>, pos: int, i: nat, class: Class) -> Option<
    (int, Class),
>
    decreases i,
{
    if i == 0 {
        Some((pos, class))
    } else if pos >= s.len() {
        None
    } else {
        let ch = s[pos];
        if is_hex(ch) {
            spec_unicode_escape(s, pos + 1, (i - 1) as nat, class)
        } else if ch == '"' {
            spec_unicode_escape(s, pos, (i - 1) as nat, Class::InvalidStringEscape)
        } else {
            spec_unicode_escape(s, pos + 1, (i - 1) as nat, Class::InvalidStringEscape)
        }
    }
}

/// Consuming a `\u` escape never moves backwards.
pub proof fn lemma_unicode_escape_advances(s: Seq<char>, pos: int, i: nat, class: Class)
    ensures
        spec_unicode_escape(s, pos, i, class) matches Some((e, _)) ==> pos <= e <= pos + i,
    decreases i,
{
    if i > 0 && pos < s.len() {
        let ch = s[pos];
        if is_hex(ch) {
            lemma_unicode_escape_advances(s, pos + 1, (i - 1) as nat, class);
        } else if ch == '"' {
            lemma_unicode_escape_advances(s, pos, (i - 1) as nat, Class::InvalidStringEscape);
        } else {
            lemma_unicode_escape_advances(s, pos + 1, (i - 1) as nat, Class::InvalidStringEscape);
        }
    }
}

/// End and class of a string whose body continues at `pos`.
pub open spec fn spec_string(s: Seq<char>, pos: int, class: Class) -> Option<(int, Class)>
    decreases s.len() - pos,
{
    if pos >= s.len() {
        None
    } else {
        let ch = s[pos];
        if ch == '"' {
            Some((pos + 1, class))
        } else if ch == '\\' {
            if pos + 1 >= s.len() {
                None
            } else {
                let e = s[pos + 1];
                if e == '"' || e == '\\' || e == 'n' || e == 'r' || e == 't' {
                    spec_string(s, pos + 2, class)
                } else if e == 'u' {
                    match spec_unicode_escape(s, pos + 2, 4, class) {
                        None => None,
                        Some((next, c)) => if next <= pos || next > s.len() {
                            None
                        } else {
                            spec_string(s, next, c)
                        },
                    }
                } else {
                    spec_string(s, pos + 2, Class::InvalidStringEscape)
                }
            }
        } else {
            spec_string(s, pos + 1, class)
        }
    }
}

/// Position just after the `*/` ending a block comment, searching from `i`.
pub open spec fn spec_block_comment_end(s: Seq<char>, i: int) -> Option<int>
    decreases s.len() - i,
{
    if i >= s.len() {
        None
    } else if s[i] == '*' {
        if i + 1 >= s.len() {
            None
        } else if s[i + 1] == '/' {
            Some(i + 2)
        } else {
            spec_block_comment_end(s, i + 2)
        }
    } else {
        spec_block_comment_end(s, i + 1)
    }
}

/// After a `/` at `q - 1`: the end of a comment to skip, with no class, or
/// the end of a slash token.
pub open spec fn spec_comment_or_slash(s: Seq<char>, q: int) -> Option<(int, Option<Class>)> {
    if q >= s.len() {
        None
    } else if s[q] == '/' {
        let lb = skip_set(s, q + 1, CharSet::NotNewline);
        if lb >= s.len() {
            None
        } else {
            Some((lb, None))
        }
    } else if s[q] == '*' {
        match spec_block_comment_end(s, q + 1) {
            Some(e) => Some((e, None)),
            None => None,
        }
    } else {
        Some((q, Some(Class::Slash)))
    }
}

/// Class of the single-character delimiter `c`, if it is one.
pub open spec fn spec_delimiter(c: char) -> Option<Class> {
    if c == '<' {
        Some(Class::AngleLeft)
    } else if c == '>' {
        Some(Class::AngleRight)
    } else if c == '@' {
        Some(Class::At)
    } else if c == '{' {
        Some(Class::BraceLeft)
    } else if c == '}' {
        Some(Class::BraceRight)
    } else if c == ':' {
        Some(Class::Colon)
    } else if c == ',' {
        Some(Class::Comma)
    } else if c == '(' {
        Some(Class::ParenLeft)
    } else if c == ')' {
        Some(Class::ParenRight)
    } else if c == '[' {
        Some(Class::SquareLeft)
    } else if c == ']' {
        Some(Class::SquareRight)
    } else if c == ';' {
        Some(Class::Semicolon)
    } else {
        None
    }
}

/// Adds the "no class" reading to a classified end.
pub open spec fn classified(r: Option<(int, Class)>) -> Option<(int, Option<Class>)> {
    match r {
        Some((e, c)) => Some((e, Some(c))),
        None => None,
    }
}

/// End of the lexeme starting at `p`, which is not whitespace, and its class,
/// or no class for a comment; `None` if the text ends inside it.
pub open spec fn spec_token(s: Seq<char>, p: int) -> Option<(int, Option<Class>)> {
    let c = s[p];
    if spec_delimiter(c) is Some {
        Some((p + 1, spec_delimiter(c)))
    } else if c == '0' {
        classified(spec_radix_number(s, p + 1))
    } else if '1' <= c <= '9' {
        classified(spec_number(s, p + 1))
    } else if c == '+' || c == '-' {
        classified(spec_number_or_symbol(s, p + 1))
    } else if c == '"' {
        classified(spec_string(s, p + 1, Class::String))
    } else if c == '/' {
        spec_comment_or_slash(s, p + 1)
    } else {
        classified(spec_symbol(s, p, p))
    }
}

/// Tokens of `s` from position `p` on: whitespace and comments are skipped,
/// and a lexeme cut short by the end of the text ends the analysis.
pub open spec fn spec_scan(s: Seq<char>, p: int) -> Seq<Token<Class>>
    decreases s.len() - p,
{
    if p < 0 || p >= s.len() {
        Seq::empty()
    } else if char_is_whitespace(s[p]) {
        spec_scan(s, p + 1)
    } else {
        match spec_token(s, p) {
            None => Seq::empty(),
            Some((e, c)) => if e <= p || e > s.len() {
                Seq::empty()
            } else {
                match c {
                    Some(class) => seq![Token { class, start: p as usize, end: e as usize }]
                        + spec_scan(s, e),
                    None => spec_scan(s, e),
                }
            },
        }
    }
}

/// Whether the exec result `r` is the spec result `t`.
pub open spec fn same_end(r: Option<(usize, Class)>, t: Option<(int, Class)>) -> bool {
    match t {
        None => r is None,
        Some((e, c)) => r matches Some((e2, c2)) && e2 == e && c2 == c,
    }
}

fn in_set_exec(set: CharSet, c: char) -> (r: bool)
    ensures
        r == in_set(set, c),
{
    match set {
        CharSet::Digit => '0' <= c && c <= '9',
        CharSet::Binary => c == '0' || c == '1',
        CharSet::Octal => '0' <= c && c <= '7',
        CharSet::Hex => ('0' <= c && c <= '9') || ('A' <= c && c <= 'F') || ('a' <= c && c <= 'f'),
        CharSet::Ident => is_alphanumeric(c) || c == '_',
        CharSet::NotNewline => c != '\r' && c != '\n',
        CharSet::AsciiAlphabetic => ('A' <= c && c <= 'Z') || ('a' <= c && c <= 'z'),
    }
}

pub(crate) fn skip(s: &[char], i: usize, set: CharSet) -> (r: usize)
    requires
        i <= s@.len(),
    ensures
        r == skip_set(s@, i as int, set),
        i <= r <= s@.len(),
{
    let mut j = i;
    while j < s.len() && in_set_exec(set, s[j])
        invariant
            i <= j <= s@.len(),
            skip_set(s@, i as int, set) == skip_set(s@, j as int, set),
        decreases s@.len() - j,
    {
        j = j + 1;
    }
    j
}

fn scan_number(s: &[char], q: usize) -> (r: Option<(usize, Class)>)
    requires
        q <= s@.len(),
    ensures
        same_end(r, spec_number(s@, q as int)),
        r matches Some((e, _)) ==> q <= e < s@.len(),
{
    let mut is_float = false;

    // Integral.
    let i1 = skip(s, q, CharSet::Digit);
    if i1 >= s.len() {
        return None;
    }
    let mut t = i1;

    // Fraction.
    if s[i1] == '.' {
        t = skip(s, i1 + 1, CharSet::Digit);
        is_float = true;
    }
    if t >= s.len() {
        return None;
    }

    // Exponent.
    if s[t] == 'E' || s[t] == 'e' {
        let u = t + 1;
        if u >= s.len() {
            return None;
        }
        let v = if s[u] == '+' || s[u] == '-' {
            u + 1
        } else {
            u
        };
        if v >= s.len() {
            return None;
        }
        let w = skip(s, v, CharSet::Digit);
        if w >= s.len() {
            return None;
        }
        return Some((w, Class::Float));
    }
    Some(
        (
            t,
            if is_float {
                Class::Float
            } else {
                Class::Integer
            },
        ),
    )
}

fn scan_radix_number(s: &[char], q: usize) -> (r: Option<(usize, Class)>)
    requires
        q <= s@.len(),
    ensures
        same_end(r, spec_radix_number(s@, q as int)),
        r matches Some((e, _)) ==> q <= e < s@.len(),
{
    if q >= s.len() {
        return None;
    }
    let c = s[q];
    if c == 'b' || c == 'c' || c == 'x' {
        let set = if c == 'b' {
            CharSet::Binary
        } else if c == 'c' {
            CharSet::Octal
        } else {
            CharSet::Hex
        };
        let r = skip(s, q + 1, set);
        if r >= s.len() {
            return None;
        }
        Some((r, Class::Integer))
    } else if '0' <= c && c <= '9' {
        scan_number(s, q + 1)
    } else {
        Some((q, Class::Integer))
    }
}

fn keyword(w: &[char]) -> (r: Class)
    ensures
        r == spec_keyword(w@),
{
    if chars_eq(w, "consumes") {
        Class::Consumes
    } else if chars_eq(w, "enum") {
        Class::Enum
    } else if chars_eq(w, "implement") {
        Class::Implement
    } else if chars_eq(w, "interface") {
        Class::Interface
    } else if chars_eq(w, "method") {
        Class::Method
    } else if chars_eq(w, "primitive") {
        Class::Primitive
    } else if chars_eq(w, "produces") {
        Class::Produces
    } else if chars_eq(w, "property") {
        Class::Property
    } else if chars_eq(w, "record") {
        Class::Record
    } else if chars_eq(w, "service") {
        Class::Service
    } else if chars_eq(w, "system") {
        Class::System
    } else if chars_eq(w, "using") {
        Class::Using
    } else if chars_eq(w, "null") {
        Class::Null
    } else if chars_eq(w, "true") || chars_eq(w, "false") {
        Class::Boolean
    } else if chars_eq(w, "inf") || chars_eq(w, "+inf") || chars_eq(w, "-inf") || chars_eq(
        w,
        "NaN",
    ) {
        Class::Float
    } else if chars_eq(w, "+") || chars_eq(w, "-") {
        Class::InvalidSymbolChar
    } else {
        Class::Identifier
    }
}

fn scan_symbol(s: &[char], start: usize, c: usize) -> (r: Option<(usize, Class)>)
    requires
        start <= c < s@.len(),
    ensures
        same_end(r, spec_symbol(s@, start as int, c as int)),
        r matches Some((e, _)) ==> c < e <= s@.len(),
{
    let ch = s[c];
    if !(is_alphabetic(ch) || ch == '_') {
        return Some((c + 1, Class::InvalidSymbolChar));
    }
    let e = skip(s, c + 1, CharSet::Ident);
    if e >= s.len() {
        return None;
    }
    let class = keyword(&s[start..e]);
    Some((e, class))
}

fn scan_number_or_symbol(s: &[char], q: usize) -> (r: Option<(usize, Class)>)
    requires
        1 <= q <= s@.len(),
    ensures
        same_end(r, spec_number_or_symbol(s@, q as int)),
        r matches Some((e, _)) ==> q <= e <= s@.len(),
{
    if q >= s.len() {
        return None;
    }
    let ch = s[q];
    if '0' <= ch && ch <= '9' {
        scan_number(s, q + 1)
    } else if is_whitespace(ch) {
        Some((q, Class::InvalidSymbolChar))
    } else {
        scan_symbol(s, q - 1, q)
    }
}

fn scan_unicode_escape(s: &[char], start: usize, class0: Class) -> (r: Option<(usize, Class)>)
    requires
        start <= s@.len(),
    ensures
        same_end(r, spec_unicode_escape(s@, start as int, 4, class0)),
        r matches Some((e, _)) ==> start <= e <= s@.len(),
{
    let mut i: usize = 4;
    let mut pos = start;
    let mut class = class0;
    while i > 0
        invariant
            i <= 4,
            start <= pos <= s@.len(),
            spec_unicode_escape(s@, start as int, 4, class0) == spec_unicode_escape(
                s@,
                pos as int,
                i as nat,
                class,
            ),
        decreases i,
    {
        if pos >= s.len() {
            return None;
        }
        let ch = s[pos];
        i = i - 1;
        if ('0' <= ch && ch <= '9') || ('A' <= ch && ch <= 'F') || ('a' <= ch && ch <= 'f') {
            pos = pos + 1;
        } else if ch == '"' {
            class = Class::InvalidStringEscape;
        } else {
            pos = pos + 1;
            class = Class::InvalidStringEscape;
        }
    }
    Some((pos, class))
}

fn scan_string(s: &[char], q: usize) -> (r: Option<(usize, Class)>)
    requires
        q <= s@.len(),
    ensures
        same_end(r, spec_string(s@, q as int, Class::String)),
        r matches Some((e, _)) ==> q < e <= s@.len(),
{
    let mut class = Class::String;
    let mut pos = q;
    loop
        invariant
            q <= pos <= s@.len(),
            spec_string(s@, q as int, Class::String) == spec_string(s@, pos as int, class),
        decreases s@.len() - pos,
    {
        if pos >= s.len() {
            return None;
        }
        let ch = s[pos];
        if ch == '"' {
            return Some((pos + 1, class));
        } else if ch == '\\' {
            if pos + 1 >= s.len() {
                return None;
            }
            let e = s[pos + 1];
            if e == '"' || e == '\\' || e == 'n' || e == 'r' || e == 't' {
                pos = pos + 2;
            } else if e == 'u' {
                match scan_unicode_escape(s, pos + 2, class) {
                    Some((next, c)) => {
                        pos = next;
                        class = c;
                    },
                    None => {
                        return None;
                    },
                }
            } else {
                pos = pos + 2;
                class = Class::InvalidStringEscape;
            }
        } else {
            pos = pos + 1;
        }
    }
}

fn scan_block_comment_end(s: &[char], start: usize) -> (r: Option<usize>)
    requires
        start <= s@.len(),
    ensures
        match spec_block_comment_end(s@, start as int) {
            None => r is None,
            Some(e) => r matches Some(e2) && e2 == e,
        },
        r matches Some(e) ==> start < e <= s@.len(),
{
    let mut i = start;
    loop
        invariant
            start <= i <= s@.len() + 1,
            spec_block_comment_end(s@, start as int) == spec_block_comment_end(s@, i as int),
        decreases s@.len() + 1 - i,
    {
        if i >= s.len() {
            return None;
        }
        if s[i] == '*' {
            if i + 1 >= s.len() {
                return None;
            }
            if s[i + 1] == '/' {
                return Some(i + 2);
            }
            i = i + 2;
        } else {
            i = i + 1;
        }
    }
}

fn scan_comment_or_slash(s: &[char], q: usize) -> (r: Option<(usize, Option<Class>)>)
    requires
        q <= s@.len(),
    ensures
        match spec_comment_or_slash(s@, q as int) {
            None => r is None,
            Some((e, c)) => r matches Some((e2, c2)) && e2 == e && c2 == c,
        },
        r matches Some((e, _)) ==> q <= e <= s@.len(),
{
    if q >= s.len() {
        return None;
    }
    if s[q] == '/' {
        let lb = skip(s, q + 1, CharSet::NotNewline);
        if lb >= s.len() {
            return None;
        }
        Some((lb, None))
    } else if s[q] == '*' {
        match scan_block_comment_end(s, q + 1) {
            Some(e) => Some((e, None)),
            None => None,
        }
    } else {
        Some((q, Some(Class::Slash)))
    }
}

fn delimiter(c: char) -> (r: Option<Class>)
    ensures
        r == spec_delimiter(c),
{
    if c == '<' {
        Some(Class::AngleLeft)
    } else if c == '>' {
        Some(Class::AngleRight)
    } else if c == '@' {
        Some(Class::At)
    } else if c == '{' {
        Some(Class::BraceLeft)
    } else if c == '}' {
        Some(Class::BraceRight)
    } else if c == ':' {
        Some(Class::Colon)
    } else if c == ',' {
        Some(Class::Comma)
    } else if c == '(' {
        Some(Class::ParenLeft)
    } else if c == ')' {
        Some(Class::ParenRight)
    } else if c == '[' {
        Some(Class::SquareLeft)
    } else if c == ']' {
        Some(Class::SquareRight)
    } else if c == ';' {
        Some(Class::Semicolon)
    } else {
        None
    }
}

fn with_class(r: Option<(usize, Class)>) -> (o: Option<(usize, Option<Class>)>)
    ensures
        match r {
            Some((e, c)) => o == Some((e, Some(c))),
            None => o is None,
        },
{
    match r {
        Some((e, c)) => Some((e, Some(c))),
        None => None,
    }
}

fn scan_token(s: &[char], p: usize) -> (r: Option<(usize, Option<Class>)>)
    requires
        p < s@.len(),
    ensures
        match spec_token(s@, p as int) {
            None => r is None,
            Some((e, c)) => r matches Some((e2, c2)) && e2 == e && c2 == c,
        },
        r matches Some((e, _)) ==> p < e <= s@.len(),
{
    let c = s[p];
    if let Some(class) = delimiter(c) {
        return Some((p + 1, Some(class)));
    }
    if c == '0' {
        with_class(scan_radix_number(s, p + 1))
    } else if '1' <= c && c <= '9' {
        with_class(scan_number(s, p + 1))
    } else if c == '+' || c == '-' {
        with_class(scan_number_or_symbol(s, p + 1))
    } else if c == '"' {
        with_class(scan_string(s, p + 1))
    } else if c == '/' {
        scan_comment_or_slash(s, p + 1)
    } else {
        with_class(scan_symbol(s, p, p))
    }
}

/// Creates the tokens of all characters of `text`: whitespace and comments
/// are skipped, and a lexeme cut short by the end of the text, with all that
/// follows it, is dropped.
pub fn scan(text: &Text) -> (r: Vec<Token<Class>>)
    ensures
        r@ == spec_scan(text.body@, 0),
{
    let s = text.body.as_slice();
    let mut tokens: Vec<Token<Class>> = Vec::new();
    let mut p: usize = 0;
    while p < s.len()
        invariant
            p <= s@.len(),
            s@ == text.body@,
            spec_scan(s@, 0) == tokens@ + spec_scan(s@, p as int),
        decreases s@.len() - p,
    {
        if is_whitespace(s[p]) {
            assert(spec_scan(s@, p as int) == spec_scan(s@, p + 1));
            p = p + 1;
            continue ;
        }
        match scan_token(s, p) {
            None => {
                assert(tokens@ + Seq::<Token<Class>>::empty() =~= tokens@);
                return tokens;
            },
            Some((e, class)) => {
                assert(spec_scan(s@, p as int) == match class {
                    Some(c) => seq![Token { class: c, start: p, end: e }] + spec_scan(s@, e as int),
                    None => spec_scan(s@, e as int),
                });
                if let Some(class) = class {
                    let ghost prev = tokens@;
                    let token = Token { class, start: p, end: e };
                    tokens.push(token);
                    assert(prev + (seq![token] + spec_scan(s@, e as int)) =~= tokens@ + spec_scan(
                        s@,
                        e as int,
                    ));
                }
                p = e;
            },
        }
    }
    assert(tokens@ + Seq::<Token<Class>>::empty() =~= tokens@);
    tokens
}

/// Whether `s[i..end]` is the body of a plain string literal: characters
/// other than a quote and a backslash, and the escapes `\"`, `\\`, `\n`,
/// `\r` and `\t`.
pub open spec fn plain_string_body(s: Seq<char>, i: int, end: int) -> bool
    decreases end - i,
{
    if i >= end {
        i == end
    } else if s[i] == '\\' {
        &&& i + 1 < end
        &&& (s[i + 1] == '"' || s[i + 1] == '\\' || s[i + 1] == 'n' || s[i + 1] == 'r' || s[i + 1]
            == 't')
        &&& plain_string_body(s, i + 2, end)
    } else {
        s[i] != '"' && plain_string_body(s, i + 1, end)
    }
}

proof fn lemma_plain_string(s: Seq<char>, i: int, end: int)
    requires
        0 <= i,
        end < s.len(),
        s[end] == '"',
        plain_string_body(s, i, end),
    ensures
        spec_string(s, i, Class::String) == Some((end + 1, Class::String)),
    decreases end - i,
{
    if i < end {
        if s[i] == '\\' {
            lemma_plain_string(s, i + 2, end);
        } else {
            lemma_plain_string(s, i + 1, end);
        }
    }
}

/// A string literal made of plain characters and the escapes `\"`, `\\`,
/// `\n`, `\r` and `\t` is scanned as one token of class `String` that runs
/// from its opening quote through its closing one.
pub proof fn law_plain_string_token(s: Seq<char>, p: int, end: int)
    requires
        0 <= p < end < s.len(),
        s.len() <= usize::MAX,
        s[p] == '"',
        s[end] == '"',
        plain_string_body(s, p + 1, end),
    ensures
        spec_scan(s, p) == seq![Token { class: Class::String, start: p as usize, end: (end + 1) as usize }]
            + spec_scan(s, end + 1),
{
    lemma_plain_string(s, p + 1, end);
    assert(!char_is_whitespace(s[p]));
    assert(spec_delimiter(s[p]) is None);
}

/// Whether tokens `ts` are non-empty ranges of a text of `len` characters,
/// from `p` on, each ending before the next begins.
pub open spec fn tokens_ordered(ts: Seq<Token<Class>>, p: int, len: int) -> bool {
    &&& forall|k: int| 0 <= k < ts.len() ==> p <= #[trigger] ts[k].start < ts[k].end <= len
    &&& forall|k: int, l: int| 0 <= k < l < ts.len() ==> #[trigger] ts[k].end <= #[trigger] ts[l].start
}

/// The tokens of a text are non-empty ranges of it, in order, none
/// overlapping the next.
pub proof fn law_tokens_ordered(s: Seq<char>, p: int)
    requires
        0 <= p,
        s.len() <= usize::MAX,
    ensures
        tokens_ordered(spec_scan(s, p), p, s.len() as int),
    decreases s.len() - p,
{
    if p < s.len() {
        if char_is_whitespace(s[p]) {
            law_tokens_ordered(s, p + 1);
        } else {
            match spec_token(s, p) {
                None => {},
                Some((e, c)) => if !(e <= p || e > s.len()) {
                    law_tokens_ordered(s, e);
                    let rest = spec_scan(s, e);
                    match c {
                        Some(class) => {
                            let all = spec_scan(s, p);
                            assert(all == seq![Token { class, start: p as usize, end: e as usize }]
                                + rest);
                            assert forall|k: int| 0 <= k < all.len() implies p <= #[trigger] all[k].start
                                < all[k].end <= s.len() by {
                                if k > 0 {
                                    assert(all[k] == rest[k - 1]);
                                }
                            }
                            assert forall|k: int, l: int| 0 <= k < l < all.len() implies #[trigger] all[k].end
                                <= #[trigger] all[l].start by {
                                assert(all[l] == rest[l - 1]);
                                if k > 0 {
                                    assert(all[k] == rest[k - 1]);
                                } else {
                                    assert(rest[l - 1].start >= e);
                                }
                            }
                        },
                        None => {},
                    }
                },
            }
        }
    }
}

} // verus!
