//! Lexemes of Adobe Font Metrics texts. Each scanner takes the position just
//! after the first character of a lexeme and gives the lexeme's end and
//! class; `None` where the text ends before the lexeme does.

use super::class::{Class, key_class, key_class_of};
use crate::source::{Text, Token};
use vstd::prelude::*;

verus! {

/// Whether `c` is an ASCII decimal digit.
pub open spec fn is_digit(c: char) -> bool {
    '0' <= c <= '9'
}

/// Whether `c` is an ASCII letter or digit.
pub open spec fn is_key_char(c: char) -> bool {
    is_digit(c) || ('A' <= c <= 'Z') || ('a' <= c <= 'z')
}

/// Whether `c` separates the lexemes of a line: a tab, a newline or a space.
pub open spec fn is_blank(c: char) -> bool {
    c == '\t' || c == '\n' || c == ' '
}

/// Whether `c` may not stand in a name: it is not ASCII, or it is an ASCII
/// control character.
pub open spec fn is_bad_name_char(c: char) -> bool {
    c > '\x7f' || c < ' '
}

/// Whether `c` may not stand in a string: as in a name, but for the tab.
pub open spec fn is_bad_string_char(c: char) -> bool {
    c > '\x7f' || (c < ' ' && c != '\t')
}

/// Index of the first character at or after `p` that is not a digit, if the
/// text has one.
pub open spec fn digits_end(s: Seq<char>, p: int) -> Option<int>
    decreases s.len() - p,
{
    if p < 0 || p >= s.len() {
        None
    } else if is_digit(s[p]) {
        digits_end(s, p + 1)
    } else {
        Some(p)
    }
}

/// End and class of an integer or a number whose remaining characters start
/// at `p`.
pub open spec fn spec_integer_or_number(s: Seq<char>, p: int) -> Option<(int, Class)> {
    match digits_end(s, p) {
        None => None,
        Some(q) => if s[q] == '.' {
            match digits_end(s, q + 1) {
                None => None,
                Some(r) => Some((r, Class::Number)),
            }
        } else {
            Some((q, Class::Integer))
        },
    }
}

/// End of a key whose remaining characters start at `p`, and whether a
/// character that may not stand in a key was met, given `invalid` so far.
pub open spec fn key_end(s: Seq<char>, p: int, invalid: bool) -> Option<(int, bool)>
    decreases s.len() - p,
{
    if p < 0 || p >= s.len() {
        None
    } else if is_key_char(s[p]) {
        key_end(s, p + 1, invalid)
    } else if is_blank(s[p]) {
        Some((p, invalid))
    } else {
        key_end(s, p + 1, true)
    }
}

/// End and class of a key starting at `start` whose remaining characters
/// start at `p`.
pub open spec fn spec_key_standard(s: Seq<char>, start: int, p: int) -> Option<(int, Class)> {
    match key_end(s, p, false) {
        None => None,
        Some((e, invalid)) => Some(
            (e, if invalid { Class::InvalidKey } else { key_class(s.subrange(start, e)) }),
        ),
    }
}

/// End and class of a name whose remaining characters start at `p`, of class
/// `class` so far.
pub open spec fn spec_name(s: Seq<char>, p: int, class: Class) -> Option<(int, Class)>
    decreases s.len() - p,
{
    if p < 0 || p >= s.len() {
        None
    } else if is_blank(s[p]) {
        Some((p, class))
    } else if is_bad_name_char(s[p]) {
        spec_name(s, p + 1, Class::InvalidName)
    } else {
        spec_name(s, p + 1, class)
    }
}

/// End and class of a string, which runs through the end of its line, whose
/// remaining characters start at `p`, of class `class` so far.
pub open spec fn spec_string(s: Seq<char>, p: int, class: Class) -> Option<(int, Class)>
    decreases s.len() - p,
{
    if p < 0 || p >= s.len() {
        None
    } else if s[p] == '\n' {
        Some((p + 1, class))
    } else if is_bad_string_char(s[p]) {
        spec_string(s, p + 1, Class::InvalidString)
    } else {
        spec_string(s, p + 1, class)
    }
}

/// The tokens of all characters of `text`; none are produced.
pub fn scan(text: &Text) -> (r: Vec<Token<Class>>)
    ensures
        r@.len() == 0,
{
    Vec::new()
}

fn digits_end_exec(s: &[char], p: usize) -> (r: Option<usize>)
    requires
        p <= s@.len(),
    ensures
        match digits_end(s@, p as int) {
            None => r is None,
            Some(q) => r == Some(q as usize) && p <= q < s@.len(),
        },
{
    let mut q = p;
    while q < s.len()
        invariant
            p <= q <= s@.len(),
            digits_end(s@, p as int) == digits_end(s@, q as int),
        decreases s@.len() - q,
    {
        let c = s[q];
        if !('0' <= c && c <= '9') {
            return Some(q);
        }
        q = q + 1;
    }
    None
}

/// Scans an integer or a number whose remaining characters start at `p`.
pub fn scan_integer_or_number(s: &[char], p: usize) -> (r: Option<(usize, Class)>)
    requires
        p <= s@.len(),
    ensures
        match spec_integer_or_number(s@, p as int) {
            None => r is None,
            Some((e, c)) => r == Some((e as usize, c)),
        },
{
    let q = match digits_end_exec(s, p) {
        None => {
            return None;
        },
        Some(q) => q,
    };
    if s[q] == '.' {
        match digits_end_exec(s, q + 1) {
            None => None,
            Some(r) => Some((r, Class::Number)),
        }
    } else {
        Some((q, Class::Integer))
    }
}

/// Scans a key starting at `start` whose remaining characters start at `p`.
pub fn scan_key_standard(s: &[char], start: usize, p: usize) -> (r: Option<(usize, Class)>)
    requires
        start <= p <= s@.len(),
    ensures
        match spec_key_standard(s@, start as int, p as int) {
            None => r is None,
            Some((e, c)) => r == Some((e as usize, c)),
        },
{
    let mut q = p;
    let mut invalid = false;
    while q < s.len()
        invariant
            start <= p <= q <= s@.len(),
            key_end(s@, p as int, false) == key_end(s@, q as int, invalid),
        decreases s@.len() - q,
    {
        let c = s[q];
        if ('0' <= c && c <= '9') || ('A' <= c && c <= 'Z') || ('a' <= c && c <= 'z') {
        } else if c == '\t' || c == '\n' || c == ' ' {
            if invalid {
                return Some((q, Class::InvalidKey));
            }
            return Some((q, key_class_of(&s[start..q])));
        } else {
            invalid = true;
        }
        q = q + 1;
    }
    None
}

/// Scans a name whose remaining characters start at `p`.
pub fn scan_name(s: &[char], p: usize) -> (r: Option<(usize, Class)>)
    requires
        p <= s@.len(),
    ensures
        match spec_name(s@, p as int, Class::Name) {
            None => r is None,
            Some((e, c)) => r == Some((e as usize, c)),
        },
{
    let mut q = p;
    let mut class = Class::Name;
    while q < s.len()
        invariant
            p <= q <= s@.len(),
            spec_name(s@, p as int, Class::Name) == spec_name(s@, q as int, class),
        decreases s@.len() - q,
    {
        let c = s[q];
        if c == '\t' || c == '\n' || c == ' ' {
            return Some((q, class));
        }
        let bad = c > '\x7f' || ' ' > c;
        if bad {
            class = Class::InvalidName;
        }
        q = q + 1;
    }
    None
}

/// Scans a string whose remaining characters start at `p`.
pub fn scan_string(s: &[char], p: usize) -> (r: Option<(usize, Class)>)
    requires
        p <= s@.len(),
    ensures
        match spec_string(s@, p as int, Class::String) {
            None => r is None,
            Some((e, c)) => r == Some((e as usize, c)),
        },
{
    let mut q = p;
    let mut class = Class::String;
    while q < s.len()
        invariant
            p <= q <= s@.len(),
            spec_string(s@, p as int, Class::String) == spec_string(s@, q as int, class),
        decreases s@.len() - q,
    {
        let c = s[q];
        if c == '\n' {
            return Some((q + 1, class));
        }
        let bad = c > '\x7f' || (' ' > c && c != '\t');
        if bad {
            class = Class::InvalidString;
        }
        q = q + 1;
    }
    None
}

} // verus!
