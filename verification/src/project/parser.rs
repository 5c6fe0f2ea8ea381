//! Parsing of project configuration files.

use super::Configuration;
use crate::source::{
    Classify,
    Error,
    Matcher,
    Text,
    Token,
    char_is_whitespace,
    chars_eq,
    is_whitespace,
    push_char,
};
use crate::spec::parser::lexer::{CharSet, skip, skip_set};
use vstd::prelude::*;

verus! {

/// Classifies the characters identified by a [`Token`] of a configuration
/// file.
#[derive(Copy, Clone, Debug, Eq, PartialEq, Structural)]
pub enum Class {
    // Delimiters.
    Colon,

    // Symbols.
    ProjectDescription,
    ProjectName,
    ProjectVersion,

    // Literals.
    String,

    // Errors.
    InvalidStringEscape,
    UnknownSymbol,
}

impl Classify for Class {
    fn is(&self, other: &Self) -> (r: bool) {
        *self == *other
    }
}

/// How class `c` is written in messages.
pub open spec fn class_text(c: Class) -> Seq<char> {
    match c {
        Class::Colon => ":"@,
        Class::ProjectDescription => "ProjectDescription"@,
        Class::ProjectName => "ProjectName"@,
        Class::ProjectVersion => "ProjectVersion"@,
        Class::String => "String"@,
        Class::InvalidStringEscape => "<InvalidStringEscape>"@,
        Class::UnknownSymbol => "<UnknownSymbol>"@,
    }
}

impl Class {
    /// How the class is written in messages.
    pub fn as_str(&self) -> (r: &'static str)
        ensures
            r@ == class_text(*self),
    {
        match *self {
            Class::Colon => ":",
            Class::ProjectDescription => "ProjectDescription",
            Class::ProjectName => "ProjectName",
            Class::ProjectVersion => "ProjectVersion",
            Class::String => "String",
            Class::InvalidStringEscape => "<InvalidStringEscape>",
            Class::UnknownSymbol => "<UnknownSymbol>",
        }
    }
}

/// End and class of a string whose body continues at `pos`.
pub open spec fn spec_string(s: Seq<char>, pos: int, class: Class) -> Option<(int, Class)>
    decreases s.len() - pos,
{
    if pos >= s.len() {
        None
    } else if s[pos] == '"' {
        Some((pos + 1, class))
    } else if s[pos] == '\\' {
        if pos + 1 >= s.len() {
            None
        } else {
            let e = s[pos + 1];
            if e == '"' || e == '\\' || e == 'n' || e == 'r' || e == 't' {
                spec_string(s, pos + 2, class)
            } else {
                spec_string(s, pos + 2, Class::InvalidStringEscape)
            }
        }
    } else {
        spec_string(s, pos + 1, class)
    }
}

/// Class of a symbol made of the characters `w`.
pub open spec fn spec_symbol_class(w: Seq<char>) -> Class {
    if w == "ProjectDescription"@ {
        Class::ProjectDescription
    } else if w == "ProjectName"@ {
        Class::ProjectName
    } else if w == "ProjectVersion"@ {
        Class::ProjectVersion
    } else {
        Class::UnknownSymbol
    }
}

/// End and class of the lexeme starting at `p`, which is not whitespace;
/// `None` if the text ends inside it.
pub open spec fn spec_token(s: Seq<char>, p: int) -> Option<(int, Class)> {
    let c = s[p];
    if c == ':' {
        Some((p + 1, Class::Colon))
    } else if c == '"' {
        spec_string(s, p + 1, Class::String)
    } else if c == 'P' {
        let e = skip_set(s, p + 1, CharSet::AsciiAlphabetic);
        if e >= s.len() {
            None
        } else {
            Some((e, spec_symbol_class(s.subrange(p, e))))
        }
    } else {
        Some((p + 1, Class::UnknownSymbol))
    }
}

/// Tokens of configuration text `s` from position `p` on; a lexeme cut short
/// by the end of the text ends the analysis.
pub open spec fn spec_scan(s: Seq<char>, p: int) -> Seq<Token<Class>>
    decreases s.len() - p,
{
    if p < 0 || p >= s.len() {
        Seq::empty()
    } else if char_is_whitespace(s[p]) {
        spec_scan(s, p + 1)
    } else {
        match spec_token(s, p) {
            None => Seq::empty(),
            Some((e, class)) => if e <= p || e > s.len() {
                Seq::empty()
            } else {
                seq![Token { class, start: p as usize, end: e as usize }] + spec_scan(s, e)
            },
        }
    }
}

/// Whether `c` names a configuration field.
pub open spec fn is_field(c: Class) -> bool {
    c == Class::ProjectDescription || c == Class::ProjectName || c == Class::ProjectVersion
}

/// The string tokens assigned to the name, description and version fields by
/// tokens `i..` of `ts`, on top of `fields`; or the expected classes and the
/// token found where the tokens break the `Field: "String"` pattern.
pub open spec fn spec_combine(
    ts: Seq<Token<Class>>,
    i: int,
    fields: (Option<Token<Class>>, Option<Token<Class>>, Option<Token<Class>>),
) -> Result<
    (Option<Token<Class>>, Option<Token<Class>>, Option<Token<Class>>),
    (Seq<Class>, Option<Token<Class>>),
>
    decreases ts.len() - i,
{
    if i < 0 || i >= ts.len() {
        Ok(fields)
    } else if !is_field(ts[i].class) {
        Err(
            (
                seq![Class::ProjectDescription, Class::ProjectName, Class::ProjectVersion],
                Some(ts[i]),
            ),
        )
    } else if i + 1 >= ts.len() {
        Err((seq![Class::Colon], None))
    } else if ts[i + 1].class != Class::Colon {
        Err((seq![Class::Colon], Some(ts[i + 1])))
    } else if i + 2 >= ts.len() {
        Err((seq![Class::String], None))
    } else if ts[i + 2].class != Class::String {
        Err((seq![Class::String], Some(ts[i + 2])))
    } else {
        let v = Some(ts[i + 2]);
        let next = if ts[i].class == Class::ProjectName {
            (v, fields.1, fields.2)
        } else if ts[i].class == Class::ProjectDescription {
            (fields.0, v, fields.2)
        } else {
            (fields.0, fields.1, v)
        };
        spec_combine(ts, i + 3, next)
    }
}

/// Characters of the escaped string body `e`, with escape sequences
/// replaced; a lone backslash at the end is dropped.
pub open spec fn spec_unescape(e: Seq<char>) -> Seq<char>
    decreases e.len(),
{
    if e.len() == 0 {
        Seq::empty()
    } else if e[0] == '\\' {
        if e.len() == 1 {
            Seq::empty()
        } else {
            let c = e[1];
            let u = if c == 't' {
                '\t'
            } else if c == 'n' {
                '\n'
            } else if c == 'r' {
                '\r'
            } else {
                c
            };
            seq![u] + spec_unescape(e.skip(2))
        }
    } else {
        seq![e[0]] + spec_unescape(e.skip(1))
    }
}

/// The value of string token `t` of text `s`, without its quotes.
pub open spec fn spec_token_string(s: Seq<char>, t: Token<Class>) -> Seq<char> {
    spec_unescape(s.subrange(t.start + 1, t.end - 1))
}

/// The value of an optional string field, or `default`.
pub open spec fn spec_field(s: Seq<char>, t: Option<Token<Class>>, default: Seq<char>) -> Seq<char> {
    match t {
        Some(t) => spec_token_string(s, t),
        None => default,
    }
}

/// The tokens of text `s` all lie within it, and string tokens span at least
/// their two quotes.
pub proof fn lemma_scan_bounds(s: Seq<char>, p: int)
    requires
        s.len() <= usize::MAX,
    ensures
        forall|k: int|
            0 <= k < spec_scan(s, p).len() ==> {
                let t = #[trigger] spec_scan(s, p)[k];
                &&& t.start < t.end <= s.len()
                &&& t.class == Class::String ==> t.start + 2 <= t.end && s[t.start as int] == '"'
                    && s[t.end - 1] == '"'
            },
    decreases s.len() - p,
{
    if 0 <= p < s.len() {
        if char_is_whitespace(s[p]) {
            lemma_scan_bounds(s, p + 1);
        } else {
            match spec_token(s, p) {
                None => {},
                Some((e, class)) => if !(e <= p || e > s.len()) {
                    lemma_scan_bounds(s, e);
                    if s[p] == '"' {
                        lemma_string_quoted(s, p + 1, Class::String);
                    }
                    let rest = spec_scan(s, e);
                    let tok = Token { class, start: p as usize, end: e as usize };
                    assert forall|k: int| 0 <= k < spec_scan(s, p).len() implies {
                        let t = #[trigger] spec_scan(s, p)[k];
                        &&& t.start < t.end <= s.len()
                        &&& t.class == Class::String ==> t.start + 2 <= t.end && s[t.start as int]
                            == '"' && s[t.end - 1] == '"'
                    } by {
                        if k > 0 {
                            assert(spec_scan(s, p)[k] == rest[k - 1]);
                        }
                    }
                },
            }
        }
    }
}

/// A string read from `pos` ends just after a quote, and is only of class
/// `String` if it started out so.
pub proof fn lemma_string_quoted(s: Seq<char>, pos: int, class: Class)
    ensures
        spec_string(s, pos, class) matches Some((e, c)) ==> pos < e <= s.len() && s[e - 1] == '"'
            && (c == Class::String ==> class == Class::String),
    decreases s.len() - pos,
{
    if pos < s.len() && s[pos] != '"' {
        if s[pos] == '\\' {
            if pos + 1 < s.len() {
                let e = s[pos + 1];
                if e == '"' || e == '\\' || e == 'n' || e == 'r' || e == 't' {
                    lemma_string_quoted(s, pos + 2, class);
                } else {
                    lemma_string_quoted(s, pos + 2, Class::InvalidStringEscape);
                }
            }
        } else {
            lemma_string_quoted(s, pos + 1, class);
        }
    }
}

fn scan_string(s: &[char], q: usize) -> (r: Option<(usize, Class)>)
    requires
        q <= s@.len(),
    ensures
        match spec_string(s@, q as int, Class::String) {
            None => r is None,
            Some((e, c)) => r matches Some((e2, c2)) && e2 == e && c2 == c,
        },
        r matches Some((e, _)) ==> q < e <= s@.len(),
{
    let mut class = Class::String;
    let mut pos = q;
    loop
        invariant
            q <= pos <= s@.len(),
            spec_string(s@, q as int, Class::String) == spec_string(s@, pos as int, class),
        decreases s@.len() - pos,
    {
        if pos >= s.len() {
            return None;
        }
        let ch = s[pos];
        if ch == '"' {
            return Some((pos + 1, class));
        } else if ch == '\\' {
            if pos + 1 >= s.len() {
                return None;
            }
            let e = s[pos + 1];
            if !(e == '"' || e == '\\' || e == 'n' || e == 'r' || e == 't') {
                class = Class::InvalidStringEscape;
            }
            pos = pos + 2;
        } else {
            pos = pos + 1;
        }
    }
}

fn symbol_class(w: &[char]) -> (r: Class)
    ensures
        r == spec_symbol_class(w@),
{
    if chars_eq(w, "ProjectDescription") {
        Class::ProjectDescription
    } else if chars_eq(w, "ProjectName") {
        Class::ProjectName
    } else if chars_eq(w, "ProjectVersion") {
        Class::ProjectVersion
    } else {
        Class::UnknownSymbol
    }
}

fn scan_token(s: &[char], p: usize) -> (r: Option<(usize, Class)>)
    requires
        p < s@.len(),
    ensures
        match spec_token(s@, p as int) {
            None => r is None,
            Some((e, c)) => r matches Some((e2, c2)) && e2 == e && c2 == c,
        },
        r matches Some((e, _)) ==> p < e <= s@.len(),
{
    let c = s[p];
    if c == ':' {
        Some((p + 1, Class::Colon))
    } else if c == '"' {
        scan_string(s, p + 1)
    } else if c == 'P' {
        let e = skip(s, p + 1, CharSet::AsciiAlphabetic);
        if e >= s.len() {
            return None;
        }
        Some((e, symbol_class(&s[p..e])))
    } else {
        Some((p + 1, Class::UnknownSymbol))
    }
}

/// Creates the tokens of configuration `text`; a lexeme cut short by the end
/// of the text, with all that follows it, is dropped.
pub fn analyze(text: &Text) -> (r: Vec<Token<Class>>)
    ensures
        r@ == spec_scan(text.body@, 0),
{
    let s = text.body.as_slice();
    let mut tokens: Vec<Token<Class>> = Vec::new();
    let mut p: usize = 0;
    while p < s.len()
        invariant
            p <= s@.len(),
            s@ == text.body@,
            spec_scan(s@, 0) == tokens@ + spec_scan(s@, p as int),
        decreases s@.len() - p,
    {
        if is_whitespace(s[p]) {
            p = p + 1;
            continue ;
        }
        match scan_token(s, p) {
            None => {
                assert(tokens@ + Seq::<Token<Class>>::empty() =~= tokens@);
                return tokens;
            },
            Some((e, class)) => {
                let ghost prev = tokens@;
                let token = Token { class, start: p, end: e };
                tokens.push(token);
                assert(prev + (seq![token] + spec_scan(s@, e as int)) =~= tokens@ + spec_scan(
                    s@,
                    e as int,
                ));
                p = e;
            },
        }
    }
    assert(tokens@ + Seq::<Token<Class>>::empty() =~= tokens@);
    tokens
}

/// Replaces the escape sequences of the string body `s[start..end]`.
fn unescape(s: &[char], start: usize, end: usize) -> (r: String)
    requires
        start <= end <= s@.len(),
    ensures
        r@ == spec_unescape(s@.subrange(start as int, end as int)),
{
    let mut output = String::new();
    let mut i = start;
    while i < end
        invariant
            start <= i <= end,
            end <= s@.len(),
            spec_unescape(s@.subrange(start as int, end as int)) == output@ + spec_unescape(
                s@.subrange(i as int, end as int),
            ),
        decreases end - i,
    {
        let ghost rest = s@.subrange(i as int, end as int);
        let ch = s[i];
        if ch == '\\' && i + 1 >= end {
            proof {
                assert(rest.len() == 1);
                assert(output@ + Seq::<char>::empty() =~= output@);
                assert(s@.subrange(end as int, end as int) =~= Seq::<char>::empty());
            }
            i = end;
        } else if ch == '\\' {
            let e = s[i + 1];
            let u = if e == 't' {
                '\t'
            } else if e == 'n' {
                '\n'
            } else if e == 'r' {
                '\r'
            } else {
                e
            };
            let ghost prev = output@;
            push_char(&mut output, u);
            proof {
                assert(rest.skip(2) =~= s@.subrange(i + 2, end as int));
                assert(prev + (seq![u] + spec_unescape(rest.skip(2))) =~= output@ + spec_unescape(
                    rest.skip(2),
                ));
            }
            i = i + 2;
        } else {
            let ghost prev = output@;
            push_char(&mut output, ch);
            proof {
                assert(rest.skip(1) =~= s@.subrange(i + 1, end as int));
                assert(prev + (seq![ch] + spec_unescape(rest.skip(1))) =~= output@ + spec_unescape(
                    rest.skip(1),
                ));
            }
            i = i + 1;
        }
    }
    proof {
        assert(s@.subrange(end as int, end as int) =~= Seq::<char>::empty());
        assert(output@ + Seq::<char>::empty() =~= output@);
    }
    output
}

/// Attempt to create [`Configuration`] from given source `text`.
pub fn parse(text: &Text) -> (r: Result<Configuration, Error<Class>>)
    ensures
        match spec_combine(spec_scan(text.body@, 0), 0, (None, None, None)) {
            Err(e) => r matches Err(err) && err@ == e,
            Ok((name, description, version)) => r matches Ok(c) && {
                &&& c.name@ == spec_field(text.body@, name, "New Project"@)
                &&& c.version@ == spec_field(text.body@, version, "0.1.0"@)
                &&& match description {
                    Some(t) => c.description matches Some(d) && d@ == spec_token_string(
                        text.body@,
                        t,
                    ),
                    None => c.description is None,
                }
            },
        },
{
    let tokens = analyze(text);
    let _len = text.body.len();
    proof {
        lemma_scan_bounds(text.body@, 0);
    }
    combine(text, &tokens)
}

fn token_string(text: &Text, t: Token<Class>) -> (r: String)
    requires
        t.start + 2 <= t.end <= text.body@.len(),
    ensures
        r@ == spec_token_string(text.body@, t),
{
    unescape(text.body.as_slice(), t.start + 1, t.end - 1)
}

fn combine(text: &Text, tokens: &Vec<Token<Class>>) -> (r: Result<Configuration, Error<Class>>)
    requires
        forall|k: int|
            0 <= k < tokens@.len() ==> {
                let t = #[trigger] tokens@[k];
                &&& t.start < t.end <= text.body@.len()
                &&& t.class == Class::String ==> t.start + 2 <= t.end
            },
    ensures
        match spec_combine(tokens@, 0, (None, None, None)) {
            Err(e) => r matches Err(err) && err@ == e,
            Ok((name, description, version)) => r matches Ok(c) && {
                &&& c.name@ == spec_field(text.body@, name, "New Project"@)
                &&& c.version@ == spec_field(text.body@, version, "0.1.0"@)
                &&& match description {
                    Some(t) => c.description matches Some(d) && d@ == spec_token_string(
                        text.body@,
                        t,
                    ),
                    None => c.description is None,
                }
            },
        },
{
    let mut matcher = Matcher::new(tokens.as_slice());
    let mut name: Option<Token<Class>> = None;
    let mut description: Option<Token<Class>> = None;
    let mut version: Option<Token<Class>> = None;
    let fields = [Class::ProjectDescription, Class::ProjectName, Class::ProjectVersion];
    while !matcher.at_end()
        invariant
            matcher.spec_tokens() == tokens@,
            0 <= matcher.spec_pos() <= tokens@.len(),
            fields@ == seq![Class::ProjectDescription, Class::ProjectName, Class::ProjectVersion],
            spec_combine(tokens@, 0, (None, None, None)) == spec_combine(
                tokens@,
                matcher.spec_pos(),
                (name, description, version),
            ),
            forall|t: Token<Class>|
                (name == Some(t) || description == Some(t) || version == Some(t)) ==> t.class
                    == Class::String && exists|k: int|
                    0 <= k < tokens@.len() && #[trigger] tokens@[k] == t,
        decreases tokens@.len() - matcher.spec_pos(),
    {
        let ghost i = matcher.spec_pos();
        let token = match matcher.any(&fields) {
            Ok(token) => token,
            Err(e) => {
                proof {
                    assert(!class_in_fields(tokens@[i].class)) by {
                        if is_field(tokens@[i].class) {
                            lemma_field_in(tokens@[i].class, fields@);
                        }
                    }
                }
                return Err(e);
            },
        };
        proof {
            assert(crate::source::class_in(fields@, token.class));
            let k = choose|k: int| 0 <= k < fields@.len() && fields@[k] == token.class;
            assert(is_field(token.class));
        }
        match matcher.one(Class::Colon) {
            Ok(_) => {},
            Err(e) => {
                return Err(e);
            },
        }
        let value = match matcher.one(Class::String) {
            Ok(value) => value,
            Err(e) => {
                return Err(e);
            },
        };
        proof {
            assert(tokens@[i + 2] == value);
        }
        if token.class == Class::ProjectDescription {
            description = Some(value);
        } else if token.class == Class::ProjectName {
            name = Some(value);
        } else {
            version = Some(value);
        }
    }
    let name = match name {
        Some(t) => {
            proof {
                let k = choose|k: int| 0 <= k < tokens@.len() && #[trigger] tokens@[k] == t;
                assert(tokens@[k] == t);
            }
            token_string(text, t)
        },
        None => "New Project".to_owned(),
    };
    let description = match description {
        Some(t) => {
            proof {
                let k = choose|k: int| 0 <= k < tokens@.len() && #[trigger] tokens@[k] == t;
                assert(tokens@[k] == t);
            }
            Some(token_string(text, t))
        },
        None => None,
    };
    let version = match version {
        Some(t) => {
            proof {
                let k = choose|k: int| 0 <= k < tokens@.len() && #[trigger] tokens@[k] == t;
                assert(tokens@[k] == t);
            }
            token_string(text, t)
        },
        None => "0.1.0".to_owned(),
    };
    Ok(Configuration { name, description, version })
}

/// Whether `c` is one of the field classes, in the form the matcher checks.
pub open spec fn class_in_fields(c: Class) -> bool {
    crate::source::class_in(
        seq![Class::ProjectDescription, Class::ProjectName, Class::ProjectVersion],
        c,
    )
}

proof fn lemma_field_in(c: Class, fields: Seq<Class>)
    requires
        is_field(c),
        fields == seq![Class::ProjectDescription, Class::ProjectName, Class::ProjectVersion],
    ensures
        crate::source::class_in(fields, c),
{
    if c == Class::ProjectDescription {
        assert(fields[0] == c);
    } else if c == Class::ProjectName {
        assert(fields[1] == c);
    } else {
        assert(fields[2] == c);
    }
}

} // verus!
