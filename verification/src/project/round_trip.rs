//! What reading a written configuration gives back.

use super::configuration::{configuration_text, escape_quotes, escaped_char};
use super::parser::{
    Class,
    spec_combine,
    spec_field,
    spec_scan,
    spec_string,
    spec_symbol_class,
    spec_token,
    spec_token_string,
    spec_unescape,
};
use crate::source::{Token, char_is_whitespace};
use crate::spec::parser::lexer::{CharSet, in_set, skip_set};
use vstd::prelude::*;

verus! {

/// Whether `x` holds no backslash, the one character that a configuration
/// string does not write back as it is.
pub open spec fn no_backslash(x: Seq<char>) -> bool {
    forall|i: int| 0 <= i < x.len() ==> x[i] != '\\'
}

/// Escaping a concatenation escapes each part.
proof fn lemma_escape_concat(a: Seq<char>, b: Seq<char>)
    ensures
        escape_quotes(a + b) == escape_quotes(a) + escape_quotes(b),
    decreases b.len(),
{
    if b.len() == 0 {
        assert(a + b =~= a);
        assert(escape_quotes(a) + escape_quotes(b) =~= escape_quotes(a));
    } else {
        lemma_escape_concat(a, b.drop_last());
        assert((a + b).drop_last() =~= a + b.drop_last());
        assert((a + b).last() == b.last());
        assert(escape_quotes(a) + escape_quotes(b) =~= escape_quotes(a) + escape_quotes(
            b.drop_last(),
        ) + escaped_char(b.last()));
    }
}

/// The escape of `x` begins with that of its first character.
proof fn lemma_escape_front(x: Seq<char>)
    requires
        x.len() > 0,
    ensures
        escape_quotes(x) == escaped_char(x[0]) + escape_quotes(x.skip(1)),
{
    lemma_escape_concat(seq![x[0]], x.skip(1));
    assert(seq![x[0]] + x.skip(1) =~= x);
    let one = seq![x[0]];
    assert(one.drop_last() =~= Seq::<char>::empty());
    assert(escape_quotes(one.drop_last()) == Seq::<char>::empty());
    assert(one.last() == x[0]);
    assert(escape_quotes(one) =~= escaped_char(x[0]));
}

/// Reading back the escape of `x` gives `x`, where `x` has no backslash.
proof fn lemma_unescape_escape(x: Seq<char>)
    requires
        no_backslash(x),
    ensures
        spec_unescape(escape_quotes(x)) == x,
    decreases x.len(),
{
    if x.len() == 0 {
    } else {
        let e = escape_quotes(x);
        lemma_escape_front(x);
        let rest = x.skip(1);
        assert(no_backslash(rest));
        lemma_unescape_escape(rest);
        if x[0] == '"' {
            assert(e[0] == '\\' && e[1] == '"');
            assert(e.skip(2) =~= escape_quotes(rest));
        } else {
            assert(e[0] == x[0]);
            assert(e.skip(1) =~= escape_quotes(rest));
        }
        assert(seq![x[0]] + rest =~= x);
    }
}

/// A string body written as the escape of `x` and a closing quote, at `p`,
/// is read through that quote, as a valid string.
proof fn lemma_string_read(s: Seq<char>, p: int, x: Seq<char>)
    requires
        no_backslash(x),
        0 <= p,
        p + escape_quotes(x).len() + 1 <= s.len(),
        s.subrange(p, p + escape_quotes(x).len() + 1) == escape_quotes(x) + seq!['"'],
    ensures
        spec_string(s, p, Class::String) == Some((p + escape_quotes(x).len() + 1, Class::String)),
    decreases x.len(),
{
    let e = escape_quotes(x);
    assert(s[p + e.len()] == (e + seq!['"'])[e.len() as int]);
    if x.len() == 0 {
        assert(s[p] == '"');
    } else {
        lemma_escape_front(x);
        let rest = x.skip(1);
        let er = escape_quotes(rest);
        assert(no_backslash(rest));
        let k = escaped_char(x[0]).len();
        assert(e == escaped_char(x[0]) + er);
        assert forall|i: int| 0 <= i < er.len() + 1 implies s.subrange(
            p + k,
            p + k + er.len() + 1,
        )[i] == (er + seq!['"'])[i] by {
            assert(s[p + k + i] == (e + seq!['"'])[k + i]);
        }
        assert(s.subrange(p + k, p + k + er.len() + 1) =~= er + seq!['"']);
        lemma_string_read(s, p + k, rest);
        assert(s[p] == (e + seq!['"'])[0]);
        if x[0] == '"' {
            assert(s[p] == '\\');
            assert(s[p + 1] == (e + seq!['"'])[1]);
            assert(s[p + 1] == '"');
        } else {
            assert(s[p] == x[0]);
        }
    }
}

/// The characters of a field name are ASCII letters.
pub open spec fn alphabetic(w: Seq<char>) -> bool {
    forall|i: int| 0 <= i < w.len() ==> #[trigger] in_set(CharSet::AsciiAlphabetic, w[i])
}

/// The tokens of a field: `w`, a colon, a space and the string of `x`.
pub open spec fn field_tokens(p: int, w: Seq<char>, x: Seq<char>) -> Seq<Token<Class>> {
    let n = w.len() as int;
    let q = p + n + 3 + escape_quotes(x).len() + 1;
    seq![
        Token { class: spec_symbol_class(w), start: p as usize, end: (p + n) as usize },
        Token { class: Class::Colon, start: (p + n) as usize, end: (p + n + 1) as usize },
        Token { class: Class::String, start: (p + n + 2) as usize, end: q as usize },
    ]
}

/// The text of a field: `w`, a colon, a space, and `x` in quotes.
pub open spec fn field_text(w: Seq<char>, x: Seq<char>) -> Seq<char> {
    w + ": \""@ + escape_quotes(x) + "\""@
}

proof fn lemma_skip_word(s: Seq<char>, p: int, w: Seq<char>, i: int)
    requires
        0 <= p,
        1 <= i <= w.len(),
        p + w.len() < s.len(),
        s.subrange(p, p + w.len()) == w,
        alphabetic(w),
        !in_set(CharSet::AsciiAlphabetic, s[p + w.len()]),
    ensures
        skip_set(s, p + i, CharSet::AsciiAlphabetic) == p + w.len(),
    decreases w.len() - i,
{
    if i < w.len() {
        assert(s[p + i] == w[i]);
        assert(in_set(CharSet::AsciiAlphabetic, w[i]));
        lemma_skip_word(s, p, w, i + 1);
    }
}

/// A field written at `p` is read as its three tokens.
proof fn lemma_field(s: Seq<char>, p: int, w: Seq<char>, x: Seq<char>)
    requires
        0 <= p,
        w.len() > 0,
        w[0] == 'P',
        alphabetic(w),
        no_backslash(x),
        p + field_text(w, x).len() <= s.len(),
        s.subrange(p, p + field_text(w, x).len()) == field_text(w, x),
        s.len() <= usize::MAX,
    ensures
        spec_scan(s, p) == field_tokens(p, w, x) + spec_scan(s, p + field_text(w, x).len()),
{
    reveal_strlit(": \"");
    reveal_strlit("\"");
    let t = field_text(w, x);
    let n = w.len() as int;
    let e = escape_quotes(x);
    assert(t.len() == n + 3 + e.len() + 1);
    assert forall|i: int| 0 <= i < t.len() implies s[p + i] == t[i] by {
        assert(s.subrange(p, p + t.len())[i] == t[i]);
    }
    assert(t[0] == 'P');
    assert(t[n] == ':');
    assert(t[n + 1] == ' ');
    assert(t[n + 2] == '"');
    assert(s.subrange(p, p + n) =~= w) by {
        assert forall|i: int| 0 <= i < n implies s.subrange(p, p + n)[i] == w[i] by {
            assert(s[p + i] == t[i]);
        }
    }
    assert(!char_is_whitespace('P'));
    lemma_skip_word(s, p, w, 1);
    assert(spec_token(s, p) == Some((p + n, spec_symbol_class(w))));
    assert(s.subrange(p + n + 3, p + n + 3 + e.len() + 1) =~= e + seq!['"']) by {
        assert forall|i: int| 0 <= i < e.len() + 1 implies s.subrange(
            p + n + 3,
            p + n + 3 + e.len() + 1,
        )[i] == (e + seq!['"'])[i] by {
            assert(s[p + n + 3 + i] == t[n + 3 + i]);
        }
    }
    lemma_string_read(s, p + n + 3, x);
    assert(char_is_whitespace(' '));
    let q = p + t.len();
    assert(spec_scan(s, p + n + 2) == seq![
        Token { class: Class::String, start: (p + n + 2) as usize, end: q as usize },
    ] + spec_scan(s, q));
    assert(spec_scan(s, p + n + 1) == spec_scan(s, p + n + 2));
    assert(spec_scan(s, p + n) == seq![
        Token { class: Class::Colon, start: (p + n) as usize, end: (p + n + 1) as usize },
    ] + spec_scan(s, p + n + 1));
    assert(spec_scan(s, p) == seq![
        Token { class: spec_symbol_class(w), start: p as usize, end: (p + n) as usize },
    ] + spec_scan(s, p + n));
    assert(field_tokens(p, w, x) + spec_scan(s, q) =~= spec_scan(s, p));
}

/// Field `w` written with `x` at `p` in `s` is read back as `x`.
proof fn lemma_field_value(s: Seq<char>, p: int, w: Seq<char>, x: Seq<char>)
    requires
        0 <= p,
        no_backslash(x),
        p + field_text(w, x).len() <= s.len(),
        s.subrange(p, p + field_text(w, x).len()) == field_text(w, x),
        s.len() <= usize::MAX,
    ensures
        spec_token_string(s, field_tokens(p, w, x)[2]) == x,
{
    reveal_strlit(": \"");
    reveal_strlit("\"");
    let t = field_text(w, x);
    let n = w.len() as int;
    let e = escape_quotes(x);
    let tok = field_tokens(p, w, x)[2];
    assert(tok.start == p + n + 2);
    assert(tok.end == p + t.len());
    assert(s.subrange(tok.start + 1, tok.end - 1) =~= e) by {
        assert forall|i: int| 0 <= i < e.len() implies s.subrange(tok.start + 1, tok.end - 1)[i]
            == e[i] by {
            assert(s.subrange(p, p + t.len())[n + 3 + i] == t[n + 3 + i]);
        }
    }
    lemma_unescape_escape(x);
}

/// The three configuration field names are made of ASCII letters, begin
/// with `P`, and name their fields.
proof fn lemma_field_names()
    ensures
        "ProjectName"@.len() == 11 && "ProjectName"@[0] == 'P' && alphabetic("ProjectName"@),
        "ProjectVersion"@.len() == 14 && "ProjectVersion"@[0] == 'P' && alphabetic(
            "ProjectVersion"@,
        ),
        "ProjectDescription"@.len() == 18 && "ProjectDescription"@[0] == 'P' && alphabetic(
            "ProjectDescription"@,
        ),
        spec_symbol_class("ProjectName"@) == Class::ProjectName,
        spec_symbol_class("ProjectVersion"@) == Class::ProjectVersion,
        spec_symbol_class("ProjectDescription"@) == Class::ProjectDescription,
{
    reveal_strlit("ProjectName");
    reveal_strlit("ProjectVersion");
    reveal_strlit("ProjectDescription");
}

/// What follows the version field: the description field and a line
/// break, if there is a description.
pub open spec fn tail_text(description: Option<Seq<char>>) -> Seq<char> {
    match description {
        Some(x) => field_text("ProjectDescription"@, x) + "\n"@,
        None => Seq::empty(),
    }
}

/// A configuration text is its name field, a line break, its version field
/// and its tail.
proof fn lemma_text_parts(name: Seq<char>, version: Seq<char>, description: Option<Seq<char>>)
    ensures
        configuration_text(name, version, description) == field_text("ProjectName"@, name)
            + "\n"@ + field_text("ProjectVersion"@, version) + tail_text(description),
{
    reveal_strlit("ProjectName: \"");
    reveal_strlit("\"\nProjectVersion: \"");
    reveal_strlit("\"");
    reveal_strlit("ProjectDescription: \"");
    reveal_strlit("\"\n");
    reveal_strlit(": \"");
    reveal_strlit("\n");
    reveal_strlit("ProjectName");
    reveal_strlit("ProjectVersion");
    reveal_strlit("ProjectDescription");
    assert("ProjectName: \""@ =~= "ProjectName"@ + ": \""@);
    assert("\"\nProjectVersion: \""@ =~= "\""@ + "\n"@ + "ProjectVersion"@ + ": \""@);
    assert("ProjectDescription: \""@ =~= "ProjectDescription"@ + ": \""@);
    assert("\"\n"@ =~= "\""@ + "\n"@);
    assert(configuration_text(name, version, description) =~= field_text("ProjectName"@, name)
        + "\n"@ + field_text("ProjectVersion"@, version) + tail_text(description));
}

/// The fields that tokens `t1 + t2 (+ t3)` of name, version and description
/// fields combine to.
proof fn lemma_combine_fields(
    t1: Seq<Token<Class>>,
    t2: Seq<Token<Class>>,
    t3: Option<Seq<Token<Class>>>,
)
    requires
        t1.len() == 3 && t1[0].class == Class::ProjectName && t1[1].class == Class::Colon
            && t1[2].class == Class::String,
        t2.len() == 3 && t2[0].class == Class::ProjectVersion && t2[1].class == Class::Colon
            && t2[2].class == Class::String,
        t3 matches Some(t) ==> t.len() == 3 && t[0].class == Class::ProjectDescription
            && t[1].class == Class::Colon && t[2].class == Class::String,
    ensures
        ({
            let ts = match t3 {
                Some(t) => t1 + t2 + t,
                None => t1 + t2,
            };
            spec_combine(ts, 0, (None, None, None)) == Ok::<
                (Option<Token<Class>>, Option<Token<Class>>, Option<Token<Class>>),
                (Seq<Class>, Option<Token<Class>>),
            >(
                (
                    Some(t1[2]),
                    match t3 {
                        Some(t) => Some(t[2]),
                        None => None,
                    },
                    Some(t2[2]),
                ),
            )
        }),
{
    let d = match t3 {
        Some(t) => Some(t[2]),
        None => None,
    };
    let ts = match t3 {
        Some(t) => t1 + t2 + t,
        None => t1 + t2,
    };
    assert(ts[0] == t1[0] && ts[1] == t1[1] && ts[2] == t1[2]);
    assert(ts[3] == t2[0] && ts[4] == t2[1] && ts[5] == t2[2]);
    match t3 {
        Some(t) => {
            assert(ts[6] == t[0] && ts[7] == t[1] && ts[8] == t[2]);
            assert(ts.len() == 9);
            assert(spec_combine(ts, 6, (Some(t1[2]), None, Some(t2[2]))) == spec_combine(
                ts,
                9,
                (Some(t1[2]), d, Some(t2[2])),
            ));
        },
        None => {
            assert(ts.len() == 6);
        },
    }
    assert(spec_combine(ts, 3, (Some(t1[2]), None, None)) == spec_combine(
        ts,
        6,
        (Some(t1[2]), None, Some(t2[2])),
    ));
}

/// What reading text `s` back gives: name, version and description.
pub open spec fn reads_back(
    s: Seq<char>,
    name: Seq<char>,
    version: Seq<char>,
    description: Option<Seq<char>>,
) -> bool {
    spec_combine(spec_scan(s, 0), 0, (None, None, None)) matches Ok((n, d, v)) && {
        &&& spec_field(s, n, "New Project"@) == name
        &&& spec_field(s, v, "0.1.0"@) == version
        &&& match description {
            Some(x) => d matches Some(t) && spec_token_string(s, t) == x,
            None => d is None,
        }
    }
}

/// The tokens of the name and version fields of `s`, and what follows them.
proof fn lemma_head(s: Seq<char>, name: Seq<char>, version: Seq<char>)
    requires
        no_backslash(name),
        no_backslash(version),
        s.len() <= usize::MAX,
        field_text("ProjectName"@, name).len() + 1 + field_text("ProjectVersion"@, version).len()
            <= s.len(),
        s.subrange(
            0,
            field_text("ProjectName"@, name).len() + 1 + field_text("ProjectVersion"@, version).len()
                as int,
        ) == field_text("ProjectName"@, name) + "\n"@ + field_text("ProjectVersion"@, version),
    ensures
        ({
            let f1 = field_text("ProjectName"@, name);
            let p2 = f1.len() as int + 1;
            let f2 = field_text("ProjectVersion"@, version);
            let t1 = field_tokens(0, "ProjectName"@, name);
            let t2 = field_tokens(p2, "ProjectVersion"@, version);
            &&& spec_scan(s, 0) == t1 + t2 + spec_scan(s, p2 + f2.len() as int)
            &&& spec_token_string(s, t1[2]) == name
            &&& spec_token_string(s, t2[2]) == version
            &&& t1[0].class == Class::ProjectName && t1[1].class == Class::Colon && t1[2].class
                == Class::String
            &&& t2[0].class == Class::ProjectVersion && t2[1].class == Class::Colon
                && t2[2].class == Class::String
        }),
{
    lemma_field_names();
    reveal_strlit("\n");
    let pn = "ProjectName"@;
    let pv = "ProjectVersion"@;
    let f1 = field_text(pn, name);
    let f2 = field_text(pv, version);
    let p2: int = f1.len() as int + 1;
    let q2: int = p2 + f2.len() as int;
    let h = s.subrange(0, q2);
    assert(s.subrange(0, f1.len() as int) =~= f1) by {
        assert forall|i: int| 0 <= i < f1.len() implies s.subrange(0, f1.len() as int)[i] == f1[i] by {
            assert(h[i] == (f1 + "\n"@ + f2)[i]);
        }
    }
    assert(s.subrange(p2, q2) =~= f2) by {
        assert forall|i: int| 0 <= i < f2.len() implies s.subrange(p2, q2)[i] == f2[i] by {
            assert(h[p2 + i] == (f1 + "\n"@ + f2)[p2 + i]);
        }
    }
    assert(s[f1.len() as int] == '\n') by {
        assert(h[f1.len() as int] == (f1 + "\n"@ + f2)[f1.len() as int]);
    }
    lemma_field(s, 0, pn, name);
    lemma_field(s, p2, pv, version);
    lemma_field_value(s, 0, pn, name);
    lemma_field_value(s, p2, pv, version);
    assert(char_is_whitespace('\n'));
    assert(spec_scan(s, f1.len() as int) == spec_scan(s, p2));
    let t1 = field_tokens(0, pn, name);
    let t2 = field_tokens(p2, pv, version);
    assert(t1 + (t2 + spec_scan(s, q2)) =~= t1 + t2 + spec_scan(s, q2));
}

/// A text of a name and version field and a tail reads back as them.
proof fn lemma_reads_back(s: Seq<char>, name: Seq<char>, version: Seq<char>, description: Option<Seq<char>>)
    requires
        no_backslash(name),
        no_backslash(version),
        description matches Some(d) ==> no_backslash(d),
        s.len() <= usize::MAX,
        s == field_text("ProjectName"@, name) + "\n"@ + field_text("ProjectVersion"@, version)
            + tail_text(description),
    ensures
        reads_back(s, name, version, description),
{
    reveal_strlit("\n");
    let f1 = field_text("ProjectName"@, name);
    let f2 = field_text("ProjectVersion"@, version);
    let p2: int = f1.len() as int + 1;
    let q2: int = p2 + f2.len() as int;
    assert(s.subrange(0, q2) =~= f1 + "\n"@ + f2);
    lemma_head(s, name, version);
    let t1 = field_tokens(0, "ProjectName"@, name);
    let t2 = field_tokens(p2, "ProjectVersion"@, version);
    match description {
        None => {
            assert(s.len() == q2);
            assert(spec_scan(s, q2) == Seq::<Token<Class>>::empty());
            assert(spec_scan(s, 0) =~= t1 + t2);
            lemma_combine_fields(t1, t2, None);
        },
        Some(x) => {
            assert(s.subrange(q2, s.len() as int) =~= tail_text(description));
            lemma_tail(s, q2, x);
            let t3 = field_tokens(q2, "ProjectDescription"@, x);
            assert(spec_scan(s, 0) =~= t1 + t2 + t3);
            lemma_combine_fields(t1, t2, Some(t3));
        },
    }
}

/// A description field and a line break at the end of `s`, from `q`, read
/// back as the description.
proof fn lemma_tail(s: Seq<char>, q: int, x: Seq<char>)
    requires
        no_backslash(x),
        0 <= q,
        s.len() <= usize::MAX,
        q + field_text("ProjectDescription"@, x).len() + 1 == s.len(),
        s.subrange(q, s.len() as int) == field_text("ProjectDescription"@, x) + "\n"@,
    ensures
        spec_scan(s, q) == field_tokens(q, "ProjectDescription"@, x),
        spec_token_string(s, field_tokens(q, "ProjectDescription"@, x)[2]) == x,
        field_tokens(q, "ProjectDescription"@, x)[0].class == Class::ProjectDescription,
        field_tokens(q, "ProjectDescription"@, x)[1].class == Class::Colon,
        field_tokens(q, "ProjectDescription"@, x)[2].class == Class::String,
{
    lemma_field_names();
    reveal_strlit("\n");
    let pd = "ProjectDescription"@;
    let f3 = field_text(pd, x);
    let q3: int = q + f3.len() as int;
    let t = s.subrange(q, s.len() as int);
    assert(s.subrange(q, q3) =~= f3) by {
        assert forall|i: int| 0 <= i < f3.len() implies s.subrange(q, q3)[i] == f3[i] by {
            assert(t[i] == (f3 + "\n"@)[i]);
        }
    }
    assert(s[q3] == '\n') by {
        assert(t[f3.len() as int] == (f3 + "\n"@)[f3.len() as int]);
    }
    lemma_field(s, q, pd, x);
    lemma_field_value(s, q, pd, x);
    assert(char_is_whitespace('\n'));
    assert(spec_scan(s, q3) == spec_scan(s, q3 + 1));
    assert(spec_scan(s, q3 + 1) == Seq::<Token<Class>>::empty());
    assert(field_tokens(q, pd, x) + Seq::<Token<Class>>::empty() =~= field_tokens(q, pd, x));
}

/// Reading back the text a configuration is written as gives its name,
/// version and description, where none of them holds a backslash.
pub proof fn law_configuration_round_trip(
    name: Seq<char>,
    version: Seq<char>,
    description: Option<Seq<char>>,
)
    requires
        no_backslash(name),
        no_backslash(version),
        description matches Some(d) ==> no_backslash(d),
        configuration_text(name, version, description).len() <= usize::MAX,
    ensures
        reads_back(configuration_text(name, version, description), name, version, description),
{
    lemma_text_parts(name, version, description);
    lemma_reads_back(configuration_text(name, version, description), name, version, description);
}

} // verus!
