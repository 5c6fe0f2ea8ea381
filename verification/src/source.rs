//! Source texts, the tokens cut out of them, and the character classes that
//! lexical analysis relies on.

use vstd::prelude::*;
use vstd::string::{StrSliceExecFns, StringExecFns};

verus! {

/// A named source text, held as a sequence of characters.
pub struct Text {
    /// Name of the text, such as a file name.
    pub name: String,
    /// Characters of the text.
    pub body: Vec<char>,
}

impl Text {
    /// Creates a text named `name` holding the characters of `body`.
    pub fn new(name: &str, body: &str) -> (r: Text)
        ensures
            r.name@ == name@,
            r.body@ == body@,
    {
        Text { name: name.to_owned(), body: chars_of(body) }
    }
}

/// A classified range `start..end` of characters in a source text.
#[derive(Copy, Clone, PartialEq, Eq, Structural)]
pub struct Token<C> {
    /// Class of the token.
    pub class: C,
    /// Index of the first character of the token.
    pub start: usize,
    /// Index just past the last character of the token.
    pub end: usize,
}

/// Token classes, which can be told apart.
pub trait Classify: Copy + Sized {
    /// Whether `self` and `other` are the same class.
    fn is(&self, other: &Self) -> (r: bool)
        ensures
            r == (*self == *other),
    ;
}

/// A range `start..end` of the characters of a source text.
#[derive(Copy, Clone)]
pub struct Span<'a> {
    /// The text the range lies in.
    pub source: &'a Text,
    /// Index of the first character of the range.
    pub start: usize,
    /// Index just past the last character of the range.
    pub end: usize,
}

/// The characters a span covers, or none where its range does not lie
/// within its text.
pub open spec fn span_text(s: Span) -> Seq<char> {
    if s.start <= s.end <= s.source.body@.len() {
        s.source.body@.subrange(s.start as int, s.end as int)
    } else {
        Seq::empty()
    }
}

/// The span of `text` covered by `token`.
pub open spec fn span_of<'a, C>(text: &'a Text, token: Token<C>) -> Span<'a> {
    Span { source: text, start: token.start, end: token.end }
}

impl<'a> Span<'a> {
    /// The span of `text` covered by `token`.
    pub fn of<C>(text: &'a Text, token: Token<C>) -> (r: Span<'a>)
        ensures
            r == span_of(text, token),
    {
        Span { source: text, start: token.start, end: token.end }
    }

    /// The characters of the span, as a string.
    pub fn as_str(&self) -> (r: String)
        ensures
            r@ == span_text(*self),
    {
        let mut out = String::new();
        let body = self.source.body.as_slice();
        if !(self.start <= self.end && self.end <= body.len()) {
            return out;
        }
        let mut i = self.start;
        while i < self.end
            invariant
                self.start <= i <= self.end <= body@.len(),
                body@ == self.source.body@,
                out@ == body@.subrange(self.start as int, i as int),
            decreases self.end - i,
        {
            push_char(&mut out, body[i]);
            assert(out@ =~= body@.subrange(self.start as int, i + 1));
            i = i + 1;
        }
        out
    }

    /// Where the span begins: its text's name, its line and its column,
    /// both counted from one, and then the characters it covers.
    pub fn excerpt(&self) -> (r: String)
        requires
            self.source.body@.len() < usize::MAX,
        ensures
            r@ == excerpt_text(*self),
    {
        let body = self.source.body.as_slice();
        let at = if self.start <= body.len() {
            self.start
        } else {
            body.len()
        };
        let mut lines: usize = 0;
        let mut start: usize = 0;
        let mut i: usize = 0;
        while i < at
            invariant
                i <= at <= body@.len(),
                body@.len() < usize::MAX,
                body@ == self.source.body@,
                lines == newlines_before(body@, i as int),
                lines <= i,
                start == line_start(body@, i as int),
                start <= i,
            decreases at - i,
        {
            if body[i] == '\n' {
                lines = lines + 1;
                start = i + 1;
            }
            i = i + 1;
        }
        let mut out = self.source.name.clone();
        assert(out@ == self.source.name@);
        out.append(":");
        push_decimal(&mut out, lines + 1);
        out.append(":");
        push_decimal(&mut out, at - start + 1);
        out.append(": `");
        let text = self.as_str();
        out.append(text.as_str());
        out.append("`");
        out
    }

    /// Whether the span covers exactly the characters of `word`.
    pub fn text_is(&self, word: &str) -> (r: bool)
        ensures
            r == (span_text(*self) == word@),
    {
        let body = self.source.body.as_slice();
        if self.start <= self.end && self.end <= body.len() {
            chars_eq(&body[self.start..self.end], word)
        } else {
            let n = word.unicode_len();
            proof {
                if span_text(*self) == word@ {
                    assert(word@.len() == 0);
                }
                if n == 0 {
                    assert(word@ =~= Seq::<char>::empty());
                }
            }
            n == 0
        }
    }

    /// Whether the two spans cover the same characters.
    pub fn same_text(&self, other: &Span) -> (r: bool)
        ensures
            r == (span_text(*self) == span_text(*other)),
    {
        let a = self.source.body.as_slice();
        let b = other.source.body.as_slice();
        let a_ok = self.start <= self.end && self.end <= a.len();
        let b_ok = other.start <= other.end && other.end <= b.len();
        let a_len = if a_ok { self.end - self.start } else { 0 };
        let b_len = if b_ok { other.end - other.start } else { 0 };
        if a_len != b_len {
            proof {
                if span_text(*self) == span_text(*other) {
                    assert(span_text(*self).len() == span_text(*other).len());
                }
            }
            return false;
        }
        let mut k: usize = 0;
        while k < a_len
            invariant
                k <= a_len == b_len,
                a@ == self.source.body@,
                b@ == other.source.body@,
                a_len == span_text(*self).len(),
                b_len == span_text(*other).len(),
                a_len > 0 ==> a_ok && b_ok,
                a_ok ==> self.start <= self.end <= a@.len(),
                b_ok ==> other.start <= other.end <= b@.len(),
                a_ok ==> a_len == self.end - self.start,
                b_ok ==> b_len == other.end - other.start,
                forall|j: int| 0 <= j < k ==> span_text(*self)[j] == span_text(*other)[j],
            decreases a_len - k,
        {
            if a[self.start + k] != b[other.start + k] {
                proof {
                    assert(span_text(*self)[k as int] != span_text(*other)[k as int]);
                }
                return false;
            }
            k = k + 1;
        }
        assert(span_text(*self) =~= span_text(*other));
        true
    }
}

/// The decimal digits of `n`.
pub open spec fn decimal(n: nat) -> Seq<char>
    decreases n,
{
    if n < 10 {
        seq![digit_char((n % 10) as nat)]
    } else {
        decimal(n / 10) + seq![digit_char((n % 10) as nat)]
    }
}

/// The character of decimal digit `d`.
pub open spec fn digit_char(d: nat) -> char {
    if d == 0 {
        '0'
    } else if d == 1 {
        '1'
    } else if d == 2 {
        '2'
    } else if d == 3 {
        '3'
    } else if d == 4 {
        '4'
    } else if d == 5 {
        '5'
    } else if d == 6 {
        '6'
    } else if d == 7 {
        '7'
    } else if d == 8 {
        '8'
    } else {
        '9'
    }
}

fn digit(d: usize) -> (r: char)
    requires
        d < 10,
    ensures
        r == digit_char(d as nat),
{
    if d == 0 {
        '0'
    } else if d == 1 {
        '1'
    } else if d == 2 {
        '2'
    } else if d == 3 {
        '3'
    } else if d == 4 {
        '4'
    } else if d == 5 {
        '5'
    } else if d == 6 {
        '6'
    } else if d == 7 {
        '7'
    } else if d == 8 {
        '8'
    } else {
        '9'
    }
}

/// Appends the decimal digits of `n` to `out`.
pub fn push_decimal(out: &mut String, n: usize)
    ensures
        final(out)@ == old(out)@ + decimal(n as nat),
    decreases n,
{
    if n >= 10 {
        push_decimal(out, n / 10);
    }
    push_char(out, digit(n % 10));
    proof {
        if n >= 10 {
            assert(final(out)@ =~= old(out)@ + decimal(n as nat));
        }
    }
}

/// Number of line breaks among the first `end` characters of `s`.
pub open spec fn newlines_before(s: Seq<char>, end: int) -> nat
    decreases end,
{
    if end <= 0 || end > s.len() {
        0
    } else {
        newlines_before(s, end - 1) + if s[end - 1] == '\n' { 1nat } else { 0nat }
    }
}

/// Index of the first character of the line that the character at `end`
/// lies on.
pub open spec fn line_start(s: Seq<char>, end: int) -> int
    decreases end,
{
    if end <= 0 || end > s.len() {
        0
    } else if s[end - 1] == '\n' {
        end
    } else {
        line_start(s, end - 1)
    }
}

/// Where span `s` begins: its text's name, its line and its column, both
/// counted from one, and then the characters it covers.
pub open spec fn excerpt_text(s: Span) -> Seq<char> {
    let body = s.source.body@;
    let at = if s.start <= body.len() { s.start as int } else { body.len() as int };
    s.source.name@ + ":"@ + decimal(newlines_before(body, at) + 1) + ":"@ + decimal(
        (at - line_start(body, at) + 1) as nat,
    ) + ": `"@ + span_text(s) + "`"@
}

/// A failure to find an expected token.
pub struct Error<C> {
    /// Classes of tokens that would have been accepted.
    pub expected: Vec<C>,
    /// The token found instead, or `None` at the end of the tokens.
    pub actual: Option<Token<C>>,
}

impl<C> View for Error<C> {
    type V = (Seq<C>, Option<Token<C>>);

    open spec fn view(&self) -> (Seq<C>, Option<Token<C>>) {
        (self.expected@, self.actual)
    }
}

/// `String::push`: appends `c` to `s`.
#[verifier::external_body]
pub(crate) fn push_char(s: &mut String, c: char)
    ensures
        final(s)@ == old(s)@.push(c),
{
    s.push(c);
}

/// A cursor over a sequence of tokens, from which expected tokens are taken.
pub struct Matcher<'t, C> {
    tokens: &'t [Token<C>],
    pos: usize,
}

/// Index, counted from `k`, of the first of `classes` that the tokens from
/// `p` on do not match one by one; `None` if they match all of them.
pub open spec fn all_mismatch<C>(ts: Seq<Token<C>>, p: int, classes: Seq<C>, k: int) -> Option<int>
    decreases classes.len() - k,
{
    if k < 0 || k >= classes.len() {
        None
    } else if p + k < ts.len() && ts[p + k].class == classes[k] {
        all_mismatch(ts, p, classes, k + 1)
    } else {
        Some(k)
    }
}

/// A mismatch found from `k` on lies at or after `k`, among the classes.
pub proof fn lemma_all_mismatch_range<C>(ts: Seq<Token<C>>, p: int, classes: Seq<C>, k: int)
    requires
        0 <= k,
    ensures
        all_mismatch(ts, p, classes, k) matches Some(m) ==> k <= m < classes.len(),
    decreases classes.len() - k,
{
    if k < classes.len() && p + k < ts.len() && ts[p + k].class == classes[k] {
        lemma_all_mismatch_range(ts, p, classes, k + 1);
    }
}

/// Whether class `c` is one of `classes`.
pub open spec fn class_in<C>(classes: Seq<C>, c: C) -> bool {
    exists|i: int| 0 <= i < classes.len() && classes[i] == c
}

impl<'t, C> Matcher<'t, C> {
    #[verifier::type_invariant]
    spec fn in_bounds(&self) -> bool {
        self.pos <= self.tokens@.len()
    }
}

impl<'t, C: Classify> Matcher<'t, C> {
    /// The tokens matched against.
    pub closed spec fn spec_tokens(&self) -> Seq<Token<C>> {
        self.tokens@
    }

    /// Index of the next token.
    pub closed spec fn spec_pos(&self) -> int {
        self.pos as int
    }

    /// Whether the next token is one of the tokens or just past the last.
    pub open spec fn in_range(&self) -> bool {
        0 <= self.spec_pos() <= self.spec_tokens().len()
    }

    /// Creates a matcher at the first of `tokens`.
    pub fn new(tokens: &'t [Token<C>]) -> (r: Self)
        ensures
            r.spec_tokens() == tokens@,
            r.spec_pos() == 0,
            r.in_range(),
    {
        Matcher { tokens, pos: 0 }
    }

    /// Whether all tokens have been taken.
    pub fn at_end(&self) -> (r: bool)
        ensures
            r == (self.spec_pos() >= self.spec_tokens().len()),
    {
        self.pos >= self.tokens.len()
    }

    fn contains(classes: &[C], c: C) -> (r: bool)
        ensures
            r == class_in(classes@, c),
    {
        let mut i: usize = 0;
        while i < classes.len()
            invariant
                i <= classes@.len(),
                forall|j: int| 0 <= j < i ==> classes@[j] != c,
            decreases classes@.len() - i,
        {
            if classes[i].is(&c) {
                return true;
            }
            i = i + 1;
        }
        false
    }

    /// The failure of expecting `classes` at the current position.
    fn error(&self, classes: &[C]) -> (r: Error<C>)
        ensures
            r.expected@ == classes@,
            self.spec_pos() < self.spec_tokens().len() ==> r.actual == Some(
                self.spec_tokens()[self.spec_pos()],
            ),
            self.spec_pos() >= self.spec_tokens().len() ==> r.actual is None,
    {
        let mut expected: Vec<C> = Vec::new();
        let mut i: usize = 0;
        while i < classes.len()
            invariant
                i <= classes@.len(),
                expected@ == classes@.subrange(0, i as int),
            decreases classes@.len() - i,
        {
            expected.push(classes[i]);
            i = i + 1;
        }
        assert(classes@.subrange(0, classes@.len() as int) == classes@);
        let actual = if self.pos < self.tokens.len() {
            Some(self.tokens[self.pos])
        } else {
            None
        };
        Error { expected, actual }
    }

    /// Takes the next token if its class is one of `classes`.
    pub fn any(&mut self, classes: &[C]) -> (r: Result<Token<C>, Error<C>>)
        ensures
            final(self).spec_tokens() == old(self).spec_tokens(),
            final(self).in_range(),
            ({
                let ts = old(self).spec_tokens();
                let p = old(self).spec_pos();
                if p < ts.len() && class_in(classes@, ts[p].class) {
                    r == Ok::<Token<C>, Error<C>>(ts[p]) && final(self).spec_pos() == p + 1
                } else {
                    &&& r matches Err(e) && e.expected@ == classes@ && (if p < ts.len() {
                        e.actual == Some(ts[p])
                    } else {
                        e.actual is None
                    })
                    &&& final(self).spec_pos() == p
                }
            }),
    {
        proof {
            use_type_invariant(&*self);
        }
        if self.pos < self.tokens.len() && Self::contains(classes, self.tokens[self.pos].class) {
            let token = self.tokens[self.pos];
            self.pos = self.pos + 1;
            Ok(token)
        } else {
            Err(self.error(classes))
        }
    }

    /// Takes the next token if its class is `class`.
    pub fn one(&mut self, class: C) -> (r: Result<Token<C>, Error<C>>)
        ensures
            final(self).spec_tokens() == old(self).spec_tokens(),
            final(self).in_range(),
            ({
                let ts = old(self).spec_tokens();
                let p = old(self).spec_pos();
                if p < ts.len() && ts[p].class == class {
                    r == Ok::<Token<C>, Error<C>>(ts[p]) && final(self).spec_pos() == p + 1
                } else {
                    &&& r matches Err(e) && e.expected@ == seq![class] && (if p < ts.len() {
                        e.actual == Some(ts[p])
                    } else {
                        e.actual is None
                    })
                    &&& final(self).spec_pos() == p
                }
            }),
    {
        let classes = [class];
        let r = self.any(&classes);
        proof {
            let ts = old(self).spec_tokens();
            let p = old(self).spec_pos();
            assert(classes@ == seq![class]);
            if p < ts.len() {
                if ts[p].class == class {
                    assert(classes@[0] == ts[p].class);
                }
            }
        }
        r
    }

    /// Takes one token of each of `classes`, in order, stopping at the first
    /// token of another class.
    pub fn all(&mut self, classes: &[C]) -> (r: Result<Vec<Token<C>>, Error<C>>)
        ensures
            final(self).spec_tokens() == old(self).spec_tokens(),
            final(self).in_range(),
            ({
                let ts = old(self).spec_tokens();
                let p = old(self).spec_pos();
                let n = classes@.len();
                match all_mismatch(ts, p, classes@, 0) {
                    None => r matches Ok(v) && v@ == ts.subrange(p, p + n) && final(self).spec_pos()
                        == p + n,
                    Some(k) => 0 <= k < n && (r matches Err(e) && e.expected@ == seq![classes@[k]] && (if p + k
                        < ts.len() {
                        e.actual == Some(ts[p + k])
                    } else {
                        e.actual is None
                    })),
                }
            }),
    {
        proof {
            use_type_invariant(&*self);
            lemma_all_mismatch_range(self.spec_tokens(), self.spec_pos(), classes@, 0);
        }
        let ghost ts = self.spec_tokens();
        let ghost p = self.spec_pos();
        let mut out: Vec<Token<C>> = Vec::new();
        let mut k: usize = 0;
        while k < classes.len()
            invariant
                k <= classes@.len(),
                ts == old(self).spec_tokens(),
                p == old(self).spec_pos(),
                0 <= p,
                self.spec_tokens() == ts,
                self.spec_pos() == p + k,
                p + k <= ts.len(),
                out@ == ts.subrange(p, p + k),
                all_mismatch(ts, p, classes@, 0) == all_mismatch(ts, p, classes@, k as int),
            decreases classes@.len() - k,
        {
            let c = classes[k];
            let r1 = self.one(c);
            match r1 {
                Ok(t) => {
                    assert(p + k < ts.len() && ts[p + k].class == c && t == ts[p + k]);
                    out.push(t);
                    assert(out@ =~= ts.subrange(p, p + k + 1));
                },
                Err(e) => {
                    assert(!(p + k < ts.len() && ts[p + k].class == classes@[k as int]));
                    assert(all_mismatch(ts, p, classes@, k as int) == Some(k as int));
                    return Err(e);
                },
            }
            k = k + 1;
        }
        Ok(out)
    }

    /// Takes the next token if its class is `class`, and otherwise takes
    /// nothing.
    pub fn one_optional(&mut self, class: C) -> (r: Option<Token<C>>)
        ensures
            final(self).spec_tokens() == old(self).spec_tokens(),
            final(self).in_range(),
            ({
                let ts = old(self).spec_tokens();
                let p = old(self).spec_pos();
                if p < ts.len() && ts[p].class == class {
                    r == Some(ts[p]) && final(self).spec_pos() == p + 1
                } else {
                    r is None && final(self).spec_pos() == p
                }
            }),
    {
        proof {
            use_type_invariant(&*self);
        }
        if self.pos < self.tokens.len() && self.tokens[self.pos].class.is(&class) {
            let token = self.tokens[self.pos];
            self.pos = self.pos + 1;
            Some(token)
        } else {
            None
        }
    }
}

/// The characters of `s`, in order.
pub(crate) fn chars_of(s: &str) -> (r: Vec<char>)
    ensures
        r@ == s@,
{
    broadcast use vstd::string::axiom_spec_iter;

    let mut v: Vec<char> = Vec::new();
    for c in it: s.chars()
        invariant
            v@ == it.seq().take(it.index() as int),
    {
        v.push(c);
        assert(v@ =~= it.seq().take(it.index() + 1));
    }
    assert(v@ =~= s@);
    v
}

/// Whether `c` has the Unicode `White_Space` property.
pub open spec fn char_is_whitespace(c: char) -> bool {
    ||| '\u{9}' <= c <= '\u{d}'
    ||| c == ' '
    ||| c == '\u{85}'
    ||| c == '\u{a0}'
    ||| c == '\u{1680}'
    ||| '\u{2000}' <= c <= '\u{200a}'
    ||| c == '\u{2028}'
    ||| c == '\u{2029}'
    ||| c == '\u{202f}'
    ||| c == '\u{205f}'
    ||| c == '\u{3000}'
}

/// Whether `c` has the Unicode `Alphabetic` property.
pub uninterp spec fn char_is_alphabetic(c: char) -> bool;

/// Whether `c` has the Unicode `Alphabetic` property or a numeric general
/// category (`Nd`, `Nl` or `No`).
pub uninterp spec fn char_is_alphanumeric(c: char) -> bool;

/// Whether `c` has the Unicode `White_Space` property, the characters that
/// `char::is_whitespace` documents.
pub(crate) fn is_whitespace(c: char) -> (r: bool)
    ensures
        r == char_is_whitespace(c),
{
    ('\u{9}' <= c && c <= '\u{d}') || c == ' ' || c == '\u{85}' || c == '\u{a0}' || c == '\u{1680}'
        || ('\u{2000}' <= c && c <= '\u{200a}') || c == '\u{2028}' || c == '\u{2029}' || c
        == '\u{202f}' || c == '\u{205f}' || c == '\u{3000}'
}

/// `char::is_alphabetic`: whether `c` has the Unicode `Alphabetic` property,
/// a table that is only named here.
#[verifier::external_body]
pub(crate) fn is_alphabetic(c: char) -> (r: bool)
    ensures
        r == char_is_alphabetic(c),
{
    c.is_alphabetic()
}

/// `char::is_alphanumeric`: whether `c` is alphabetic or numeric in the
/// Unicode sense, a table that is only named here. As its documentation
/// says, it holds of every character that `char::is_alphabetic` holds of;
/// what it says of the numeric ones is left unstated.
#[verifier::external_body]
pub(crate) fn is_alphanumeric(c: char) -> (r: bool)
    ensures
        r == char_is_alphanumeric(c),
        char_is_alphabetic(c) ==> r,
{
    c.is_alphanumeric()
}

/// Whether the characters of `s` are exactly those of `word`.
pub fn chars_eq(s: &[char], word: &str) -> (r: bool)
    ensures
        r == (s@ == word@),
{
    let n = word.unicode_len();
    if s.len() != n {
        return false;
    }
    let mut i: usize = 0;
    while i < n
        invariant
            i <= n,
            n == word@.len(),
            s@.len() == n,
            forall|j: int| 0 <= j < i ==> s@[j] == word@[j],
        decreases n - i,
    {
        if s[i] != word.get_char(i) {
            return false;
        }
        i = i + 1;
    }
    assert(s@ =~= word@);
    true
}

} // verus!
