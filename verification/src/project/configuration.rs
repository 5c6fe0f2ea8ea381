use vstd::prelude::*;
use vstd::string::{StrSliceExecFns, StringExecFns};

verus! {

/// Arrowhead Framework project configuration.
pub struct Configuration {
    /// Project name.
    pub name: String,
    /// Optional project description.
    pub description: Option<String>,
    /// Project version.
    pub version: String,
}

/// How character `c` is written inside a quoted configuration string.
pub open spec fn escaped_char(c: char) -> Seq<char> {
    if c == '"' {
        seq!['\\', '"']
    } else {
        seq![c]
    }
}

/// The characters of `s` with each `"` preceded by a backslash.
pub open spec fn escape_quotes(s: Seq<char>) -> Seq<char>
    decreases s.len(),
{
    if s.len() == 0 {
        Seq::empty()
    } else {
        escape_quotes(s.drop_last()) + escaped_char(s.last())
    }
}

/// The text a configuration is written as: name and version, each on a line
/// of its own but for the version's end, then the description, if any.
pub open spec fn configuration_text(name: Seq<char>, version: Seq<char>, description: Option<Seq<char>>) -> Seq<char> {
    "ProjectName: \""@ + escape_quotes(name) + "\"\nProjectVersion: \""@ + escape_quotes(version)
        + "\""@ + match description {
        Some(d) => "ProjectDescription: \""@ + escape_quotes(d) + "\"\n"@,
        None => Seq::empty(),
    }
}

/// The characters of an optional description.
pub open spec fn description_text(d: Option<String>) -> Option<Seq<char>> {
    match d {
        Some(d) => Some(d@),
        None => None,
    }
}

/// Appends `s`, with its quotes escaped, to `out`.
fn push_escaped(out: &mut String, s: &str)
    ensures
        final(out)@ == old(out)@ + escape_quotes(s@),
{
    let n = s.unicode_len();
    let mut i: usize = 0;
    while i < n
        invariant
            i <= n == s@.len(),
            out@ == old(out)@ + escape_quotes(s@.subrange(0, i as int)),
        decreases n - i,
    {
        let c = s.get_char(i);
        if c == '"' {
            out.append("\\\"");
        } else {
            crate::source::push_char(out, c);
        }
        proof {
            reveal_strlit("\\\"");
            let t = s@.subrange(0, i + 1);
            assert(t.drop_last() =~= s@.subrange(0, i as int));
            assert(out@ =~= old(out)@ + escape_quotes(t));
        }
        i = i + 1;
    }
    assert(s@.subrange(0, n as int) =~= s@);
}

impl Configuration {
    /// Creates a configuration for a project named `name`, without
    /// description and at version `0.1.0`.
    pub fn new(name: &str) -> (r: Self)
        ensures
            r.name@ == name@,
            r.description is None,
            r.version@ == "0.1.0"@,
    {
        Configuration { name: name.to_owned(), description: None, version: "0.1.0".to_owned() }
    }

    /// The text this configuration is written to a file as.
    pub fn to_text(&self) -> (r: String)
        ensures
            r@ == configuration_text(self.name@, self.version@, description_text(self.description)),
    {
        let mut out = String::new();
        out.append("ProjectName: \"");
        push_escaped(&mut out, self.name.as_str());
        out.append("\"\nProjectVersion: \"");
        push_escaped(&mut out, self.version.as_str());
        out.append("\"");
        match &self.description {
            Some(d) => {
                out.append("ProjectDescription: \"");
                push_escaped(&mut out, d.as_str());
                out.append("\"\n");
            },
            None => {},
        }
        out
    }
}

} // verus!
