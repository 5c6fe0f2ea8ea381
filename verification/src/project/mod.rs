//! Arrowhead specification project management.
//!
//! This module contains tools useful for managing a folder containing a
//! specification project.

pub mod configuration;
pub mod options;
pub mod parser;
pub mod round_trip;

pub use self::configuration::Configuration;

use vstd::prelude::*;
use vstd::string::{StrSliceExecFns, StringExecFns};

verus! {

/// Name of the file, in the project root, that holds the configuration.
pub const PROJECT_FILE: &'static str = "project.txt";

/// File extension of project source files.
pub const SOURCE_EXTENSION: &'static str = "ahfs";

/// An Arrowhead Framework specification project.
pub struct Project {
    root: String,
    configuration: Configuration,
}

/// The path of the target folder of a project rooted at `root`: `target`
/// appended to it as a further component.
pub open spec fn target_path(root: Seq<char>) -> Seq<char> {
    if root.len() == 0 {
        "target"@
    } else if root.last() == '/' {
        root + "target"@
    } else {
        root + "/target"@
    }
}

/// Whether a file named `name` has the extension of project source files:
/// it ends in `.ahfs` after at least one other character.
pub open spec fn is_source_name(name: Seq<char>) -> bool {
    name.len() > 5 && name.subrange(name.len() - 5, name.len() as int) == ".ahfs"@
}

/// The parent of `path` as `std::path::Path::parent` gives it: the path
/// without its final component, or `None` where it ends in a root or a
/// prefix, or is empty.
pub uninterp spec fn path_parent_of(path: Seq<char>) -> Option<Seq<char>>;

/// `std::path::Path::parent` on the path `path`. Its result is named by
/// [`path_parent_of`]; as the documentation says it drops the final
/// component, a parent is shorter than its path. Which component counts as
/// final is left to the named result.
#[verifier::external_body]
fn path_parent(path: &str) -> (r: Option<String>)
    ensures
        r is None <==> path_parent_of(path@) is None,
        r matches Some(p) ==> path_parent_of(path@) == Some(p@) && p@.len() < path@.len(),
{
    match std::path::Path::new(path).parent() {
        Some(parent) => Some(parent.to_string_lossy().into_owned()),
        None => None,
    }
}

/// The folders searched for a project file, nearest first: `path` itself,
/// then its parent, and so on up to the last one that has none.
pub open spec fn locate_candidates_of(path: Seq<char>) -> Seq<Seq<char>>
    decreases path.len(),
{
    seq![path] + match path_parent_of(path) {
        Some(parent) => if parent.len() < path.len() {
            locate_candidates_of(parent)
        } else {
            Seq::empty()
        },
        None => Seq::empty(),
    }
}

/// Lists the folders in which a project file is looked for when locating
/// the project that contains `path`: `path`, then each parent, nearest
/// first.
pub fn locate_candidates(path: &str) -> (r: Vec<String>)
    ensures
        r@.map_values(|s: String| s@) == locate_candidates_of(path@),
{
    let mut out: Vec<String> = Vec::new();
    let mut current = String::from_str(path);
    loop
        invariant
            out@.map_values(|s: String| s@) + locate_candidates_of(current@)
                == locate_candidates_of(path@),
        decreases current@.len(),
    {
        let next = path_parent(current.as_str());
        let ghost before = out@.map_values(|s: String| s@);
        let ghost here = current@;
        out.push(current);
        proof {
            assert(out@.map_values(|s: String| s@) =~= before.push(here));
        }
        match next {
            Some(parent) => {
                proof {
                    assert(locate_candidates_of(here) =~= seq![here] + locate_candidates_of(
                        parent@,
                    ));
                    assert(before.push(here) + locate_candidates_of(parent@) =~= before
                        + locate_candidates_of(here));
                }
                current = parent;
            },
            None => {
                proof {
                    assert(locate_candidates_of(here) =~= seq![here]);
                    assert(before.push(here) =~= before + locate_candidates_of(here));
                }
                return out;
            },
        }
    }
}

/// Chooses where the project lies, given for each folder that
/// [`locate_candidates`] lists whether it holds a project file: the first
/// that does, or `None` where none does.
pub fn locate_choice(is_file: &[bool]) -> (r: Option<usize>)
    ensures
        match r {
            Some(i) => i < is_file@.len() && is_file@[i as int] && forall|j: int|
                0 <= j < i ==> !is_file@[j],
            None => forall|j: int| 0 <= j < is_file@.len() ==> !is_file@[j],
        },
{
    let mut i: usize = 0;
    while i < is_file.len()
        invariant
            i <= is_file@.len(),
            forall|j: int| 0 <= j < i ==> !is_file@[j],
        decreases is_file@.len() - i,
    {
        if is_file[i] {
            return Some(i);
        }
        i = i + 1;
    }
    None
}

impl Project {
    /// Root folder.
    pub closed spec fn spec_root(&self) -> Seq<char> {
        self.root@
    }

    /// Configuration.
    pub closed spec fn spec_configuration(&self) -> &Configuration {
        &self.configuration
    }

    /// A project rooted at `root` with `configuration`, as found in, or
    /// written to, its project file.
    pub fn open(root: String, configuration: Configuration) -> (r: Self)
        ensures
            r.spec_root() == root@,
            r.spec_configuration() == configuration,
    {
        Project { root, configuration }
    }

    /// Project root folder.
    pub fn root(&self) -> (r: &str)
        ensures
            r@ == self.spec_root(),
    {
        self.root.as_str()
    }

    /// Project options, as specified in the project file in the project
    /// root.
    pub fn configuration(&self) -> (r: &Configuration)
        ensures
            r == self.spec_configuration(),
    {
        &self.configuration
    }

    /// Target output folder.
    pub fn target(&self) -> (r: String)
        ensures
            r@ == target_path(self.spec_root()),
    {
        let root = self.root.as_str();
        let n = root.unicode_len();
        let mut out = self.root.clone();
        if n == 0 {
            return "target".to_owned();
        } else if root.get_char(n - 1) == '/' {
            out.append("target");
        } else {
            out.append("/target");
        }
        out
    }
}

/// Whether the file named `name` is a project source file.
pub fn is_source_file(name: &str) -> (r: bool)
    ensures
        r == is_source_name(name@),
{
    let n = name.unicode_len();
    if n <= 5 {
        return false;
    }
    let suffix = name.substring_char(n - 5, n);
    let r = crate::source::chars_eq(crate::source::chars_of(suffix).as_slice(), ".ahfs");
    r
}

} // verus!
