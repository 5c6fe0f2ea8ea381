use vstd::prelude::*;

verus! {

/// `[project]` section of the `project.toml` configuration file.
pub struct OptionsProject {
    name: String,
    description: Option<String>,
    out_dir: Option<String>,
    version: String,
}

impl OptionsProject {
    /// Project name.
    pub closed spec fn spec_name(&self) -> Seq<char> {
        self.name@
    }

    /// Optional project description.
    pub closed spec fn spec_description(&self) -> Option<Seq<char>> {
        match self.description {
            Some(d) => Some(d@),
            None => None,
        }
    }

    /// Directory where generated project files are to be stored, if given.
    pub closed spec fn spec_out_dir(&self) -> Option<Seq<char>> {
        match self.out_dir {
            Some(d) => Some(d@),
            None => None,
        }
    }

    /// Project version.
    pub closed spec fn spec_version(&self) -> Seq<char> {
        self.version@
    }

    /// Creates new default project with given `name`.
    pub fn new(name: &str) -> (r: Self)
        ensures
            r.spec_name() == name@,
            r.spec_description() is None,
            r.spec_out_dir() is None,
            r.spec_version() == "0.1.0"@,
    {
        OptionsProject {
            name: name.to_owned(),
            description: None,
            out_dir: None,
            version: "0.1.0".to_owned(),
        }
    }

    /// Creates a project section from all of its fields.
    pub fn from_parts(
        name: String,
        description: Option<String>,
        out_dir: Option<String>,
        version: String,
    ) -> (r: Self)
        ensures
            r.spec_name() == name@,
            r.spec_description() == (match description {
                Some(d) => Some(d@),
                None => None::<Seq<char>>,
            }),
            r.spec_out_dir() == (match out_dir {
                Some(d) => Some(d@),
                None => None::<Seq<char>>,
            }),
            r.spec_version() == version@,
    {
        OptionsProject { name, description, out_dir, version }
    }

    /// Project name.
    pub fn name(&self) -> (r: &str)
        ensures
            r@ == self.spec_name(),
    {
        self.name.as_str()
    }

    /// Optional project description.
    pub fn description(&self) -> (r: Option<&str>)
        ensures
            match self.spec_description() {
                Some(d) => r matches Some(s) && s@ == d,
                None => r is None,
            },
    {
        match &self.description {
            Some(d) => Some(d.as_str()),
            None => None,
        }
    }

    /// Directory where generated project files are to be stored.
    pub fn out_dir(&self) -> (r: Option<&str>)
        ensures
            match self.spec_out_dir() {
                Some(d) => r matches Some(s) && s@ == d,
                None => r is None,
            },
    {
        match &self.out_dir {
            Some(d) => Some(d.as_str()),
            None => None,
        }
    }

    /// Project version.
    pub fn version(&self) -> (r: &str)
        ensures
            r@ == self.spec_version(),
    {
        self.version.as_str()
    }
}

} // verus!
