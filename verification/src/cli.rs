//! The decisions of the command line application: which arguments its
//! commands take, what their failures are called, and how a new project is
//! named.

use crate::error::IoErrorKind;
use vstd::prelude::*;
use vstd::string::StringExecFns;

verus! {

/// Describes a project application error.
#[derive(Copy, Clone, Debug, PartialEq, Eq, Structural)]
pub enum AppError {
    DocArgCountNot0,
    ListArgCountNot0,
    NewArgCountNot1,
    StatusArgCountNot0,
}

impl crate::error::Error for AppError {
    fn code(&self) -> (r: &'static str)
        ensures
            r@ == (match *self {
                AppError::DocArgCountNot0 => "R201"@,
                AppError::ListArgCountNot0 => "R101"@,
                AppError::NewArgCountNot1 => "R401"@,
                AppError::StatusArgCountNot0 => "RC01"@,
            }),
    {
        match *self {
            AppError::DocArgCountNot0 => "R201",
            AppError::ListArgCountNot0 => "R101",
            AppError::NewArgCountNot1 => "R401",
            AppError::StatusArgCountNot0 => "RC01",
        }
    }
}

impl AppError {
    /// A description of the error.
    pub fn message(&self) -> (r: &'static str)
        ensures
            r@ == (match *self {
                AppError::DocArgCountNot0 => "`doc` takes not arguments"@,
                AppError::ListArgCountNot0 => "`list` takes no arguments"@,
                AppError::NewArgCountNot1 => "`new` requires <path> argument"@,
                AppError::StatusArgCountNot0 => "`status` takes no arguments"@,
            }),
    {
        match *self {
            AppError::DocArgCountNot0 => "`doc` takes not arguments",
            AppError::ListArgCountNot0 => "`list` takes no arguments",
            AppError::NewArgCountNot1 => "`new` requires <path> argument",
            AppError::StatusArgCountNot0 => "`status` takes no arguments",
        }
    }
}

/// Checks the arguments of `doc`, which takes none.
pub fn doc(args: &[&str]) -> (r: Result<(), AppError>)
    ensures
        r == (if args@.len() == 0 { Ok(()) } else { Err(AppError::DocArgCountNot0) }),
{
    if args.len() != 0 {
        return Err(AppError::DocArgCountNot0);
    }
    Ok(())
}

/// Checks the arguments of `list`, which takes none.
pub fn list(args: &[&str]) -> (r: Result<(), AppError>)
    ensures
        r == (if args@.len() == 0 { Ok(()) } else { Err(AppError::ListArgCountNot0) }),
{
    if args.len() != 0 {
        return Err(AppError::ListArgCountNot0);
    }
    Ok(())
}

/// Checks the arguments of `status`, which takes none.
pub fn status(args: &[&str]) -> (r: Result<(), AppError>)
    ensures
        r == (if args@.len() == 0 { Ok(()) } else { Err(AppError::StatusArgCountNot0) }),
{
    if args.len() != 0 {
        return Err(AppError::StatusArgCountNot0);
    }
    Ok(())
}

/// Checks the arguments of `new`, which takes the path of the project, and
/// gives that path.
pub fn new<'a>(args: &[&'a str]) -> (r: Result<&'a str, AppError>)
    ensures
        r == (if args@.len() == 1 { Ok(args@[0]) } else { Err(AppError::NewArgCountNot1) }),
{
    if args.len() != 1 {
        return Err(AppError::NewArgCountNot1);
    }
    Ok(args[0])
}

/// The name of a new project: the one given, else the last component of
/// its path, else `Empty Project`.
pub fn project_name(given: Option<String>, file_name: Option<String>) -> (r: String)
    ensures
        r@ == (match given {
            Some(n) => n@,
            None => match file_name {
                Some(f) => f@,
                None => "Empty Project"@,
            },
        }),
{
    match given {
        Some(n) => n,
        None => match file_name {
            Some(f) => f,
            None => "Empty Project".to_owned(),
        },
    }
}

/// Whether creating a project that failed with an error of kind `kind` (if
/// an I/O error) counts as done: only when it already exists and that is to
/// be ignored.
pub fn ignores_failure(ignore_if_exists: bool, kind: Option<IoErrorKind>) -> (r: bool)
    ensures
        r == (ignore_if_exists && kind == Some(IoErrorKind::AlreadyExists)),
{
    ignore_if_exists && match kind {
        Some(IoErrorKind::AlreadyExists) => true,
        _ => false,
    }
}

/// A command line argument parsing error.
pub enum ArgsError {
    /// Encountered argument matches no known rule.
    ArgUnknown(String),
    /// Encountered argument matches no known flag.
    FlagUnknown(String),
    /// Flag value could not be parsed, for the reason given.
    FlagValueInvalid { flag: String, cause: String },
    /// A command line rule failed to complete, with the code and description
    /// of its error.
    RuleFailed { code: &'static str, message: String },
}

impl ArgsError {
    /// A description of the error.
    pub fn message(&self) -> (r: String)
        ensures
            r@ == (match *self {
                ArgsError::ArgUnknown(a) => "Unknown argument `"@ + a@ + "`"@,
                ArgsError::FlagUnknown(f) => "Unknown flag `"@ + f@ + "`"@,
                ArgsError::FlagValueInvalid { flag, cause } => "Invalid flag value `"@ + flag@
                    + "`, reason:\n"@ + cause@,
                ArgsError::RuleFailed { message, .. } => message@,
            }),
    {
        let mut out = String::new();
        match self {
            ArgsError::ArgUnknown(a) => {
                out.append("Unknown argument `");
                out.append(a.as_str());
                out.append("`");
            },
            ArgsError::FlagUnknown(f) => {
                out.append("Unknown flag `");
                out.append(f.as_str());
                out.append("`");
            },
            ArgsError::FlagValueInvalid { flag, cause } => {
                out.append("Invalid flag value `");
                out.append(flag.as_str());
                out.append("`, reason:\n");
                out.append(cause.as_str());
            },
            ArgsError::RuleFailed { message, .. } => {
                out.append(message.as_str());
            },
        }
        out
    }
}

impl crate::error::Error for ArgsError {
    fn code(&self) -> (r: &'static str)
        ensures
            r@ == (match *self {
                ArgsError::ArgUnknown(_) => "C001"@,
                ArgsError::FlagUnknown(_) => "C002"@,
                ArgsError::FlagValueInvalid { .. } => "C003"@,
                ArgsError::RuleFailed { code, .. } => code@,
            }),
    {
        match self {
            ArgsError::ArgUnknown(_) => "C001",
            ArgsError::FlagUnknown(_) => "C002",
            ArgsError::FlagValueInvalid { .. } => "C003",
            ArgsError::RuleFailed { code, .. } => *code,
        }
    }
}

} // verus!
