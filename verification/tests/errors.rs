use arspec::cli::{self, AppError, ArgsError};
use arspec::error::{Error, FormatError, IoErrorKind};
use arspec::project::parser::parse;
use arspec::source::Text;

#[test]
fn io_error_codes() {
    assert_eq!(IoErrorKind::NotFound.code(), "F001");
    assert_eq!(IoErrorKind::AlreadyExists.code(), "F010");
    assert_eq!(IoErrorKind::UnexpectedEof.code(), "F017");
    assert_eq!(IoErrorKind::Other.code(), "F0XX");
    assert_eq!(IoErrorKind::TimedOut.as_io_error(), Some(IoErrorKind::TimedOut));
    assert_eq!(FormatError.code(), "FMT1");
    assert_eq!(FormatError.as_io_error(), None);
}

#[test]
fn configuration_error_codes() {
    let e = parse(&Text::new("p", "ProjectName:")).err().unwrap();
    assert_eq!(e.code(), "PP01");
    let e = parse(&Text::new("p", "ProjectName \"x\"")).err().unwrap();
    assert_eq!(e.code(), "PP02");
}

#[test]
fn app_errors() {
    assert_eq!(AppError::DocArgCountNot0.code(), "R201");
    assert_eq!(AppError::ListArgCountNot0.code(), "R101");
    assert_eq!(AppError::NewArgCountNot1.code(), "R401");
    assert_eq!(AppError::StatusArgCountNot0.code(), "RC01");
    assert_eq!(AppError::NewArgCountNot1.message(), "`new` requires <path> argument");
    assert_eq!(cli::list(&[]), Ok(()));
    assert_eq!(cli::list(&["x"]), Err(AppError::ListArgCountNot0));
    assert_eq!(cli::doc(&["x"]), Err(AppError::DocArgCountNot0));
    assert_eq!(cli::status(&["x", "y"]), Err(AppError::StatusArgCountNot0));
    assert_eq!(cli::new(&["path"]), Ok("path"));
    assert_eq!(cli::new(&[]), Err(AppError::NewArgCountNot1));
    assert_eq!(cli::project_name(None, Some("dir".to_string())), "dir");
    assert_eq!(cli::project_name(Some("N".to_string()), Some("dir".to_string())), "N");
    assert_eq!(cli::project_name(None, None), "Empty Project");
    assert!(cli::ignores_failure(true, Some(IoErrorKind::AlreadyExists)));
    assert!(!cli::ignores_failure(false, Some(IoErrorKind::AlreadyExists)));
    assert!(!cli::ignores_failure(true, Some(IoErrorKind::NotFound)));
}

#[test]
fn args_errors() {
    let e = ArgsError::ArgUnknown("x".to_string());
    assert_eq!(e.code(), "C001");
    assert_eq!(e.message(), "Unknown argument `x`");
    let e = ArgsError::FlagUnknown("-q".to_string());
    assert_eq!(e.code(), "C002");
    assert_eq!(e.message(), "Unknown flag `-q`");
    let e = ArgsError::FlagValueInvalid { flag: "n".to_string(), cause: "bad".to_string() };
    assert_eq!(e.code(), "C003");
    assert_eq!(e.message(), "Invalid flag value `n`, reason:\nbad");
    let e = ArgsError::RuleFailed { code: "R101", message: "m".to_string() };
    assert_eq!(e.code(), "R101");
    assert_eq!(e.message(), "m");
}
