//! Arrowhead Framework specification tools: specification and project
//! files, the fonts and pages of their documentation, and the decisions of
//! the command line tool.

pub mod afm;
pub mod cli;
pub mod error;
pub mod font;
pub mod html;
pub mod otf;
pub mod project;
pub mod source;
pub mod spec;
pub mod svg;
pub mod text;
