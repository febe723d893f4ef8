//! A command-line argument parsing engine with machine-checked contracts.
//!
//! Options are declared on a [`CommandLineParser`], an argument vector is
//! scanned by [`CommandLineParser::parse`], and the bound values are read
//! back through the handles that the declarations returned.
//!
//! The contracts speak about plain values: a parser is a [`ParserModel`], an
//! option an [`OptionModel`], and text a sequence of characters. What a scan
//! does is the function [`scan::parse_outcome`].

pub mod error;
pub mod help;
pub mod laws;
pub mod literal;
pub mod model;
pub mod option;
pub mod option_type;
pub mod parser;
pub mod query;
pub mod registry;
pub mod scan;
pub mod text;
pub mod value;

pub use error::{
    CommandLineParserError, ErrorModel, BOOLEAN_OPTION_MISMATCH_VALUE_SET_ERROR_IDX,
    CMD_LINE_OPTION_ERROR_NUM, FPOINT_OPTION_MISMATCH_VALUE_SET_ERROR_IDX,
    INTEGER_OPTION_MISMATCH_VALUE_SET_ERROR_IDX, LONG_OPTION_ALREADY_EXISTS_ERROR_IDX,
    MANDATORY_OPTION_HAS_NOT_SET_ERROR_IDX, MISSING_OPTION_ARGUMENT_ERROR_IDX,
    OPTION_ALREADY_EXISTS_ERROR_IDX, OPTION_ARGUMENT_ALREADY_ASSIGNED_ERROR_IDX,
    OPTION_IDENTIFIER_NOT_FOUND_ERROR_IDX, OPTION_IS_NOT_OF_REQUIRED_TYPE_ERROR_IDX,
    OPTION_IS_NOT_SET_ERROR_IDX, OPTION_NOT_FOUND_ERROR_IDX, OPTION_TYPE_UNDEFINED_ERROR_IDX,
    SHORT_OPTION_ALREADY_EXISTS_ERROR_IDX,
};
pub use model::{ParserModel, ParsingMode};
pub use option::{CommandLineOption, OptionModel};
pub use option_type::{CommandLineOptionType, NativeType};
pub use parser::CommandLineParser;
pub use value::{FPointValue, OptionValue};
