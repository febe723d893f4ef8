//! The error taxonomy: fourteen kinds, a message table indexed by kind, and
//! the error value that every failing operation returns.

use vstd::prelude::*;

verus! {

/// Index of each error kind in the message table. A table in another
/// language lists its messages in this order.
pub const OPTION_ALREADY_EXISTS_ERROR_IDX: usize = 0;

pub const SHORT_OPTION_ALREADY_EXISTS_ERROR_IDX: usize = 1;

pub const LONG_OPTION_ALREADY_EXISTS_ERROR_IDX: usize = 2;

pub const OPTION_IS_NOT_SET_ERROR_IDX: usize = 3;

pub const OPTION_IS_NOT_OF_REQUIRED_TYPE_ERROR_IDX: usize = 4;

pub const OPTION_NOT_FOUND_ERROR_IDX: usize = 5;

pub const OPTION_TYPE_UNDEFINED_ERROR_IDX: usize = 6;

pub const BOOLEAN_OPTION_MISMATCH_VALUE_SET_ERROR_IDX: usize = 7;

pub const INTEGER_OPTION_MISMATCH_VALUE_SET_ERROR_IDX: usize = 8;

pub const FPOINT_OPTION_MISMATCH_VALUE_SET_ERROR_IDX: usize = 9;

pub const MISSING_OPTION_ARGUMENT_ERROR_IDX: usize = 10;

pub const MANDATORY_OPTION_HAS_NOT_SET_ERROR_IDX: usize = 11;

pub const OPTION_IDENTIFIER_NOT_FOUND_ERROR_IDX: usize = 12;

pub const OPTION_ARGUMENT_ALREADY_ASSIGNED_ERROR_IDX: usize = 13;

/// The number of error kinds, and so of messages in a table.
pub const CMD_LINE_OPTION_ERROR_NUM: usize = 14;

/// The English message table.
pub open spec fn default_messages() -> Seq<Seq<char>> {
    seq![
        "option already exists"@,
        "single character option already exists"@,
        "long form option already exists"@,
        "is not set"@,
        "is not of the required type"@,
        "option not found"@,
        "Undefined command line option"@,
        "cannot set a boolean value to this option type"@,
        "cannot set an integer value to this option type"@,
        "cannot set a floating point value to this option type"@,
        "missing option argument"@,
        "mandatory option has not been set"@,
        "option identifier not found"@,
        "option argument already assigned"@,
    ]
}

/// What an error carries: the flags of the offending option, the name of its
/// kind, and the message of the error kind.
pub struct ErrorModel {
    pub flags: Seq<char>,
    pub typ: Seq<char>,
    pub error: Seq<char>,
}

/// The line an error is shown as: kind name, flags, a colon, the message.
pub open spec fn error_line(e: ErrorModel) -> Seq<char> {
    e.typ + " "@ + e.flags + ": "@ + e.error
}

/// The failure of a registration, a scan or a retrieval. It is built once and
/// never changes; two errors are equal when their three texts are.
#[derive(Debug, PartialEq)]
pub struct CommandLineParserError {
    flags: String,
    typ: String,
    error: String,
}

impl View for CommandLineParserError {
    type V = ErrorModel;

    closed spec fn view(&self) -> ErrorModel {
        ErrorModel { flags: self.flags@, typ: self.typ@, error: self.error@ }
    }
}

impl CommandLineParserError {
    /// An error with the given flags text, kind name and message.
    pub fn new(flags: String, typ: String, error: String) -> (r: Self)
        ensures
            r@ == (ErrorModel { flags: flags@, typ: typ@, error: error@ }),
    {
        CommandLineParserError { flags, typ, error }
    }

    /// The flags of the offending option.
    pub fn flags(&self) -> (r: &String)
        ensures
            r@ == self@.flags,
    {
        &self.flags
    }

    /// The kind name of the offending option.
    pub fn type_text(&self) -> (r: &String)
        ensures
            r@ == self@.typ,
    {
        &self.typ
    }

    /// The message of the error kind.
    pub fn message(&self) -> (r: &String)
        ensures
            r@ == self@.error,
    {
        &self.error
    }

    /// The line this error is shown as.
    pub fn to_string(&self) -> (r: String)
        ensures
            r@ == error_line(self@),
    {
        let mut out = self.typ.clone();
        out.append(" ");
        out.append(self.flags.as_str());
        out.append(": ");
        out.append(self.error.as_str());
        out
    }
}

/// The English message table, as the strings a parser stores.
pub fn default_error_list() -> (r: [String; CMD_LINE_OPTION_ERROR_NUM])
    ensures
        crate::text::texts(r@) == default_messages(),
{
    let r = [
        "option already exists".to_owned(),
        "single character option already exists".to_owned(),
        "long form option already exists".to_owned(),
        "is not set".to_owned(),
        "is not of the required type".to_owned(),
        "option not found".to_owned(),
        "Undefined command line option".to_owned(),
        "cannot set a boolean value to this option type".to_owned(),
        "cannot set an integer value to this option type".to_owned(),
        "cannot set a floating point value to this option type".to_owned(),
        "missing option argument".to_owned(),
        "mandatory option has not been set".to_owned(),
        "option identifier not found".to_owned(),
        "option argument already assigned".to_owned(),
    ];
    assert(crate::text::texts(r@) =~= default_messages());
    r
}

/// The strings of a caller's message table.
pub fn error_list_of(list: [&str; CMD_LINE_OPTION_ERROR_NUM]) -> (r: [String;
    CMD_LINE_OPTION_ERROR_NUM])
    ensures
        crate::text::texts(r@) == list@.map_values(|s: &str| s@),
{
    let r = [
        list[0].to_owned(),
        list[1].to_owned(),
        list[2].to_owned(),
        list[3].to_owned(),
        list[4].to_owned(),
        list[5].to_owned(),
        list[6].to_owned(),
        list[7].to_owned(),
        list[8].to_owned(),
        list[9].to_owned(),
        list[10].to_owned(),
        list[11].to_owned(),
        list[12].to_owned(),
        list[13].to_owned(),
    ];
    assert(crate::text::texts(r@) =~= list@.map_values(|s: &str| s@));
    r
}

} // verus!
