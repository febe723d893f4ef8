//! What a parser holds, as plain values.

use crate::option::OptionModel;
use crate::registry::distinct_flags;
use vstd::prelude::*;

verus! {

/// How a scan treats the token `--`.
///
/// In `DefaultParsingMode` the token is skipped. In `PositionalArgumentsMode`
/// it ends the options: every token after it is a positional argument, kept
/// as it is for a process that the caller may launch.
#[derive(Clone, Copy, Debug, PartialEq, Eq, Structural)]
pub enum ParsingMode {
    DefaultParsingMode,
    PositionalArgumentsMode,
}

/// The display name of a parsing mode.
pub open spec fn mode_name(mode: ParsingMode) -> Seq<char> {
    match mode {
        ParsingMode::DefaultParsingMode => "DefaultParsingMode"@,
        ParsingMode::PositionalArgumentsMode => "PositionalArgumentsMode"@,
    }
}

impl ParsingMode {
    /// The display name of this mode.
    pub fn unwrap(&self) -> (r: &'static str)
        ensures
            r@ == mode_name(*self),
    {
        match self {
            ParsingMode::DefaultParsingMode => "DefaultParsingMode",
            ParsingMode::PositionalArgumentsMode => "PositionalArgumentsMode",
        }
    }
}

/// The state of a parser.
pub struct ParserModel {
    /// The first element of the last argument vector scanned.
    pub program_name: Seq<char>,
    /// The records, in registration order.
    pub options: Seq<OptionModel>,
    /// The message of each error kind.
    pub messages: Seq<Seq<char>>,
    /// The tokens that were neither options nor values of options.
    pub remaining_args: Seq<Seq<char>>,
    /// The tokens that followed the separator.
    pub positional_args: Seq<Seq<char>>,
    pub parsing_mode: ParsingMode,
}

impl ParserModel {
    /// The registry invariant: there is a message for every error kind, and
    /// no two records have the same short flag or the same long flag.
    pub open spec fn wf(self) -> bool {
        self.messages.len() == crate::error::CMD_LINE_OPTION_ERROR_NUM && distinct_flags(
            self.options,
        )
    }

    /// The parser with other records.
    pub open spec fn with_options(self, options: Seq<OptionModel>) -> ParserModel {
        ParserModel { options, ..self }
    }
}

} // verus!
