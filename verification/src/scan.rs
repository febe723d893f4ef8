//! What a scan of the argument vector does, as a function from the parser's
//! state and the vector to the state it leaves and the error it stops with.
//!
//! The tokens are read left to right. A token is the separator `--`, a long
//! option `--name` or `--name=value`, a cluster of short options `-abc` or
//! `-abc=value`, or a plain token. An option that takes a value and has none
//! attached to its token takes the next token, whatever it looks like, and
//! the scan goes on behind the tokens taken. The first error ends the scan;
//! what was bound before it stays bound.

use crate::error::{
    ErrorModel, MISSING_OPTION_ARGUMENT_ERROR_IDX, OPTION_ARGUMENT_ALREADY_ASSIGNED_ERROR_IDX,
    OPTION_NOT_FOUND_ERROR_IDX,
};
use crate::model::{ParserModel, ParsingMode};
use crate::option::{rejection, OptionModel};
use crate::option_type::CommandLineOptionType;
use crate::registry::{error_for, error_without_option, find_flag, mandatory_error};
use crate::text::first_position;
use vstd::prelude::*;

verus! {

/// The four shapes of a token.
pub enum TokenKind {
    /// Exactly `--`.
    Separator,
    /// Two dashes and more.
    Long,
    /// One dash, then anything but a second dash.
    Short,
    /// Anything that does not start with a dash.
    Plain,
}

/// The shape of a token.
pub open spec fn token_kind(token: Seq<char>) -> TokenKind {
    if token.len() > 0 && token[0] == '-' {
        if token.len() > 1 && token[1] == '-' {
            if token.len() == 2 {
                TokenKind::Separator
            } else {
                TokenKind::Long
            }
        } else {
            TokenKind::Short
        }
    } else {
        TokenKind::Plain
    }
}

/// Where the flags of a token end: at its first `=`, or at its end.
pub open spec fn key_end(token: Seq<char>) -> int {
    match first_position(token, '=') {
        Some(p) => p,
        None => token.len() as int,
    }
}

/// The value attached to a token: what follows its first `=`.
pub open spec fn inline_value(token: Seq<char>) -> Option<Seq<char>> {
    match first_position(token, '=') {
        Some(p) => Some(token.skip(p + 1)),
        None => None,
    }
}

/// What handling one option token leaves: the records, the number of
/// following tokens that were taken as values, and the error, if any.
pub struct Step {
    pub options: Seq<OptionModel>,
    pub taken: nat,
    pub error: Option<ErrorModel>,
}

impl Step {
    /// The index of the token that the scan reads after the one at `idx`.
    pub open spec fn resume_at(self, idx: int) -> int {
        idx + 1 + self.taken
    }
}

/// A step that stops with the error of kind `kind` about record `i`.
pub open spec fn fail(
    options: Seq<OptionModel>,
    i: int,
    messages: Seq<Seq<char>>,
    kind: int,
    taken: nat,
) -> Step {
    Step { options, taken, error: Some(error_for(options[i], messages, kind)) }
}

/// Binds `text` to record `i`: an empty text is a missing argument, a text
/// that the record refuses is the error of its refusal, and any other text
/// becomes the record's last value.
pub open spec fn bind(
    options: Seq<OptionModel>,
    i: int,
    text: Seq<char>,
    messages: Seq<Seq<char>>,
    taken: nat,
) -> Step {
    if text.len() == 0 {
        fail(options, i, messages, MISSING_OPTION_ARGUMENT_ERROR_IDX as int, taken)
    } else {
        match rejection(options[i].typ, text) {
            Some(kind) => fail(options, i, messages, kind as int, taken),
            None => Step {
                options: options.update(i, options[i].with_value(text)),
                taken,
                error: None,
            },
        }
    }
}

/// Handles the long option at `tokens[idx]`.
///
/// The text before the first `=` names the record; no record is an error
/// that carries the whole token. The value is what follows the `=`; without
/// one, a boolean option is bound `true` and any other option takes the next
/// token, or fails for want of it.
pub open spec fn long_step(
    options: Seq<OptionModel>,
    messages: Seq<Seq<char>>,
    tokens: Seq<Seq<char>>,
    idx: int,
) -> Step {
    let token = tokens[idx];
    match find_flag(options, token.take(key_end(token))) {
        None => Step {
            options,
            taken: 0,
            error: Some(
                error_without_option(token, messages, OPTION_NOT_FOUND_ERROR_IDX as int),
            ),
        },
        Some(i) => match inline_value(token) {
            Some(value) => bind(options, i, value, messages, 0),
            None => if options[i].typ == CommandLineOptionType::Boolean {
                bind(options, i, "true"@, messages, 0)
            } else if idx + 1 < tokens.len() {
                bind(options, i, tokens[idx + 1], messages, 1)
            } else {
                fail(options, i, messages, MISSING_OPTION_ARGUMENT_ERROR_IDX as int, 0)
            },
        },
    }
}

/// Handles the flags `cluster[k..]` of the short cluster at `tokens[idx]`.
///
/// `attached` is the value attached to the cluster with `=`, empty when there
/// is none; `claimed` says that a flag has used it. `taken` counts the
/// following tokens that flags of the cluster have taken so far.
///
/// A character that names no record is skipped. While a value is attached,
/// the first flag that names a record uses it, whatever its kind, and any
/// later one fails: the attached value is used once. Without an attached
/// value, a boolean flag is bound `true`, and any other flag takes the next
/// token that no flag has taken, or fails for want of it.
pub open spec fn cluster_from(
    options: Seq<OptionModel>,
    messages: Seq<Seq<char>>,
    tokens: Seq<Seq<char>>,
    idx: int,
    cluster: Seq<char>,
    k: int,
    attached: Seq<char>,
    claimed: bool,
    taken: nat,
) -> Step
    decreases cluster.len() - k,
{
    if k < 0 || k >= cluster.len() {
        Step { options, taken, error: None }
    } else {
        match find_flag(options, seq!['-', cluster[k]]) {
            None => cluster_from(
                options,
                messages,
                tokens,
                idx,
                cluster,
                k + 1,
                attached,
                claimed,
                taken,
            ),
            Some(i) => if attached.len() > 0 {
                if claimed {
                    fail(
                        options,
                        i,
                        messages,
                        OPTION_ARGUMENT_ALREADY_ASSIGNED_ERROR_IDX as int,
                        taken,
                    )
                } else {
                    let step = bind(options, i, attached, messages, taken);
                    if step.error is Some {
                        step
                    } else {
                        cluster_from(
                            step.options,
                            messages,
                            tokens,
                            idx,
                            cluster,
                            k + 1,
                            attached,
                            true,
                            taken,
                        )
                    }
                }
            } else if options[i].typ == CommandLineOptionType::Boolean {
                let step = bind(options, i, "true"@, messages, taken);
                if step.error is Some {
                    step
                } else {
                    cluster_from(
                        step.options,
                        messages,
                        tokens,
                        idx,
                        cluster,
                        k + 1,
                        attached,
                        claimed,
                        taken,
                    )
                }
            } else if idx + taken + 1 < tokens.len() {
                let step = bind(options, i, tokens[idx + taken + 1], messages, taken + 1);
                if step.error is Some {
                    step
                } else {
                    cluster_from(
                        step.options,
                        messages,
                        tokens,
                        idx,
                        cluster,
                        k + 1,
                        attached,
                        claimed,
                        taken + 1,
                    )
                }
            } else {
                fail(options, i, messages, MISSING_OPTION_ARGUMENT_ERROR_IDX as int, taken)
            },
        }
    }
}

/// Handles the short cluster at `tokens[idx]`: the characters between the
/// dash and the first `=` are its flags, and what follows the `=` is the
/// value attached to it. An empty attached value counts as none.
pub open spec fn short_step(
    options: Seq<OptionModel>,
    messages: Seq<Seq<char>>,
    tokens: Seq<Seq<char>>,
    idx: int,
) -> Step {
    let token = tokens[idx];
    let attached = match inline_value(token) {
        Some(value) => value,
        None => Seq::<char>::empty(),
    };
    cluster_from(
        options,
        messages,
        tokens,
        idx,
        token.subrange(1, key_end(token)),
        0,
        attached,
        false,
        0,
    )
}

/// What a scan or a parse leaves: the parser's state, and the error it
/// stopped with.
pub struct Outcome {
    pub parser: ParserModel,
    pub error: Option<ErrorModel>,
}

/// Scans `tokens[idx..]`. `latched` says that the separator has ended the
/// options.
pub open spec fn scan_from(
    parser: ParserModel,
    tokens: Seq<Seq<char>>,
    idx: int,
    latched: bool,
) -> Outcome
    decreases
        (if idx < tokens.len() {
            tokens.len() - idx
        } else {
            0
        }),
{
    if idx < 0 || idx >= tokens.len() {
        Outcome { parser, error: None }
    } else if latched {
        scan_from(
            ParserModel { positional_args: parser.positional_args.push(tokens[idx]), ..parser },
            tokens,
            idx + 1,
            true,
        )
    } else {
        match token_kind(tokens[idx]) {
            TokenKind::Plain => scan_from(
                ParserModel { remaining_args: parser.remaining_args.push(tokens[idx]), ..parser },
                tokens,
                idx + 1,
                false,
            ),
            TokenKind::Separator => scan_from(
                parser,
                tokens,
                idx + 1,
                parser.parsing_mode == ParsingMode::PositionalArgumentsMode,
            ),
            TokenKind::Long => {
                let step = long_step(parser.options, parser.messages, tokens, idx);
                if step.error is Some {
                    Outcome { parser: parser.with_options(step.options), error: step.error }
                } else {
                    scan_from(
                        parser.with_options(step.options),
                        tokens,
                        step.resume_at(idx),
                        false,
                    )
                }
            },
            TokenKind::Short => {
                let step = short_step(parser.options, parser.messages, tokens, idx);
                if step.error is Some {
                    Outcome { parser: parser.with_options(step.options), error: step.error }
                } else {
                    scan_from(
                        parser.with_options(step.options),
                        tokens,
                        step.resume_at(idx),
                        false,
                    )
                }
            },
        }
    }
}

/// What parsing the argument vector `args` does to `parser`.
///
/// The first argument becomes the program name and the others are scanned.
/// A scan that ends without error is followed by the mandatory check.
pub open spec fn parse_outcome(parser: ParserModel, args: Seq<Seq<char>>) -> Outcome {
    let scanned = scan_from(
        ParserModel { program_name: args[0], ..parser },
        args.skip(1),
        0,
        false,
    );
    if scanned.error is Some {
        scanned
    } else {
        Outcome {
            parser: scanned.parser,
            error: mandatory_error(scanned.parser.options, scanned.parser.messages),
        }
    }
}

} // verus!
