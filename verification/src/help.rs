//! The layout of the help text: one line per record, in registration order,
//! under a header that names the program.

use crate::model::ParserModel;
use crate::option::{byte_len, OptionModel};
use vstd::prelude::*;

verus! {

/// The greatest byte length among the flags texts of `options`, and 0 when
/// there are none.
pub open spec fn max_flags_len(options: Seq<OptionModel>) -> nat
    decreases options.len(),
{
    if options.len() == 0 {
        0
    } else {
        let rest = max_flags_len(options.drop_last());
        let here = byte_len(options.last().flags());
        if rest < here {
            here
        } else {
            rest
        }
    }
}

/// The greatest byte length among the argument texts of `options`, and 0
/// when there are none.
pub open spec fn max_arg_text_len(options: Seq<OptionModel>) -> nat
    decreases options.len(),
{
    if options.len() == 0 {
        0
    } else {
        let rest = max_arg_text_len(options.drop_last());
        let here = byte_len(options.last().arg_text);
        if rest < here {
            here
        } else {
            rest
        }
    }
}

/// The help lines of the first `count` records, each behind a tab.
pub open spec fn help_lines(
    options: Seq<OptionModel>,
    count: int,
    flags_width: nat,
    arg_width: nat,
) -> Seq<char>
    decreases count,
{
    if count <= 0 {
        Seq::<char>::empty()
    } else {
        help_lines(options, count - 1, flags_width, arg_width) + "\t"@ + options[count
            - 1].help_line(flags_width, arg_width)
    }
}

/// The help text of a parser: the program name and `[OPTIONS]:` if a scan has
/// set the name, then the help line of every record, the columns as wide as
/// the widest flags text and the widest argument text.
pub open spec fn help_text_of(parser: ParserModel) -> Seq<char> {
    let header = if parser.program_name.len() > 0 {
        parser.program_name + " [OPTIONS]:\n"@
    } else {
        Seq::<char>::empty()
    };
    header + help_lines(
        parser.options,
        parser.options.len() as int,
        max_flags_len(parser.options),
        max_arg_text_len(parser.options),
    )
}

/// No argument text is longer than the greatest length.
pub proof fn lemma_max_arg_text_len_bounds(options: Seq<OptionModel>, i: int)
    requires
        0 <= i < options.len(),
    ensures
        byte_len(options[i].arg_text) <= max_arg_text_len(options),
    decreases options.len(),
{
    if i < options.len() - 1 {
        lemma_max_arg_text_len_bounds(options.drop_last(), i);
    }
}

} // verus!
