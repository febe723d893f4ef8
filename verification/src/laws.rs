//! What holds of every registry, every value and every scan.

use crate::error::{
    BOOLEAN_OPTION_MISMATCH_VALUE_SET_ERROR_IDX, FPOINT_OPTION_MISMATCH_VALUE_SET_ERROR_IDX,
    INTEGER_OPTION_MISMATCH_VALUE_SET_ERROR_IDX, LONG_OPTION_ALREADY_EXISTS_ERROR_IDX,
    MANDATORY_OPTION_HAS_NOT_SET_ERROR_IDX, MISSING_OPTION_ARGUMENT_ERROR_IDX,
    OPTION_ALREADY_EXISTS_ERROR_IDX, OPTION_ARGUMENT_ALREADY_ASSIGNED_ERROR_IDX,
    SHORT_OPTION_ALREADY_EXISTS_ERROR_IDX,
};
use crate::literal::{
    is_boolean_text, is_floating_point_text, is_integer_text,
    lemma_boolean_text_is_no_number, lemma_decimal_literal_is_floating_point_text,
};
use crate::model::{ParserModel, ParsingMode};
use crate::option::{rejection, OptionModel};
use crate::option_type::{kind_name, CommandLineOptionType};
use crate::registry::{
    all_extend, conflict, conflicts_with, error_for, extends, find_flag, find_handle,
    first_match, has_handle, has_long_flag, has_short_flag, is_missing,
    lemma_extension_keeps_flags_distinct, lemma_find_flag_ignores_values,
    lemma_find_flag_in_range, lemma_first_match,
    registration_error, short_of_token,
};
use crate::scan::{
    bind, cluster_from, fail, inline_value, key_end, long_step, parse_outcome, scan_from,
    short_step, token_kind, Outcome, Step, TokenKind,
};
use vstd::prelude::*;

verus! {

/// What a scan can do to a parser: it binds further values to the records
/// and collects further tokens. It adds no record and removes none, changes
/// no flag and no kind, drops no value and no token, and leaves the messages
/// and the mode alone.
pub open spec fn grows(before: ParserModel, after: ParserModel) -> bool {
    &&& all_extend(before.options, after.options)
    &&& before.remaining_args.is_prefix_of(after.remaining_args)
    &&& before.positional_args.is_prefix_of(after.positional_args)
    &&& after.program_name == before.program_name
    &&& after.messages == before.messages
    &&& after.parsing_mode == before.parsing_mode
}

/// The display names tell the kinds apart: two kinds have the same name
/// only when they are the same kind.
pub proof fn law_kind_names_tell_kinds_apart(a: CommandLineOptionType, b: CommandLineOptionType)
    ensures
        kind_name(a) == kind_name(b) <==> a == b,
{
    reveal_strlit("UndefinedCommandLineOptionType");
    reveal_strlit("BooleanCommandLineOptionType");
    reveal_strlit("IntegerCommandLineOptionType");
    reveal_strlit("FPointCommandLineOptionType");
    reveal_strlit("StringCommandLineOptionType");
    if a != b {
        assert(kind_name(a)[0] != kind_name(b)[0] || kind_name(a)[1] != kind_name(b)[1]);
    }
}

/// A record stands in the way of a candidate exactly when the two are the
/// same option, or have the same short flag, or have the same long flag,
/// whatever their kinds are. The same option is checked first, then the short
/// flag, then the long flag. A flag that both lack clashes with nothing.
pub proof fn law_shared_flag_is_conflict(existing: OptionModel, candidate: OptionModel)
    ensures
        conflict(existing, candidate) is Some <==> candidate.same_identity(existing)
            || candidate.shares_short(existing) || candidate.shares_long(existing),
        candidate.same_identity(existing) ==> conflict(existing, candidate) == Some(
            OPTION_ALREADY_EXISTS_ERROR_IDX,
        ),
        !candidate.same_identity(existing) && candidate.shares_short(existing) ==> conflict(
            existing,
            candidate,
        ) == Some(SHORT_OPTION_ALREADY_EXISTS_ERROR_IDX),
        !candidate.same_identity(existing) && !candidate.shares_short(existing)
            && candidate.shares_long(existing) ==> conflict(existing, candidate) == Some(
            LONG_OPTION_ALREADY_EXISTS_ERROR_IDX,
        ),
        !candidate.has_short() && !candidate.has_long() && candidate.typ != existing.typ
            ==> conflict(existing, candidate) is None,
        !candidate.has_short() && candidate.long != existing.long ==> conflict(
            existing,
            candidate,
        ) is None,
        !candidate.has_long() && candidate.short != existing.short ==> conflict(
            existing,
            candidate,
        ) is None,
{
}

/// Registering a candidate fails whenever some record is the same option or
/// has a flag of the candidate, and succeeds otherwise. The error is about
/// the first such record, in registration order, and its kind is "already
/// exists" if that record is the same option, else "short flag exists" if it
/// has the same short flag, else "long flag exists".
pub proof fn law_duplicates_are_rejected(
    options: Seq<OptionModel>,
    candidate: OptionModel,
    messages: Seq<Seq<char>>,
)
    ensures
        registration_error(options, candidate, messages) is Some <==> exists|i: int|
            0 <= i < options.len() && (candidate.same_identity(#[trigger] options[i])
                || candidate.shares_short(options[i]) || candidate.shares_long(options[i])),
        registration_error(options, candidate, messages) matches Some(e) ==> exists|i: int|
            0 <= i < options.len() && conflict(#[trigger] options[i], candidate) is Some && e
                == error_for(options[i], messages, conflict(options[i], candidate)->0 as int)
                && forall|j: int| 0 <= j < i ==> conflict(#[trigger] options[j], candidate) is None,
{
    let wanted = conflicts_with(candidate);
    lemma_first_match(options, wanted, 0);
    match first_match(options, wanted, 0) {
        Some(i) => {
            assert(wanted(options[i]));
            assert(candidate.same_identity(options[i]) || candidate.shares_short(options[i])
                || candidate.shares_long(options[i]));
            assert forall|j: int| 0 <= j < i implies conflict(
                #[trigger] options[j],
                candidate,
            ) is None by {
                assert(!wanted(options[j]));
            }
        },
        None => {
            assert forall|i: int| 0 <= i < options.len() implies !(candidate.same_identity(
                #[trigger] options[i],
            ) || candidate.shares_short(options[i]) || candidate.shares_long(options[i])) by {
                assert(!wanted(options[i]));
            }
        },
    }
}

/// Options that differ in the flag they have never clash on the flag they
/// lack: after a long-only option, a long-only option with another name can
/// be registered, and after a short-only option, a short-only option with
/// another character.
pub proof fn law_absent_flags_do_not_clash(
    options: Seq<OptionModel>,
    candidate: OptionModel,
    messages: Seq<Seq<char>>,
)
    requires
        forall|i: int|
            0 <= i < options.len() ==> !candidate.same_identity(#[trigger] options[i]),
        candidate.has_short() ==> forall|i: int|
            0 <= i < options.len() ==> (#[trigger] options[i]).short != candidate.short,
        candidate.has_long() ==> forall|i: int|
            0 <= i < options.len() ==> (#[trigger] options[i]).long != candidate.long,
    ensures
        registration_error(options, candidate, messages) is None,
{
    let wanted = conflicts_with(candidate);
    lemma_first_match(options, wanted, 0);
    if let Some(i) = first_match(options, wanted, 0) {
        assert(wanted(options[i]));
        assert(!candidate.same_identity(options[i]));
    }
}

/// The handle of a record depends on its flags alone: records with the same
/// flags have the same handle, and binding a value leaves the handle as it
/// was.
pub proof fn law_handle_is_stable(a: OptionModel, b: OptionModel, text: Seq<char>)
    ensures
        a.short == b.short && a.long == b.long ==> a.fingerprint() == b.fingerprint(),
        a.with_value(text).fingerprint() == a.fingerprint(),
{
}

/// An option that has just been registered is found by its handle and is
/// not set, unless an earlier record has the same handle.
pub proof fn law_fresh_option_is_not_set(options: Seq<OptionModel>, candidate: OptionModel)
    requires
        candidate.values.len() == 0,
        find_handle(options, candidate.fingerprint()) is None,
    ensures
        find_handle(options.push(candidate), candidate.fingerprint()) == Some(options.len() as int),
        !options.push(candidate)[options.len() as int].is_set(),
{
    let wanted = has_handle(candidate.fingerprint());
    let grown = options.push(candidate);
    lemma_first_match(options, wanted, 0);
    lemma_first_match(grown, wanted, 0);
    assert(wanted(grown[options.len() as int]));
    assert forall|j: int| 0 <= j < options.len() implies !wanted(#[trigger] grown[j]) by {
        assert(grown[j] == options[j]);
    }
}

/// A handle that registration returned finds a record with the flags of the
/// registered one, however many records are registered after it and whatever
/// is bound to them.
pub proof fn law_handle_stays_valid(
    before: Seq<OptionModel>,
    after: Seq<OptionModel>,
    i: int,
)
    requires
        0 <= i < before.len(),
        before.len() <= after.len(),
        forall|j: int| 0 <= j < before.len() ==> extends(#[trigger] before[j], after[j]),
    ensures
        find_handle(after, before[i].fingerprint()) is Some,
        find_handle(after, before[i].fingerprint())->0 <= i,
        after[find_handle(after, before[i].fingerprint())->0].fingerprint()
            == before[i].fingerprint(),
{
    let wanted = has_handle(before[i].fingerprint());
    lemma_first_match(after, wanted, 0);
    assert(extends(before[i], after[i]));
    assert(wanted(after[i]));
}

/// An integer option refuses what looks like a boolean or like a
/// floating-point number, each with the error of its kind, and takes every
/// integer literal that fits in 128 signed bits, negative ones included.
pub proof fn law_integer_option_values(text: Seq<char>)
    ensures
        is_boolean_text(text) ==> rejection(CommandLineOptionType::Integer, text) == Some(
            BOOLEAN_OPTION_MISMATCH_VALUE_SET_ERROR_IDX,
        ),
        is_floating_point_text(text) && !is_integer_text(text) ==> rejection(
            CommandLineOptionType::Integer,
            text,
        ) == Some(FPOINT_OPTION_MISMATCH_VALUE_SET_ERROR_IDX),
        is_integer_text(text) ==> rejection(CommandLineOptionType::Integer, text) is None,
        !is_boolean_text(text) && !is_floating_point_text(text) ==> rejection(
            CommandLineOptionType::Integer,
            text,
        ) is None,
{
    if is_boolean_text(text) {
        lemma_boolean_text_is_no_number(text);
    }
    if is_integer_text(text) {
        lemma_decimal_literal_is_floating_point_text(text);
    }
}

/// Integer text is floating-point text, yet a floating-point option refuses
/// it: the text looks like an integer first. A floating-point option takes
/// floating-point text that is no integer text.
pub proof fn law_floating_point_option_values(text: Seq<char>)
    ensures
        is_integer_text(text) ==> is_floating_point_text(text),
        is_integer_text(text) ==> rejection(CommandLineOptionType::FPoint, text) == Some(
            INTEGER_OPTION_MISMATCH_VALUE_SET_ERROR_IDX,
        ),
        is_floating_point_text(text) && !is_integer_text(text) ==> rejection(
            CommandLineOptionType::FPoint,
            text,
        ) is None,
{
    if is_integer_text(text) {
        lemma_decimal_literal_is_floating_point_text(text);
    }
    if is_boolean_text(text) {
        lemma_boolean_text_is_no_number(text);
    }
}

/// A text option takes every value, and a record without a kind takes none.
pub proof fn law_text_option_takes_everything(text: Seq<char>)
    ensures
        rejection(CommandLineOptionType::Text, text) is None,
        rejection(CommandLineOptionType::Undefined, text) is Some,
{
}

/// The mandatory check comes last: an error of the scan is the error of the
/// parse, and after a scan without error the parse fails exactly when some
/// mandatory record has no value, with the error of the first such record.
pub proof fn law_mandatory_check_comes_last(parser: ParserModel, args: Seq<Seq<char>>)
    ensures
        ({
            let scanned = scan_from(
                ParserModel { program_name: args[0], ..parser },
                args.skip(1),
                0,
                false,
            );
            let outcome = parse_outcome(parser, args);
            let records = scanned.parser.options;
            &&& outcome.parser == scanned.parser
            &&& scanned.error is Some ==> outcome.error == scanned.error
            &&& scanned.error is None ==> (outcome.error is Some <==> exists|i: int|
                0 <= i < records.len() && (#[trigger] records[i]).mandatory && !records[i].is_set())
            &&& scanned.error is None ==> (outcome.error matches Some(e) ==> exists|i: int|
                0 <= i < records.len() && (#[trigger] records[i]).mandatory && !records[i].is_set()
                    && e == error_for(
                    records[i],
                    scanned.parser.messages,
                    MANDATORY_OPTION_HAS_NOT_SET_ERROR_IDX as int,
                ) && forall|j: int|
                    0 <= j < i ==> !((#[trigger] records[j]).mandatory && !records[j].is_set()))
        }),
{
    let scanned = scan_from(ParserModel { program_name: args[0], ..parser }, args.skip(1), 0, false);
    let records = scanned.parser.options;
    lemma_first_match(records, is_missing(), 0);
    match first_match(records, is_missing(), 0) {
        Some(i) => {
            assert(is_missing()(records[i]));
            assert forall|j: int| 0 <= j < i implies !((#[trigger] records[j]).mandatory
                && !records[j].is_set()) by {
                assert(!is_missing()(records[j]));
            }
        },
        None => {
            assert forall|i: int| 0 <= i < records.len() implies !((#[trigger] records[i]).mandatory
                && !records[i].is_set()) by {
                assert(!is_missing()(records[i]));
            }
        },
    }
}

/// Plain tokens are collected in the order met: a scan of tokens that are
/// all plain appends them to the remaining arguments, changes nothing else,
/// and meets no error.
pub proof fn law_plain_tokens_remain(parser: ParserModel, tokens: Seq<Seq<char>>, idx: int)
    requires
        0 <= idx <= tokens.len(),
        forall|j: int| idx <= j < tokens.len() ==> token_kind(#[trigger] tokens[j]) is Plain,
    ensures
        scan_from(parser, tokens, idx, false) == (Outcome {
            parser: ParserModel {
                remaining_args: parser.remaining_args + tokens.skip(idx),
                ..parser
            },
            error: None,
        }),
    decreases tokens.len() - idx,
{
    if idx < tokens.len() {
        let next = ParserModel { remaining_args: parser.remaining_args.push(tokens[idx]), ..parser };
        law_plain_tokens_remain(next, tokens, idx + 1);
        assert(next.remaining_args + tokens.skip(idx + 1) =~= parser.remaining_args + tokens.skip(
            idx,
        ));
    } else {
        assert(parser.remaining_args + tokens.skip(idx) =~= parser.remaining_args);
    }
}

/// Once the separator has ended the options, every token is a positional
/// argument: the scan appends the tokens that are left, as they are and in
/// the order met, changes nothing else, and meets no error.
pub proof fn law_latched_tokens_are_positional(
    parser: ParserModel,
    tokens: Seq<Seq<char>>,
    idx: int,
)
    requires
        0 <= idx <= tokens.len(),
    ensures
        scan_from(parser, tokens, idx, true) == (Outcome {
            parser: ParserModel {
                positional_args: parser.positional_args + tokens.skip(idx),
                ..parser
            },
            error: None,
        }),
    decreases tokens.len() - idx,
{
    if idx < tokens.len() {
        let next = ParserModel {
            positional_args: parser.positional_args.push(tokens[idx]),
            ..parser
        };
        law_latched_tokens_are_positional(next, tokens, idx + 1);
        assert(next.positional_args + tokens.skip(idx + 1) =~= parser.positional_args
            + tokens.skip(idx));
    } else {
        assert(parser.positional_args + tokens.skip(idx) =~= parser.positional_args);
    }
}

/// In the positional-arguments mode the separator ends the options:
/// everything behind it is appended to the positional arguments. In the
/// default mode the separator is skipped and the scan goes on as before.
pub proof fn law_separator(parser: ParserModel, tokens: Seq<Seq<char>>, idx: int)
    requires
        0 <= idx < tokens.len(),
        token_kind(tokens[idx]) is Separator,
    ensures
        parser.parsing_mode == ParsingMode::PositionalArgumentsMode ==> scan_from(
            parser,
            tokens,
            idx,
            false,
        ) == (Outcome {
            parser: ParserModel {
                positional_args: parser.positional_args + tokens.skip(idx + 1),
                ..parser
            },
            error: None,
        }),
        parser.parsing_mode == ParsingMode::DefaultParsingMode ==> scan_from(
            parser,
            tokens,
            idx,
            false,
        ) == scan_from(parser, tokens, idx + 1, false),
{
    law_latched_tokens_are_positional(parser, tokens, idx + 1);
}

/// Binding extends the records.
proof fn lemma_bind_extends(
    options: Seq<OptionModel>,
    i: int,
    text: Seq<char>,
    messages: Seq<Seq<char>>,
    taken: nat,
)
    requires
        0 <= i < options.len(),
    ensures
        all_extend(options, bind(options, i, text, messages, taken).options),
{
    let after = bind(options, i, text, messages, taken).options;
    assert forall|j: int| 0 <= j < options.len() implies extends(
        #[trigger] options[j],
        after[j],
    ) by {
        if after != options && j == i {
            assert(options[i].values.is_prefix_of(options[i].values.push(text)));
        }
    }
}

/// Extending twice is extending.
proof fn lemma_extend_twice(a: Seq<OptionModel>, b: Seq<OptionModel>, c: Seq<OptionModel>)
    requires
        all_extend(a, b),
        all_extend(b, c),
    ensures
        all_extend(a, c),
{
    assert forall|j: int| 0 <= j < a.len() implies extends(#[trigger] a[j], c[j]) by {
        assert(extends(a[j], b[j]));
        assert(extends(b[j], c[j]));
    }
}

/// Handling a cluster extends the records.
proof fn lemma_cluster_extends(
    options: Seq<OptionModel>,
    messages: Seq<Seq<char>>,
    tokens: Seq<Seq<char>>,
    idx: int,
    cluster: Seq<char>,
    k: int,
    attached: Seq<char>,
    claimed: bool,
    taken: nat,
)
    ensures
        all_extend(
            options,
            cluster_from(options, messages, tokens, idx, cluster, k, attached, claimed, taken).options,
        ),
    decreases cluster.len() - k,
{
    if 0 <= k < cluster.len() {
        lemma_find_flag_in_range(options, seq!['-', cluster[k]]);
        match find_flag(options, seq!['-', cluster[k]]) {
            None => {
                lemma_cluster_extends(
                    options,
                    messages,
                    tokens,
                    idx,
                    cluster,
                    k + 1,
                    attached,
                    claimed,
                    taken,
                );
            },
            Some(i) => {
                let uses_attached = attached.len() > 0;
                let is_boolean = options[i].typ == CommandLineOptionType::Boolean;
                let value = if uses_attached {
                    attached
                } else if is_boolean {
                    "true"@
                } else {
                    tokens[idx + taken + 1]
                };
                let used: nat = if uses_attached || is_boolean {
                    taken
                } else {
                    taken + 1
                };
                let step = bind(options, i, value, messages, used);
                lemma_bind_extends(options, i, value, messages, used);
                let rest = cluster_from(
                    step.options,
                    messages,
                    tokens,
                    idx,
                    cluster,
                    k + 1,
                    attached,
                    claimed || uses_attached,
                    used,
                );
                lemma_cluster_extends(
                    step.options,
                    messages,
                    tokens,
                    idx,
                    cluster,
                    k + 1,
                    attached,
                    claimed || uses_attached,
                    used,
                );
                lemma_extend_twice(options, step.options, rest.options);
            },
        }
    }
}

/// A boolean option given by its long flag alone is bound `true`, and given
/// with `=true` or `=false` it is bound that value. The following token is
/// left alone.
pub proof fn law_long_boolean_option(
    options: Seq<OptionModel>,
    messages: Seq<Seq<char>>,
    tokens: Seq<Seq<char>>,
    idx: int,
    i: int,
)
    requires
        0 <= idx < tokens.len(),
        find_flag(options, tokens[idx].take(key_end(tokens[idx]))) == Some(i),
        options[i].typ == CommandLineOptionType::Boolean,
    ensures
        inline_value(tokens[idx]) is None ==> long_step(options, messages, tokens, idx) == (Step {
            options: options.update(i, options[i].with_value("true"@)),
            taken: 0,
            error: None,
        }),
        inline_value(tokens[idx]) matches Some(value) && is_boolean_text(value) ==> long_step(
            options,
            messages,
            tokens,
            idx,
        ) == (Step {
            options: options.update(i, options[i].with_value(inline_value(tokens[idx])->0)),
            taken: 0,
            error: None,
        }),
{
    reveal_strlit("true");
    reveal_strlit("false");
}

/// An option that takes a value fails with "missing option argument" when
/// its long flag is the last token and has no value attached; and any long
/// option fails so when the value attached to it is empty.
pub proof fn law_long_option_needs_its_argument(
    options: Seq<OptionModel>,
    messages: Seq<Seq<char>>,
    tokens: Seq<Seq<char>>,
    idx: int,
    i: int,
)
    requires
        0 <= idx < tokens.len(),
        find_flag(options, tokens[idx].take(key_end(tokens[idx]))) == Some(i),
    ensures
        inline_value(tokens[idx]) is None && idx == tokens.len() - 1 && options[i].typ
            != CommandLineOptionType::Boolean ==> long_step(options, messages, tokens, idx) == fail(
            options,
            i,
            messages,
            MISSING_OPTION_ARGUMENT_ERROR_IDX as int,
            0,
        ),
        inline_value(tokens[idx]) == Some(Seq::<char>::empty()) ==> long_step(
            options,
            messages,
            tokens,
            idx,
        ) == fail(options, i, messages, MISSING_OPTION_ARGUMENT_ERROR_IDX as int, 0),
{
}

/// A short option that takes a value, in a cluster without an attached
/// value, takes the next token that no flag of the cluster has taken; and it
/// fails with "missing option argument" when no such token is left, or when
/// that token is empty.
pub proof fn law_short_option_needs_its_argument(
    options: Seq<OptionModel>,
    messages: Seq<Seq<char>>,
    tokens: Seq<Seq<char>>,
    idx: int,
    cluster: Seq<char>,
    k: int,
    claimed: bool,
    taken: nat,
    i: int,
)
    requires
        0 <= k < cluster.len(),
        0 <= idx,
        find_flag(options, seq!['-', cluster[k]]) == Some(i),
        options[i].typ != CommandLineOptionType::Boolean,
    ensures
        ({
            let step = cluster_from(
                options,
                messages,
                tokens,
                idx,
                cluster,
                k,
                Seq::<char>::empty(),
                claimed,
                taken,
            );
            let missing = MISSING_OPTION_ARGUMENT_ERROR_IDX as int;
            &&& idx + taken + 1 >= tokens.len() ==> step == fail(options, i, messages, missing, taken)
            &&& idx + taken + 1 < tokens.len() && tokens[idx + taken + 1].len() == 0 ==> step
                == fail(options, i, messages, missing, taken + 1)
            &&& idx + taken + 1 < tokens.len() && tokens[idx + taken + 1].len() > 0 && rejection(
                options[i].typ,
                tokens[idx + taken + 1],
            ) is None ==> step == cluster_from(
                options.update(i, options[i].with_value(tokens[idx + taken + 1])),
                messages,
                tokens,
                idx,
                cluster,
                k + 1,
                Seq::<char>::empty(),
                claimed,
                taken + 1,
            )
        }),
{
}

/// The value attached to a cluster is used once: the first flag that names
/// a record is bound it, and a later flag that names a record, of whatever
/// kind, fails with "option argument already assigned".
pub proof fn law_cluster_value_is_used_once(
    options: Seq<OptionModel>,
    messages: Seq<Seq<char>>,
    tokens: Seq<Seq<char>>,
    idx: int,
    cluster: Seq<char>,
    k: int,
    attached: Seq<char>,
    taken: nat,
    i: int,
)
    requires
        0 <= k < cluster.len(),
        attached.len() > 0,
        find_flag(options, seq!['-', cluster[k]]) == Some(i),
    ensures
        cluster_from(options, messages, tokens, idx, cluster, k, attached, true, taken) == fail(
            options,
            i,
            messages,
            OPTION_ARGUMENT_ALREADY_ASSIGNED_ERROR_IDX as int,
            taken,
        ),
        rejection(options[i].typ, attached) is None ==> cluster_from(
            options,
            messages,
            tokens,
            idx,
            cluster,
            k,
            attached,
            false,
            taken,
        ) == cluster_from(
            options.update(i, options[i].with_value(attached)),
            messages,
            tokens,
            idx,
            cluster,
            k + 1,
            attached,
            true,
            taken,
        ),
{
}

/// A token that a flag of a cluster has taken is no attached value: a
/// boolean flag in a cluster without an attached value is bound `true`,
/// however many tokens the flags before it have taken.
pub proof fn law_boolean_flag_without_attached_value(
    options: Seq<OptionModel>,
    messages: Seq<Seq<char>>,
    tokens: Seq<Seq<char>>,
    idx: int,
    cluster: Seq<char>,
    k: int,
    claimed: bool,
    taken: nat,
    i: int,
)
    requires
        0 <= k < cluster.len(),
        find_flag(options, seq!['-', cluster[k]]) == Some(i),
        options[i].typ == CommandLineOptionType::Boolean,
    ensures
        cluster_from(
            options,
            messages,
            tokens,
            idx,
            cluster,
            k,
            Seq::<char>::empty(),
            claimed,
            taken,
        ) == cluster_from(
            options.update(i, options[i].with_value("true"@)),
            messages,
            tokens,
            idx,
            cluster,
            k + 1,
            Seq::<char>::empty(),
            claimed,
            taken,
        ),
{
    reveal_strlit("true");
}

/// Some flag of `cluster[from..]` names the record at `i`.
pub open spec fn names(options: Seq<OptionModel>, cluster: Seq<char>, from: int, i: int) -> bool {
    exists|n: int|
        from <= n < cluster.len() && find_flag(options, seq!['-', #[trigger] cluster[n]]) == Some(i)
}

/// Every value that `after` holds beyond those of `before` is `true`, and
/// there is at least one.
pub open spec fn gained_true(before: OptionModel, after: OptionModel) -> bool {
    &&& extends(before, after)
    &&& after.values.len() > before.values.len()
    &&& forall|p: int|
        before.values.len() <= p < after.values.len() ==> #[trigger] after.values[p] == "true"@
}

/// A cluster of boolean flags without an attached value binds `true` to every
/// record that one of its flags names, once for each such flag. It leaves
/// the other records as they were, takes no token, and meets no error.
pub proof fn law_boolean_cluster_binds_true(
    options: Seq<OptionModel>,
    messages: Seq<Seq<char>>,
    tokens: Seq<Seq<char>>,
    idx: int,
    cluster: Seq<char>,
    k: int,
    claimed: bool,
    taken: nat,
)
    requires
        0 <= k <= cluster.len(),
        forall|n: int|
            k <= n < cluster.len() ==> (find_flag(options, seq!['-', #[trigger] cluster[n]]) matches Some(
                i,
            ) ==> options[i].typ == CommandLineOptionType::Boolean),
    ensures
        ({
            let step = cluster_from(
                options,
                messages,
                tokens,
                idx,
                cluster,
                k,
                Seq::<char>::empty(),
                claimed,
                taken,
            );
            &&& step.error is None
            &&& step.taken == taken
            &&& step.options.len() == options.len()
            &&& forall|j: int|
                0 <= j < options.len() ==> if names(options, cluster, k, j) {
                    gained_true(#[trigger] options[j], step.options[j])
                } else {
                    step.options[j] == options[j]
                }
        }),
    decreases cluster.len() - k,
{
    reveal_strlit("true");
    let empty = Seq::<char>::empty();
    let step = cluster_from(options, messages, tokens, idx, cluster, k, empty, claimed, taken);
    if k < cluster.len() {
        let token = seq!['-', cluster[k]];
        lemma_find_flag_in_range(options, token);
        match find_flag(options, token) {
            None => {
                law_boolean_cluster_binds_true(
                    options,
                    messages,
                    tokens,
                    idx,
                    cluster,
                    k + 1,
                    claimed,
                    taken,
                );
                assert forall|j: int| 0 <= j < options.len() implies names(options, cluster, k, j)
                    == names(options, cluster, k + 1, j) by {
                    if names(options, cluster, k, j) {
                        let n = choose|n: int|
                            k <= n < cluster.len() && find_flag(
                                options,
                                seq!['-', #[trigger] cluster[n]],
                            ) == Some(j);
                        assert(n != k);
                    }
                }
            },
            Some(i) => {
                assert(options[i].typ == CommandLineOptionType::Boolean);
                let bound = options.update(i, options[i].with_value("true"@));
                assert(bind(options, i, "true"@, messages, taken).options == bound);
                lemma_bind_extends(options, i, "true"@, messages, taken);
                assert forall|n: int| k + 1 <= n < cluster.len() implies (find_flag(
                    bound,
                    seq!['-', #[trigger] cluster[n]],
                ) matches Some(i2) ==> bound[i2].typ == CommandLineOptionType::Boolean) by {
                    lemma_find_flag_ignores_values(options, bound, seq!['-', cluster[n]]);
                    lemma_find_flag_in_range(options, seq!['-', cluster[n]]);
                }
                law_boolean_cluster_binds_true(
                    bound,
                    messages,
                    tokens,
                    idx,
                    cluster,
                    k + 1,
                    claimed,
                    taken,
                );
                let rest = cluster_from(
                    bound,
                    messages,
                    tokens,
                    idx,
                    cluster,
                    k + 1,
                    empty,
                    claimed,
                    taken,
                );
                assert(step == rest);
                assert forall|j: int| 0 <= j < options.len() implies if names(
                    options,
                    cluster,
                    k,
                    j,
                ) {
                    gained_true(#[trigger] options[j], step.options[j])
                } else {
                    step.options[j] == options[j]
                } by {
                    let later = names(options, cluster, k + 1, j);
                    assert(names(bound, cluster, k + 1, j) == later) by {
                        if names(bound, cluster, k + 1, j) {
                            let n = choose|n: int|
                                k + 1 <= n < cluster.len() && find_flag(
                                    bound,
                                    seq!['-', #[trigger] cluster[n]],
                                ) == Some(j);
                            lemma_find_flag_ignores_values(options, bound, seq!['-', cluster[n]]);
                        }
                        if later {
                            let n = choose|n: int|
                                k + 1 <= n < cluster.len() && find_flag(
                                    options,
                                    seq!['-', #[trigger] cluster[n]],
                                ) == Some(j);
                            lemma_find_flag_ignores_values(options, bound, seq!['-', cluster[n]]);
                        }
                    }
                    assert(names(options, cluster, k, j) == (j == i || later)) by {
                        if names(options, cluster, k, j) {
                            let n = choose|n: int|
                                k <= n < cluster.len() && find_flag(
                                    options,
                                    seq!['-', #[trigger] cluster[n]],
                                ) == Some(j);
                            if n != k {
                                assert(later);
                            }
                        }
                        if j == i {
                            assert(find_flag(options, seq!['-', cluster[k]]) == Some(i));
                        }
                        if later {
                            let n = choose|n: int|
                                k + 1 <= n < cluster.len() && find_flag(
                                    options,
                                    seq!['-', #[trigger] cluster[n]],
                                ) == Some(j);
                            assert(k <= n);
                        }
                    }
                    if j == i {
                        let old_len = options[i].values.len() as int;
                        assert(bound[i].values == options[i].values.push("true"@));
                        assert(bound[i].values[old_len] == "true"@);
                        assert(options[i].values.is_prefix_of(bound[i].values));
                        if later {
                            assert(gained_true(bound[i], rest.options[i]));
                            assert(bound[i].values.is_prefix_of(rest.options[i].values));
                            assert(rest.options[i].values[old_len] == bound[i].values[old_len]);
                            assert forall|p: int|
                                old_len <= p < rest.options[i].values.len() implies #[trigger] rest.options[i].values[p]
                                == "true"@ by {
                                if p > old_len {
                                    assert(bound[i].values.len() <= p);
                                }
                            }
                            assert(options[i].values.is_prefix_of(rest.options[i].values)) by {
                                assert forall|p: int| 0 <= p < old_len implies options[i].values[p]
                                    == rest.options[i].values[p] by {
                                    assert(bound[i].values[p] == rest.options[i].values[p]);
                                }
                            }
                            assert(gained_true(options[i], rest.options[i]));
                        } else {
                            assert(rest.options[i] == bound[i]);
                            assert(gained_true(options[i], bound[i]));
                        }
                    } else {
                        assert(bound[j] == options[j]);
                    }
                }
            },
        }
    } else {
        assert forall|j: int| 0 <= j < options.len() implies !names(options, cluster, k, j) by {}
    }
}

/// A value that is bound becomes the last value of its record: the values
/// bound before stay in front of it, in their order, and the other records
/// stay as they were. A value that is refused changes nothing.
pub proof fn law_bound_value_is_last(
    options: Seq<OptionModel>,
    i: int,
    text: Seq<char>,
    messages: Seq<Seq<char>>,
    taken: nat,
)
    requires
        0 <= i < options.len(),
    ensures
        ({
            let step = bind(options, i, text, messages, taken);
            &&& step.options.len() == options.len()
            &&& step.error is None <==> text.len() > 0 && rejection(options[i].typ, text) is None
            &&& step.error is None ==> step.options[i].values == options[i].values.push(text)
            &&& step.error is Some ==> step.options == options
            &&& forall|j: int| 0 <= j < options.len() && j != i ==> step.options[j] == options[j]
        }),
{
}

/// A scan only adds: it binds further values to the records and collects
/// further tokens, whether it ends with an error or without one. Values
/// bound by earlier scans stay where they were, in front of the new ones.
pub proof fn law_scan_only_adds(
    parser: ParserModel,
    tokens: Seq<Seq<char>>,
    idx: int,
    latched: bool,
)
    requires
        0 <= idx,
    ensures
        grows(parser, scan_from(parser, tokens, idx, latched).parser),
    decreases
        (if idx < tokens.len() {
            tokens.len() - idx
        } else {
            0
        }),
{
    if idx < tokens.len() {
        if latched {
            let next = ParserModel {
                positional_args: parser.positional_args.push(tokens[idx]),
                ..parser
            };
            law_scan_only_adds(next, tokens, idx + 1, true);
        } else {
            match token_kind(tokens[idx]) {
                TokenKind::Plain => {
                    let next = ParserModel {
                        remaining_args: parser.remaining_args.push(tokens[idx]),
                        ..parser
                    };
                    law_scan_only_adds(next, tokens, idx + 1, false);
                },
                TokenKind::Separator => {
                    law_scan_only_adds(
                        parser,
                        tokens,
                        idx + 1,
                        parser.parsing_mode == ParsingMode::PositionalArgumentsMode,
                    );
                },
                TokenKind::Long => {
                    let step = long_step(parser.options, parser.messages, tokens, idx);
                    let token = tokens[idx];
                    lemma_find_flag_in_range(
                        parser.options,
                        token.take(key_end(token)),
                    );
                    match find_flag(parser.options, token.take(key_end(token))) {
                        Some(i) => {
                            lemma_bind_extends(
                                parser.options,
                                i,
                                inline_value(token)->0,
                                parser.messages,
                                0,
                            );
                            lemma_bind_extends(parser.options, i, "true"@, parser.messages, 0);
                            lemma_bind_extends(
                                parser.options,
                                i,
                                tokens[idx + 1],
                                parser.messages,
                                1,
                            );
                        },
                        None => {},
                    }
                    assert(all_extend(parser.options, step.options));
                    if step.error is None {
                        let next = parser.with_options(step.options);
                        law_scan_only_adds(next, tokens, step.resume_at(idx), false);
                        lemma_extend_twice(
                            parser.options,
                            step.options,
                            scan_from(next, tokens, step.resume_at(idx), false).parser.options,
                        );
                    }
                },
                TokenKind::Short => {
                    let step = short_step(parser.options, parser.messages, tokens, idx);
                    let token = tokens[idx];
                    let attached = match inline_value(token) {
                        Some(value) => value,
                        None => Seq::<char>::empty(),
                    };
                    lemma_cluster_extends(
                        parser.options,
                        parser.messages,
                        tokens,
                        idx,
                        token.subrange(1, key_end(token)),
                        0,
                        attached,
                        false,
                        0,
                    );
                    if step.error is None {
                        let next = parser.with_options(step.options);
                        law_scan_only_adds(next, tokens, step.resume_at(idx), false);
                        lemma_extend_twice(
                            parser.options,
                            step.options,
                            scan_from(next, tokens, step.resume_at(idx), false).parser.options,
                        );
                    }
                },
            }
        }
    }
}

/// A parse only adds, but for the program name, which it sets; and it keeps
/// the registry invariant.
pub proof fn law_parse_only_adds(parser: ParserModel, args: Seq<Seq<char>>)
    ensures
        grows(
            ParserModel { program_name: args[0], ..parser },
            parse_outcome(parser, args).parser,
        ),
        parser.wf() ==> parse_outcome(parser, args).parser.wf(),
{
    let named = ParserModel { program_name: args[0], ..parser };
    law_scan_only_adds(named, args.skip(1), 0, false);
    if parser.wf() {
        lemma_extension_keeps_flags_distinct(
            parser.options,
            parse_outcome(parser, args).parser.options,
        );
    }
}

/// In the default mode a scan leaves the positional arguments as they were.
pub proof fn law_default_mode_has_no_positional_arguments(
    parser: ParserModel,
    tokens: Seq<Seq<char>>,
    idx: int,
)
    requires
        0 <= idx,
        parser.parsing_mode == ParsingMode::DefaultParsingMode,
    ensures
        scan_from(parser, tokens, idx, false).parser.positional_args == parser.positional_args,
    decreases
        (if idx < tokens.len() {
            tokens.len() - idx
        } else {
            0
        }),
{
    if idx < tokens.len() {
        match token_kind(tokens[idx]) {
            TokenKind::Plain => {
                let next = ParserModel {
                    remaining_args: parser.remaining_args.push(tokens[idx]),
                    ..parser
                };
                law_default_mode_has_no_positional_arguments(next, tokens, idx + 1);
            },
            TokenKind::Separator => {
                law_default_mode_has_no_positional_arguments(parser, tokens, idx + 1);
            },
            TokenKind::Long => {
                let step = long_step(parser.options, parser.messages, tokens, idx);
                if step.error is None {
                    law_default_mode_has_no_positional_arguments(
                        parser.with_options(step.options),
                        tokens,
                        step.resume_at(idx),
                    );
                }
            },
            TokenKind::Short => {
                let step = short_step(parser.options, parser.messages, tokens, idx);
                if step.error is None {
                    law_default_mode_has_no_positional_arguments(
                        parser.with_options(step.options),
                        tokens,
                        step.resume_at(idx),
                    );
                }
            },
        }
    }
}

} // verus!
