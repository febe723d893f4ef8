//! The registry as a sequence of records: lookups by flag and by handle,
//! duplicate detection, and the mandatory check.
//!
//! Everything here is specification. The parser keeps its records in
//! registration order, and every lookup returns the first record that
//! matches.

use crate::error::{
    ErrorModel, LONG_OPTION_ALREADY_EXISTS_ERROR_IDX, MANDATORY_OPTION_HAS_NOT_SET_ERROR_IDX,
    OPTION_ALREADY_EXISTS_ERROR_IDX, SHORT_OPTION_ALREADY_EXISTS_ERROR_IDX,
};
use crate::option::OptionModel;
use crate::option_type::{kind_name, CommandLineOptionType};
use vstd::prelude::*;

verus! {

/// The index of the first record at or after `from` that `wanted` holds of.
pub open spec fn first_match(
    options: Seq<OptionModel>,
    wanted: spec_fn(OptionModel) -> bool,
    from: int,
) -> Option<int>
    decreases options.len() - from,
{
    if from < 0 || from >= options.len() {
        None
    } else if wanted(options[from]) {
        Some(from)
    } else {
        first_match(options, wanted, from + 1)
    }
}

/// `first_match` returns the least matching index, and `None` exactly when no
/// record matches.
pub proof fn lemma_first_match(
    options: Seq<OptionModel>,
    wanted: spec_fn(OptionModel) -> bool,
    from: int,
)
    requires
        0 <= from,
    ensures
        match first_match(options, wanted, from) {
            Some(i) => from <= i < options.len() && wanted(options[i]) && forall|j: int|
                from <= j < i ==> !wanted(#[trigger] options[j]),
            None => forall|j: int| from <= j < options.len() ==> !wanted(#[trigger] options[j]),
        },
    decreases options.len() - from,
{
    if from < options.len() && !wanted(options[from]) {
        lemma_first_match(options, wanted, from + 1);
    }
}

/// A matching index with no match before it is the first match.
pub proof fn lemma_first_match_is(
    options: Seq<OptionModel>,
    wanted: spec_fn(OptionModel) -> bool,
    i: int,
)
    requires
        0 <= i < options.len(),
        wanted(options[i]),
        forall|j: int| 0 <= j < i ==> !wanted(#[trigger] options[j]),
    ensures
        first_match(options, wanted, 0) == Some(i),
{
    lemma_first_match(options, wanted, 0);
}

/// Where nothing matches there is no first match.
pub proof fn lemma_first_match_none(options: Seq<OptionModel>, wanted: spec_fn(OptionModel) -> bool)
    requires
        forall|j: int| 0 <= j < options.len() ==> !wanted(#[trigger] options[j]),
    ensures
        first_match(options, wanted, 0) is None,
{
    lemma_first_match(options, wanted, 0);
}

/// The first match depends only on what `wanted` says of each record.
pub proof fn lemma_first_match_same(
    a: Seq<OptionModel>,
    b: Seq<OptionModel>,
    wanted: spec_fn(OptionModel) -> bool,
    from: int,
)
    requires
        0 <= from,
        a.len() == b.len(),
        forall|j: int| 0 <= j < a.len() ==> wanted(#[trigger] a[j]) == wanted(b[j]),
    ensures
        first_match(a, wanted, from) == first_match(b, wanted, from),
    decreases a.len() - from,
{
    if from < a.len() && !wanted(a[from]) {
        lemma_first_match_same(a, b, wanted, from + 1);
    }
}

/// The record has the long flag `name`.
pub open spec fn has_long_flag(name: Seq<char>) -> spec_fn(OptionModel) -> bool {
    |o: OptionModel| o.has_long() && o.long == name
}

/// The record has the short flag `c`.
pub open spec fn has_short_flag(c: char) -> spec_fn(OptionModel) -> bool {
    |o: OptionModel| o.has_short() && o.short == c
}

/// The record has the handle `handle`.
pub open spec fn has_handle(handle: u64) -> spec_fn(OptionModel) -> bool {
    |o: OptionModel| o.fingerprint() == handle
}

/// The record is mandatory and has no value.
pub open spec fn is_missing() -> spec_fn(OptionModel) -> bool {
    |o: OptionModel| o.mandatory && !o.is_set()
}

/// The record stands in the way of registering `candidate`.
pub open spec fn conflicts_with(candidate: OptionModel) -> spec_fn(OptionModel) -> bool {
    |o: OptionModel| conflict(o, candidate) is Some
}

/// Whether a flag token is in the long form: it starts with two dashes.
pub open spec fn is_long_token(token: Seq<char>) -> bool {
    token.len() >= 2 && token[0] == '-' && token[1] == '-'
}

/// The character that a short flag token asks for: the one after the dash,
/// and a blank when there is none.
pub open spec fn short_of_token(token: Seq<char>) -> char {
    if token.len() >= 2 {
        token[1]
    } else {
        ' '
    }
}

/// The record that a flag token names. A long token, `--name`, names the
/// first record whose long flag is `name`; any other token names the first
/// record whose short flag is the token's second character. Records without
/// the flag in question are never named.
pub open spec fn find_flag(options: Seq<OptionModel>, token: Seq<char>) -> Option<int> {
    if is_long_token(token) {
        first_match(options, has_long_flag(token.skip(2)), 0)
    } else {
        first_match(options, has_short_flag(short_of_token(token)), 0)
    }
}

/// The first record with the handle `handle`.
pub open spec fn find_handle(options: Seq<OptionModel>, handle: u64) -> Option<int> {
    first_match(options, has_handle(handle), 0)
}

/// Why `existing` stands in the way of `candidate`, as the index of the error
/// kind: the same option, else the same short flag, else the same long flag.
///
/// A flag that a record lacks is shared with no record: two options without
/// a short flag do not clash on it, nor two without a long flag.
pub open spec fn conflict(existing: OptionModel, candidate: OptionModel) -> Option<usize> {
    if candidate.same_identity(existing) {
        Some(OPTION_ALREADY_EXISTS_ERROR_IDX)
    } else if candidate.shares_short(existing) {
        Some(SHORT_OPTION_ALREADY_EXISTS_ERROR_IDX)
    } else if candidate.shares_long(existing) {
        Some(LONG_OPTION_ALREADY_EXISTS_ERROR_IDX)
    } else {
        None
    }
}

/// The error that names record `o` and the kind `kind`.
pub open spec fn error_for(o: OptionModel, messages: Seq<Seq<char>>, kind: int) -> ErrorModel {
    ErrorModel { flags: o.flags(), typ: kind_name(o.typ), error: messages[kind] }
}

/// The error of kind `kind` that names no record, only the text `flags`.
pub open spec fn error_without_option(
    flags: Seq<char>,
    messages: Seq<Seq<char>>,
    kind: int,
) -> ErrorModel {
    ErrorModel { flags, typ: kind_name(CommandLineOptionType::Undefined), error: messages[kind] }
}

/// The error that registering `candidate` meets: that of the first record,
/// in registration order, that conflicts with it.
pub open spec fn registration_error(
    options: Seq<OptionModel>,
    candidate: OptionModel,
    messages: Seq<Seq<char>>,
) -> Option<ErrorModel> {
    match first_match(options, conflicts_with(candidate), 0) {
        Some(i) => Some(error_for(options[i], messages, conflict(options[i], candidate)->0 as int)),
        None => None,
    }
}

/// The error of the mandatory check: that of the first mandatory record, in
/// registration order, that has no value.
pub open spec fn mandatory_error(options: Seq<OptionModel>, messages: Seq<Seq<char>>) -> Option<
    ErrorModel,
> {
    match first_match(options, is_missing(), 0) {
        Some(i) => Some(error_for(options[i], messages, MANDATORY_OPTION_HAS_NOT_SET_ERROR_IDX as int)),
        None => None,
    }
}

/// No two records have the same short flag, and no two have the same long
/// flag. Records that lack a flag are not held against each other.
pub open spec fn distinct_flags(options: Seq<OptionModel>) -> bool {
    forall|i: int, j: int|
        0 <= i < j < options.len() ==> !(#[trigger] options[i]).shares_short(
            #[trigger] options[j],
        ) && !options[i].shares_long(options[j])
}

/// Every bound value of `before` is still bound in `after`, in the same
/// place, and the record is otherwise the same.
pub open spec fn extends(before: OptionModel, after: OptionModel) -> bool {
    &&& after == OptionModel { values: after.values, ..before }
    &&& before.values.is_prefix_of(after.values)
}

/// `after` holds the records of `before`, each with its values extended.
pub open spec fn all_extend(before: Seq<OptionModel>, after: Seq<OptionModel>) -> bool {
    &&& before.len() == after.len()
    &&& forall|i: int| 0 <= i < before.len() ==> extends(#[trigger] before[i], after[i])
}

/// Registering a candidate that no record conflicts with keeps the flags
/// distinct.
pub proof fn lemma_registration_keeps_flags_distinct(
    options: Seq<OptionModel>,
    candidate: OptionModel,
)
    requires
        distinct_flags(options),
        first_match(options, conflicts_with(candidate), 0) is None,
    ensures
        distinct_flags(options.push(candidate)),
{
    lemma_first_match(options, conflicts_with(candidate), 0);
    let grown = options.push(candidate);
    assert forall|i: int, j: int| 0 <= i < j < grown.len() implies !(#[trigger] grown[i]).shares_short(
        #[trigger] grown[j],
    ) && !grown[i].shares_long(grown[j]) by {
        if j == options.len() {
            assert(!conflicts_with(candidate)(options[i]));
            assert(conflict(options[i], candidate) is None);
        } else {
            assert(grown[i] == options[i] && grown[j] == options[j]);
        }
    }
}

/// Extending the values of records keeps their flags distinct.
pub proof fn lemma_extension_keeps_flags_distinct(before: Seq<OptionModel>, after: Seq<OptionModel>)
    requires
        distinct_flags(before),
        all_extend(before, after),
    ensures
        distinct_flags(after),
{
    assert forall|i: int, j: int| 0 <= i < j < after.len() implies !(#[trigger] after[i]).shares_short(
        #[trigger] after[j],
    ) && !after[i].shares_long(after[j]) by {
        assert(extends(before[i], after[i]));
        assert(extends(before[j], after[j]));
        assert(!before[i].shares_short(before[j]) && !before[i].shares_long(before[j]));
    }
}

/// A flag token names a record of the registry.
pub proof fn lemma_find_flag_in_range(options: Seq<OptionModel>, token: Seq<char>)
    ensures
        find_flag(options, token) matches Some(i) ==> 0 <= i < options.len(),
{
    lemma_first_match(options, has_long_flag(token.skip(2)), 0);
    lemma_first_match(options, has_short_flag(short_of_token(token)), 0);
}

/// The record that a flag token names does not depend on the values that
/// are bound.
pub proof fn lemma_find_flag_ignores_values(
    before: Seq<OptionModel>,
    after: Seq<OptionModel>,
    token: Seq<char>,
)
    requires
        all_extend(before, after),
    ensures
        find_flag(before, token) == find_flag(after, token),
{
    assert forall|j: int| 0 <= j < before.len() implies has_long_flag(token.skip(2))(
        #[trigger] before[j],
    ) == has_long_flag(token.skip(2))(after[j]) && has_short_flag(short_of_token(token))(before[j])
        == has_short_flag(short_of_token(token))(after[j]) by {
        assert(extends(before[j], after[j]));
    }
    lemma_first_match_same(before, after, has_long_flag(token.skip(2)), 0);
    lemma_first_match_same(before, after, has_short_flag(short_of_token(token)), 0);
}

} // verus!
