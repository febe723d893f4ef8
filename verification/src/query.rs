//! What reading bound values back returns.

use crate::error::{
    ErrorModel, OPTION_IDENTIFIER_NOT_FOUND_ERROR_IDX, OPTION_IS_NOT_OF_REQUIRED_TYPE_ERROR_IDX,
    OPTION_IS_NOT_SET_ERROR_IDX,
};
use crate::model::ParserModel;
use crate::option::OptionModel;
use crate::option_type::kind_of;
use crate::registry::{error_for, error_without_option, find_handle, first_match};
use crate::value::OptionValue;
use vstd::prelude::*;

verus! {

/// Whether the first value of record `o` can be read as a `T`: the text
/// denotes a `T`, and `T` belongs to the kind of the option.
pub open spec fn readable<T: OptionValue>(o: OptionModel) -> bool {
    T::accepts(o.values[0]) && kind_of(T::native_type()) == o.typ
}

/// Why the first value of the option with the handle `handle` cannot be read
/// as a `T`, or `None` when it can.
///
/// No option with that handle is an unknown identifier; an option without a
/// value is not set; a value that is no `T`, or a `T` that does not belong to
/// the kind of the option, is not of the required type.
pub open spec fn value_error<T: OptionValue>(parser: ParserModel, handle: u64) -> Option<
    ErrorModel,
> {
    match find_handle(parser.options, handle) {
        None => Some(
            error_without_option(
                Seq::<char>::empty(),
                parser.messages,
                OPTION_IDENTIFIER_NOT_FOUND_ERROR_IDX as int,
            ),
        ),
        Some(i) => {
            let o = parser.options[i];
            if !o.is_set() {
                Some(error_for(o, parser.messages, OPTION_IS_NOT_SET_ERROR_IDX as int))
            } else if readable::<T>(o) {
                None
            } else {
                Some(error_for(o, parser.messages, OPTION_IS_NOT_OF_REQUIRED_TYPE_ERROR_IDX as int))
            }
        },
    }
}

/// The values of the first `count` records that have the handle `handle`, in
/// registration order and, within a record, in the order bound.
pub open spec fn values_of(options: Seq<OptionModel>, handle: u64, count: int) -> Seq<Seq<char>>
    decreases count,
{
    if count <= 0 {
        Seq::<Seq<char>>::empty()
    } else {
        let rest = values_of(options, handle, count - 1);
        if options[count - 1].fingerprint() == handle {
            rest + options[count - 1].values
        } else {
            rest
        }
    }
}

/// All values bound to the handle `handle`.
pub open spec fn all_values_of(parser: ParserModel, handle: u64) -> Seq<Seq<char>> {
    values_of(parser.options, handle, parser.options.len() as int)
}

/// Every text of `texts` denotes a `T`.
pub open spec fn all_accepted<T: OptionValue>(texts: Seq<Seq<char>>) -> bool {
    forall|k: int| 0 <= k < texts.len() ==> T::accepts(#[trigger] texts[k])
}

/// `values` holds what the texts of `texts` denote, one for one.
pub open spec fn all_denoted<T: OptionValue>(texts: Seq<Seq<char>>, values: Seq<T>) -> bool {
    &&& values.len() == texts.len()
    &&& forall|k: int| 0 <= k < texts.len() ==> T::denotes(#[trigger] texts[k], values[k])
}

/// The record has the handle `handle` and holds a value that is no `T`.
pub open spec fn holds_unreadable<T: OptionValue>(handle: u64) -> spec_fn(OptionModel) -> bool {
    |o: OptionModel| o.fingerprint() == handle && !all_accepted::<T>(o.values)
}

/// Why the values bound to the handle `handle` cannot all be read as `T`s, or
/// `None` when they can: the error "is not of the required type" about the
/// first record with the handle, in registration order, that holds a value
/// that is no `T`.
pub open spec fn values_error<T: OptionValue>(parser: ParserModel, handle: u64) -> Option<
    ErrorModel,
> {
    match first_match(parser.options, holds_unreadable::<T>(handle), 0) {
        Some(i) => Some(
            error_for(
                parser.options[i],
                parser.messages,
                OPTION_IS_NOT_OF_REQUIRED_TYPE_ERROR_IDX as int,
            ),
        ),
        None => None,
    }
}

/// A value of a record with the handle is one of the values bound to the
/// handle: value `j` of record `i` stands in `values_of` after the values of
/// the records before `i`.
pub proof fn lemma_values_of_holds(
    options: Seq<OptionModel>,
    handle: u64,
    count: int,
    i: int,
    j: int,
)
    requires
        0 <= i < count <= options.len(),
        options[i].fingerprint() == handle,
        0 <= j < options[i].values.len(),
    ensures
        values_of(options, handle, i).len() + j < values_of(options, handle, count).len(),
        values_of(options, handle, count)[values_of(options, handle, i).len() + j]
            == options[i].values[j],
    decreases count,
{
    if i < count - 1 {
        lemma_values_of_holds(options, handle, count - 1, i, j);
    }
}

} // verus!
