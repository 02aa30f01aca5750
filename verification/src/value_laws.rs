//! What models, results and messages hold, over the values they stand for.

use vstd::prelude::*;

use crate::bytes::{be_value, low_bits, option_view, option_views, views};
use crate::collection::{all_transformed, lemma_next_message, Collect};
use crate::datatypes::Datatype;
use crate::error::{
    collected, lemma_collected_values, list_view, result_view, CollectError, R,
};
use crate::rpc_params::{allowed_words, fixed, present, required_word};
use crate::schema::{missing_schema, Query, Table};
use crate::text::{decimal, digit, snake_case};

verus! {

/// The model of a list holds the model of each item at its own place, and the
/// model of an optional item is that of the item.
pub proof fn law_lists_are_modelled_item_by_item<T: View>(
    items: Seq<T>,
    options: Seq<Option<T>>,
    option: Option<T>,
    i: int,
)
    ensures
        views(items).len() == items.len(),
        0 <= i < items.len() ==> views(items)[i] == items[i]@,
        option_views(options).len() == options.len(),
        0 <= i < options.len() ==> match options[i] {
            Some(item) => option_views(options)[i] == Some(item@),
            None => option_views(options)[i] is None,
        },
        match option {
            Some(item) => option_view(option) == Some(item@),
            None => option_view(option) is None,
        },
{
}

/// The model of a result is that of its value, or the message of its error, and
/// the model of a schema its column names.
pub proof fn law_results_are_modelled_by_what_they_hold<T: View>(
    result: R<T>,
    list: R<Vec<T>>,
    error: CollectError,
    table: Table,
    i: int,
)
    ensures
        match result {
            Ok(value) => result_view(result) == Ok::<T::V, Seq<char>>(value@),
            Err(error) => result_view(result) == Err::<T::V, Seq<char>>(error@),
        },
        match list {
            Ok(items) => list_view(list) matches Ok(models) && models.len() == items@.len() && (0
                <= i < items@.len() ==> models[i] == items@[i]@),
            Err(error) => list_view(list) == Err::<Seq<T::V>, Seq<char>>(error@),
        },
        error matches CollectError::CollectError(message) && error@ == message@,
        table@.len() == table.columns@.len(),
        0 <= i < table.columns@.len() ==> table@[i] == table.columns@[i]@,
{
}

/// Results are collected where all hold values, each value at its own place; else
/// the first error among them is reported.
pub proof fn law_collected_is_all_or_the_first_error<T>(results: Seq<Result<T, Seq<char>>>)
    ensures
        match collected(results) {
            Ok(values) => values.len() == results.len() && forall|i: int|
                0 <= i < results.len() ==> #[trigger] results[i] == Ok::<T, Seq<char>>(values[i]),
            Err(message) => exists|i: int|
                0 <= i < results.len() && #[trigger] results[i] == Err::<T, Seq<char>>(message)
                    && forall|j: int| 0 <= j < i ==> (#[trigger] results[j]) is Ok,
        },
    decreases results.len(),
{
    lemma_collected_values(results);
    if collected(results) is Err {
        let message = collected(results)->Err_0;
        let earlier = results.drop_last();
        law_collected_is_all_or_the_first_error(earlier);
        if collected(earlier) is Err {
            let i = choose|i: int|
                0 <= i < earlier.len() && #[trigger] earlier[i] == Err::<T, Seq<char>>(message)
                    && forall|j: int| 0 <= j < i ==> (#[trigger] earlier[j]) is Ok;
            assert(results[i] == earlier[i]);
            assert forall|j: int| 0 <= j < i implies (#[trigger] results[j]) is Ok by {
                assert(earlier[j] == results[j]);
            }
        } else {
            let last = results.len() - 1;
            assert(results[last] == Err::<T, Seq<char>>(message));
            assert forall|j: int| 0 <= j < last implies (#[trigger] results[j]) is Ok by {
                assert(earlier[j] == results[j]);
            }
        }
    }
}

/// A value that has to be given is returned as it is given, of any length, and its
/// absence reported.
pub proof fn law_given_values_are_returned<T>(value: T, missing: Seq<char>)
    ensures
        present(Some(value), missing) == Ok::<T, Seq<char>>(value),
        present(None::<T>, missing) == Err::<T, Seq<char>>(missing),
{
}

/// A word is the given bytes where they are as many as its width, and else an
/// error that names it, its width and how many bytes were given. A required word
/// has to be given, and an optional one is the only one allowed where it is given.
pub proof fn law_words_are_the_given_bytes(
    bytes: Seq<u8>,
    width: nat,
    name: Seq<char>,
    missing: Seq<char>,
)
    ensures
        bytes.len() == width ==> fixed(bytes, width, name) == Ok::<Seq<u8>, Seq<char>>(bytes),
        bytes.len() != width ==> fixed(bytes, width, name) == Err::<Seq<u8>, Seq<char>>(
            name + " must be "@ + decimal(width) + " bytes, got "@ + decimal(bytes.len()),
        ),
        required_word(None, missing, width, name) == Err::<Seq<u8>, Seq<char>>(missing),
        required_word(Some(bytes), missing, width, name) == fixed(bytes, width, name),
        allowed_words(None, width, name) == Ok::<Seq<Seq<u8>>, Seq<char>>(Seq::empty()),
        match fixed(bytes, width, name) {
            Ok(word) => allowed_words(Some(bytes), width, name) == Ok::<Seq<Seq<u8>>, Seq<char>>(
                seq![word],
            ),
            Err(message) => allowed_words(Some(bytes), width, name) == Err::<
                Seq<Seq<u8>>,
                Seq<char>,
            >(message),
        },
{
}

/// The number that decimal digits write.
pub open spec fn read_decimal(digits: Seq<char>) -> int
    decreases digits.len(),
{
    if digits.len() == 0 {
        0
    } else {
        read_decimal(digits.drop_last()) * 10 + (digits.last() as int - '0' as int)
    }
}

/// The decimal notation of a number has only digits, reads back as the number, and
/// starts with a zero only where it is that zero.
pub proof fn law_decimals_read_back(n: nat)
    ensures
        read_decimal(decimal(n)) == n,
        forall|i: int|
            0 <= i < decimal(n).len() ==> '0' as int <= (#[trigger] decimal(n)[i]) as int <= '9'
                as int,
        decimal(n).len() > 0,
        decimal(n)[0] == '0' ==> n == 0,
    decreases n,
{
    reveal_with_fuel(read_decimal, 2);
    let last = digit(n % 10);
    assert(last as int == 48 + n % 10);
    if n >= 10 {
        law_decimals_read_back(n / 10);
        assert(decimal(n).drop_last() =~= decimal(n / 10));
        assert(decimal(n)[0] == decimal(n / 10)[0]);
    } else {
        assert(decimal(n).drop_last() =~= Seq::empty());
    }
}

/// The low 32 bits of a number are its remainder, and bytes write a number most
/// significant first.
pub proof fn law_numbers_are_cut_and_written(number: u64, bytes: Seq<u8>, byte: u8)
    ensures
        low_bits(number) == number % 0x1_0000_0000,
        be_value(Seq::empty()) == 0,
        be_value(bytes.push(byte)) == 256 * be_value(bytes) + byte,
{
    assert(bytes.push(byte).drop_last() =~= bytes);
}

/// The message about a dataset that was not requested names it.
pub proof fn law_missing_schema_names_the_dataset(datatype: Datatype)
    ensures
        missing_schema(datatype) == "schema for "@ + snake_case(datatype.identifier_text())
            + " missing"@,
{
}

/// Responses are taken in order. Without responses there are no rows; a response
/// is transformed into the columns that the earlier ones gave; the first error, of
/// a message or of a transformation, is returned, whatever comes after it.
pub proof fn law_responses_are_taken_in_order<C: Collect<By>, By>(
    messages: Seq<R<C::Response>>,
    i: int,
    query: Query,
)
    requires
        0 <= i < messages.len(),
    ensures
        all_transformed::<C, By>(messages.take(0), query) == Ok::<C::V, Seq<char>>(C::no_rows()),
        all_transformed::<C, By>(messages.take(i), query) matches Ok(columns)
            ==> match messages[i] {
            Ok(response) => {
                &&& all_transformed::<C, By>(messages.take(i + 1), query) == C::transformed(
                    response,
                    columns,
                    query,
                )
                &&& C::transformed(response, columns, query) matches Err(message)
                    ==> all_transformed::<C, By>(messages, query) == Err::<C::V, Seq<char>>(message)
            },
            Err(error) => all_transformed::<C, By>(messages, query) == Err::<C::V, Seq<char>>(
                error@,
            ),
        },
{
    lemma_next_message::<C, By>(messages, i, query);
}

} // verus!
