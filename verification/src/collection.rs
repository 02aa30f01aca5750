//! How datasets turn responses into columns.

use vstd::prelude::*;

use crate::error::{result_view, R};
use crate::schema::Query;

verus! {

/// One response per block, or per range of blocks.
pub struct ByBlock;

/// One response per transaction.
pub struct ByTransaction;

/// How the responses of a dataset become its columns, when it is collected by
/// block or by transaction.
pub trait Collect<By>: View + Sized {
    /// type of data responses
    type Response;

    /// The columns that hold no rows.
    spec fn no_rows() -> Self::V;

    /// How many rows the columns hold.
    spec fn row_count(columns: Self::V) -> nat;

    /// The most rows that a response gives.
    spec fn most_rows(response: Self::Response) -> nat;

    /// Whether the rows of a response have all their parts.
    spec fn has_parts(response: Self::Response, query: Query) -> bool;

    /// The columns with the rows of one response added, or the error.
    spec fn transformed(response: Self::Response, columns: Self::V, query: Query) -> Result<
        Self::V,
        Seq<char>,
    >;

    /// columns without rows
    fn empty() -> (columns: Self)
        ensures
            columns@ == Self::no_rows(),
            Self::row_count(columns@) == 0,
    ;

    /// transform data response into column data
    fn transform(response: Self::Response, columns: &mut Self, query: &Query) -> (done: R<()>)
        requires
            Self::has_parts(response, *query),
            Self::row_count(old(columns)@) + Self::most_rows(response) <= u64::MAX,
        ensures
            match Self::transformed(response, old(columns)@, *query) {
                Ok(columns_after) => done is Ok && final(columns)@ == columns_after,
                Err(message) => done matches Err(error) && error@ == message && final(columns)@
                    == old(columns)@,
            },
            Self::row_count(final(columns)@) <= Self::row_count(old(columns)@) + Self::most_rows(
                response,
            ),
    ;
}

/// How many blocks go into one request of a dataset, if it is collected by ranges.
///
/// A request for more blocks than the dataset prefers wins; one for fewer, such
/// as the default of one block, does not.
pub fn inner_request_size(uses_block_ranges: bool, requested: u64, preferred: u64) -> (size: Option<
    u64,
>)
    ensures
        size is Some <==> uses_block_ranges,
        size matches Some(size) ==> size >= requested && size >= preferred && (size == requested
            || size == preferred),
{
    if !uses_block_ranges {
        None
    } else if requested >= preferred {
        Some(requested)
    } else {
        Some(preferred)
    }
}

/// The most rows that the responses give together.
pub open spec fn most_rows_of_all<C: Collect<By>, By>(messages: Seq<R<C::Response>>) -> nat
    decreases messages.len(),
{
    if messages.len() == 0 {
        0
    } else {
        most_rows_of_all::<C, By>(messages.drop_last()) + match messages.last() {
            Ok(response) => C::most_rows(response),
            Err(_) => 0,
        }
    }
}

/// The columns that the responses give, taken in order up to the first error.
pub open spec fn all_transformed<C: Collect<By>, By>(
    messages: Seq<R<C::Response>>,
    query: Query,
) -> Result<C::V, Seq<char>>
    decreases messages.len(),
{
    if messages.len() == 0 {
        Ok(C::no_rows())
    } else {
        match all_transformed::<C, By>(messages.drop_last(), query) {
            Err(message) => Err(message),
            Ok(columns) => match messages.last() {
                Err(error) => Err(error@),
                Ok(response) => C::transformed(response, columns, query),
            },
        }
    }
}

pub proof fn lemma_next_message<C: Collect<By>, By>(
    messages: Seq<R<C::Response>>,
    i: int,
    query: Query,
)
    requires
        0 <= i < messages.len(),
    ensures
        messages.take(i + 1).drop_last() == messages.take(i),
        messages.take(i + 1).last() == messages[i],
        all_transformed::<C, By>(messages.take(i + 1), query) is Err ==> all_transformed::<C, By>(
            messages,
            query,
        ) == all_transformed::<C, By>(messages.take(i + 1), query),
    decreases messages.len(),
{
    assert(messages.take(i + 1).drop_last() =~= messages.take(i));
    if i + 1 < messages.len() {
        let shorter = messages.drop_last();
        lemma_next_message::<C, By>(shorter, i, query);
        assert(shorter.take(i + 1) =~= messages.take(i + 1));
    } else {
        assert(messages.take(i + 1) =~= messages);
    }
}

/// Whether a message can be transformed after the earlier ones: its rows have
/// all their parts, and can be counted. Nothing is asked of a message that comes
/// after an error, since it is not transformed.
pub open spec fn can_transform<C: Collect<By>, By>(
    message: R<C::Response>,
    earlier: Seq<R<C::Response>>,
    query: Query,
) -> bool {
    all_transformed::<C, By>(earlier, query) is Ok ==> (message matches Ok(response) ==> {
        &&& C::has_parts(response, query)
        &&& most_rows_of_all::<C, By>(earlier) + C::most_rows(response) <= u64::MAX
    })
}

/// convert the responses of a dataset to columns
///
/// Takes the responses in order and stops at the first error.
pub fn transform_channel<C: Collect<By>, By>(
    messages: Vec<R<C::Response>>,
    query: &Query,
) -> (columns: R<C>)
    requires
        forall|i: int|
            0 <= i < messages@.len() ==> can_transform::<C, By>(
                #[trigger] messages@[i],
                messages@.take(i),
                *query,
            ),
    ensures
        result_view(columns) == all_transformed::<C, By>(messages@, *query),
{
    let mut columns = C::empty();
    let ghost all = messages@;
    for message in it: messages
        invariant
            it.seq() == all,
            forall|i: int|
                0 <= i < all.len() ==> can_transform::<C, By>(
                    #[trigger] all[i],
                    all.take(i),
                    *query,
                ),
            C::row_count(columns@) <= most_rows_of_all::<C, By>(all.take(it.index())),
            all_transformed::<C, By>(all.take(it.index()), *query) == Ok::<C::V, Seq<char>>(
                columns@,
            ),
    {
        proof {
            lemma_next_message::<C, By>(all, it.index(), *query);
        }
        match message {
            Ok(response) => {
                C::transform(response, &mut columns, query)?;
            },
            Err(error) => {
                return Err(error);
            },
        }
    }
    assert(all.take(all.len() as int) =~= all);
    Ok(columns)
}

/// defines how to collect dataset by transaction
pub trait CollectByTransaction: Collect<ByTransaction> {
    /// Whether the dataset has responses by transaction.
    spec fn collects_by_transaction() -> bool;

    /// whether data can be collected by transaction
    fn can_collect_by_transaction() -> (can: bool)
        ensures
            can == Self::collects_by_transaction(),
    ;
}

} // verus!
