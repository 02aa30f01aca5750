//! The error that collection reports.

use vstd::prelude::*;

use crate::bytes::views;

verus! {

/// Why a collection step did not produce a result.
#[derive(Debug)]
pub enum CollectError {
    /// a collection error, with its message
    CollectError(String),
}

/// The result of a collection step.
pub type R<T> = Result<T, CollectError>;

impl View for CollectError {
    type V = Seq<char>;

    /// An error is modelled by its message.
    open spec fn view(&self) -> Seq<char> {
        match self {
            CollectError::CollectError(message) => message@,
        }
    }
}

/// The model of a result: the model of the value, or the message of the error.
pub open spec fn result_view<T: View>(result: R<T>) -> Result<T::V, Seq<char>> {
    match result {
        Ok(value) => Ok(value@),
        Err(error) => Err(error@),
    }
}

/// The model of a result that holds a list.
pub open spec fn list_view<T: View>(result: R<Vec<T>>) -> Result<Seq<T::V>, Seq<char>> {
    match result {
        Ok(list) => Ok(views(list@)),
        Err(error) => Err(error@),
    }
}

/// The values of all results, or the first error among them.
pub open spec fn collected<T>(results: Seq<Result<T, Seq<char>>>) -> Result<Seq<T>, Seq<char>>
    decreases results.len(),
{
    if results.len() == 0 {
        Ok(Seq::empty())
    } else {
        match (collected(results.drop_last()), results.last()) {
            (Err(message), _) => Err(message),
            (Ok(_), Err(message)) => Err(message),
            (Ok(values), Ok(value)) => Ok(values.push(value)),
        }
    }
}

pub proof fn lemma_collected_next<T>(results: Seq<Result<T, Seq<char>>>, i: int)
    requires
        0 <= i < results.len(),
    ensures
        collected(results.take(i + 1)) == (match (collected(results.take(i)), results[i]) {
            (Err(message), _) => Err(message),
            (Ok(_), Err(message)) => Err(message),
            (Ok(values), Ok(value)) => Ok(values.push(value)),
        }),
        collected(results.take(i + 1)) is Err ==> collected(results) == collected(
            results.take(i + 1),
        ),
    decreases results.len(),
{
    assert(results.take(i + 1).drop_last() =~= results.take(i));
    assert(results.take(i + 1).last() == results[i]);
    if i + 1 < results.len() {
        let shorter = results.drop_last();
        lemma_collected_next(shorter, i);
        assert(shorter.take(i + 1) =~= results.take(i + 1));
    } else {
        assert(results.take(i + 1) =~= results);
    }
}

pub proof fn lemma_collected_values<T>(results: Seq<Result<T, Seq<char>>>)
    ensures
        collected(results) matches Ok(values) ==> {
            &&& values.len() == results.len()
            &&& forall|i: int|
                0 <= i < results.len() ==> #[trigger] results[i] == Ok::<T, Seq<char>>(values[i])
        },
    decreases results.len(),
{
    if results.len() > 0 {
        let earlier = results.drop_last();
        lemma_collected_values(earlier);
        if collected(results) is Ok {
            assert forall|i: int| 0 <= i < results.len() implies #[trigger] results[i] == Ok::<
                T,
                Seq<char>,
            >(collected(results)->Ok_0[i]) by {
                if i < earlier.len() {
                    assert(earlier[i] == results[i]);
                }
            }
        }
    }
}

impl CollectError {
    /// the message of the error
    pub fn message(&self) -> (message: &str)
        ensures
            message@ == self@,
    {
        match self {
            CollectError::CollectError(message) => message.as_str(),
        }
    }
}

/// A collection error with the given message.
pub fn err(message: &str) -> (error: CollectError)
    ensures
        error@ == message@,
{
    CollectError::CollectError(message.to_owned())
}

} // verus!
