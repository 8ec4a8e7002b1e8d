//! Waiting for an operation to be done, by asking for it again and again.
//!
//! The caller asks; [`wait`] decides on each answer whether the wait
//! is over or the caller is to sleep and ask again.

use vstd::prelude::*;
use crate::operation::Operation;

verus! {

/// The pause between two requests, in milliseconds.
pub const POLL_INTERVAL_MILLIS: u64 = 1000;

/// The request for the current state of an operation.
#[derive(Debug)]
pub struct GetOperationRequest {
    pub operation_id: String,
}

/// What to do after an answer.
#[derive(Debug)]
pub enum Poll<E> {
    /// The wait is over, with this outcome.
    Finished(Result<Operation, E>),
    /// Sleep for so many milliseconds, then ask again.
    SleepThenGet(u64),
}

/// Whether an answer ends the wait: an operation that is done does, and so
/// does a failure of the request.
pub open spec fn ends_wait<E>(response: Result<Operation, E>) -> bool {
    match response {
        Ok(operation) => operation.done,
        Err(_) => true,
    }
}

/// What follows an answer: the answer itself where it ends the wait, else
/// one pause.
pub open spec fn poll_of<E>(response: Result<Operation, E>) -> Poll<E> {
    if ends_wait(response) {
        Poll::Finished(response)
    } else {
        Poll::SleepThenGet(POLL_INTERVAL_MILLIS)
    }
}

/// How many of the answers the wait goes through before one ends it: the
/// index of the first answer that ends the wait, or the number of answers
/// where none does.
pub open spec fn answers_before_end<E>(responses: Seq<Result<Operation, E>>) -> nat
    decreases responses.len(),
{
    if responses.len() == 0 {
        0
    } else if ends_wait(responses[0]) {
        0
    } else {
        1 + answers_before_end(responses.drop_first())
    }
}

/// The request to send for the operation `operation_id`, each time.
pub fn wait_request(operation_id: &str) -> (request: GetOperationRequest)
    ensures
        request.operation_id@ == operation_id@,
{
    GetOperationRequest { operation_id: String::from_str(operation_id) }
}

/// Decides on an answer. An operation that is done ends the wait and is
/// returned as it came. A failure of the request ends the wait too, and is
/// returned as it came. An operation that is not done asks for a pause of
/// [`POLL_INTERVAL_MILLIS`] and another request.
pub fn wait<E>(response: Result<Operation, E>) -> (poll: Poll<E>)
    ensures
        poll == poll_of(response),
{
    match response {
        Ok(operation) => {
            if operation.done {
                Poll::Finished(Ok(operation))
            } else {
                Poll::SleepThenGet(POLL_INTERVAL_MILLIS)
            }
        },
        Err(error) => Poll::Finished(Err(error)),
    }
}

/// A wait that gets the answers `responses`, in this order, stops at the
/// first that ends it: before that one it only pauses, each time for
/// [`POLL_INTERVAL_MILLIS`], and what it returns is that answer and no
/// other.
pub proof fn law_wait_returns_first_end<E>(responses: Seq<Result<Operation, E>>)
    ensures
        answers_before_end(responses) <= responses.len(),
        forall|i: int|
            0 <= i < answers_before_end(responses) ==> #[trigger] poll_of(responses[i])
                == Poll::<E>::SleepThenGet(POLL_INTERVAL_MILLIS),
        answers_before_end(responses) < responses.len() ==> poll_of(
            responses[answers_before_end(responses) as int],
        ) == Poll::Finished(responses[answers_before_end(responses) as int]),
    decreases responses.len(),
{
    if responses.len() > 0 && !ends_wait(responses[0]) {
        let rest = responses.drop_first();
        law_wait_returns_first_end(rest);
        assert forall|i: int| 0 <= i < answers_before_end(responses) implies #[trigger] poll_of(
            responses[i],
        ) == Poll::<E>::SleepThenGet(POLL_INTERVAL_MILLIS) by {
            if i > 0 {
                assert(responses[i] == rest[i - 1]);
            }
        }
        if answers_before_end(responses) < responses.len() {
            assert(responses[answers_before_end(responses) as int] == rest[answers_before_end(
                rest,
            ) as int]);
        }
    }
}

} // verus!
