//! The channel on which the events of a running response arrive.
use crate::claude::StreamEvent;
use std::sync::Arc;
use vstd::prelude::*;

verus! {

/// The receiving half of an unbounded channel of `tokio`.
#[verifier::external_type_specification]
#[verifier::external_body]
#[verifier::reject_recursive_types(T)]
pub struct ExUnboundedReceiver<T>(tokio::sync::mpsc::UnboundedReceiver<T>);

/// The asynchronous mutex of `tokio`.
#[verifier::external_type_specification]
#[verifier::external_body]
#[verifier::reject_recursive_types(T)]
pub struct ExMutex<T: ?Sized>(tokio::sync::Mutex<T>);

/// The receiver of a response's events, shared between the response that reads
/// it and the session that keeps it while a tool runs.
pub type SharedEventReceiver = Arc<
    tokio::sync::Mutex<tokio::sync::mpsc::UnboundedReceiver<StreamEvent>>,
>;

/// What a receiver has answered so far each time that it was asked for an event
/// that has already arrived: the event, or `None` where none waited.
pub uninterp spec fn answers(
    receiver: tokio::sync::mpsc::UnboundedReceiver<StreamEvent>,
) -> Seq<Option<StreamEvent>>;

/// `UnboundedReceiver::try_recv`: an event that has already arrived, `None` where
/// none waits. The answer is handed back as it is and becomes the last of the
/// answers. Which event it is, if any, is not stated: it is what the sending task
/// put into the channel by then.
#[verifier::external_body]
pub(crate) fn try_next(receiver: &mut tokio::sync::mpsc::UnboundedReceiver<StreamEvent>) -> (event:
    Option<StreamEvent>)
    ensures
        answers(*final(receiver)) == answers(*old(receiver)).push(event),
{
    receiver.try_recv().ok()
}

} // verus!
