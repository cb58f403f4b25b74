//! Server-sent events of `axum`.
use axum::response::sse::Event;
use vstd::prelude::*;

verus! {

/// A server-sent event of `axum`; Verus sees nothing inside it but what
/// `sse_fields` says.
#[verifier::external_type_specification]
#[verifier::external_body]
pub struct ExEvent(axum::response::sse::Event);

/// A field of a server-sent event: its name, or its data.
pub ghost enum SseField {
    Event,
    Data,
}

/// The fields that were set on a server-sent event.
pub uninterp spec fn sse_fields(event: Event) -> Map<SseField, Seq<char>>;

/// The text fits on one line.
pub open spec fn single_line(text: Seq<char>) -> bool {
    forall|i: int| 0 <= i < text.len() ==> text[i] != '\n' && text[i] != '\r'
}

/// `Event::default`: nothing is set.
#[verifier::external_body]
pub(crate) fn sse_new() -> (event: Event)
    ensures
        (sse_fields(event) == Map::<SseField, Seq<char>>::empty()),
{
    Event::default()
}

/// `Event::event`: sets the name. It panics where a name was set before, and on
/// a name with a line break.
#[verifier::external_body]
pub(crate) fn sse_with_name(event: Event, name: &str) -> (named: Event)
    requires
        !sse_fields(event).contains_key(SseField::Event),
        single_line(name@),
    ensures
        sse_fields(named) == sse_fields(event).insert(SseField::Event, name@),
{
    event.event(name)
}

/// `Event::data`: sets the data; empty data sets nothing. It panics where data
/// was set before. How data of several lines is laid out on the wire is not
/// stated.
#[verifier::external_body]
pub(crate) fn sse_with_data(event: Event, data: String) -> (filled: Event)
    requires
        !sse_fields(event).contains_key(SseField::Data),
    ensures
        sse_fields(filled) == if data@.len() == 0 {
            sse_fields(event)
        } else {
            sse_fields(event).insert(SseField::Data, data@)
        },
{
    event.data(data)
}

} // verus!
