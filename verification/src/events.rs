//! Which events of an upstream stream reach the client, and in what form.
use crate::claude::{ContentBlock, StreamEvent};
use crate::sse::{single_line, sse_fields, sse_new, sse_with_data, sse_with_name, SseField};
use axum::response::sse::Event;
use vstd::prelude::*;

verus! {

/// Blocks that the client of a stream is not to see: the result of a tool, and
/// what the upstream runs on its own side.
pub open spec fn is_hidden_block(block: ContentBlock) -> bool {
    match block {
        ContentBlock::ToolResult { .. } => true,
        ContentBlock::ServerToolUse { .. } => true,
        ContentBlock::WebSearchToolResult { .. } => true,
        ContentBlock::WebFetchToolResult { .. } => true,
        ContentBlock::CodeExecutionToolResult { .. } => true,
        ContentBlock::BashCodeExecutionToolResult { .. } => true,
        ContentBlock::TextEditorCodeExecutionToolResult { .. } => true,
        ContentBlock::ToolSearchToolResult { .. } => true,
        ContentBlock::McpToolUse { .. } => true,
        ContentBlock::McpToolResult { .. } => true,
        ContentBlock::ContainerUpload { .. } => true,
        _ => false,
    }
}

/// An event reaches the client unless it opens a hidden block or is an error.
pub open spec fn passes(event: StreamEvent) -> bool {
    match event {
        StreamEvent::ContentBlockStart { content_block, .. } => !is_hidden_block(content_block),
        StreamEvent::Error { .. } => false,
        _ => true,
    }
}

/// Tells whether a block may be opened in a stream to the client.
pub fn is_valid_stream_content_block(block: &ContentBlock) -> (valid: bool)
    ensures
        valid == !is_hidden_block(*block),
{
    !matches!(
        block,
        ContentBlock::ToolResult { .. }
            | ContentBlock::ServerToolUse { .. }
            | ContentBlock::WebSearchToolResult { .. }
            | ContentBlock::WebFetchToolResult { .. }
            | ContentBlock::CodeExecutionToolResult { .. }
            | ContentBlock::BashCodeExecutionToolResult { .. }
            | ContentBlock::TextEditorCodeExecutionToolResult { .. }
            | ContentBlock::ToolSearchToolResult { .. }
            | ContentBlock::McpToolUse { .. }
            | ContentBlock::McpToolResult { .. }
            | ContentBlock::ContainerUpload { .. }
    )
}

/// Tells whether an event reaches the client.
pub fn filter_event(event: &StreamEvent) -> (keep: bool)
    ensures
        keep == passes(*event),
        !(event is ContentBlockStart) && !(event is Error) ==> keep,
        event is Error ==> !keep,
{
    match event {
        StreamEvent::ContentBlockStart { content_block, .. } => is_valid_stream_content_block(
            content_block,
        ),
        StreamEvent::Error { .. } => false,
        _ => true,
    }
}

/// The name under which an event is sent.
pub open spec fn event_name(event: StreamEvent) -> Seq<char> {
    match event {
        StreamEvent::MessageStart { .. } => "message_start"@,
        StreamEvent::ContentBlockStart { .. } => "content_block_start"@,
        StreamEvent::ContentBlockDelta { .. } => "content_block_delta"@,
        StreamEvent::ContentBlockStop { .. } => "content_block_stop"@,
        StreamEvent::MessageDelta { .. } => "message_delta"@,
        StreamEvent::MessageStop => "message_stop"@,
        StreamEvent::Ping => "ping"@,
        StreamEvent::Error { .. } => "error"@,
    }
}

fn stream_event_name(event: &StreamEvent) -> (name: &'static str)
    ensures
        name@ == event_name(*event),
        single_line(name@),
{
    proof {
        reveal_strlit("message_start");
        reveal_strlit("content_block_start");
        reveal_strlit("content_block_delta");
        reveal_strlit("content_block_stop");
        reveal_strlit("message_delta");
        reveal_strlit("message_stop");
        reveal_strlit("ping");
        reveal_strlit("error");
    }
    match event {
        StreamEvent::MessageStart { .. } => "message_start",
        StreamEvent::ContentBlockStart { .. } => "content_block_start",
        StreamEvent::ContentBlockDelta { .. } => "content_block_delta",
        StreamEvent::ContentBlockStop { .. } => "content_block_stop",
        StreamEvent::MessageDelta { .. } => "message_delta",
        StreamEvent::MessageStop => "message_stop",
        StreamEvent::Ping => "ping",
        StreamEvent::Error { .. } => "error",
    }
}

/// The fields of a server-sent event with this name and this data; empty data is
/// left out.
pub open spec fn named_fields(name: Seq<char>, data: Seq<char>) -> Map<SseField, Seq<char>> {
    if data.len() == 0 {
        map![SseField::Event => name]
    } else {
        map![SseField::Event => name, SseField::Data => data]
    }
}

/// Makes the server-sent event that carries `event`, whose serialised form is
/// `data`: the event's name and that form. Where there is no serialised form,
/// the error of the serialiser is handed on.
pub fn stream_event_to_sse<E>(event: &StreamEvent, data: Result<String, E>) -> (sse: Result<
    Event,
    E,
>)
    ensures
        match data {
            Ok(data) => sse is Ok && sse_fields(sse->Ok_0) == named_fields(
                event_name(*event),
                data@,
            ),
            Err(error) => sse == Err::<Event, E>(error),
        },
{
    match data {
        Ok(data) => Ok(sse_with_data(sse_with_name(sse_new(), stream_event_name(event)), data)),
        Err(error) => Err(error),
    }
}

/// What reading one server-sent event of the upstream gave: its data in the form
/// that was wanted, data of another form, or a broken stream with the reason.
#[derive(Debug)]
pub enum Upstream<P> {
    Parsed(P),
    Unparsed,
    Failed(String),
}

/// What happens to one event of the upstream: it is sent on, it is passed over,
/// or the stream to the client ends.
#[derive(Debug)]
pub enum Forward {
    Send(StreamEvent),
    Skip,
    Stop,
}

/// What happens to one event of the upstream.
pub open spec fn forward(item: Upstream<StreamEvent>) -> Forward {
    match item {
        Upstream::Parsed(event) => if passes(event) {
            Forward::Send(event)
        } else {
            Forward::Skip
        },
        Upstream::Unparsed => Forward::Skip,
        Upstream::Failed(_) => Forward::Stop,
    }
}

/// Decides what happens to one event of the upstream.
pub fn forward_item(item: Upstream<StreamEvent>) -> (action: Forward)
    ensures
        action == forward(item),
{
    match item {
        Upstream::Parsed(event) => if filter_event(&event) {
            Forward::Send(event)
        } else {
            Forward::Skip
        },
        Upstream::Unparsed => Forward::Skip,
        Upstream::Failed(_) => Forward::Stop,
    }
}

/// The events that reach the client when `items` are read one after another.
pub open spec fn forwarded(items: Seq<Upstream<StreamEvent>>) -> Seq<StreamEvent>
    decreases items.len(),
{
    if items.len() == 0 {
        Seq::empty()
    } else {
        match forward(items[0]) {
            Forward::Send(event) => seq![event] + forwarded(items.drop_first()),
            Forward::Skip => forwarded(items.drop_first()),
            Forward::Stop => Seq::empty(),
        }
    }
}

/// Some reading failed.
pub open spec fn some_failed<P>(items: Seq<Upstream<P>>) -> bool {
    exists|i: int| 0 <= i < items.len() && (#[trigger] items[i]) is Failed
}

/// The client sees no error and no hidden block is opened.
pub proof fn law_forwarded_passes(items: Seq<Upstream<StreamEvent>>, i: int)
    requires
        0 <= i < forwarded(items).len(),
    ensures
        passes(forwarded(items)[i]),
    decreases items.len(),
{
    let rest = items.drop_first();
    match forward(items[0]) {
        Forward::Send(event) => {
            if i > 0 {
                law_forwarded_passes(rest, i - 1);
                assert(forwarded(items)[i] == forwarded(rest)[i - 1]);
            }
        },
        Forward::Skip => {
            law_forwarded_passes(rest, i);
        },
        Forward::Stop => {},
    }
}

/// Without a failure, what is read in two parts is sent in two parts: nothing is
/// lost, added or put into another order where they meet.
pub proof fn law_forwarded_in_parts(
    first: Seq<Upstream<StreamEvent>>,
    second: Seq<Upstream<StreamEvent>>,
)
    requires
        !some_failed(first),
    ensures
        forwarded(first + second) == forwarded(first) + forwarded(second),
    decreases first.len(),
{
    let all = first + second;
    if first.len() == 0 {
        assert(all =~= second);
        assert(forwarded(first) + forwarded(second) =~= forwarded(second));
    } else {
        let rest = first.drop_first();
        assert(all.drop_first() =~= rest + second);
        assert(all[0] == first[0]);
        assert(!(first[0] is Failed));
        assert(!some_failed(rest)) by {
            if some_failed(rest) {
                let i = choose|i: int| 0 <= i < rest.len() && (#[trigger] rest[i]) is Failed;
                assert(first[i + 1] is Failed);
            }
        }
        law_forwarded_in_parts(rest, second);
        match forward(first[0]) {
            Forward::Send(event) => {
                assert(seq![event] + (forwarded(rest) + forwarded(second)) =~= (seq![event]
                    + forwarded(rest)) + forwarded(second));
            },
            _ => {},
        }
    }
}

/// Nothing that comes after a failure reaches the client.
pub proof fn law_nothing_after_failure(
    before: Seq<Upstream<StreamEvent>>,
    reason: String,
    after: Seq<Upstream<StreamEvent>>,
)
    ensures
        forwarded(before.push(Upstream::Failed(reason)) + after) == forwarded(before),
    decreases before.len(),
{
    let all = before.push(Upstream::Failed(reason)) + after;
    if before.len() == 0 {
        assert(all[0] == Upstream::<StreamEvent>::Failed(reason));
    } else {
        let rest = before.drop_first();
        assert(all[0] == before[0]);
        assert(all.drop_first() =~= rest.push(Upstream::Failed(reason)) + after);
        law_nothing_after_failure(rest, reason, after);
    }
}

/// Of a stream that is read without trouble the client sees exactly the events
/// that pass, in their order.
pub proof fn law_forwarded_is_filter(events: Seq<StreamEvent>)
    ensures
        forwarded(events.map_values(|e: StreamEvent| Upstream::Parsed(e))) == events.filter(
            |e: StreamEvent| passes(e),
        ),
    decreases events.len(),
{
    reveal(Seq::filter);
    let items = events.map_values(|e: StreamEvent| Upstream::Parsed(e));
    if events.len() > 0 {
        let shorter = events.drop_last();
        let first = shorter.map_values(|e: StreamEvent| Upstream::Parsed(e));
        let last = seq![Upstream::Parsed(events.last())];
        law_forwarded_is_filter(shorter);
        assert(items =~= first + last);
        law_forwarded_in_parts(first, last);
        assert(last.drop_first() =~= Seq::empty());
        reveal_with_fuel(forwarded, 2);
        if passes(events.last()) {
            assert(forwarded(last) =~= seq![events.last()]);
            assert(forwarded(first) + forwarded(last) =~= forwarded(first).push(events.last()));
        } else {
            assert(forwarded(last) =~= Seq::empty());
            assert(forwarded(first) + forwarded(last) =~= forwarded(first));
        }
    }
}

/// Exactly the blocks of these kinds are hidden; every other block may be opened.
pub proof fn law_which_blocks_are_hidden(block: ContentBlock)
    ensures
        is_hidden_block(block) <==> {
            ||| block is ToolResult
            ||| block is ServerToolUse
            ||| block is WebSearchToolResult
            ||| block is WebFetchToolResult
            ||| block is CodeExecutionToolResult
            ||| block is BashCodeExecutionToolResult
            ||| block is TextEditorCodeExecutionToolResult
            ||| block is ToolSearchToolResult
            ||| block is McpToolUse
            ||| block is McpToolResult
            ||| block is ContainerUpload
        },
        block is Text ==> !is_hidden_block(block),
        block is ToolUse ==> !is_hidden_block(block),
        block is Thinking ==> !is_hidden_block(block),
{
}

/// An event that neither opens a block nor is an error reaches the client; an
/// error never does; and one that opens a block does exactly where the block is
/// none of those that the upstream keeps to itself.
pub proof fn law_only_errors_and_hidden_blocks_are_dropped(event: StreamEvent)
    ensures
        !(event is ContentBlockStart) && !(event is Error) ==> passes(event),
        event is Error ==> !passes(event),
        event matches StreamEvent::ContentBlockStart { content_block, .. } ==> (passes(event) <==> {
            ||| content_block is Text
            ||| content_block is ToolUse
            ||| content_block is Image
            ||| content_block is Document
            ||| content_block is SearchResult
            ||| content_block is Thinking
            ||| content_block is RedactedThinking
        }),
{
}

/// What was read is sent on as it is or passed over, and only a failure ends the
/// stream: nothing but an error or the opening of a block can be passed over.
pub proof fn law_what_is_sent_on(item: Upstream<StreamEvent>)
    ensures
        item matches Upstream::Parsed(event) ==> {
            &&& forward(item) == Forward::Send(event) || forward(item) == Forward::Skip
            &&& !(event is ContentBlockStart) && !(event is Error) ==> forward(item)
                == Forward::Send(event)
            &&& event is Error ==> forward(item) == Forward::Skip
            &&& event matches StreamEvent::ContentBlockStart {
                content_block: ContentBlock::Text { .. },
                ..
            } ==> forward(item) == Forward::Send(event)
            &&& event matches StreamEvent::ContentBlockStart {
                content_block: ContentBlock::ToolUse { .. },
                ..
            } ==> forward(item) == Forward::Send(event)
        },
        item is Unparsed ==> forward(item) == Forward::Skip,
        forward(item) is Stop <==> item is Failed,
{
}

/// A stream of events that neither open a block nor are errors reaches the client
/// whole and unchanged, whatever lies between them that is no event at all.
pub proof fn law_plain_events_all_reach_the_client(items: Seq<Upstream<StreamEvent>>, i: int)
    requires
        0 <= i < items.len(),
        forall|k: int| 0 <= k < i ==> !((#[trigger] items[k]) is Failed),
        items[i] is Parsed,
        !(items[i]->Parsed_0 is ContentBlockStart),
        !(items[i]->Parsed_0 is Error),
    ensures
        forwarded(items).contains(items[i]->Parsed_0),
    decreases items.len(),
{
    let rest = items.drop_first();
    let event = items[i]->Parsed_0;
    if i == 0 {
        assert(forwarded(items)[0] == event);
    } else {
        assert(rest[i - 1] == items[i]);
        assert forall|k: int| 0 <= k < i - 1 implies !((#[trigger] rest[k]) is Failed) by {
            assert(rest[k] == items[k + 1]);
        }
        law_plain_events_all_reach_the_client(rest, i - 1);
        let k = choose|k: int| 0 <= k < forwarded(rest).len() && forwarded(rest)[k] == event;
        assert(!(items[0] is Failed));
        match forward(items[0]) {
            Forward::Send(first) => {
                assert(forwarded(items)[k + 1] == event);
            },
            _ => {
                assert(forwarded(items)[k] == event);
            },
        }
    }
}

/// Every event is sent under the name that the Messages API gives its kind.
pub proof fn law_names_of_events(event: StreamEvent)
    ensures
        event is MessageStart ==> event_name(event) == "message_start"@,
        event is ContentBlockStart ==> event_name(event) == "content_block_start"@,
        event is ContentBlockDelta ==> event_name(event) == "content_block_delta"@,
        event is ContentBlockStop ==> event_name(event) == "content_block_stop"@,
        event is MessageDelta ==> event_name(event) == "message_delta"@,
        event is MessageStop ==> event_name(event) == "message_stop"@,
        event is Ping ==> event_name(event) == "ping"@,
        event is Error ==> event_name(event) == "error"@,
{
}

/// A server-sent event carries its name always and its data unless that is empty,
/// both as they were given.
pub proof fn law_name_and_data_are_carried(name: Seq<char>, data: Seq<char>)
    ensures
        named_fields(name, data).contains_key(SseField::Event),
        named_fields(name, data)[SseField::Event] == name,
        named_fields(name, data).contains_key(SseField::Data) <==> data.len() > 0,
        data.len() > 0 ==> named_fields(name, data)[SseField::Data] == data,
{
}

} // verus!
