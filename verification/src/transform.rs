//! How a response of the web endpoint becomes a response for the client.
use crate::channel::SharedEventReceiver;
use crate::claude::{
    ContentBlock, CreateMessageResponse, MessageStartContent, MessageStartView, ParamsView, Role,
    StreamEvent, Usage,
};
use crate::count::{
    carries_cookie, count_code_output_tokens_for_text, counted_params, text_count_params,
    CountRequest,
};
use crate::endpoint::{
    describe_parse_error, join_url, joined_view, parse_error_text, url_join,
};
use crate::error::{ClewdrError, ErrorView};
use crate::ident::is_uuid_text;
use crate::json::{
    json_array, json_object, json_shape, json_string, object_of, text_member, JsonShape,
};
use crate::session::{unindex_all, SessionManager, SessionView, Sessions};
use crate::session_laws::{
    law_complete_undoes_pause, law_pause_then_resume, law_sweep_drops_expired,
    law_what_a_sweep_keeps,
};
use crate::state::{ClaudeWebState, StateView};
use crate::text::opt_text;
use crate::tool_stream::{
    collect, events_in, law_collect_loses_nothing, tools_in, Collector, ToolStreamCollector,
    ToolStreamInput, ToolStreamPhase,
};
use serde_json::Value;
use url::ParseError;
use vstd::prelude::*;
use vstd::string::StringExecFns;

verus! {

/// How a response is handled: streamed with an eye on tools, streamed as it is,
/// or read to its end.
#[derive(Debug, Clone, Copy, PartialEq, Eq, Structural)]
pub enum ResponseRoute {
    StreamWithTools,
    StreamSimple,
    Collect,
}

/// The counts that are wanted for a response that was read to its end.
#[derive(Debug)]
pub struct CountPlan {
    pub input: Option<CountRequest>,
    pub output: Option<CountRequest>,
}

/// A response that was read to its end, and what it adds to the totals.
#[derive(Debug)]
pub struct FinishedResponse {
    pub response: CreateMessageResponse,
    pub input_total: u64,
    pub output_total: u64,
}

impl<T> ClaudeWebState<T> {
    /// Decides how a response is handled: streamed where the client wants a
    /// stream, and with an eye on tools where it brought some.
    pub fn transform_response_with_opts(&self, has_tools: bool) -> (route: ResponseRoute)
        ensures
            route == if !self@.stream {
                ResponseRoute::Collect
            } else if has_tools {
                ResponseRoute::StreamWithTools
            } else {
                ResponseRoute::StreamSimple
            },
            route == route_of(self@.stream, has_tools),
    {
        if self.stream {
            if has_tools {
                return ResponseRoute::StreamWithTools;
            }
            return ResponseRoute::StreamSimple;
        }
        ResponseRoute::Collect
    }

    /// The counts that are wanted for a response with this text: none unless
    /// counts are to be precise; then those of the request, and those of the text
    /// where the model is known.
    pub fn count_plan(&self, enable_precise: bool, text: &str) -> (plan: CountPlan)
        ensures
            plan.input is Some <==> enable_precise && self@.cookie is Some
                && self@.last_params is Some,
            plan.input is Some ==> {
                &&& carries_cookie(plan.input->0.cookie_header, self@.cookie)
                &&& plan.input->0.body@ == (ParamsView {
                    stream: Some(false),
                    ..self@.last_params->0
                })
                &&& plan.input->0.body@ == counted_params(self@.last_params->0)
            },
            plan.output is Some <==> enable_precise && self@.last_params is Some,
            plan.output is Some ==> {
                &&& carries_cookie(plan.output->0.cookie_header, self@.cookie)
                &&& plan.output->0.body@ == text_count_params(self@.last_params->0.model, text@)
            },
    {
        if !enable_precise {
            return CountPlan { input: None, output: None };
        }
        let output = match &self.last_params {
            Some(params) => Some(
                count_code_output_tokens_for_text(
                    &self.cookie,
                    params.model.clone(),
                    text.to_owned(),
                ),
            ),
            None => None,
        };
        CountPlan { input: self.try_code_count_tokens(), output }
    }

    /// Builds the response out of its text. Counts that came back replace what
    /// was known of the request and what was estimated for the text.
    pub fn finish_response(
        &self,
        text: String,
        estimated_output: u32,
        counted_input: Option<u32>,
        counted_output: Option<u32>,
    ) -> (finished: FinishedResponse)
        ensures
            finished.response.role == Role::Assistant,
            finished.response.content@ == seq![ContentBlock::Text { text, extra: None }],
            finished.response.model@ == Seq::<char>::empty(),
            finished.response.usage == Some(
                Usage {
                    input_tokens: match counted_input {
                        Some(n) => n,
                        None => self@.usage.input_tokens,
                    },
                    output_tokens: match counted_output {
                        Some(n) => n,
                        None => estimated_output,
                    },
                },
            ),
            finished.response.usage == Some(
                finished_usage(self@.usage, estimated_output, counted_input, counted_output),
            ),
            finished.input_total == finished.response.usage->0.input_tokens,
            finished.output_total == finished.response.usage->0.output_tokens,
    {
        let mut response = CreateMessageResponse::text(text, String::new(), self.usage);
        let mut usage = self.usage;
        if let Some(input_tokens) = counted_input {
            usage.input_tokens = input_tokens;
        }
        let mut output_tokens: u32 = estimated_output;
        if let Some(counted) = counted_output {
            output_tokens = counted;
        }
        usage.output_tokens = output_tokens;
        response.usage = Some(usage);
        FinishedResponse {
            response,
            input_total: usage.input_tokens as u64,
            output_total: output_tokens as u64,
        }
    }

    /// Ends a stream that was collected with an eye on tools: where the model
    /// waits for a tool the conversation is paused together with the opening of its
    /// message, which gets a fresh random identifier. Either way the events for the
    /// client are handed back.
    pub fn transform_stream_with_tools(
        &self,
        sessions: &mut SessionManager<T>,
        collector: ToolStreamCollector,
        event_rx: SharedEventReceiver,
        now: u128,
    ) -> (events: Vec<StreamEvent>)
        requires
            old(sessions).wf(),
        ensures
            final(sessions).wf(),
            events@ == collector@.events,
            !collector@.pauses() ==> final(sessions)@ == old(sessions)@,
            collector@.pauses() ==> exists|conv: Seq<char>, uuid: Seq<char>|
                {
                    &&& keeps_under(self@, conv)
                    &&& is_uuid_text(uuid)
                    &&& final(sessions)@ == #[trigger] old(sessions)@.paused(
                        conv,
                        stream_session(
                            self@,
                            self@.message_start(uuid),
                            collector@,
                            event_rx,
                            now,
                        ),
                    )
                    &&& final(sessions)@.sessions.contains_key(conv)
                    &&& final(sessions)@.sessions[conv].created_at == now
                    &&& final(sessions)@.sessions[conv].state == self@
                },
    {
        let message_start = self.message_start();
        let ghost opening = message_start@;
        let events = self.end_stream(sessions, collector, message_start, event_rx, now);
        proof {
            let uuid = choose|uuid: Seq<char>|
                is_uuid_text(uuid) && opening == #[trigger] self@.message_start(uuid);
            if collector@.pauses() {
                let conv = choose|conv: Seq<char>|
                    {
                        &&& keeps_under(self@, conv)
                        &&& sessions@ == #[trigger] old(sessions)@.paused(
                            conv,
                            stream_session(self@, opening, collector@, event_rx, now),
                        )
                    };
                assert(sessions@ == old(sessions)@.paused(
                    conv,
                    stream_session(self@, self@.message_start(uuid), collector@, event_rx, now),
                ));
            }
        }
        events
    }

    /// Ends a stream that was collected with an eye on tools and whose message
    /// opens with `message_start`.
    pub fn end_stream(
        &self,
        sessions: &mut SessionManager<T>,
        collector: ToolStreamCollector,
        message_start: MessageStartContent,
        event_rx: SharedEventReceiver,
        now: u128,
    ) -> (events: Vec<StreamEvent>)
        requires
            old(sessions).wf(),
        ensures
            final(sessions).wf(),
            events@ == collector@.events,
            !collector@.pauses() ==> final(sessions)@ == old(sessions)@,
            collector@.pauses() ==> exists|conv: Seq<char>|
                {
                    &&& keeps_under(self@, conv)
                    &&& final(sessions)@ == #[trigger] old(sessions)@.paused(
                        conv,
                        stream_session(self@, message_start@, collector@, event_rx, now),
                    )
                    &&& final(sessions)@.sessions.contains_key(conv)
                    &&& final(sessions)@.sessions[conv].created_at == now
                    &&& final(sessions)@.sessions[conv].state == self@
                },
    {
        let pauses = collector.pauses();
        let (events, tool_use_ids) = collector.into_parts();
        if pauses {
            let conv = sessions.pause(self.clone(), message_start, event_rx, tool_use_ids, now);
            assert(sessions@ == old(sessions)@.paused(
                conv@,
                stream_session(self@, message_start@, collector@, event_rx, now),
            ));
        }
        events
    }
}

/// A conversation in this state is kept under `conv` when it is paused: under its
/// own identifier, or under a random one where it has none.
pub open spec fn keeps_under<T>(state: StateView<T>, conv: Seq<char>) -> bool {
    match state.conv_uuid {
        Some(own) => conv == own,
        None => is_uuid_text(conv),
    }
}

/// What is kept of a stream that is paused at the time `now`.
pub open spec fn stream_session<T>(
    state: StateView<T>,
    message_start: MessageStartView,
    collector: Collector,
    event_rx: SharedEventReceiver,
    now: u128,
) -> SessionView<T> {
    SessionView {
        state,
        message_start,
        event_rx: Some(event_rx),
        tool_use_ids: collector.tool_use_ids,
        created_at: now,
    }
}

/// The result of a tool on its way to the upstream, and the event with which the
/// answer to the client opens.
#[derive(Debug)]
pub struct ToolResultCall {
    pub url: String,
    pub body: Value,
    pub opening: StreamEvent,
}

/// What follows when the upstream has seen the result of a tool: its events go to
/// the client, or its refusal is looked into.
#[derive(Debug, Clone, Copy, PartialEq, Eq, Structural)]
pub enum ToolResultReply {
    Relay,
    Refused,
}

/// The path under which a conversation takes the result of a tool.
pub open spec fn tool_result_path(org: Seq<char>, conv: Seq<char>) -> Seq<char> {
    "api/organizations/"@ + org + "/chat_conversations/"@ + conv + "/tool_result"@
}

/// `{"type": "text", "text": <content>}`
pub open spec fn is_text_block_json(value: Value, content: Seq<char>) -> bool {
    match json_shape(value) {
        JsonShape::Object(members) => {
            &&& members.dom() == set!["type"@, "text"@]
            &&& json_shape(members["type"@]) == JsonShape::Text("text"@)
            &&& json_shape(members["text"@]) == JsonShape::Text(content)
        },
        _ => false,
    }
}

/// `{"tool_use_id": <id>, "content": [{"type": "text", "text": <content>}]}`
pub open spec fn is_tool_result_body(value: Value, id: Seq<char>, content: Seq<char>) -> bool {
    match json_shape(value) {
        JsonShape::Object(members) => {
            &&& members.dom() == set!["tool_use_id"@, "content"@]
            &&& json_shape(members["tool_use_id"@]) == JsonShape::Text(id)
            &&& match json_shape(members["content"@]) {
                JsonShape::Array(items) => items.len() == 1 && is_text_block_json(
                    items[0],
                    content,
                ),
                _ => false,
            }
        },
        _ => false,
    }
}

fn tool_result_body(tool_use_id: &str, content: &str) -> (body: Value)
    ensures
        is_tool_result_body(body, tool_use_id@, content@),
{
    proof {
        reveal_strlit("type");
        reveal_strlit("text");
        reveal_strlit("tool_use_id");
        reveal_strlit("content");
        assert("type"@[1] != "text"@[1]);
        assert("tool_use_id"@.len() != "content"@.len());
    }
    let mut block: Vec<(String, Value)> = Vec::new();
    let kind = json_string("text".to_owned());
    let text = json_string(content.to_owned());
    block.push(("type".to_owned(), kind));
    block.push(("text".to_owned(), text));
    proof {
        reveal_with_fuel(object_of, 3);
        assert(block@.drop_last().drop_last() =~= Seq::<(String, Value)>::empty());
        assert(object_of(block@).dom() =~= set!["type"@, "text"@]);
    }
    let block = json_object(block);
    assert(is_text_block_json(block, content@));
    let mut items: Vec<Value> = Vec::new();
    items.push(block);
    let mut members: Vec<(String, Value)> = Vec::new();
    let id = json_string(tool_use_id.to_owned());
    let list = json_array(items);
    members.push(("tool_use_id".to_owned(), id));
    members.push(("content".to_owned(), list));
    proof {
        assert(members@.drop_last().drop_last() =~= Seq::<(String, Value)>::empty());
        assert(object_of(members@).dom() =~= set!["tool_use_id"@, "content"@]);
    }
    json_object(members)
}

/// Where the result of a tool goes in this state of a conversation; the error
/// where it can go nowhere.
pub open spec fn tool_result_target<T>(state: StateView<T>) -> Result<Seq<char>, ErrorView> {
    match (state.org_uuid, state.conv_uuid) {
        (None, _) => Err(ErrorView::UnexpectedNone("Organization UUID is not set"@)),
        (Some(_), None) => Err(ErrorView::UnexpectedNone("Conversation UUID is not set"@)),
        (Some(org), Some(conv)) => joined_target(
            url_join(state.endpoint, tool_result_path(org, conv)),
        ),
    }
}

/// Where the result of a tool goes when an address was made, or was not.
pub open spec fn joined_target(joined: Result<Seq<char>, ParseError>) -> Result<Seq<char>, ErrorView> {
    match joined {
        Ok(url) => Ok(url),
        Err(error) => Err(
            ErrorView::Whatever {
                message: "Parse URL error: "@ + parse_error_text(error),
                source: Some(error),
            },
        ),
    }
}

/// The call carries this result of a tool to `url` and opens with the message.
pub open spec fn is_call(
    call: ToolResultCall,
    url: Seq<char>,
    id: Seq<char>,
    content: Seq<char>,
    message_start: MessageStartView,
) -> bool {
    &&& call.url@ == url
    &&& is_tool_result_body(call.body, id, content)
    &&& match call.opening {
        StreamEvent::MessageStart { message } => message@ == message_start,
        _ => false,
    }
}

/// Prepares the result of a tool for an address that was made, or was not.
pub fn tool_result_call(
    joined: Result<String, ParseError>,
    tool_use_id: &str,
    content: &str,
    message_start: MessageStartContent,
) -> (call: Result<ToolResultCall, ClewdrError>)
    ensures
        match joined_target(joined_view(joined)) {
            Ok(url) => call is Ok && is_call(
                call->Ok_0,
                url,
                tool_use_id@,
                content@,
                message_start@,
            ),
            Err(error) => call is Err && call->Err_0@ == error,
        },
        call is Ok <==> joined is Ok,
        call is Ok ==> (call->Ok_0.opening matches StreamEvent::MessageStart { message }
            && message@ == message_start@),
        call is Ok ==> call->Ok_0.url@ == joined->Ok_0@,
{
    match joined {
        Ok(url) => Ok(
            ToolResultCall {
                url,
                body: tool_result_body(tool_use_id, content),
                opening: StreamEvent::MessageStart { message: message_start },
            },
        ),
        Err(error) => Err(
            ClewdrError::Whatever {
                message: "Parse URL error: ".to_owned().concat(
                    describe_parse_error(&error).as_str(),
                ),
                source: Some(error),
            },
        ),
    }
}

impl<T> ClaudeWebState<T> {
    /// Takes up the conversation that waits for the result of this tool call, and
    /// prepares the result for the upstream. The state becomes that of the paused
    /// conversation even where the result can then go nowhere; it stays as it is
    /// where no conversation waits.
    pub fn resume_after_tool_result(
        &mut self,
        sessions: &mut SessionManager<T>,
        tool_use_id: &str,
        tool_result_content: &str,
    ) -> (call: Result<ToolResultCall, ClewdrError>)
        requires
            old(sessions).wf(),
        ensures
            final(sessions).wf(),
            final(sessions)@ == old(sessions)@.resumed(tool_use_id@),
            !old(sessions)@.resumable(tool_use_id@) ==> {
                &&& final(self)@ == old(self)@
                &&& call is Err
                &&& call->Err_0@ == ErrorView::BadRequest(
                    "No pending tool call found for this tool_use_id"@,
                )
            },
            old(sessions)@.resumable(tool_use_id@) ==> {
                let session = old(sessions)@.session_of(tool_use_id@);
                &&& final(self)@ == session.state
                &&& match tool_result_target(session.state) {
                    Ok(url) => call is Ok && is_call(
                        call->Ok_0,
                        url,
                        tool_use_id@,
                        tool_result_content@,
                        session.message_start,
                    ),
                    Err(error) => call is Err && call->Err_0@ == error,
                }
            },
            call is Ok ==> old(sessions)@.resumable(tool_use_id@),
            call is Ok ==> (call->Ok_0.opening matches StreamEvent::MessageStart { message }
                && message@ == old(sessions)@.session_of(tool_use_id@).message_start),
    {
        let (state, message_start) = match sessions.resume_by_tool_id(tool_use_id) {
            Some((state, message_start, _event_rx)) => (state, message_start),
            None => {
                return Err(
                    ClewdrError::BadRequest {
                        msg: "No pending tool call found for this tool_use_id",
                    },
                );
            },
        };
        *self = state;
        let org_uuid: String = match &self.org_uuid {
            Some(org_uuid) => org_uuid.clone(),
            None => {
                return Err(ClewdrError::UnexpectedNone { msg: "Organization UUID is not set" });
            },
        };
        let conv_uuid: String = match &self.conv_uuid {
            Some(conv_uuid) => conv_uuid.clone(),
            None => {
                return Err(ClewdrError::UnexpectedNone { msg: "Conversation UUID is not set" });
            },
        };
        let path: String = "api/organizations/".to_owned().concat(org_uuid.as_str()).concat(
            "/chat_conversations/",
        ).concat(conv_uuid.as_str()).concat("/tool_result");
        assert(path@ == tool_result_path(org_uuid@, conv_uuid@));
        let joined = join_url(self.endpoint.as_str(), path.as_str());
        tool_result_call(joined, tool_use_id, tool_result_content, message_start)
    }

    /// Decides what follows when the upstream has answered the result of a tool.
    /// Where it took the result the paused conversation is done with.
    pub fn settle_tool_result(&self, sessions: &mut SessionManager<T>, success: bool) -> (reply:
        ToolResultReply)
        requires
            old(sessions).wf(),
        ensures
            final(sessions).wf(),
            reply == if success {
                ToolResultReply::Relay
            } else {
                ToolResultReply::Refused
            },
            final(sessions)@ == match self@.conv_uuid {
                Some(conv) if success => old(sessions)@.completed(conv),
                _ => old(sessions)@,
            },
            final(sessions)@ == settled(old(sessions)@, self@.conv_uuid, success),
    {
        if !success {
            return ToolResultReply::Refused;
        }
        if let Some(conv_uuid) = &self.conv_uuid {
            sessions.complete(conv_uuid.as_str());
        }
        ToolResultReply::Relay
    }
}

/// The round trip of a tool call: a conversation that pauses for new tool calls
/// is taken up by any of them with the state and the message it was paused with,
/// and once the upstream took the result nothing of it is left.
pub proof fn law_tool_round_trip<T>(
    s: Sessions<T>,
    session: SessionView<T>,
    conv: Seq<char>,
    id: Seq<char>,
)
    requires
        session.state.conv_uuid == Some(conv),
        session.event_rx is Some,
        session.tool_use_ids.contains(id),
        !s.sessions.contains_key(conv),
        forall|t: Seq<char>| #[trigger]
            session.tool_use_ids.contains(t) ==> !s.tool_index.contains_key(t),
    ensures
        s.paused(conv, session).resumable(id),
        s.paused(conv, session).session_of(id).state == session.state,
        s.paused(conv, session).session_of(id).message_start == session.message_start,
        s.paused(conv, session).resumed(id).completed(conv) == s,
{
    law_pause_then_resume(s, conv, session, id);
    law_complete_undoes_pause(s, conv, session, id);
}

/// Once the upstream took the result of a tool, nothing is left of the session
/// that it resumed, whatever else is paused: the session is gone, no tool call
/// that it named is known any more, no tool call that led to it resumes anything,
/// and everything else is as it was.
pub proof fn law_answered_session_is_gone<T>(s: Sessions<T>, id: Seq<char>, other: Seq<char>)
    requires
        s.keyed(),
        s.resumable(id),
        s.session_of(id).state.conv_uuid is Some,
    ensures
        ({
            let session = s.session_of(id);
            let conv = session.state.conv_uuid->0;
            let after = s.resumed(id).completed(conv);
            &&& after.sessions == s.sessions.remove(s.tool_index[id])
            &&& after.tool_index == unindex_all(s.tool_index, session.tool_use_ids)
            &&& !after.resumable(id)
            &&& session.tool_use_ids.contains(other) ==> !after.tool_index.contains_key(other)
            &&& s.tool_index.contains_key(other) && s.tool_index[other] == s.tool_index[id]
                ==> !after.resumable(other)
            &&& s.tool_index.contains_key(other) && s.tool_index[other] != s.tool_index[id]
                && !session.tool_use_ids.contains(other) ==> {
                &&& after.resumable(other) == s.resumable(other)
                &&& s.resumable(other) ==> after.session_of(other) == s.session_of(other)
            }
        }),
{
    let session = s.session_of(id);
    let conv = s.tool_index[id];
    assert(session.fits(conv));
    let after = s.resumed(id).completed(conv);
    assert(after.sessions =~= s.sessions.remove(conv));
    assert(after.tool_index =~= unindex_all(s.tool_index, session.tool_use_ids));
}

/// When a stream is paused, every tool call that its events opened before it
/// stopped takes it up again, and every other tool call that led nowhere before
/// still leads nowhere.
pub proof fn law_opened_tools_resume<T>(
    s: Sessions<T>,
    conv: Seq<char>,
    session: SessionView<T>,
    inputs: Seq<ToolStreamInput>,
    id: Seq<char>,
)
    requires
        inputs.len() > 0 ==> collect(inputs.drop_last()).phase == ToolStreamPhase::Collecting,
        session.tool_use_ids == collect(inputs).tool_use_ids,
        session.event_rx is Some,
    ensures
        tools_in(events_in(inputs)).contains(id) ==> {
            &&& s.paused(conv, session).resumable(id)
            &&& s.paused(conv, session).session_of(id) == session
        },
        !tools_in(events_in(inputs)).contains(id) && !s.tool_index.contains_key(id) ==> !s.paused(
            conv,
            session,
        ).resumable(id),
{
    law_collect_loses_nothing(inputs);
    if session.tool_use_ids.contains(id) {
        law_pause_then_resume(s, conv, session, id);
    }
}

/// A conversation without an identifier can be paused, but the result of a tool
/// can never be sent for it.
pub proof fn law_unnamed_conversation_cannot_go_on<T>(state: StateView<T>)
    requires
        state.conv_uuid is None,
    ensures
        tool_result_target(state) is Err,
        tool_result_target(state)->Err_0 is UnexpectedNone,
{
}

/// The call for the result of a tool goes to the given address and opens the
/// answer with the given message, the same in every field.
pub proof fn law_call_opens_with_the_message(
    call: ToolResultCall,
    url: Seq<char>,
    id: Seq<char>,
    content: Seq<char>,
    message_start: MessageStartView,
)
    requires
        is_call(call, url, id, content, message_start),
    ensures
        call.url@ == url,
        is_tool_result_body(call.body, id, content),
        call.opening matches StreamEvent::MessageStart { message } && {
            &&& message.id@ == message_start.id
            &&& message.type_@ == message_start.type_
            &&& message.role == message_start.role
            &&& message.content@ == message_start.content
            &&& message.model@ == message_start.model
            &&& message.stop_reason == message_start.stop_reason
            &&& opt_text(message.stop_sequence) == message_start.stop_sequence
            &&& message.usage == message_start.usage
        },
{
}

/// The body for the result of a tool names the tool call and holds the result as
/// its one block of text, and nothing else.
pub proof fn law_body_carries_the_result(
    body: Value,
    id: Seq<char>,
    content: Seq<char>,
    key: Seq<char>,
)
    requires
        is_tool_result_body(body, id, content),
    ensures
        text_member(body, "tool_use_id"@) == Some(id),
        key != "tool_use_id"@ && key != "content"@ ==> json_shape(body).member(key) is None,
        json_shape(body).member("content"@) matches Some(list) && {
            json_shape(list) matches JsonShape::Array(items) && {
                &&& items.len() == 1
                &&& text_member(items[0], "type"@) == Some("text"@)
                &&& text_member(items[0], "text"@) == Some(content)
                &&& key != "type"@ && key != "text"@ ==> json_shape(items[0]).member(key) is None
            }
        },
{
    match json_shape(body) {
        JsonShape::Object(members) => {
            assert(members.dom().contains("tool_use_id"@));
            assert(members.dom().contains("content"@));
            if key != "tool_use_id"@ && key != "content"@ {
                assert(!members.dom().contains(key));
            }
            match json_shape(members["content"@]) {
                JsonShape::Array(items) => {
                    match json_shape(items[0]) {
                        JsonShape::Object(block) => {
                            assert(block.dom().contains("type"@));
                            assert(block.dom().contains("text"@));
                            if key != "type"@ && key != "text"@ {
                                assert(!block.dom().contains(key));
                            }
                        },
                        _ => {},
                    }
                },
                _ => {},
            }
        },
        _ => {},
    }
}

/// The result of a tool goes to the conversation under its organization at the
/// endpoint of the state. It goes nowhere exactly where the organization or the
/// conversation is unknown, or no address can be made; the first of these that
/// holds is the error.
pub proof fn law_where_a_result_goes<T>(state: StateView<T>)
    ensures
        state.org_uuid is None ==> tool_result_target(state) == Err::<Seq<char>, ErrorView>(
            ErrorView::UnexpectedNone("Organization UUID is not set"@),
        ),
        state.org_uuid is Some && state.conv_uuid is None ==> tool_result_target(state) == Err::<
            Seq<char>,
            ErrorView,
        >(ErrorView::UnexpectedNone("Conversation UUID is not set"@)),
        state.org_uuid is Some && state.conv_uuid is Some ==> match url_join(
            state.endpoint,
            "api/organizations/"@ + state.org_uuid->0 + "/chat_conversations/"@ + state.conv_uuid->0
                + "/tool_result"@,
        ) {
            Ok(url) => tool_result_target(state) == Ok::<Seq<char>, ErrorView>(url),
            Err(error) => tool_result_target(state) matches Err(
                ErrorView::Whatever { message, source },
            ) && message == "Parse URL error: "@ + parse_error_text(error) && source == Some(error),
        },
{
}

/// What is kept of a paused stream is its state, its opening, the tool calls that
/// it opened, its events and the time of the pause.
pub proof fn law_what_is_kept_of_a_stream<T>(
    state: StateView<T>,
    message_start: MessageStartView,
    collector: Collector,
    event_rx: SharedEventReceiver,
    now: u128,
)
    ensures
        ({
            let session = stream_session(state, message_start, collector, event_rx, now);
            &&& session.state == state
            &&& session.message_start == message_start
            &&& session.tool_use_ids == collector.tool_use_ids
            &&& session.event_rx == Some(event_rx)
            &&& session.created_at == now
        }),
        state.conv_uuid matches Some(own) ==> forall|conv: Seq<char>| #[trigger]
            keeps_under(state, conv) <==> conv == own,
        state.conv_uuid is None ==> forall|conv: Seq<char>| #[trigger]
            keeps_under(state, conv) <==> is_uuid_text(conv),
{
}

/// A stream that is paused survives every sweep up to five minutes later, and its
/// tool calls that no other session names still take it up then. Every later sweep
/// drops it, and its tool calls take up nothing.
pub proof fn law_a_paused_stream_waits_five_minutes<T>(
    s: Sessions<T>,
    conv: Seq<char>,
    state: StateView<T>,
    message_start: MessageStartView,
    collector: Collector,
    event_rx: SharedEventReceiver,
    now: u128,
    later: u128,
    id: Seq<char>,
)
    requires
        now <= later,
    ensures
        ({
            let session = stream_session(state, message_start, collector, event_rx, now);
            let swept = s.paused(conv, session).swept(later);
            &&& later <= now + 300_000_000_000 ==> {
                &&& swept.sessions.contains_key(conv)
                &&& swept.sessions[conv] == session
                &&& collector.tool_use_ids.contains(id) && (forall|other: Seq<char>| #[trigger]
                    s.sessions.contains_key(other) && other != conv
                        ==> !s.sessions[other].tool_use_ids.contains(id)) ==> {
                    &&& swept.resumable(id)
                    &&& swept.session_of(id) == session
                }
            }
            &&& later > now + 300_000_000_000 ==> {
                &&& !swept.sessions.contains_key(conv)
                &&& collector.tool_use_ids.contains(id) ==> !swept.resumable(id)
            }
        }),
{
    let session = stream_session(state, message_start, collector, event_rx, now);
    let there = s.paused(conv, session);
    law_what_a_sweep_keeps(there, later, conv, id);
    if later > now + 300_000_000_000 {
        if collector.tool_use_ids.contains(id) {
            assert(there.expired_at(conv, later));
            law_sweep_drops_expired(there, later, conv, id);
        }
    } else if collector.tool_use_ids.contains(id) && (forall|other: Seq<char>| #[trigger]
        s.sessions.contains_key(other) && other != conv
            ==> !s.sessions[other].tool_use_ids.contains(id)) {
        assert forall|old: Seq<char>| #[trigger]
            there.sessions.contains_key(old) && there.sessions[old].tool_use_ids.contains(
                id,
            ) implies later <= there.sessions[old].created_at + 300_000_000_000 by {
            if old != conv {
                assert(s.sessions.contains_key(old));
            }
        }
    }
}

/// How a response is handled for a client that wants a stream or not, and brought
/// tools or not.
pub open spec fn route_of(stream: bool, has_tools: bool) -> ResponseRoute {
    match (stream, has_tools) {
        (true, true) => ResponseRoute::StreamWithTools,
        (true, false) => ResponseRoute::StreamSimple,
        (false, _) => ResponseRoute::Collect,
    }
}

/// A response is read to its end exactly where the client wants no stream, and
/// watched for tools exactly where it wants a stream and brought some.
pub proof fn law_how_a_response_is_routed(stream: bool, has_tools: bool)
    ensures
        route_of(stream, has_tools) == ResponseRoute::Collect <==> !stream,
        route_of(stream, has_tools) == ResponseRoute::StreamWithTools <==> stream && has_tools,
        route_of(stream, has_tools) == ResponseRoute::StreamSimple <==> stream && !has_tools,
{
}

/// The usage of a response: what was counted, else what was known of the request
/// and what was estimated for the text.
pub open spec fn finished_usage(
    known: Usage,
    estimated_output: u32,
    counted_input: Option<u32>,
    counted_output: Option<u32>,
) -> Usage {
    Usage {
        input_tokens: if counted_input is Some {
            counted_input->0
        } else {
            known.input_tokens
        },
        output_tokens: if counted_output is Some {
            counted_output->0
        } else {
            estimated_output
        },
    }
}

/// A count that came back is taken as it is, whatever was known or estimated, and
/// each of the two without regard to the other. The output that was known before
/// never counts.
pub proof fn law_counts_replace_what_was_known(
    known: Usage,
    estimated_output: u32,
    counted_input: Option<u32>,
    counted_output: Option<u32>,
)
    ensures
        ({
            let usage = finished_usage(known, estimated_output, counted_input, counted_output);
            &&& counted_input matches Some(n) ==> usage.input_tokens == n
            &&& counted_input is None ==> usage.input_tokens == known.input_tokens
            &&& counted_output matches Some(n) ==> usage.output_tokens == n
            &&& counted_output is None ==> usage.output_tokens == estimated_output
        }),
{
}

/// The paused sessions after the upstream answered the result of a tool for a
/// conversation.
pub open spec fn settled<T>(s: Sessions<T>, conv: Option<Seq<char>>, success: bool) -> Sessions<T> {
    if success && conv is Some {
        s.completed(conv->0)
    } else {
        s
    }
}

/// A result that was taken ends the session of its conversation and no other; one
/// that was refused changes nothing.
pub proof fn law_what_an_answer_settles<T>(
    s: Sessions<T>,
    conv: Option<Seq<char>>,
    success: bool,
    other: Seq<char>,
)
    ensures
        !success ==> settled(s, conv, success) == s,
        conv is None ==> settled(s, conv, success) == s,
        success && conv == Some(other) ==> !settled(s, conv, success).sessions.contains_key(other),
        conv != Some(other) ==> {
            &&& settled(s, conv, success).sessions.contains_key(other)
                == s.sessions.contains_key(other)
            &&& s.sessions.contains_key(other) ==> settled(s, conv, success).sessions[other]
                == s.sessions[other]
        },
{
}

} // verus!
