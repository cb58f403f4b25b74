//! The state of one conversation with the web endpoints.
use crate::claude::{
    opt_params, ContentBlock, CreateMessageParams, MessageStartContent, MessageStartView, ParamsView,
    Role, Usage,
};
use crate::ident::{fresh_uuid, is_uuid_text};
use crate::text::opt_text;
use std::sync::Arc;
use vstd::prelude::*;
use vstd::string::StringExecFns;

verus! {

/// `Arc::clone`: another pointer to the same allocation.
#[verifier::external_body]
pub(crate) fn share<T>(value: &Arc<T>) -> (copy: Arc<T>)
    ensures
        copy == *value,
{
    Arc::clone(value)
}

/// What the library knows of a conversation. `transport` is what the program
/// around it needs to reach the endpoints; the library only hands it on.
pub struct ClaudeWebState<T> {
    pub stream: bool,
    pub org_uuid: Option<String>,
    pub conv_uuid: Option<String>,
    pub endpoint: String,
    pub cookie: Option<String>,
    pub usage: Usage,
    pub last_params: Option<CreateMessageParams>,
    pub transport: Arc<T>,
}

/// The state of a conversation as a mathematical value.
pub ghost struct StateView<T> {
    pub stream: bool,
    pub org_uuid: Option<Seq<char>>,
    pub conv_uuid: Option<Seq<char>>,
    pub endpoint: Seq<char>,
    pub cookie: Option<Seq<char>>,
    pub usage: Usage,
    pub last_params: Option<ParamsView>,
    pub transport: Arc<T>,
}

impl<T> View for ClaudeWebState<T> {
    type V = StateView<T>;

    open spec fn view(&self) -> StateView<T> {
        StateView {
            stream: self.stream,
            org_uuid: opt_text(self.org_uuid),
            conv_uuid: opt_text(self.conv_uuid),
            endpoint: self.endpoint@,
            cookie: opt_text(self.cookie),
            usage: self.usage,
            last_params: opt_params(self.last_params),
            transport: self.transport,
        }
    }
}

impl<T> Clone for ClaudeWebState<T> {
    fn clone(&self) -> (copy: Self)
        ensures
            copy@ == self@,
    {
        let last_params = match &self.last_params {
            Some(params) => Some(params.clone()),
            None => None,
        };
        ClaudeWebState {
            stream: self.stream,
            org_uuid: self.org_uuid.clone(),
            conv_uuid: self.conv_uuid.clone(),
            endpoint: self.endpoint.clone(),
            cookie: self.cookie.clone(),
            usage: self.usage,
            last_params,
            transport: share(&self.transport),
        }
    }
}

impl<T> StateView<T> {
    /// The model of the last request, empty where there was none.
    pub open spec fn model(self) -> Seq<char> {
        match self.last_params {
            Some(params) => params.model,
            None => Seq::empty(),
        }
    }

    /// The opening of the message that a response in this state streams, with
    /// `uuid` in its identifier.
    pub open spec fn message_start(self, uuid: Seq<char>) -> MessageStartView {
        MessageStartView {
            id: "msg_"@ + uuid,
            type_: "message"@,
            role: Role::Assistant,
            content: Seq::empty(),
            model: self.model(),
            stop_reason: None,
            stop_sequence: None,
            usage: Some(self.usage),
        }
    }
}

impl<T> ClaudeWebState<T> {
    /// Opens a message under a fresh random identifier.
    pub fn message_start(&self) -> (message: MessageStartContent)
        ensures
            exists|uuid: Seq<char>|
                is_uuid_text(uuid) && message@ == #[trigger] self@.message_start(uuid),
    {
        let uuid = fresh_uuid();
        let ghost chosen = uuid@;
        let message = self.message_start_as(uuid);
        assert(message@ == self@.message_start(chosen));
        message
    }

    /// Opens a message with `uuid` in its identifier.
    pub fn message_start_as(&self, uuid: String) -> (message: MessageStartContent)
        ensures
            message@ == self@.message_start(uuid@),
    {
        let model = match &self.last_params {
            Some(params) => params.model.clone(),
            None => String::new(),
        };
        let content: Vec<ContentBlock> = Vec::new();
        MessageStartContent {
            id: "msg_".to_owned().concat(uuid.as_str()),
            type_: "message".to_owned(),
            role: Role::Assistant,
            content,
            model,
            stop_reason: None,
            stop_sequence: None,
            usage: Some(self.usage),
        }
    }
}

/// A message opens with what the state tells: the model of the last request, the
/// usage so far, and an identifier made of the UUID. It is one of the assistant,
/// still empty, and nothing has stopped it.
pub proof fn law_what_an_opening_tells<T>(state: StateView<T>, uuid: Seq<char>)
    ensures
        state.message_start(uuid).id == "msg_"@ + uuid,
        state.message_start(uuid).type_ == "message"@,
        state.message_start(uuid).role == Role::Assistant,
        state.message_start(uuid).content.len() == 0,
        state.last_params matches Some(params) ==> state.message_start(uuid).model == params.model,
        state.last_params is None ==> state.message_start(uuid).model.len() == 0,
        state.message_start(uuid).stop_reason is None,
        state.message_start(uuid).stop_sequence is None,
        state.message_start(uuid).usage == Some(state.usage),
{
}

/// A state is seen with all that it holds.
pub proof fn law_a_state_is_seen_whole<T>(state: ClaudeWebState<T>)
    ensures
        state@.stream == state.stream,
        state@.endpoint == state.endpoint@,
        state@.usage == state.usage,
        state@.transport == state.transport,
        state.org_uuid matches Some(org) ==> state@.org_uuid == Some(org@),
        state.org_uuid is None ==> state@.org_uuid is None,
        state.conv_uuid matches Some(conv) ==> state@.conv_uuid == Some(conv@),
        state.conv_uuid is None ==> state@.conv_uuid is None,
        state.cookie matches Some(cookie) ==> state@.cookie == Some(cookie@),
        state.cookie is None ==> state@.cookie is None,
        state.last_params matches Some(params) ==> state@.last_params == Some(params@),
        state.last_params is None ==> state@.last_params is None,
{
}

} // verus!
