//! Requests that count tokens.
use crate::claude::{
    message_views, CreateMessageParams, Message, MessageContentView, MessageView, ParamsView, Role,
};
use crate::endpoint::{join_url, url_join};
use crate::header::{header_bytes, is_header_text, parse_header};
use crate::state::ClaudeWebState;
use crate::text::opt_text;
use http::header::HeaderValue;
use url::ParseError;
use vstd::prelude::*;
use vstd::utf8::encode_utf8;

verus! {

/// A count that is wanted: the cookie to log in with, where it can stand in a
/// header, and the parameters whose tokens are counted.
#[derive(Debug)]
pub struct CountRequest {
    pub cookie_header: Option<HeaderValue>,
    pub body: CreateMessageParams,
}

/// The parameters with which the tokens of a request are counted.
pub open spec fn counted_params(params: ParamsView) -> ParamsView {
    ParamsView {
        model: params.model,
        messages: params.messages,
        stream: Some(false),
        extra: params.extra,
    }
}

/// A count that can be sent.
#[derive(Debug)]
pub struct CountCall {
    pub url: String,
    pub access_token: String,
    pub version: String,
    pub body: CreateMessageParams,
}

/// The header carries the cookie, or is left out where there is no cookie that
/// can stand in a header.
pub open spec fn carries_cookie(header: Option<HeaderValue>, cookie: Option<Seq<char>>) -> bool {
    match cookie {
        Some(cookie) => if is_header_text(cookie) {
            header is Some && header_bytes(header->0) == encode_utf8(cookie)
        } else {
            header is None
        },
        None => header is None,
    }
}

/// Makes the header for a cookie.
pub fn cookie_header(cookie: &Option<String>) -> (header: Option<HeaderValue>)
    ensures
        carries_cookie(header, opt_text(*cookie)),
{
    match cookie {
        Some(cookie) => match parse_header(cookie.as_str()) {
            Ok(header) => Some(header),
            Err(_) => None,
        },
        None => None,
    }
}

/// The parameters of a count of one text that the assistant said.
pub open spec fn text_count_params(model: Seq<char>, text: Seq<char>) -> ParamsView {
    ParamsView {
        model,
        messages: seq![MessageView { role: Role::Assistant, content: MessageContentView::Text(text) }],
        stream: None,
        extra: None,
    }
}

/// Asks for the tokens of a text that `model` gave out.
pub fn count_code_output_tokens_for_text(cookie: &Option<String>, model: String, text: String) -> (request:
    CountRequest)
    ensures
        carries_cookie(request.cookie_header, opt_text(*cookie)),
        request.body@ == text_count_params(model@, text@),
{
    let mut messages: Vec<Message> = Vec::new();
    messages.push(Message::new_text(Role::Assistant, text));
    let mut body = CreateMessageParams::default();
    body.model = model;
    body.messages = messages;
    assert(message_views(body.messages@) =~= text_count_params(model@, text@).messages);
    CountRequest { cookie_header: cookie_header(cookie), body }
}

/// The path under which tokens are counted.
pub open spec fn count_path() -> Seq<char> {
    "v1/messages/count_tokens"@
}

/// Prepares a count for the API: nothing is sent where the address cannot be
/// made.
pub fn bearer_count_tokens(endpoint: &str, access_token: &str, body: CreateMessageParams) -> (call:
    Option<CountCall>)
    ensures
        match url_join(endpoint@, count_path()) {
            Ok(url) => {
                &&& call is Some
                &&& call->0.url@ == url
                &&& call->0.access_token@ == access_token@
                &&& call->0.version@ == "2023-06-01"@
                &&& call->0.body == body
            },
            Err(_) => call is None,
        },
{
    count_call(join_url(endpoint, "v1/messages/count_tokens"), access_token, body)
}

/// Prepares a count for an address that was made, or was not.
pub fn count_call(joined: Result<String, ParseError>, access_token: &str, body: CreateMessageParams) -> (call:
    Option<CountCall>)
    ensures
        match joined {
            Ok(url) => {
                &&& call is Some
                &&& call->0.url == url
                &&& call->0.access_token@ == access_token@
                &&& call->0.version@ == "2023-06-01"@
                &&& call->0.body == body
            },
            Err(_) => call is None,
        },
{
    match joined {
        Ok(url) => Some(
            CountCall {
                url,
                access_token: access_token.to_owned(),
                version: "2023-06-01".to_owned(),
                body,
            },
        ),
        Err(_) => None,
    }
}

impl<T> ClaudeWebState<T> {
    /// Asks for the tokens of the last request, without streaming. There is
    /// nothing to ask without a cookie or without a last request.
    pub fn try_code_count_tokens(&self) -> (request: Option<CountRequest>)
        ensures
            match (self@.cookie, self@.last_params) {
                (Some(_), Some(params)) => {
                    &&& request is Some
                    &&& carries_cookie(request->0.cookie_header, self@.cookie)
                    &&& request->0.body@ == (ParamsView { stream: Some(false), ..params })
                    &&& request->0.body@ == counted_params(params)
                },
                _ => request is None,
            },
    {
        if self.cookie.is_none() {
            return None;
        }
        match &self.last_params {
            Some(params) => {
                let mut body = params.clone();
                body.stream = Some(false);
                Some(CountRequest { cookie_header: cookie_header(&self.cookie), body })
            },
            None => None,
        }
    }
}

/// A header carries exactly the bytes of a cookie that can stand in a header;
/// without such a cookie there is none.
pub proof fn law_what_a_cookie_header_carries(header: Option<HeaderValue>, cookie: Option<Seq<char>>)
    requires
        carries_cookie(header, cookie),
    ensures
        header is Some <==> cookie is Some && is_header_text(cookie->0),
        header is Some ==> header_bytes(header->0) == encode_utf8(cookie->0),
{
}

/// A text is counted as one message of the assistant to the given model, with
/// nothing beside it, under the path of the API.
pub proof fn law_how_a_text_is_counted(model: Seq<char>, text: Seq<char>)
    ensures
        text_count_params(model, text).model == model,
        text_count_params(model, text).stream is None,
        text_count_params(model, text).extra is None,
        text_count_params(model, text).messages.len() == 1,
        text_count_params(model, text).messages[0].role == Role::Assistant,
        text_count_params(model, text).messages[0].content == MessageContentView::Text(text),
        count_path() == "v1/messages/count_tokens"@,
{
}

/// A request is counted with its model, its messages and all its other members as
/// they were, but never streamed.
pub proof fn law_how_a_request_is_counted(params: ParamsView)
    ensures
        counted_params(params).model == params.model,
        counted_params(params).messages == params.messages,
        counted_params(params).extra == params.extra,
        counted_params(params).stream == Some(false),
{
}

} // verus!
