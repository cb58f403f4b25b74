//! The values of the Messages API that the library reads, builds and passes on.
//!
//! Where the library never looks inside a part of a message, that part is carried
//! as one JSON value.
use crate::text::opt_text;
use serde_json::Value;
use vstd::prelude::*;

verus! {

/// Who speaks in a message.
#[derive(Debug, Clone, Copy, PartialEq, Eq, Structural)]
pub enum Role {
    System,
    User,
    Assistant,
}

/// Why the model stopped.
#[derive(Debug, Clone, Copy, PartialEq, Eq, Structural)]
pub enum StopReason {
    EndTurn,
    MaxTokens,
    StopSequence,
    ToolUse,
    PauseTurn,
    Refusal,
}

/// The tokens that a request took in and gave out.
#[derive(Debug, Clone, Copy, PartialEq, Eq, Structural)]
pub struct Usage {
    pub input_tokens: u32,
    pub output_tokens: u32,
}

/// One block of a message. `body` holds the members of a block that is only
/// passed on; `extra` the members beside those that have a field.
#[derive(Debug)]
pub enum ContentBlock {
    Text { text: String, extra: Option<Value> },
    ToolUse { id: String, name: String, input: Value, extra: Option<Value> },
    Image { body: Value },
    Document { body: Value },
    SearchResult { body: Value },
    Thinking { body: Value },
    RedactedThinking { body: Value },
    ToolResult { body: Value },
    ServerToolUse { body: Value },
    WebSearchToolResult { body: Value },
    WebFetchToolResult { body: Value },
    CodeExecutionToolResult { body: Value },
    BashCodeExecutionToolResult { body: Value },
    TextEditorCodeExecutionToolResult { body: Value },
    ToolSearchToolResult { body: Value },
    McpToolUse { body: Value },
    McpToolResult { body: Value },
    ContainerUpload { body: Value },
}

impl ContentBlock {
    /// A text block with nothing beside its text.
    pub fn text(text: String) -> (block: Self)
        ensures
            block == (ContentBlock::Text { text, extra: None }),
    {
        ContentBlock::Text { text, extra: None }
    }
}

impl Clone for ContentBlock {
    fn clone(&self) -> (copy: Self)
        ensures
            copy == *self,
    {
        match self {
            ContentBlock::Text { text, extra } => ContentBlock::Text {
                text: text.clone(),
                extra: extra.clone(),
            },
            ContentBlock::ToolUse { id, name, input, extra } => ContentBlock::ToolUse {
                id: id.clone(),
                name: name.clone(),
                input: input.clone(),
                extra: extra.clone(),
            },
            ContentBlock::Image { body } => ContentBlock::Image { body: body.clone() },
            ContentBlock::Document { body } => ContentBlock::Document { body: body.clone() },
            ContentBlock::SearchResult { body } => ContentBlock::SearchResult { body: body.clone() },
            ContentBlock::Thinking { body } => ContentBlock::Thinking { body: body.clone() },
            ContentBlock::RedactedThinking { body } => ContentBlock::RedactedThinking { body: body.clone() },
            ContentBlock::ToolResult { body } => ContentBlock::ToolResult { body: body.clone() },
            ContentBlock::ServerToolUse { body } => ContentBlock::ServerToolUse { body: body.clone() },
            ContentBlock::WebSearchToolResult { body } => ContentBlock::WebSearchToolResult { body: body.clone() },
            ContentBlock::WebFetchToolResult { body } => ContentBlock::WebFetchToolResult { body: body.clone() },
            ContentBlock::CodeExecutionToolResult { body } => ContentBlock::CodeExecutionToolResult { body: body.clone() },
            ContentBlock::BashCodeExecutionToolResult { body } => ContentBlock::BashCodeExecutionToolResult { body: body.clone() },
            ContentBlock::TextEditorCodeExecutionToolResult { body } => ContentBlock::TextEditorCodeExecutionToolResult { body: body.clone() },
            ContentBlock::ToolSearchToolResult { body } => ContentBlock::ToolSearchToolResult { body: body.clone() },
            ContentBlock::McpToolUse { body } => ContentBlock::McpToolUse { body: body.clone() },
            ContentBlock::McpToolResult { body } => ContentBlock::McpToolResult { body: body.clone() },
            ContentBlock::ContainerUpload { body } => ContentBlock::ContainerUpload { body: body.clone() },
        }
    }
}

/// Copies a list of blocks.
pub(crate) fn copy_blocks(blocks: &Vec<ContentBlock>) -> (copy: Vec<ContentBlock>)
    ensures
        copy@ == blocks@,
{
    let copy = blocks.clone();
    assert(copy@ =~= blocks@);
    copy
}

/// What a message holds: one text, or a list of blocks.
#[derive(Debug)]
pub enum MessageContent {
    Text(String),
    Blocks(Vec<ContentBlock>),
}

/// The content of a message as a mathematical value.
pub ghost enum MessageContentView {
    Text(Seq<char>),
    Blocks(Seq<ContentBlock>),
}

impl View for MessageContent {
    type V = MessageContentView;

    open spec fn view(&self) -> MessageContentView {
        match self {
            MessageContent::Text(text) => MessageContentView::Text(text@),
            MessageContent::Blocks(blocks) => MessageContentView::Blocks(blocks@),
        }
    }
}

/// A message of a conversation.
#[derive(Debug)]
pub struct Message {
    pub role: Role,
    pub content: MessageContent,
}

/// A message as a mathematical value.
pub ghost struct MessageView {
    pub role: Role,
    pub content: MessageContentView,
}

impl View for Message {
    type V = MessageView;

    open spec fn view(&self) -> MessageView {
        MessageView { role: self.role, content: self.content@ }
    }
}

impl Message {
    /// A message that holds one text.
    pub fn new_text(role: Role, text: String) -> (message: Self)
        ensures
            message@ == (MessageView { role, content: MessageContentView::Text(text@) }),
    {
        Message { role, content: MessageContent::Text(text) }
    }

    /// A message that holds a list of blocks.
    pub fn new_blocks(role: Role, blocks: Vec<ContentBlock>) -> (message: Self)
        ensures
            message@ == (MessageView { role, content: MessageContentView::Blocks(blocks@) }),
    {
        Message { role, content: MessageContent::Blocks(blocks) }
    }
}

impl Clone for Message {
    fn clone(&self) -> (copy: Self)
        ensures
            copy@ == self@,
    {
        let content = match &self.content {
            MessageContent::Text(text) => MessageContent::Text(text.clone()),
            MessageContent::Blocks(blocks) => MessageContent::Blocks(copy_blocks(blocks)),
        };
        Message { role: self.role, content }
    }
}

/// The messages of a list as mathematical values.
pub open spec fn message_views(messages: Seq<Message>) -> Seq<MessageView> {
    messages.map_values(|m: Message| m@)
}

/// Copies a list of messages.
pub(crate) fn copy_messages(messages: &Vec<Message>) -> (copy: Vec<Message>)
    ensures
        message_views(copy@) == message_views(messages@),
{
    let mut copy: Vec<Message> = Vec::new();
    for i in 0..messages.len()
        invariant
            copy@.len() == i,
            forall|j: int| 0 <= j < i ==> (#[trigger] copy@[j])@ == messages@[j]@,
    {
        copy.push(messages[i].clone());
    }
    assert(message_views(copy@) =~= message_views(messages@));
    copy
}

/// The opening of a streamed message.
#[derive(Debug)]
pub struct MessageStartContent {
    pub id: String,
    pub type_: String,
    pub role: Role,
    pub content: Vec<ContentBlock>,
    pub model: String,
    pub stop_reason: Option<StopReason>,
    pub stop_sequence: Option<String>,
    pub usage: Option<Usage>,
}

/// The opening of a streamed message as a mathematical value.
pub ghost struct MessageStartView {
    pub id: Seq<char>,
    pub type_: Seq<char>,
    pub role: Role,
    pub content: Seq<ContentBlock>,
    pub model: Seq<char>,
    pub stop_reason: Option<StopReason>,
    pub stop_sequence: Option<Seq<char>>,
    pub usage: Option<Usage>,
}

impl View for MessageStartContent {
    type V = MessageStartView;

    open spec fn view(&self) -> MessageStartView {
        MessageStartView {
            id: self.id@,
            type_: self.type_@,
            role: self.role,
            content: self.content@,
            model: self.model@,
            stop_reason: self.stop_reason,
            stop_sequence: opt_text(self.stop_sequence),
            usage: self.usage,
        }
    }
}

impl Clone for MessageStartContent {
    fn clone(&self) -> (copy: Self)
        ensures
            copy@ == self@,
    {
        MessageStartContent {
            id: self.id.clone(),
            type_: self.type_.clone(),
            role: self.role,
            content: copy_blocks(&self.content),
            model: self.model.clone(),
            stop_reason: self.stop_reason,
            stop_sequence: self.stop_sequence.clone(),
            usage: self.usage,
        }
    }
}

/// What changes on a message when it ends.
#[derive(Debug)]
pub struct MessageDeltaContent {
    pub stop_reason: Option<StopReason>,
    pub stop_sequence: Option<String>,
}

/// An error that travels inside a stream.
#[derive(Debug)]
pub struct StreamError {
    pub type_: String,
    pub message: String,
}

/// One event of a streamed message.
#[derive(Debug)]
#[allow(inconsistent_fields)]
pub enum StreamEvent {
    MessageStart { message: MessageStartContent },
    ContentBlockStart { index: usize, content_block: ContentBlock },
    ContentBlockDelta { index: usize, delta: Value },
    ContentBlockStop { index: usize },
    MessageDelta { delta: MessageDeltaContent, usage: Option<Value> },
    MessageStop,
    Ping,
    Error { error: StreamError },
}

/// The parameters of a request for a message. `extra` holds the members that
/// have no field here.
#[derive(Debug)]
pub struct CreateMessageParams {
    pub model: String,
    pub messages: Vec<Message>,
    pub stream: Option<bool>,
    pub extra: Option<Value>,
}

/// The parameters of a request as a mathematical value.
pub ghost struct ParamsView {
    pub model: Seq<char>,
    pub messages: Seq<MessageView>,
    pub stream: Option<bool>,
    pub extra: Option<Value>,
}

impl View for CreateMessageParams {
    type V = ParamsView;

    open spec fn view(&self) -> ParamsView {
        ParamsView {
            model: self.model@,
            messages: message_views(self.messages@),
            stream: self.stream,
            extra: self.extra,
        }
    }
}

impl Default for CreateMessageParams {
    fn default() -> (params: Self)
        ensures
            params@ == (ParamsView {
                model: Seq::empty(),
                messages: Seq::empty(),
                stream: None,
                extra: None,
            }),
    {
        let params = CreateMessageParams {
            model: String::new(),
            messages: Vec::new(),
            stream: None,
            extra: None,
        };
        assert(params@.messages =~= Seq::<MessageView>::empty());
        params
    }
}

impl Clone for CreateMessageParams {
    fn clone(&self) -> (copy: Self)
        ensures
            copy@ == self@,
    {
        CreateMessageParams {
            model: self.model.clone(),
            messages: copy_messages(&self.messages),
            stream: self.stream,
            extra: self.extra.clone(),
        }
    }
}

/// The optional parameters of a request as a mathematical value.
pub open spec fn opt_params(params: Option<CreateMessageParams>) -> Option<ParamsView> {
    match params {
        Some(p) => Some(p@),
        None => None,
    }
}

/// A whole message as an answer.
#[derive(Debug)]
pub struct CreateMessageResponse {
    pub role: Role,
    pub content: Vec<ContentBlock>,
    pub model: String,
    pub usage: Option<Usage>,
}

impl CreateMessageResponse {
    /// An answer of the assistant that holds one text block.
    pub fn text(text: String, model: String, usage: Usage) -> (response: Self)
        ensures
            response.role == Role::Assistant,
            response.content@ == seq![ContentBlock::Text { text, extra: None }],
            response.model == model,
            response.usage == Some(usage),
    {
        let mut content: Vec<ContentBlock> = Vec::new();
        content.push(ContentBlock::text(text));
        assert(content@ =~= seq![ContentBlock::Text { text, extra: None }]);
        CreateMessageResponse { role: Role::Assistant, content, model, usage: Some(usage) }
    }
}

/// The kind of a tool that the caller defines.
#[derive(Debug, Clone, Copy, PartialEq, Eq, Structural)]
pub enum CustomToolType {
    Custom,
}

/// A tool that the caller defines.
#[derive(Debug)]
pub struct CustomTool {
    pub name: String,
    pub type_: Option<CustomToolType>,
    pub description: Option<String>,
    pub input_schema: Value,
}

/// A tool that the API knows by its kind; `body` holds its settings.
#[derive(Debug)]
pub enum KnownTool {
    Bash20250124 { body: Value },
    TextEditor20250124 { body: Value },
    TextEditor20250429 { body: Value },
    TextEditor20250728 { body: Value },
    WebSearch20250305 { body: Value },
}

/// A tool as a request names it. `Raw` is one of no known form.
#[derive(Debug)]
pub enum Tool {
    Custom(CustomTool),
    Known(KnownTool),
    Raw(Value),
}

/// Where an image comes from.
#[derive(Debug)]
pub enum ImageSource {
    Base64 { media_type: String, data: String },
    Url { url: String },
    File { file_id: String },
}

/// The opening of a message is seen with all that it holds.
pub proof fn law_an_opening_is_seen_whole(message: MessageStartContent)
    ensures
        message@.id == message.id@,
        message@.type_ == message.type_@,
        message@.role == message.role,
        message@.content == message.content@,
        message@.model == message.model@,
        message@.stop_reason == message.stop_reason,
        message.stop_sequence matches Some(text) ==> message@.stop_sequence == Some(text@),
        message.stop_sequence is None ==> message@.stop_sequence is None,
        message@.usage == message.usage,
{
}

/// A message is seen with its speaker and with its text or its blocks.
pub proof fn law_a_message_is_seen_whole(message: Message)
    ensures
        message@.role == message.role,
        message.content matches MessageContent::Text(text) ==> message@.content
            == MessageContentView::Text(text@),
        message.content matches MessageContent::Blocks(blocks) ==> message@.content
            == MessageContentView::Blocks(blocks@),
{
}

/// The parameters of a request are seen with all that they hold, message by
/// message.
pub proof fn law_parameters_are_seen_whole(params: CreateMessageParams)
    ensures
        params@.model == params.model@,
        params@.stream == params.stream,
        params@.extra == params.extra,
        params@.messages.len() == params.messages@.len(),
        forall|i: int|
            0 <= i < params.messages@.len() ==> #[trigger] params@.messages[i]
                == params.messages@[i]@,
        opt_params(Some(params)) == Some(params@),
        opt_params(None) is None,
{
}

} // verus!
