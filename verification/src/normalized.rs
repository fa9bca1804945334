//! Pieces of warpllm's canonical chat forms: the finish reason derived from a
//! provider's raw one, the roles and their OpenAI-compatible wire spellings,
//! and raw JSON text kept exactly as received.

use vstd::prelude::*;

use crate::json::{fields_view, json_document, parse_json, Fields, FieldsView, JsonNode, JsonView};
use crate::text::{chars_of, text_eq, trim};

verus! {

/// Why a completion stopped, derived from the provider's raw string for
/// programmatic matching; the raw string stays authoritative.
#[derive(Debug, Clone, Copy, PartialEq, Eq, Structural)]
pub enum FinishReason {
    Stop,
    Length,
    ToolCalls,
    ContentFilter,
    Other,
}

pub open spec fn finish_reason_of(raw: Seq<char>) -> FinishReason {
    if raw == "stop"@ {
        FinishReason::Stop
    } else if raw == "length"@ {
        FinishReason::Length
    } else if raw == "tool_calls"@ {
        FinishReason::ToolCalls
    } else if raw == "content_filter"@ {
        FinishReason::ContentFilter
    } else {
        FinishReason::Other
    }
}

impl FinishReason {
    /// The finish reason a raw spelling names; anything unrecognized is
    /// [`FinishReason::Other`].
    pub fn from_raw(raw: &str) -> (r: FinishReason)
        ensures
            r == finish_reason_of(raw@),
    {
        if text_eq(raw, "stop") {
            FinishReason::Stop
        } else if text_eq(raw, "length") {
            FinishReason::Length
        } else if text_eq(raw, "tool_calls") {
            FinishReason::ToolCalls
        } else if text_eq(raw, "content_filter") {
            FinishReason::ContentFilter
        } else {
            FinishReason::Other
        }
    }
}

/// Who a message is from.
#[derive(Debug, Clone, Copy, PartialEq, Eq, Structural)]
pub enum Role {
    /// Covers OpenAI's `system` and `developer`.
    System,
    User,
    Assistant,
    /// Tool results only.
    Tool,
}

pub open spec fn role_name(r: Role) -> Seq<char> {
    match r {
        Role::System => "system"@,
        Role::User => "user"@,
        Role::Assistant => "assistant"@,
        Role::Tool => "tool"@,
    }
}

/// The role a wire spelling names, and the spelling itself when it is not one
/// of the four, so ingest can keep it for exact restoration.
pub open spec fn role_of_wire(s: Seq<char>) -> (Role, Option<Seq<char>>) {
    if s == "system"@ {
        (Role::System, None)
    } else if s == "user"@ {
        (Role::User, None)
    } else if s == "assistant"@ {
        (Role::Assistant, None)
    } else if s == "tool"@ {
        (Role::Tool, None)
    } else {
        (Role::User, Some(s))
    }
}

/// Wire role string to normalized role. An unrecognized role (OpenAI's
/// `developer`, say) maps to `User` and comes back verbatim beside it.
pub fn role_from_wire(role: String) -> (r: (Role, Option<String>))
    ensures
        r.0 == role_of_wire(role@).0,
        match r.1 {
            Some(s) => role_of_wire(role@).1 == Some(s@),
            None => role_of_wire(role@).1 is None,
        },
{
    if text_eq(role.as_str(), "system") {
        (Role::System, None)
    } else if text_eq(role.as_str(), "user") {
        (Role::User, None)
    } else if text_eq(role.as_str(), "assistant") {
        (Role::Assistant, None)
    } else if text_eq(role.as_str(), "tool") {
        (Role::Tool, None)
    } else {
        (Role::User, Some(role))
    }
}

/// A normalized role's wire spelling.
pub fn role_to_wire(role: Role) -> (r: &'static str)
    ensures
        r@ == role_name(role),
{
    match role {
        Role::System => "system",
        Role::User => "user",
        Role::Assistant => "assistant",
        Role::Tool => "tool",
    }
}

/// Rendering a role and reading it back gives the same role and nothing to
/// stash; a spelling read without one to stash renders back unchanged.
pub proof fn law_role_round_trip(r: Role, s: Seq<char>)
    ensures
        role_of_wire(role_name(r)) == (r, None::<Seq<char>>),
        role_of_wire(s).1 is None ==> role_name(role_of_wire(s).0) == s,
{
    reveal_strlit("system");
    reveal_strlit("user");
    reveal_strlit("assistant");
    reveal_strlit("tool");
    assert("system"@[0] == 's' && "user"@[0] == 'u' && "assistant"@[0] == 'a' && "tool"@[0] == 't');
}

/// Exact JSON text, never a parsed tree at rest: key order and not-quite-valid
/// JSON a model emitted both survive.
#[derive(Debug, Clone, PartialEq)]
pub struct RawJson(String);

impl View for RawJson {
    type V = Seq<char>;

    closed spec fn view(&self) -> Seq<char> {
        self.0@
    }
}

impl RawJson {
    /// Keeps `raw` as it is.
    pub fn new(raw: String) -> (r: RawJson)
        ensures
            r@ == raw@,
    {
        RawJson(raw)
    }

    /// The text, exactly as kept.
    pub fn as_str(&self) -> (r: &str)
        ensures
            r@ == self@,
    {
        self.0.as_str()
    }

    /// Parses on demand; a blank text is an empty object, and text that is not
    /// JSON is `None`, which only parsing reveals.
    pub fn parse(&self) -> (r: Option<JsonNode>)
        ensures
            trim(self@).len() == 0 ==> (r matches Some(JsonNode::Object(m)) && m@.len() == 0),
            trim(self@).len() > 0 ==> r == json_document(self@),
    {
        let chars = chars_of(self.0.as_str());
        let blank = crate::text::trim_chars(chars.as_slice()).len() == 0;
        if blank {
            Some(JsonNode::Object(Vec::new()))
        } else {
            parse_json(self.0.as_str())
        }
    }
}

/// One block of a message's content.
#[derive(Debug, PartialEq)]
pub enum ContentBlock {
    Text { text: String },
    ToolCall { id: String, name: String, arguments: RawJson },
    /// Forward compatibility: a block this form does not model, verbatim.
    Unknown(JsonNode),
}

/// A message: who it is from, its blocks in order, and what the dialect it
/// came from carries beyond them, under the dialect's namespace.
#[derive(Debug, PartialEq)]
pub struct Message {
    pub role: Role,
    pub content: Vec<ContentBlock>,
    pub ext: Fields,
}

/// One completion of a response.
#[derive(Debug, PartialEq)]
pub struct Completion {
    pub message: Message,
    /// Derived from the raw string; for programmatic matching only.
    pub finish_reason: FinishReason,
    /// Authoritative on render: the provider's own spelling.
    pub finish_reason_raw: String,
    pub ext: Fields,
}

/// Token accounting in the widest cross-provider units; what a provider does
/// not report stays `None`.
#[derive(Debug, PartialEq)]
pub struct Usage {
    pub input_tokens: Option<u64>,
    pub output_tokens: Option<u64>,
    pub total_tokens: Option<u64>,
    pub reasoning_tokens: Option<u64>,
    pub cache_read_tokens: Option<u64>,
    pub cache_write_tokens: Option<u64>,
    pub ext: Fields,
}

/// The normalized chat response.
#[derive(Debug, PartialEq)]
pub struct ChatResponse {
    pub id: String,
    pub model: String,
    /// Not every provider reports a creation time.
    pub created: Option<u64>,
    pub completions: Vec<Completion>,
    pub usage: Option<Usage>,
    pub ext: Fields,
}

pub enum ContentBlockView {
    Text { text: Seq<char> },
    ToolCall { id: Seq<char>, name: Seq<char>, arguments: Seq<char> },
    Unknown(JsonView),
}

pub struct MessageView {
    pub role: Role,
    pub content: Seq<ContentBlockView>,
    pub ext: FieldsView,
}

pub struct CompletionView {
    pub message: MessageView,
    pub finish_reason: FinishReason,
    pub finish_reason_raw: Seq<char>,
    pub ext: FieldsView,
}

pub struct UsageView {
    pub input_tokens: Option<u64>,
    pub output_tokens: Option<u64>,
    pub total_tokens: Option<u64>,
    pub reasoning_tokens: Option<u64>,
    pub cache_read_tokens: Option<u64>,
    pub cache_write_tokens: Option<u64>,
    pub ext: FieldsView,
}

pub struct ChatResponseView {
    pub id: Seq<char>,
    pub model: Seq<char>,
    pub created: Option<u64>,
    pub completions: Seq<CompletionView>,
    pub usage: Option<UsageView>,
    pub ext: FieldsView,
}

impl View for ContentBlock {
    type V = ContentBlockView;

    open spec fn view(&self) -> ContentBlockView {
        match self {
            ContentBlock::Text { text } => ContentBlockView::Text { text: text@ },
            ContentBlock::ToolCall { id, name, arguments } => ContentBlockView::ToolCall {
                id: id@,
                name: name@,
                arguments: arguments@,
            },
            ContentBlock::Unknown(v) => ContentBlockView::Unknown(v@),
        }
    }
}

pub open spec fn blocks_view(blocks: Seq<ContentBlock>) -> Seq<ContentBlockView> {
    blocks.map_values(|b: ContentBlock| b@)
}

impl View for Message {
    type V = MessageView;

    open spec fn view(&self) -> MessageView {
        MessageView { role: self.role, content: blocks_view(self.content@), ext: fields_view(self.ext@) }
    }
}

impl View for Completion {
    type V = CompletionView;

    open spec fn view(&self) -> CompletionView {
        CompletionView {
            message: self.message@,
            finish_reason: self.finish_reason,
            finish_reason_raw: self.finish_reason_raw@,
            ext: fields_view(self.ext@),
        }
    }
}

impl View for Usage {
    type V = UsageView;

    open spec fn view(&self) -> UsageView {
        UsageView {
            input_tokens: self.input_tokens,
            output_tokens: self.output_tokens,
            total_tokens: self.total_tokens,
            reasoning_tokens: self.reasoning_tokens,
            cache_read_tokens: self.cache_read_tokens,
            cache_write_tokens: self.cache_write_tokens,
            ext: fields_view(self.ext@),
        }
    }
}

impl View for ChatResponse {
    type V = ChatResponseView;

    open spec fn view(&self) -> ChatResponseView {
        ChatResponseView {
            id: self.id@,
            model: self.model@,
            created: self.created,
            completions: self.completions@.map_values(|c: Completion| c@),
            usage: match self.usage {
                Some(u) => Some(u@),
                None => None,
            },
            ext: fields_view(self.ext@),
        }
    }
}

} // verus!
