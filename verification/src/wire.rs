//! The OpenAI-compatible chat completion response as it travels on the wire:
//! the fields the dialect documents, typed, and every other member kept as
//! JSON in `unknown_fields`, in the order it came.

use vstd::prelude::*;

use crate::json::{
    extend_fields, fextend, fget, fields_view, fremove, get_field, lemma_fget_fremove,
    lemma_members_push, nodes_view, take_field, take_string, Fields, FieldsView, JsonNode, JsonView,
};
use crate::text::{chars_of, digits_u64, owned, parse_digits, text_eq};

verus! {

/// A function call's name and raw argument text.
#[derive(Debug, PartialEq)]
pub struct FunctionCall {
    pub arguments: String,
    pub name: String,
    pub unknown_fields: Fields,
}

/// A tool call of kind `function`.
#[derive(Debug, PartialEq)]
pub struct FunctionToolCall {
    pub id: String,
    /// The `type` member; `function` for a plain call.
    pub kind: String,
    pub function: FunctionCall,
    pub unknown_fields: Fields,
}

/// One entry of a message's `tool_calls`.
#[derive(Debug, PartialEq)]
pub enum ToolCall {
    Function(FunctionToolCall),
    /// Any other kind of call (`custom`, say), as its JSON object.
    Other(JsonNode),
}

/// The assistant message of a choice.
#[derive(Debug, PartialEq)]
pub struct ChatCompletionResponseMessage {
    pub content: Option<String>,
    pub refusal: Option<String>,
    pub role: String,
    /// The annotations array; each annotation stays JSON.
    pub annotations: Option<Vec<JsonNode>>,
    /// The audio object's members.
    pub audio: Option<Fields>,
    /// The deprecated function call object's members.
    pub function_call: Option<Fields>,
    pub tool_calls: Option<Vec<ToolCall>>,
    pub unknown_fields: Fields,
}

/// One choice of a response.
#[derive(Debug, PartialEq)]
pub struct Choice {
    pub finish_reason: String,
    pub index: u32,
    /// The log-probability object's members.
    pub logprobs: Option<Fields>,
    pub message: ChatCompletionResponseMessage,
    pub unknown_fields: Fields,
}

/// The breakdown of completion tokens; members other than `reasoning_tokens`
/// stay JSON.
#[derive(Debug, PartialEq)]
pub struct CompletionTokensDetails {
    pub reasoning_tokens: Option<u64>,
    pub unknown_fields: Fields,
}

/// The breakdown of prompt tokens; members other than the two cache counts
/// stay JSON.
#[derive(Debug, PartialEq)]
pub struct PromptTokensDetails {
    pub cached_tokens: Option<u64>,
    pub cache_write_tokens: Option<u64>,
    pub unknown_fields: Fields,
}

/// Token accounting of a response.
#[derive(Debug, PartialEq)]
pub struct CompletionUsage {
    pub completion_tokens: u32,
    pub prompt_tokens: u32,
    pub total_tokens: u32,
    pub completion_tokens_details: Option<CompletionTokensDetails>,
    pub prompt_tokens_details: Option<PromptTokensDetails>,
    pub unknown_fields: Fields,
}

/// A chat completion response.
#[derive(Debug, PartialEq)]
pub struct CreateChatCompletionResponse {
    pub id: String,
    pub choices: Vec<Choice>,
    pub created: u64,
    pub model: String,
    pub object: String,
    /// The moderation object's members.
    pub moderation: Option<Fields>,
    pub service_tier: Option<String>,
    pub system_fingerprint: Option<String>,
    pub usage: Option<CompletionUsage>,
    pub unknown_fields: Fields,
}

// ------------------------------------------------------------------ views

pub struct FunctionCallView {
    pub arguments: Seq<char>,
    pub name: Seq<char>,
    pub unknown_fields: FieldsView,
}

pub struct FunctionToolCallView {
    pub id: Seq<char>,
    pub kind: Seq<char>,
    pub function: FunctionCallView,
    pub unknown_fields: FieldsView,
}

pub enum ToolCallView {
    Function(FunctionToolCallView),
    Other(JsonView),
}

pub struct ChatCompletionResponseMessageView {
    pub content: Option<Seq<char>>,
    pub refusal: Option<Seq<char>>,
    pub role: Seq<char>,
    pub annotations: Option<Seq<JsonView>>,
    pub audio: Option<FieldsView>,
    pub function_call: Option<FieldsView>,
    pub tool_calls: Option<Seq<ToolCallView>>,
    pub unknown_fields: FieldsView,
}

pub struct ChoiceView {
    pub finish_reason: Seq<char>,
    pub index: u32,
    pub logprobs: Option<FieldsView>,
    pub message: ChatCompletionResponseMessageView,
    pub unknown_fields: FieldsView,
}

pub struct CompletionTokensDetailsView {
    pub reasoning_tokens: Option<u64>,
    pub unknown_fields: FieldsView,
}

pub struct PromptTokensDetailsView {
    pub cached_tokens: Option<u64>,
    pub cache_write_tokens: Option<u64>,
    pub unknown_fields: FieldsView,
}

pub struct CompletionUsageView {
    pub completion_tokens: u32,
    pub prompt_tokens: u32,
    pub total_tokens: u32,
    pub completion_tokens_details: Option<CompletionTokensDetailsView>,
    pub prompt_tokens_details: Option<PromptTokensDetailsView>,
    pub unknown_fields: FieldsView,
}

pub struct CreateChatCompletionResponseView {
    pub id: Seq<char>,
    pub choices: Seq<ChoiceView>,
    pub created: u64,
    pub model: Seq<char>,
    pub object: Seq<char>,
    pub moderation: Option<FieldsView>,
    pub service_tier: Option<Seq<char>>,
    pub system_fingerprint: Option<Seq<char>>,
    pub usage: Option<CompletionUsageView>,
    pub unknown_fields: FieldsView,
}

/// The view of optional object members.
pub open spec fn opt_fields(o: Option<Fields>) -> Option<FieldsView> {
    match o {
        Some(fs) => Some(fields_view(fs@)),
        None => None,
    }
}

/// The view of an optional array's items.
pub open spec fn opt_items(o: Option<Vec<JsonNode>>) -> Option<Seq<JsonView>> {
    match o {
        Some(items) => Some(nodes_view(items@)),
        None => None,
    }
}

pub open spec fn str_view(o: Option<String>) -> Option<Seq<char>> {
    match o {
        Some(s) => Some(s@),
        None => None,
    }
}

impl View for FunctionCall {
    type V = FunctionCallView;

    open spec fn view(&self) -> FunctionCallView {
        FunctionCallView {
            arguments: self.arguments@,
            name: self.name@,
            unknown_fields: fields_view(self.unknown_fields@),
        }
    }
}

impl View for FunctionToolCall {
    type V = FunctionToolCallView;

    open spec fn view(&self) -> FunctionToolCallView {
        FunctionToolCallView {
            id: self.id@,
            kind: self.kind@,
            function: self.function@,
            unknown_fields: fields_view(self.unknown_fields@),
        }
    }
}

impl View for ToolCall {
    type V = ToolCallView;

    open spec fn view(&self) -> ToolCallView {
        match self {
            ToolCall::Function(f) => ToolCallView::Function(f@),
            ToolCall::Other(v) => ToolCallView::Other(v@),
        }
    }
}

pub open spec fn calls_view(calls: Seq<ToolCall>) -> Seq<ToolCallView> {
    calls.map_values(|c: ToolCall| c@)
}

impl View for ChatCompletionResponseMessage {
    type V = ChatCompletionResponseMessageView;

    open spec fn view(&self) -> ChatCompletionResponseMessageView {
        ChatCompletionResponseMessageView {
            content: str_view(self.content),
            refusal: str_view(self.refusal),
            role: self.role@,
            annotations: opt_items(self.annotations),
            audio: opt_fields(self.audio),
            function_call: opt_fields(self.function_call),
            tool_calls: match self.tool_calls {
                Some(calls) => Some(calls_view(calls@)),
                None => None,
            },
            unknown_fields: fields_view(self.unknown_fields@),
        }
    }
}

impl View for Choice {
    type V = ChoiceView;

    open spec fn view(&self) -> ChoiceView {
        ChoiceView {
            finish_reason: self.finish_reason@,
            index: self.index,
            logprobs: opt_fields(self.logprobs),
            message: self.message@,
            unknown_fields: fields_view(self.unknown_fields@),
        }
    }
}

impl View for CompletionTokensDetails {
    type V = CompletionTokensDetailsView;

    open spec fn view(&self) -> CompletionTokensDetailsView {
        CompletionTokensDetailsView {
            reasoning_tokens: self.reasoning_tokens,
            unknown_fields: fields_view(self.unknown_fields@),
        }
    }
}

impl View for PromptTokensDetails {
    type V = PromptTokensDetailsView;

    open spec fn view(&self) -> PromptTokensDetailsView {
        PromptTokensDetailsView {
            cached_tokens: self.cached_tokens,
            cache_write_tokens: self.cache_write_tokens,
            unknown_fields: fields_view(self.unknown_fields@),
        }
    }
}

impl View for CompletionUsage {
    type V = CompletionUsageView;

    open spec fn view(&self) -> CompletionUsageView {
        CompletionUsageView {
            completion_tokens: self.completion_tokens,
            prompt_tokens: self.prompt_tokens,
            total_tokens: self.total_tokens,
            completion_tokens_details: match self.completion_tokens_details {
                Some(d) => Some(d@),
                None => None,
            },
            prompt_tokens_details: match self.prompt_tokens_details {
                Some(d) => Some(d@),
                None => None,
            },
            unknown_fields: fields_view(self.unknown_fields@),
        }
    }
}

impl View for CreateChatCompletionResponse {
    type V = CreateChatCompletionResponseView;

    open spec fn view(&self) -> CreateChatCompletionResponseView {
        CreateChatCompletionResponseView {
            id: self.id@,
            choices: self.choices@.map_values(|c: Choice| c@),
            created: self.created,
            model: self.model@,
            object: self.object@,
            moderation: opt_fields(self.moderation),
            service_tier: str_view(self.service_tier),
            system_fingerprint: str_view(self.system_fingerprint),
            usage: match self.usage {
                Some(u) => Some(u@),
                None => None,
            },
            unknown_fields: fields_view(self.unknown_fields@),
        }
    }
}

// ------------------------------------------------------ tool calls as JSON

/// A function call as the JSON object serde writes: its two members, then
/// its unknown ones.
pub open spec fn function_json(f: FunctionCallView) -> JsonView {
    JsonView::Object(
        fextend(
            Seq::empty().push(("arguments"@, JsonView::Str(f.arguments))).push(
                ("name"@, JsonView::Str(f.name)),
            ),
            f.unknown_fields,
        ),
    )
}

/// A tool call as the JSON object serde writes.
pub open spec fn tool_call_json(c: ToolCallView) -> JsonView {
    match c {
        ToolCallView::Function(f) => JsonView::Object(
            fextend(
                Seq::empty().push(("id"@, JsonView::Str(f.id))).push(
                    ("type"@, JsonView::Str(f.kind)),
                ).push(("function"@, function_json(f.function))),
                f.unknown_fields,
            ),
        ),
        ToolCallView::Other(v) => v,
    }
}

/// The function call a JSON value spells: an object with string `arguments`
/// and `name`.
pub open spec fn function_of_json(v: JsonView) -> Option<FunctionCallView> {
    match v {
        JsonView::Object(fs) => match (fget(fs, "arguments"@), fget(fs, "name"@)) {
            (Some(JsonView::Str(a)), Some(JsonView::Str(n))) => Some(
                FunctionCallView {
                    arguments: a,
                    name: n,
                    unknown_fields: fremove(fremove(fs, "arguments"@), "name"@),
                },
            ),
            _ => None,
        },
        _ => None,
    }
}

/// The tool call a JSON value spells: an object whose string `type` is
/// `function` and that holds a string `id` and a function call, or an object
/// of any other string `type`, kept whole. Anything else is no tool call.
pub open spec fn tool_call_of_json(v: JsonView) -> Option<ToolCallView> {
    match v {
        JsonView::Object(fs) => match fget(fs, "type"@) {
            Some(JsonView::Str(t)) => if t == "function"@ {
                match (fget(fs, "id"@), fget(fs, "function"@)) {
                    (Some(JsonView::Str(id)), Some(fv)) => match function_of_json(fv) {
                        Some(f) => Some(
                            ToolCallView::Function(
                                FunctionToolCallView {
                                    id: id,
                                    kind: t,
                                    function: f,
                                    unknown_fields: fremove(
                                        fremove(fremove(fs, "id"@), "type"@),
                                        "function"@,
                                    ),
                                },
                            ),
                        ),
                        None => None,
                    },
                    _ => None,
                }
            } else {
                Some(ToolCallView::Other(v))
            },
            _ => None,
        },
        _ => None,
    }
}

fn str_member(k: &str, v: String) -> (r: (String, JsonNode))
    ensures
        r.0@ == k@,
        r.1@ == JsonView::Str(v@),
{
    (owned(k), JsonNode::Str(v))
}

/// Writes a tool call as a JSON object.
pub fn tool_call_to_json(c: ToolCall) -> (r: JsonNode)
    ensures
        r@ == tool_call_json(c@),
{
    match c {
        ToolCall::Function(f) => {
            let ghost fv = f@;
            let FunctionToolCall { id, kind, function, unknown_fields } = f;
            let FunctionCall { arguments, name, unknown_fields: inner_unknown } = function;
            let mut inner: Fields = Vec::new();
            let a = str_member("arguments", arguments);
            let n = str_member("name", name);
            proof {
                lemma_members_push(inner@, a.0, a.1);
                lemma_members_push(inner@.push(a), n.0, n.1);
            }
            inner.push(a);
            inner.push(n);
            assert(fields_view(inner@) =~= seq![
                ("arguments"@, JsonView::Str(fv.function.arguments)),
                ("name"@, JsonView::Str(fv.function.name)),
            ]);
            extend_fields(&mut inner, inner_unknown);
            let fj = JsonNode::Object(inner);
            assert(fj@ == function_json(fv.function));
            let mut outer: Fields = Vec::new();
            let i = str_member("id", id);
            let t = str_member("type", kind);
            let fm = (owned("function"), fj);
            proof {
                lemma_members_push(outer@, i.0, i.1);
                lemma_members_push(outer@.push(i), t.0, t.1);
                lemma_members_push(outer@.push(i).push(t), fm.0, fm.1);
            }
            outer.push(i);
            outer.push(t);
            outer.push(fm);
            assert(fields_view(outer@) =~= seq![
                ("id"@, JsonView::Str(fv.id)),
                ("type"@, JsonView::Str(fv.kind)),
                ("function"@, function_json(fv.function)),
            ]);
            extend_fields(&mut outer, unknown_fields);
            JsonNode::Object(outer)
        },
        ToolCall::Other(v) => v,
    }
}

/// Reads a function call back from JSON.
pub fn function_from_json(v: JsonNode) -> (r: Option<FunctionCall>)
    ensures
        match function_of_json(v@) {
            Some(f) => r matches Some(g) && g@ == f,
            None => r is None,
        },
{
    match v {
        JsonNode::Object(fs) => {
            let mut fs = fs;
            proof {
                reveal_strlit("arguments");
                reveal_strlit("name");
                assert("arguments"@.len() != "name"@.len());
                lemma_fget_fremove(fields_view(fs@), "arguments"@, "name"@);
            }
            let a = take_string(&mut fs, "arguments");
            let n = take_string(&mut fs, "name");
            match (a, n) {
                (Some(arguments), Some(name)) => Some(
                    FunctionCall { arguments, name, unknown_fields: fs },
                ),
                _ => None,
            }
        },
        _ => None,
    }
}

/// Reads a tool call back from JSON, as [`tool_call_of_json`] says.
pub fn tool_call_from_json(v: JsonNode) -> (r: Option<ToolCall>)
    ensures
        match tool_call_of_json(v@) {
            Some(c) => r matches Some(d) && d@ == c,
            None => r is None,
        },
{
    let kind: Option<String> = match &v {
        JsonNode::Object(fs) => match get_field(fs, "type") {
            Some(JsonNode::Str(t)) => Some(t.clone()),
            _ => None,
        },
        _ => None,
    };
    match kind {
        None => None,
        Some(t) => {
            if !text_eq(t.as_str(), "function") {
                return Some(ToolCall::Other(v));
            }
            match v {
                JsonNode::Object(fs) => {
                    let mut fs = fs;
                    proof {
                        reveal_strlit("id");
                        reveal_strlit("type");
                        reveal_strlit("function");
                        assert("id"@.len() != "type"@.len());
                        assert("id"@.len() != "function"@.len());
                        assert("type"@.len() != "function"@.len());
                        lemma_fget_fremove(fields_view(fs@), "id"@, "function"@);
                        lemma_fget_fremove(fremove(fields_view(fs@), "id"@), "type"@, "function"@);
                    }
                    let id = take_string(&mut fs, "id");
                    let _ = take_field(&mut fs, "type");
                    let f = take_field(&mut fs, "function");
                    match (id, f) {
                        (Some(id), Some(fv)) => match function_from_json(fv) {
                            Some(function) => Some(
                                ToolCall::Function(
                                    FunctionToolCall { id, kind: t, function, unknown_fields: fs },
                                ),
                            ),
                            None => None,
                        },
                        _ => None,
                    }
                },
                _ => None,
            }
        },
    }
}

// ------------------------------------------------------------ token counts

/// A count member as serde reads it into an `Option<u64>`: absent or null is
/// `None`, a numeral that fits is the count, and anything else fails.
pub open spec fn count_of(o: Option<JsonView>) -> Option<Option<u64>> {
    match o {
        None => Some(None),
        Some(JsonView::Null) => Some(None),
        Some(JsonView::Number(t)) => match digits_u64(t) {
            Some(n) => Some(Some(n)),
            None => None,
        },
        _ => None,
    }
}

/// Prompt-token details read from an object's members.
pub open spec fn prompt_details_of(fs: FieldsView) -> Option<PromptTokensDetailsView> {
    match (count_of(fget(fs, "cached_tokens"@)), count_of(fget(fs, "cache_write_tokens"@))) {
        (Some(c), Some(w)) => Some(
            PromptTokensDetailsView {
                cached_tokens: c,
                cache_write_tokens: w,
                unknown_fields: fremove(fremove(fs, "cached_tokens"@), "cache_write_tokens"@),
            },
        ),
        _ => None,
    }
}

/// Completion-token details read from an object's members.
pub open spec fn completion_details_of(fs: FieldsView) -> Option<CompletionTokensDetailsView> {
    match count_of(fget(fs, "reasoning_tokens"@)) {
        Some(r) => Some(
            CompletionTokensDetailsView {
                reasoning_tokens: r,
                unknown_fields: fremove(fs, "reasoning_tokens"@),
            },
        ),
        None => None,
    }
}

fn take_count(fs: &mut Fields, k: &str) -> (r: Option<Option<u64>>)
    ensures
        fields_view(final(fs)@) == fremove(fields_view(old(fs)@), k@),
        r == count_of(fget(fields_view(old(fs)@), k@)),
{
    match take_field(fs, k) {
        None => Some(None),
        Some(JsonNode::Null) => Some(None),
        Some(JsonNode::Number(t)) => {
            let cs = chars_of(t.as_str());
            match parse_digits(cs.as_slice()) {
                Some(n) => Some(Some(n)),
                None => None,
            }
        },
        _ => None,
    }
}

/// Reads prompt-token details from an object's members.
pub fn prompt_details_from(fs: Fields) -> (r: Option<PromptTokensDetails>)
    ensures
        match prompt_details_of(fields_view(fs@)) {
            Some(d) => r matches Some(e) && e@ == d,
            None => r is None,
        },
{
    let mut fs = fs;
    proof {
        reveal_strlit("cached_tokens");
        reveal_strlit("cache_write_tokens");
        assert("cached_tokens"@.len() != "cache_write_tokens"@.len());
        lemma_fget_fremove(fields_view(fs@), "cached_tokens"@, "cache_write_tokens"@);
    }
    let c = take_count(&mut fs, "cached_tokens");
    let w = take_count(&mut fs, "cache_write_tokens");
    match (c, w) {
        (Some(cached_tokens), Some(cache_write_tokens)) => Some(
            PromptTokensDetails { cached_tokens, cache_write_tokens, unknown_fields: fs },
        ),
        _ => None,
    }
}

/// Reads completion-token details from an object's members.
pub fn completion_details_from(fs: Fields) -> (r: Option<CompletionTokensDetails>)
    ensures
        match completion_details_of(fields_view(fs@)) {
            Some(d) => r matches Some(e) && e@ == d,
            None => r is None,
        },
{
    let mut fs = fs;
    match take_count(&mut fs, "reasoning_tokens") {
        Some(reasoning_tokens) => Some(CompletionTokensDetails { reasoning_tokens, unknown_fields: fs }),
        None => None,
    }
}

} // verus!
