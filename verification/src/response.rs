//! Response conversions between the OpenAI-compatible wire shape and the
//! normalized one. Ingest keeps everything: the dialect's own fields
//! (`object`, `service_tier`, a choice's `index`, `refusal`, ...) and every
//! unknown member ride the `openai_compat` namespace of `ext` at their
//! nesting level. Render restores them from there, overlaid by the target
//! provider's own namespace.

use vstd::prelude::*;

use crate::json::{
    copy_fields, copy_node, extend_fields, fextend, fget, fields_view, finsert, fremove,
    get_field, insert_field, lemma_members_push, lemma_members_view, opt_json, take_field,
    take_string, unique_keys, Fields, FieldsView, JsonNode, JsonView,
};
use crate::normalized::{
    blocks_view, finish_reason_of, role_from_wire, role_name, role_of_wire, role_to_wire,
    ChatResponse, ChatResponseView, Completion, CompletionView, ContentBlock, ContentBlockView,
    FinishReason, Message, MessageView, RawJson, Usage, UsageView,
};
use crate::text::{chars_of, decimal, decimal_of, digits_u64, join2, owned, parse_digits, text_eq};
use crate::wire::{
    FunctionCallView, FunctionToolCallView, calls_view, opt_fields, opt_items, count_of, function_json, function_of_json,
    CompletionTokensDetailsView, PromptTokensDetailsView, completion_details_from, completion_details_of, prompt_details_from,
    prompt_details_of, str_view, tool_call_from_json, tool_call_json, tool_call_of_json,
    tool_call_to_json, ChatCompletionResponseMessage, ChatCompletionResponseMessageView, Choice,
    ChoiceView, CompletionUsage, CompletionUsageView,
    CreateChatCompletionResponse, CreateChatCompletionResponseView, FunctionCall,
    FunctionToolCall, ToolCall, ToolCallView,
};

verus! {

// ------------------------------------------------------------ ext bags

/// The passthrough bag ingest builds: the dialect's residue under its
/// namespace, or nothing when there is none.
pub open spec fn namespaced_spec(compat: FieldsView) -> FieldsView {
    if compat.len() == 0 {
        Seq::empty()
    } else {
        seq![("openai_compat"@, JsonView::Object(compat))]
    }
}

/// The members of an object, or none.
pub open spec fn object_members(o: Option<JsonView>) -> FieldsView {
    match o {
        Some(JsonView::Object(fs)) => fs,
        _ => Seq::empty(),
    }
}

/// The bags a render to `provider` reads: the dialect's namespace, overlaid
/// by the provider's own; any other provider's namespace is ignored.
pub open spec fn merged_ext_spec(ext: FieldsView, provider: Seq<char>) -> FieldsView {
    fextend(
        fextend(Seq::empty(), object_members(fget(ext, "openai_compat"@))),
        object_members(fget(ext, provider)),
    )
}

/// `fs` with `(k, v)` added when there is a `v`.
pub open spec fn push_opt(fs: FieldsView, k: Seq<char>, o: Option<JsonView>) -> FieldsView {
    match o {
        Some(v) => fs.push((k, v)),
        None => fs,
    }
}

/// A string as JSON, when there is one.
pub open spec fn str_json(o: Option<Seq<char>>) -> Option<JsonView> {
    match o {
        Some(s) => Some(JsonView::Str(s)),
        None => None,
    }
}

/// The text of a member when it is a string.
pub open spec fn str_of(o: Option<JsonView>) -> Option<Seq<char>> {
    match o {
        Some(JsonView::Str(s)) => Some(s),
        _ => None,
    }
}

/// An array's items as JSON, when there are any.
pub open spec fn as_array(o: Option<Seq<JsonView>>) -> Option<JsonView> {
    match o {
        Some(items) => Some(JsonView::Array(items)),
        None => None,
    }
}

/// An object's members as JSON, when there are any.
pub open spec fn as_object(o: Option<FieldsView>) -> Option<JsonView> {
    match o {
        Some(fs) => Some(JsonView::Object(fs)),
        None => None,
    }
}

/// The items of a member when it is an array; a value of any other kind is
/// not one, and is dropped.
pub open spec fn array_of(o: Option<JsonView>) -> Option<Seq<JsonView>> {
    match o {
        Some(JsonView::Array(items)) => Some(items),
        _ => None,
    }
}

/// The members of a member when it is an object; a value of any other kind
/// is not one, and is dropped.
pub open spec fn object_of(o: Option<JsonView>) -> Option<FieldsView> {
    match o {
        Some(JsonView::Object(fs)) => Some(fs),
        _ => None,
    }
}

fn array_node(o: Option<Vec<JsonNode>>) -> (r: Option<JsonNode>)
    ensures
        opt_json(r) == as_array(opt_items(o)),
{
    match o {
        Some(items) => Some(JsonNode::Array(items)),
        None => None,
    }
}

fn object_node(o: Option<Fields>) -> (r: Option<JsonNode>)
    ensures
        opt_json(r) == as_object(opt_fields(o)),
{
    match o {
        Some(fs) => Some(JsonNode::Object(fs)),
        None => None,
    }
}

fn take_array(fs: &mut Fields, k: &str) -> (r: Option<Vec<JsonNode>>)
    ensures
        fields_view(final(fs)@) == fremove(fields_view(old(fs)@), k@),
        opt_items(r) == array_of(fget(fields_view(old(fs)@), k@)),
{
    match take_field(fs, k) {
        Some(JsonNode::Array(items)) => Some(items),
        _ => None,
    }
}

fn take_object(fs: &mut Fields, k: &str) -> (r: Option<Fields>)
    ensures
        fields_view(final(fs)@) == fremove(fields_view(old(fs)@), k@),
        opt_fields(r) == object_of(fget(fields_view(old(fs)@), k@)),
{
    match take_field(fs, k) {
        Some(JsonNode::Object(members)) => Some(members),
        _ => None,
    }
}

/// Builds the bag for a residue.
pub fn namespaced(compat: Fields) -> (r: Fields)
    ensures
        fields_view(r@) == namespaced_spec(fields_view(compat@)),
{
    proof {
        lemma_members_view(compat@);
    }
    let mut r: Fields = Vec::new();
    if compat.len() > 0 {
        let k = owned("openai_compat");
        let v = JsonNode::Object(compat);
        proof {
            lemma_members_push(r@, k, v);
        }
        r.push((k, v));
        assert(fields_view(r@) =~= namespaced_spec(fields_view(compat@)));
    }
    r
}

/// Flattens the bags relevant to a render to `provider`.
pub fn merged_ext(ext: &Fields, provider: &str) -> (r: Fields)
    ensures
        fields_view(r@) == merged_ext_spec(fields_view(ext@), provider@),
{
    let mut merged: Fields = Vec::new();
    assert(fields_view(merged@) =~= Seq::<(Seq<char>, JsonView)>::empty());
    match get_field(ext, "openai_compat") {
        Some(JsonNode::Object(fs)) => extend_fields(&mut merged, copy_fields(fs)),
        _ => {
            assert(fextend(Seq::empty(), Seq::empty()) == Seq::<(Seq<char>, JsonView)>::empty());
        },
    }
    match get_field(ext, provider) {
        Some(JsonNode::Object(fs)) => extend_fields(&mut merged, copy_fields(fs)),
        _ => {
            let ghost m = fields_view(merged@);
            assert(fextend(m, Seq::empty()) == m);
        },
    }
    merged
}

fn push_node(fs: &mut Fields, k: &str, o: Option<JsonNode>)
    ensures
        fields_view(final(fs)@) == push_opt(fields_view(old(fs)@), k@, opt_json(o)),
{
    match o {
        Some(v) => {
            let key = owned(k);
            proof {
                lemma_members_push(fs@, key, v);
            }
            fs.push((key, v));
        },
        None => {},
    }
}

fn push_text(fs: &mut Fields, k: &str, o: Option<String>)
    ensures
        fields_view(final(fs)@) == push_opt(fields_view(old(fs)@), k@, str_json(str_view(o))),
{
    match o {
        Some(s) => push_node(fs, k, Some(JsonNode::Str(s))),
        None => {},
    }
}

// ----------------------------------------------------------------- ingest

/// The block a wire tool call becomes: a plain function call (kind
/// `function`, no unknown members at either level) is a typed tool-call
/// block; anything else passes through as its JSON, verbatim.
pub open spec fn ingest_tool_call_spec(c: ToolCallView) -> ContentBlockView {
    match c {
        ToolCallView::Function(f) => if f.kind == "function"@ && f.unknown_fields.len() == 0
            && f.function.unknown_fields.len() == 0 {
            ContentBlockView::ToolCall {
                id: f.id,
                name: f.function.name,
                arguments: f.function.arguments,
            }
        } else {
            ContentBlockView::Unknown(tool_call_json(c))
        },
        ToolCallView::Other(_) => ContentBlockView::Unknown(tool_call_json(c)),
    }
}

/// The residue a stash of optional members leaves: each present member, in
/// order.
pub open spec fn stash(slots: Seq<(Seq<char>, Option<JsonView>)>) -> FieldsView
    decreases slots.len(),
{
    if slots.len() == 0 {
        Seq::empty()
    } else {
        push_opt(stash(slots.drop_last()), slots.last().0, slots.last().1)
    }
}

/// The members a message's ingest stashes ahead of its unknown ones.
pub open spec fn message_slots(m: ChatCompletionResponseMessageView) -> Seq<(Seq<char>, Option<JsonView>)> {
    seq![
        ("role"@, str_json(role_of_wire(m.role).1)),
        ("refusal"@, str_json(m.refusal)),
        ("annotations"@, as_array(m.annotations)),
        ("audio"@, as_object(m.audio)),
        ("function_call"@, as_object(m.function_call)),
        ("tool_calls"@, match m.tool_calls {
            Some(calls) => if calls.len() == 0 {
                Some(JsonView::Array(Seq::empty()))
            } else {
                None
            },
            None => None,
        }),
    ]
}

/// The message a wire message becomes. An empty `tool_calls` is told apart
/// from an absent one by a stashed empty array.
pub open spec fn ingest_message_spec(m: ChatCompletionResponseMessageView) -> MessageView {
    let texts = match m.content {
        Some(t) => seq![ContentBlockView::Text { text: t }],
        None => Seq::empty(),
    };
    let blocks = match m.tool_calls {
        Some(calls) => texts + calls.map_values(|c: ToolCallView| ingest_tool_call_spec(c)),
        None => texts,
    };
    MessageView {
        role: role_of_wire(m.role).0,
        content: blocks,
        ext: namespaced_spec(fextend(stash(message_slots(m)), m.unknown_fields)),
    }
}

/// The members a choice's ingest stashes ahead of its unknown ones.
pub open spec fn choice_slots(c: ChoiceView) -> Seq<(Seq<char>, Option<JsonView>)> {
    seq![
        ("index"@, Some(JsonView::Number(decimal(c.index as nat)))),
        ("logprobs"@, as_object(c.logprobs)),
    ]
}

/// The completion a wire choice becomes.
pub open spec fn ingest_choice_spec(c: ChoiceView) -> CompletionView {
    CompletionView {
        message: ingest_message_spec(c.message),
        finish_reason: finish_reason_of(c.finish_reason),
        finish_reason_raw: c.finish_reason,
        ext: namespaced_spec(fextend(stash(choice_slots(c)), c.unknown_fields)),
    }
}

/// The members usage's ingest stashes ahead of its unknown ones: the residue
/// of each details object that was present, empty or not.
pub open spec fn usage_slots(u: CompletionUsageView) -> Seq<(Seq<char>, Option<JsonView>)> {
    seq![
        ("prompt_tokens_details"@, match u.prompt_tokens_details {
            Some(d) => Some(JsonView::Object(d.unknown_fields)),
            None => None,
        }),
        ("completion_tokens_details"@, match u.completion_tokens_details {
            Some(d) => Some(JsonView::Object(d.unknown_fields)),
            None => None,
        }),
    ]
}

/// The usage wire token accounting becomes.
pub open spec fn ingest_usage_spec(u: CompletionUsageView) -> UsageView {
    UsageView {
        input_tokens: Some(u.prompt_tokens as u64),
        output_tokens: Some(u.completion_tokens as u64),
        total_tokens: Some(u.total_tokens as u64),
        reasoning_tokens: match u.completion_tokens_details {
            Some(d) => d.reasoning_tokens,
            None => None,
        },
        cache_read_tokens: match u.prompt_tokens_details {
            Some(d) => d.cached_tokens,
            None => None,
        },
        cache_write_tokens: match u.prompt_tokens_details {
            Some(d) => d.cache_write_tokens,
            None => None,
        },
        ext: namespaced_spec(fextend(stash(usage_slots(u)), u.unknown_fields)),
    }
}

/// The members a response's ingest stashes ahead of its unknown ones.
pub open spec fn response_slots(w: CreateChatCompletionResponseView) -> Seq<(Seq<char>, Option<JsonView>)> {
    seq![
        ("object"@, Some(JsonView::Str(w.object))),
        ("moderation"@, as_object(w.moderation)),
        ("service_tier"@, str_json(w.service_tier)),
        ("system_fingerprint"@, str_json(w.system_fingerprint)),
    ]
}

/// The normalized response a wire response becomes.
pub open spec fn ingest_response_spec(w: CreateChatCompletionResponseView) -> ChatResponseView {
    ChatResponseView {
        id: w.id,
        model: w.model,
        created: Some(w.created),
        completions: w.choices.map_values(|c: ChoiceView| ingest_choice_spec(c)),
        usage: match w.usage {
            Some(u) => Some(ingest_usage_spec(u)),
            None => None,
        },
        ext: namespaced_spec(fextend(stash(response_slots(w)), w.unknown_fields)),
    }
}

/// The residue built one optional member at a time is the stash of those
/// members.
proof fn lemma_stash_push(slots: Seq<(Seq<char>, Option<JsonView>)>, x: (Seq<char>, Option<JsonView>))
    ensures
        stash(slots.push(x)) == push_opt(stash(slots), x.0, x.1),
{
    assert(slots.push(x).drop_last() =~= slots);
}

/// Converts a wire tool call into a content block.
pub fn ingest_tool_call(call: ToolCall) -> (r: ContentBlock)
    ensures
        r@ == ingest_tool_call_spec(call@),
{
    let plain = match &call {
        ToolCall::Function(f) => {
            proof {
                lemma_members_view(f.unknown_fields@);
                lemma_members_view(f.function.unknown_fields@);
            }
            text_eq(f.kind.as_str(), "function") && f.unknown_fields.len() == 0
                && f.function.unknown_fields.len() == 0
        },
        ToolCall::Other(_) => false,
    };
    if plain {
        match call {
            ToolCall::Function(f) => ContentBlock::ToolCall {
                id: f.id,
                name: f.function.name,
                arguments: RawJson::new(f.function.arguments),
            },
            ToolCall::Other(v) => ContentBlock::Unknown(v),
        }
    } else {
        ContentBlock::Unknown(tool_call_to_json(call))
    }
}

/// Converts a wire message into a normalized message.
pub fn ingest_message(message: ChatCompletionResponseMessage) -> (r: Message)
    ensures
        r@ == ingest_message_spec(message@),
{
    let ghost mv = message@;
    let ghost slots = message_slots(mv);
    let ChatCompletionResponseMessage {
        content,
        refusal,
        role,
        annotations,
        audio,
        function_call,
        tool_calls,
        unknown_fields,
    } = message;
    let (role, raw_role) = role_from_wire(role);
    let mut compat: Fields = Vec::new();
    let empty_calls = match &tool_calls {
        Some(calls) => calls.len() == 0,
        None => false,
    };
    let stashed = if empty_calls {
        Some(JsonNode::Array(Vec::new()))
    } else {
        None
    };
    proof {
        let e: Seq<(Seq<char>, Option<JsonView>)> = Seq::empty();
        assert(slots =~= e.push(slots[0]).push(slots[1]).push(slots[2]).push(slots[3]).push(slots[4]).push(
            slots[5],
        ));
        lemma_stash_push(e, slots[0]);
        lemma_stash_push(e.push(slots[0]), slots[1]);
        lemma_stash_push(e.push(slots[0]).push(slots[1]), slots[2]);
        lemma_stash_push(e.push(slots[0]).push(slots[1]).push(slots[2]), slots[3]);
        lemma_stash_push(e.push(slots[0]).push(slots[1]).push(slots[2]).push(slots[3]), slots[4]);
        lemma_stash_push(e.push(slots[0]).push(slots[1]).push(slots[2]).push(slots[3]).push(slots[4]), slots[5]);
        assert(fields_view(compat@) =~= stash(e));
        if empty_calls {
            assert(opt_json(stashed) == Some(JsonView::Array(Seq::empty()))) by {
                assert(crate::json::nodes_view(Seq::<JsonNode>::empty()) =~= Seq::<JsonView>::empty());
            }
        }
    }
    push_text(&mut compat, "role", raw_role);
    push_text(&mut compat, "refusal", refusal);
    push_node(&mut compat, "annotations", array_node(annotations));
    push_node(&mut compat, "audio", object_node(audio));
    push_node(&mut compat, "function_call", object_node(function_call));
    push_node(&mut compat, "tool_calls", stashed);
    assert(fields_view(compat@) == stash(slots));
    let mut blocks: Vec<ContentBlock> = Vec::new();
    match content {
        Some(text) => blocks.push(ContentBlock::Text { text }),
        None => {},
    }
    let ghost texts = blocks_view(blocks@);
    assert(texts =~= match mv.content {
        Some(t) => seq![ContentBlockView::Text { text: t }],
        None => Seq::<ContentBlockView>::empty(),
    });
    match tool_calls {
        Some(calls) => {
            let ghost all = calls_view(calls@);
            let mut calls = calls;
            let mut j: usize = 0;
            let n = calls.len();
            let ghost orig = calls@;
            assert(orig.skip(0) =~= orig);
            assert(blocks_view(blocks@) =~= texts + all.take(0).map_values(
                |c: ToolCallView| ingest_tool_call_spec(c),
            ));
            while calls.len() > 0
                invariant
                    j + calls@.len() == n,
                    orig.len() == n,
                    all == calls_view(orig),
                    calls@ == orig.skip(j as int),
                    blocks_view(blocks@) == texts + all.take(j as int).map_values(
                        |c: ToolCallView| ingest_tool_call_spec(c),
                    ),
                decreases calls.len(),
            {
                let c = calls.remove(0);
                assert(c == orig[j as int]);
                assert(calls@ =~= orig.skip(j as int + 1));
                let b = ingest_tool_call(c);
                let ghost before = blocks@;
                blocks.push(b);
                assert(blocks_view(blocks@) =~= blocks_view(before).push(b@));
                assert(all.take(j as int + 1).map_values(
                    |c: ToolCallView| ingest_tool_call_spec(c),
                ) =~= all.take(j as int).map_values(|c: ToolCallView| ingest_tool_call_spec(c)).push(
                    ingest_tool_call_spec(all[j as int]),
                ));
                j = j + 1;
            }
            assert(all.take(j as int) =~= all);
        },
        None => {},
    }
    extend_fields(&mut compat, unknown_fields);
    Message { role, content: blocks, ext: namespaced(compat) }
}

/// Converts a wire choice into a completion.
pub fn ingest_choice(choice: Choice) -> (r: Completion)
    ensures
        r@ == ingest_choice_spec(choice@),
{
    let ghost slots = choice_slots(choice@);
    let Choice { finish_reason, index, logprobs, message, unknown_fields } = choice;
    let mut compat: Fields = Vec::new();
    proof {
        let e: Seq<(Seq<char>, Option<JsonView>)> = Seq::empty();
        assert(slots =~= e.push(slots[0]).push(slots[1]));
        lemma_stash_push(e, slots[0]);
        lemma_stash_push(e.push(slots[0]), slots[1]);
        assert(stash(e) =~= Seq::<(Seq<char>, JsonView)>::empty());
    }
    let k = owned("index");
    let v = JsonNode::Number(decimal_of(index as u64));
    proof {
        lemma_members_push(compat@, k, v);
    }
    compat.push((k, v));
    assert(fields_view(compat@) =~= seq![("index"@, JsonView::Number(decimal(index as nat)))]);
    push_node(&mut compat, "logprobs", object_node(logprobs));
    assert(fields_view(compat@) == stash(slots));
    extend_fields(&mut compat, unknown_fields);
    let reason = FinishReason::from_raw(finish_reason.as_str());
    Completion {
        message: ingest_message(message),
        finish_reason: reason,
        finish_reason_raw: finish_reason,
        ext: namespaced(compat),
    }
}

/// Converts wire token accounting into normalized usage.
pub fn ingest_usage(usage: CompletionUsage) -> (r: Usage)
    ensures
        r@ == ingest_usage_spec(usage@),
{
    let ghost uv = usage@;
    let ghost slots = usage_slots(uv);
    proof {
        let e: Seq<(Seq<char>, Option<JsonView>)> = Seq::empty();
        assert(slots =~= e.push(slots[0]).push(slots[1]));
        lemma_stash_push(e, slots[0]);
        lemma_stash_push(e.push(slots[0]), slots[1]);
        assert(stash(e) =~= Seq::<(Seq<char>, JsonView)>::empty());
    }
    let CompletionUsage {
        completion_tokens,
        prompt_tokens,
        total_tokens,
        completion_tokens_details,
        prompt_tokens_details,
        unknown_fields,
    } = usage;
    let mut compat: Fields = Vec::new();
    assert(fields_view(compat@) =~= Seq::<(Seq<char>, JsonView)>::empty());
    let mut cache_read_tokens: Option<u64> = None;
    let mut cache_write_tokens: Option<u64> = None;
    let mut reasoning_tokens: Option<u64> = None;
    match prompt_tokens_details {
        Some(d) => {
            cache_read_tokens = d.cached_tokens;
            cache_write_tokens = d.cache_write_tokens;
            push_node(&mut compat, "prompt_tokens_details", Some(JsonNode::Object(d.unknown_fields)));
        },
        None => {
            push_node(&mut compat, "prompt_tokens_details", None);
        },
    }
    match completion_tokens_details {
        Some(d) => {
            reasoning_tokens = d.reasoning_tokens;
            push_node(
                &mut compat,
                "completion_tokens_details",
                Some(JsonNode::Object(d.unknown_fields)),
            );
        },
        None => {
            push_node(&mut compat, "completion_tokens_details", None);
        },
    }
    assert(fields_view(compat@) == stash(slots));
    extend_fields(&mut compat, unknown_fields);
    Usage {
        input_tokens: Some(prompt_tokens as u64),
        output_tokens: Some(completion_tokens as u64),
        total_tokens: Some(total_tokens as u64),
        reasoning_tokens,
        cache_read_tokens,
        cache_write_tokens,
        ext: namespaced(compat),
    }
}

/// Converts a wire response into the normalized response. Infallible: every
/// field lands somewhere.
pub fn ingest_response(response: CreateChatCompletionResponse) -> (r: ChatResponse)
    ensures
        r@ == ingest_response_spec(response@),
{
    let ghost wv = response@;
    let ghost slots = response_slots(wv);
    proof {
        let e: Seq<(Seq<char>, Option<JsonView>)> = Seq::empty();
        assert(slots =~= e.push(slots[0]).push(slots[1]).push(slots[2]).push(slots[3]));
        lemma_stash_push(e, slots[0]);
        lemma_stash_push(e.push(slots[0]), slots[1]);
        lemma_stash_push(e.push(slots[0]).push(slots[1]), slots[2]);
        lemma_stash_push(e.push(slots[0]).push(slots[1]).push(slots[2]), slots[3]);
        assert(stash(e) =~= Seq::<(Seq<char>, JsonView)>::empty());
    }
    let CreateChatCompletionResponse {
        id,
        choices,
        created,
        model,
        object,
        moderation,
        service_tier,
        system_fingerprint,
        usage,
        unknown_fields,
    } = response;
    let mut compat: Fields = Vec::new();
    let k = owned("object");
    let v = JsonNode::Str(object);
    proof {
        lemma_members_push(compat@, k, v);
    }
    compat.push((k, v));
    assert(fields_view(compat@) =~= seq![("object"@, JsonView::Str(wv.object))]);
    push_node(&mut compat, "moderation", object_node(moderation));
    push_text(&mut compat, "service_tier", service_tier);
    push_text(&mut compat, "system_fingerprint", system_fingerprint);
    assert(fields_view(compat@) == stash(slots));
    extend_fields(&mut compat, unknown_fields);
    let ghost orig = choices@;
    let mut choices = choices;
    let mut completions: Vec<Completion> = Vec::new();
    let mut j: usize = 0;
    let n = choices.len();
    assert(orig.skip(0) =~= orig);
    while choices.len() > 0
        invariant
            j + choices@.len() == n,
            orig.len() == n,
            choices@ == orig.skip(j as int),
            completions@.len() == j,
            forall|m: int| 0 <= m < j ==> (#[trigger] completions@[m])@ == ingest_choice_spec(orig[m]@),
        decreases choices.len(),
    {
        let c = choices.remove(0);
        assert(c == orig[j as int]);
        assert(choices@ =~= orig.skip(j as int + 1));
        completions.push(ingest_choice(c));
        j = j + 1;
    }
    let converted = match usage {
        Some(u) => Some(ingest_usage(u)),
        None => None,
    };
    let r = ChatResponse {
        id,
        model,
        created: Some(created),
        completions,
        usage: converted,
        ext: namespaced(compat),
    };
    assert(r@.completions =~= wv.choices.map_values(|c: ChoiceView| ingest_choice_spec(c)));
    r
}

// ----------------------------------------------------------------- render

/// The texts of a message's text blocks, in order.
pub open spec fn texts_of(bs: Seq<ContentBlockView>) -> Seq<Seq<char>>
    decreases bs.len(),
{
    if bs.len() == 0 {
        Seq::empty()
    } else {
        let r = texts_of(bs.drop_last());
        match bs.last() {
            ContentBlockView::Text { text } => r.push(text),
            _ => r,
        }
    }
}

/// The wire tool call a typed tool-call block renders as.
pub open spec fn plain_call(id: Seq<char>, name: Seq<char>, arguments: Seq<char>) -> ToolCallView {
    ToolCallView::Function(
        FunctionToolCallView {
            id: id,
            kind: "function"@,
            function: FunctionCallView { arguments: arguments, name: name, unknown_fields: Seq::empty() },
            unknown_fields: Seq::empty(),
        },
    )
}

/// The tool calls a message's blocks render as, in order: typed tool-call
/// blocks, and passthrough blocks that read as a tool call. Other blocks
/// have no rendering in this dialect.
pub open spec fn calls_of(bs: Seq<ContentBlockView>) -> Seq<ToolCallView>
    decreases bs.len(),
{
    if bs.len() == 0 {
        Seq::empty()
    } else {
        let r = calls_of(bs.drop_last());
        match bs.last() {
            ContentBlockView::ToolCall { id, name, arguments } => r.push(plain_call(id, name, arguments)),
            ContentBlockView::Unknown(v) => match tool_call_of_json(v) {
                Some(c) => r.push(c),
                None => r,
            },
            ContentBlockView::Text { .. } => r,
        }
    }
}

/// Texts joined by newlines.
pub open spec fn join_lines(ts: Seq<Seq<char>>) -> Seq<char>
    decreases ts.len(),
{
    if ts.len() == 0 {
        Seq::empty()
    } else if ts.len() == 1 {
        ts[0]
    } else {
        join_lines(ts.drop_last()) + seq!['\n'] + ts.last()
    }
}

/// The wire message a normalized message renders as for `provider`.
pub open spec fn render_message_spec(m: MessageView, provider: Seq<char>) -> ChatCompletionResponseMessageView {
    let merged = merged_ext_spec(m.ext, provider);
    let role = match fget(merged, "role"@) {
        Some(JsonView::Str(r)) => r,
        _ => role_name(m.role),
    };
    let u1 = fremove(merged, "role"@);
    let texts = texts_of(m.content);
    let calls = calls_of(m.content);
    let (tool_calls, u2) = if calls.len() > 0 {
        (Some(calls), fremove(u1, "tool_calls"@))
    } else {
        (None, u1)
    };
    let u3 = fremove(u2, "refusal"@);
    let u4 = fremove(u3, "annotations"@);
    let u5 = fremove(u4, "audio"@);
    ChatCompletionResponseMessageView {
        content: if texts.len() > 0 {
            Some(join_lines(texts))
        } else {
            None
        },
        refusal: str_of(fget(u2, "refusal"@)),
        role: role,
        annotations: array_of(fget(u3, "annotations"@)),
        audio: object_of(fget(u4, "audio"@)),
        function_call: object_of(fget(u5, "function_call"@)),
        tool_calls: tool_calls,
        unknown_fields: fremove(u5, "function_call"@),
    }
}

/// The wire choice a completion renders as, at `position` for `provider`.
pub open spec fn render_choice_spec(c: CompletionView, position: nat, provider: Seq<char>) -> ChoiceView {
    let merged = merged_ext_spec(c.ext, provider);
    let index: u64 = match fget(merged, "index"@) {
        Some(JsonView::Number(t)) => match digits_u64(t) {
            Some(n) => n,
            None => position as u64,
        },
        _ => position as u64,
    };
    let u1 = fremove(merged, "index"@);
    ChoiceView {
        finish_reason: c.finish_reason_raw,
        index: index as u32,
        logprobs: object_of(fget(u1, "logprobs"@)),
        message: render_message_spec(c.message, provider),
        unknown_fields: fremove(u1, "logprobs"@),
    }
}

/// `fs` with each lifted count that is present set to its numeral.
pub open spec fn put_lifted(fs: FieldsView, lifted: Seq<(Seq<char>, Option<u64>)>) -> FieldsView
    decreases lifted.len(),
{
    if lifted.len() == 0 {
        fs
    } else {
        let r = put_lifted(fs, lifted.drop_last());
        match lifted.last().1 {
            Some(n) => finsert(r, lifted.last().0, JsonView::Number(decimal(n as nat))),
            None => r,
        }
    }
}

/// A details object's members rebuilt from its residue and the counts lifted
/// out of it: there is one iff the residue was an object or a count is set.
pub open spec fn render_details_spec(residue: Option<JsonView>, lifted: Seq<(Seq<char>, Option<u64>)>) -> Option<FieldsView> {
    match residue {
        Some(JsonView::Object(fs)) => Some(put_lifted(fs, lifted)),
        _ => if forall|i: int| 0 <= i < lifted.len() ==> (#[trigger] lifted[i]).1 is None {
            None
        } else {
            Some(put_lifted(Seq::empty(), lifted))
        },
    }
}

pub open spec fn or_zero(o: Option<u64>) -> u64 {
    match o {
        Some(n) => n,
        None => 0,
    }
}

/// The wire token accounting normalized usage renders as for `provider`.
pub open spec fn render_usage_spec(u: UsageView, provider: Seq<char>) -> CompletionUsageView {
    let merged = merged_ext_spec(u.ext, provider);
    let prompt = match render_details_spec(
        fget(merged, "prompt_tokens_details"@),
        Seq::empty().push(("cached_tokens"@, u.cache_read_tokens)).push(
            ("cache_write_tokens"@, u.cache_write_tokens),
        ),
    ) {
        Some(fs) => prompt_details_of(fs),
        None => None,
    };
    let u1 = fremove(merged, "prompt_tokens_details"@);
    let completion = match render_details_spec(
        fget(u1, "completion_tokens_details"@),
        seq![("reasoning_tokens"@, u.reasoning_tokens)],
    ) {
        Some(fs) => completion_details_of(fs),
        None => None,
    };
    CompletionUsageView {
        completion_tokens: or_zero(u.output_tokens) as u32,
        prompt_tokens: or_zero(u.input_tokens) as u32,
        total_tokens: or_zero(u.total_tokens) as u32,
        completion_tokens_details: completion,
        prompt_tokens_details: prompt,
        unknown_fields: fremove(u1, "completion_tokens_details"@),
    }
}

/// The wire response a normalized response renders as for `provider`.
pub open spec fn render_response_spec(r: ChatResponseView, provider: Seq<char>) -> CreateChatCompletionResponseView {
    let merged = merged_ext_spec(r.ext, provider);
    let object = match fget(merged, "object"@) {
        Some(JsonView::Str(s)) => s,
        _ => "chat.completion"@,
    };
    let u1 = fremove(merged, "object"@);
    let u2 = fremove(u1, "moderation"@);
    let u3 = fremove(u2, "service_tier"@);
    CreateChatCompletionResponseView {
        id: r.id,
        choices: Seq::new(
            r.completions.len(),
            |i: int| render_choice_spec(r.completions[i], i as nat, provider),
        ),
        created: match r.created {
            Some(c) => c,
            None => 0,
        },
        model: r.model,
        object: object,
        moderation: object_of(fget(u1, "moderation"@)),
        service_tier: str_of(fget(u2, "service_tier"@)),
        system_fingerprint: str_of(fget(u3, "system_fingerprint"@)),
        usage: match r.usage {
            Some(u) => Some(render_usage_spec(u, provider)),
            None => None,
        },
        unknown_fields: fremove(u3, "system_fingerprint"@),
    }
}

fn join_texts(ts: &Vec<String>) -> (r: String)
    ensures
        r@ == join_lines(ts@.map_values(|s: String| s@)),
{
    let ghost tv = ts@.map_values(|s: String| s@);
    if ts.len() == 0 {
        return String::new();
    }
    let mut out = ts[0].clone();
    let mut i: usize = 1;
    assert(tv.take(1) =~= seq![tv[0]]);
    while i < ts.len()
        invariant
            1 <= i <= ts.len(),
            tv == ts@.map_values(|s: String| s@),
            out@ == join_lines(tv.take(i as int)),
        decreases ts.len() - i,
    {
        assert(tv.take(i + 1).drop_last() =~= tv.take(i as int));
        let line = join2(out.as_str(), "\n");
        out = join2(line.as_str(), ts[i].as_str());
        proof {
            reveal_strlit("\n");
        }
        assert(out@ =~= join_lines(tv.take(i as int)) + seq!['\n'] + tv[i as int]);
        i = i + 1;
    }
    assert(tv.take(i as int) =~= tv);
    out
}

/// Rebuilds a details object from its residue plus the counts lifted out of
/// it at ingest.
pub fn render_details(residue: Option<JsonNode>, lifted: Vec<(String, Option<u64>)>) -> (r: Option<Fields>)
    ensures
        match render_details_spec(opt_json(residue), lifted@.map_values(|p: (String, Option<u64>)| (p.0@, p.1))) {
            Some(fs) => r matches Some(g) && fields_view(g@) == fs,
            None => r is None,
        },
{
    let ghost lv = lifted@.map_values(|p: (String, Option<u64>)| (p.0@, p.1));
    let base: Option<Fields> = match residue {
        Some(JsonNode::Object(fs)) => Some(fs),
        _ => None,
    };
    if base.is_none() {
        let mut any = false;
        let mut i: usize = 0;
        while i < lifted.len()
            invariant
                i <= lifted.len(),
                lv == lifted@.map_values(|p: (String, Option<u64>)| (p.0@, p.1)),
                !any ==> forall|m: int| 0 <= m < i ==> (#[trigger] lv[m]).1 is None,
                any ==> exists|m: int| 0 <= m < lifted.len() && (#[trigger] lv[m]).1 is Some,
            decreases lifted.len() - i,
        {
            if lifted[i].1.is_some() {
                assert(lv[i as int].1 is Some);
                any = true;
            }
            i = i + 1;
        }
        if !any {
            return None;
        }
    }
    let mut fields: Fields = match base {
        Some(fs) => fs,
        None => Vec::new(),
    };
    let ghost start = fields_view(fields@);
    assert(start == match opt_json(residue) {
        Some(JsonView::Object(fs)) => fs,
        _ => Seq::<(Seq<char>, JsonView)>::empty(),
    });
    let mut i: usize = 0;
    assert(lv.take(0) =~= Seq::<(Seq<char>, Option<u64>)>::empty());
    while i < lifted.len()
        invariant
            i <= lifted.len(),
            lv == lifted@.map_values(|p: (String, Option<u64>)| (p.0@, p.1)),
            fields_view(fields@) == put_lifted(start, lv.take(i as int)),
        decreases lifted.len() - i,
    {
        assert(lv.take(i + 1).drop_last() =~= lv.take(i as int));
        assert(lv.take(i + 1).last() == lv[i as int]);
        match lifted[i].1 {
            Some(n) => {
                let k = lifted[i].0.clone();
                insert_field(&mut fields, k, JsonNode::Number(decimal_of(n)));
            },
            None => {},
        }
        i = i + 1;
    }
    assert(lv.take(i as int) =~= lv);
    Some(fields)
}

fn lifted_pair(k: &str, v: Option<u64>) -> (r: (String, Option<u64>))
    ensures
        r.0@ == k@,
        r.1 == v,
{
    (owned(k), v)
}

/// Renders normalized usage as wire token accounting for `provider`.
pub fn render_usage(usage: &Usage, provider: &str) -> (r: CompletionUsage)
    ensures
        r@ == render_usage_spec(usage@, provider@),
{
    let mut unknown = merged_ext(&usage.ext, provider);
    let pr = take_field(&mut unknown, "prompt_tokens_details");
    let mut lifted: Vec<(String, Option<u64>)> = Vec::new();
    lifted.push(lifted_pair("cached_tokens", usage.cache_read_tokens));
    lifted.push(lifted_pair("cache_write_tokens", usage.cache_write_tokens));
    assert(lifted@.map_values(|p: (String, Option<u64>)| (p.0@, p.1)) =~= Seq::empty().push(
        ("cached_tokens"@, usage.cache_read_tokens),
    ).push(("cache_write_tokens"@, usage.cache_write_tokens)));
    let prompt = match render_details(pr, lifted) {
        Some(fs) => prompt_details_from(fs),
        None => None,
    };
    let cr = take_field(&mut unknown, "completion_tokens_details");
    let mut lifted: Vec<(String, Option<u64>)> = Vec::new();
    lifted.push(lifted_pair("reasoning_tokens", usage.reasoning_tokens));
    assert(lifted@.map_values(|p: (String, Option<u64>)| (p.0@, p.1)) =~= seq![
        ("reasoning_tokens"@, usage.reasoning_tokens),
    ]);
    let completion = match render_details(cr, lifted) {
        Some(fs) => completion_details_from(fs),
        None => None,
    };
    let output = match usage.output_tokens {
        Some(n) => n,
        None => 0,
    };
    let input = match usage.input_tokens {
        Some(n) => n,
        None => 0,
    };
    let total = match usage.total_tokens {
        Some(n) => n,
        None => 0,
    };
    CompletionUsage {
        completion_tokens: output as u32,
        prompt_tokens: input as u32,
        total_tokens: total as u32,
        completion_tokens_details: completion,
        prompt_tokens_details: prompt,
        unknown_fields: unknown,
    }
}

/// Renders a normalized message as a wire message for `provider`. Texts join
/// with newlines; typed tool calls are authoritative over a stashed empty
/// `tool_calls`.
pub fn render_message(message: &Message, provider: &str) -> (r: ChatCompletionResponseMessage)
    ensures
        r@ == render_message_spec(message@, provider@),
{
    let ghost bs = blocks_view(message.content@);
    let mut unknown = merged_ext(&message.ext, provider);
    let role = match take_string(&mut unknown, "role") {
        Some(r) => r,
        None => owned(role_to_wire(message.role)),
    };
    let mut texts: Vec<String> = Vec::new();
    let mut calls: Vec<ToolCall> = Vec::new();
    let mut i: usize = 0;
    assert(bs.take(0) =~= Seq::<ContentBlockView>::empty());
    while i < message.content.len()
        invariant
            i <= message.content.len(),
            bs == blocks_view(message.content@),
            texts@.map_values(|s: String| s@) == texts_of(bs.take(i as int)),
            calls_view(calls@) == calls_of(bs.take(i as int)),
        decreases message.content.len() - i,
    {
        assert(bs.take(i + 1).drop_last() =~= bs.take(i as int));
        assert(bs.take(i + 1).last() == message.content@[i as int]@);
        let ghost tb = texts@;
        let ghost cb = calls@;
        match &message.content[i] {
            ContentBlock::Text { text } => {
                texts.push(text.clone());
                assert(texts@.map_values(|s: String| s@) =~= tb.map_values(|s: String| s@).push(text@));
            },
            ContentBlock::ToolCall { id, name, arguments } => {
                let none_inner: Fields = Vec::new();
                let none_outer: Fields = Vec::new();
                assert(fields_view(none_inner@) =~= Seq::<(Seq<char>, JsonView)>::empty());
                assert(fields_view(none_outer@) =~= Seq::<(Seq<char>, JsonView)>::empty());
                let call = ToolCall::Function(
                    FunctionToolCall {
                        id: id.clone(),
                        kind: owned("function"),
                        function: FunctionCall {
                            arguments: owned(arguments.as_str()),
                            name: name.clone(),
                            unknown_fields: none_inner,
                        },
                        unknown_fields: none_outer,
                    },
                );
                calls.push(call);
                assert(calls_view(calls@) =~= calls_view(cb).push(plain_call(id@, name@, arguments@)));
            },
            ContentBlock::Unknown(v) => {
                match tool_call_from_json(copy_node(v)) {
                    Some(c) => {
                        calls.push(c);
                        assert(calls_view(calls@) =~= calls_view(cb).push(c@));
                    },
                    None => {},
                }
            },
        }
        i = i + 1;
    }
    assert(bs.take(i as int) =~= bs);
    let tool_calls: Option<Vec<ToolCall>> = if calls.len() > 0 {
        let _ = take_field(&mut unknown, "tool_calls");
        Some(calls)
    } else {
        None
    };
    let content = if texts.len() > 0 {
        Some(join_texts(&texts))
    } else {
        None
    };
    let refusal = take_string(&mut unknown, "refusal");
    let annotations = take_array(&mut unknown, "annotations");
    let audio = take_object(&mut unknown, "audio");
    let function_call = take_object(&mut unknown, "function_call");
    ChatCompletionResponseMessage {
        content,
        refusal,
        role,
        annotations,
        audio,
        function_call,
        tool_calls,
        unknown_fields: unknown,
    }
}

/// Renders a completion as a wire choice at `position` for `provider`; the
/// stashed index wins over the position.
pub fn render_choice(completion: &Completion, position: usize, provider: &str) -> (r: Choice)
    ensures
        r@ == render_choice_spec(completion@, position as nat, provider@),
{
    let mut unknown = merged_ext(&completion.ext, provider);
    let index: u64 = match take_field(&mut unknown, "index") {
        Some(JsonNode::Number(t)) => {
            let cs = chars_of(t.as_str());
            match parse_digits(cs.as_slice()) {
                Some(n) => n,
                None => position as u64,
            }
        },
        _ => position as u64,
    };
    let logprobs = take_object(&mut unknown, "logprobs");
    Choice {
        finish_reason: completion.finish_reason_raw.clone(),
        index: index as u32,
        logprobs,
        message: render_message(&completion.message, provider),
        unknown_fields: unknown,
    }
}

/// Renders the normalized response as a wire response for `provider`.
/// Infallible: dialect fields restore from the bags, and a stashed value of
/// the wrong kind is dropped.
pub fn render_response(response: &ChatResponse, provider: &str) -> (r: CreateChatCompletionResponse)
    ensures
        r@ == render_response_spec(response@, provider@),
{
    let ghost rv = response@;
    let mut unknown = merged_ext(&response.ext, provider);
    let object = match take_string(&mut unknown, "object") {
        Some(s) => s,
        None => owned("chat.completion"),
    };
    let mut choices: Vec<Choice> = Vec::new();
    let mut i: usize = 0;
    while i < response.completions.len()
        invariant
            i <= response.completions.len(),
            rv == response@,
            choices@.len() == i,
            forall|m: int| 0 <= m < i ==> (#[trigger] choices@[m])@ == render_choice_spec(
                rv.completions[m],
                m as nat,
                provider@,
            ),
        decreases response.completions.len() - i,
    {
        choices.push(render_choice(&response.completions[i], i, provider));
        i = i + 1;
    }
    let created = match response.created {
        Some(c) => c,
        None => 0,
    };
    let moderation = take_object(&mut unknown, "moderation");
    let service_tier = take_string(&mut unknown, "service_tier");
    let system_fingerprint = take_string(&mut unknown, "system_fingerprint");
    let usage = match &response.usage {
        Some(u) => Some(render_usage(u, provider)),
        None => None,
    };
    let r = CreateChatCompletionResponse {
        id: response.id.clone(),
        choices,
        created,
        model: response.model.clone(),
        object,
        moderation,
        service_tier,
        system_fingerprint,
        usage,
        unknown_fields: unknown,
    };
    assert(r@.choices =~= Seq::new(
        rv.completions.len(),
        |m: int| render_choice_spec(rv.completions[m], m as nat, provider@),
    ));
    r
}

// ------------------------------------------------------------ round trip

/// A tool call as this dialect writes it: a function call of kind `function`
/// whose unknown members, at either level, are uniquely named and do not
/// reuse a typed member's name; or another kind of call, whose object has a
/// string `type` other than `function`.
pub open spec fn dialect_call(c: ToolCallView) -> bool {
    match c {
        ToolCallView::Function(f) => {
            &&& f.kind == "function"@
            &&& unique_keys(f.unknown_fields)
            &&& fget(f.unknown_fields, "id"@) is None
            &&& fget(f.unknown_fields, "type"@) is None
            &&& fget(f.unknown_fields, "function"@) is None
            &&& unique_keys(f.function.unknown_fields)
            &&& fget(f.function.unknown_fields, "arguments"@) is None
            &&& fget(f.function.unknown_fields, "name"@) is None
        },
        ToolCallView::Other(v) => match v {
            JsonView::Object(fs) => match fget(fs, "type"@) {
                Some(JsonView::Str(t)) => t != "function"@,
                _ => false,
            },
            _ => false,
        },
    }
}

/// A message as this dialect writes it: uniquely named unknown members that
/// reuse no typed member's name, and tool calls as [`dialect_call`] says.
pub open spec fn dialect_message(m: ChatCompletionResponseMessageView) -> bool {
    &&& unique_keys(m.unknown_fields)
    &&& fget(m.unknown_fields, "role"@) is None
    &&& fget(m.unknown_fields, "refusal"@) is None
    &&& fget(m.unknown_fields, "annotations"@) is None
    &&& fget(m.unknown_fields, "audio"@) is None
    &&& fget(m.unknown_fields, "function_call"@) is None
    &&& fget(m.unknown_fields, "tool_calls"@) is None
    &&& match m.tool_calls {
        Some(calls) => forall|i: int| 0 <= i < calls.len() ==> dialect_call(#[trigger] calls[i]),
        None => true,
    }
}

/// Token accounting as this dialect writes it.
pub open spec fn dialect_usage(u: CompletionUsageView) -> bool {
    &&& unique_keys(u.unknown_fields)
    &&& fget(u.unknown_fields, "prompt_tokens_details"@) is None
    &&& fget(u.unknown_fields, "completion_tokens_details"@) is None
    &&& match u.prompt_tokens_details {
        Some(d) => fget(d.unknown_fields, "cached_tokens"@) is None && fget(
            d.unknown_fields,
            "cache_write_tokens"@,
        ) is None,
        None => true,
    }
    &&& match u.completion_tokens_details {
        Some(d) => fget(d.unknown_fields, "reasoning_tokens"@) is None,
        None => true,
    }
}

/// A choice as this dialect writes it.
pub open spec fn dialect_choice(c: ChoiceView) -> bool {
    &&& unique_keys(c.unknown_fields)
    &&& fget(c.unknown_fields, "index"@) is None
    &&& fget(c.unknown_fields, "logprobs"@) is None
    &&& dialect_message(c.message)
}

/// A response as this dialect writes it: what serde reads from a JSON
/// object, whose members have unique names, into the wire types.
pub open spec fn dialect_response(w: CreateChatCompletionResponseView) -> bool {
    &&& unique_keys(w.unknown_fields)
    &&& fget(w.unknown_fields, "object"@) is None
    &&& fget(w.unknown_fields, "moderation"@) is None
    &&& fget(w.unknown_fields, "service_tier"@) is None
    &&& fget(w.unknown_fields, "system_fingerprint"@) is None
    &&& forall|i: int| 0 <= i < w.choices.len() ==> dialect_choice(#[trigger] w.choices[i])
    &&& match w.usage {
        Some(u) => dialect_usage(u),
        None => true,
    }
}

pub broadcast proof fn lemma_fget_push_opt(s: FieldsView, k: Seq<char>, o: Option<JsonView>, n: Seq<char>)
    ensures
        #[trigger] fget(push_opt(s, k, o), n) == match o {
            Some(v) => fget(s.push((k, v)), n),
            None => fget(s, n),
        },
{
}

pub broadcast proof fn lemma_fremove_push_opt(s: FieldsView, k: Seq<char>, o: Option<JsonView>, n: Seq<char>)
    ensures
        #[trigger] fremove(push_opt(s, k, o), n) == match o {
            Some(v) => fremove(s.push((k, v)), n),
            None => fremove(s, n),
        },
{
}

pub broadcast proof fn lemma_unique_push_opt(s: FieldsView, k: Seq<char>, o: Option<JsonView>)
    ensures
        #[trigger] unique_keys(push_opt(s, k, o)) == match o {
            Some(v) => unique_keys(s.push((k, v))),
            None => unique_keys(s),
        },
{
}

pub broadcast group group_stash {
    crate::json::group_fields,
    lemma_fget_push_opt,
    lemma_fremove_push_opt,
    lemma_unique_push_opt,
}

/// Reading a stash name from a stash followed by unknown members that lack
/// it reads the stash; removing it removes it from the stash alone.
proof fn lemma_strip(s: FieldsView, u: FieldsView, k: Seq<char>)
    requires
        fget(u, k) is None,
    ensures
        fget(s + u, k) == fget(s, k),
        fremove(s + u, k) == fremove(s, k) + u,
{
    crate::json::lemma_fget_append(s, u, k);
    crate::json::lemma_fremove_append(s, u, k);
    crate::json::lemma_absent(u, k);
}

proof fn lemma_unique_append(a: FieldsView, b: FieldsView)
    requires
        unique_keys(a),
        unique_keys(b),
        forall|k: Seq<char>| #[trigger] fget(a, k) is Some ==> fget(b, k) is None,
    ensures
        unique_keys(a + b),
    decreases b.len(),
{
    broadcast use crate::json::group_fields;
    if b.len() == 0 {
        assert(a + b =~= a);
    } else {
        let d = b.drop_last();
        let x = b.last();
        assert(b =~= d.push(x));
        assert forall|k: Seq<char>| #[trigger] fget(a, k) is Some implies fget(d, k) is None by {
            assert(fget(b, k) is None);
        }
        lemma_unique_append(a, d);
        crate::json::lemma_fget_append(a, d, x.0);
        if fget(a, x.0) is Some {
            assert(fget(b, x.0) is None);
        }
        assert((a + d).push(x) =~= a + b);
    }
}

/// A stash followed by disjoint unknown members: setting them appends them,
/// and the result has unique names.
proof fn lemma_stash(s: FieldsView, u: FieldsView)
    requires
        unique_keys(s),
        unique_keys(u),
        forall|k: Seq<char>| #[trigger] fget(s, k) is Some ==> fget(u, k) is None,
    ensures
        fextend(s, u) == s + u,
        unique_keys(s + u),
{
    crate::json::lemma_fextend_disjoint(s, u);
    lemma_unique_append(s, u);
}

/// What ingest puts under the namespace is what a render to any provider
/// reads back.
proof fn lemma_merged_namespaced(c: FieldsView, p: Seq<char>)
    requires
        unique_keys(c),
    ensures
        merged_ext_spec(namespaced_spec(c), p) == c,
{
    broadcast use crate::json::group_fields;
    let e: FieldsView = Seq::empty();
    assert(fextend(e, e) == e);
    if c.len() == 0 {
        assert(c =~= e);
        assert(fget(e, "openai_compat"@) is None);
        assert(fget(e, p) is None);
    } else {
        crate::json::lemma_fextend_disjoint(e, c);
        assert(e + c =~= c);
        let ext = namespaced_spec(c);
        assert(ext == e.push(("openai_compat"@, JsonView::Object(c))));
        assert(fget(e, "openai_compat"@) is None);
        assert(fget(e, p) is None);
        if p == "openai_compat"@ {
            crate::json::lemma_fextend_self(c);
        }
    }
}

proof fn lemma_names()
    ensures
        "id"@.len() == 2,
        "type"@.len() == 4,
        "function"@.len() == 8,
        "arguments"@.len() == 9,
        "name"@.len() == 4,
        "name"@ != "type"@,
        "role"@.len() == 4,
        "refusal"@.len() == 7,
        "annotations"@.len() == 11,
        "audio"@.len() == 5,
        "function_call"@.len() == 13,
        "tool_calls"@.len() == 10,
        "index"@.len() == 5,
        "logprobs"@.len() == 8,
        "prompt_tokens_details"@.len() == 21,
        "completion_tokens_details"@.len() == 25,
        "cached_tokens"@.len() == 13,
        "cache_write_tokens"@.len() == 18,
        "reasoning_tokens"@.len() == 16,
        "object"@.len() == 6,
        "moderation"@.len() == 10,
        "service_tier"@.len() == 12,
        "system_fingerprint"@.len() == 18,
{
    reveal_strlit("id");
    reveal_strlit("type");
    reveal_strlit("function");
    reveal_strlit("arguments");
    reveal_strlit("name");
    reveal_strlit("role");
    reveal_strlit("refusal");
    reveal_strlit("annotations");
    reveal_strlit("audio");
    reveal_strlit("function_call");
    reveal_strlit("tool_calls");
    reveal_strlit("index");
    reveal_strlit("logprobs");
    reveal_strlit("prompt_tokens_details");
    reveal_strlit("completion_tokens_details");
    reveal_strlit("cached_tokens");
    reveal_strlit("cache_write_tokens");
    reveal_strlit("reasoning_tokens");
    reveal_strlit("object");
    reveal_strlit("moderation");
    reveal_strlit("service_tier");
    reveal_strlit("system_fingerprint");
    assert("name"@[0] != "type"@[0]);
}

/// A function call that is not plain reads back from its JSON as itself.
proof fn lemma_function_call_json(c: ToolCallView)
    requires
        dialect_call(c),
        c is Function,
    ensures
        tool_call_of_json(tool_call_json(c)) == Some(c),
{
    broadcast use crate::json::group_fields;
    lemma_names();
    let f = c->Function_0;
    let e: FieldsView = Seq::empty();
    let s2 = e.push(("arguments"@, JsonView::Str(f.function.arguments))).push(("name"@, JsonView::Str(f.function.name)));
    let fu = f.function.unknown_fields;
    assert forall|k: Seq<char>| #[trigger] fget(s2, k) is Some implies fget(fu, k) is None by {
        assert(fget(e, k) is None);
    }
    assert(fget(e, "arguments"@) is None && fget(e, "name"@) is None);
    crate::json::lemma_fextend_disjoint(s2, fu);
    lemma_strip(s2, fu, "arguments"@);
    lemma_strip(s2, fu, "name"@);
    lemma_strip(fremove(s2, "arguments"@), fu, "name"@);
    assert(fremove(fremove(s2, "arguments"@), "name"@) =~= e);
    assert(e + fu =~= fu);
    assert(function_of_json(function_json(f.function)) == Some(f.function));
    let fj = function_json(f.function);
    let s3 = e.push(("id"@, JsonView::Str(f.id))).push(("type"@, JsonView::Str(f.kind))).push(("function"@, fj));
    let u = f.unknown_fields;
    assert forall|k: Seq<char>| #[trigger] fget(s3, k) is Some implies fget(u, k) is None by {
        assert(fget(e, k) is None);
    }
    assert(fget(e, "id"@) is None && fget(e, "type"@) is None && fget(e, "function"@) is None);
    crate::json::lemma_fextend_disjoint(s3, u);
    lemma_strip(s3, u, "type"@);
    lemma_strip(s3, u, "id"@);
    lemma_strip(s3, u, "function"@);
    lemma_strip(fremove(s3, "id"@), u, "type"@);
    lemma_strip(fremove(fremove(s3, "id"@), "type"@), u, "function"@);
    assert(fremove(fremove(fremove(s3, "id"@), "type"@), "function"@) =~= e);
    assert(e + u =~= u);
}

proof fn lemma_blocks_append(a: Seq<ContentBlockView>, b: Seq<ContentBlockView>)
    ensures
        texts_of(a + b) == texts_of(a) + texts_of(b),
        calls_of(a + b) == calls_of(a) + calls_of(b),
    decreases b.len(),
{
    if b.len() == 0 {
        assert(a + b =~= a);
        assert(texts_of(a) + texts_of(b) =~= texts_of(a));
        assert(calls_of(a) + calls_of(b) =~= calls_of(a));
    } else {
        let d = b.drop_last();
        lemma_blocks_append(a, d);
        assert((a + b).drop_last() =~= a + d);
        assert((a + b).last() == b.last());
        match b.last() {
            ContentBlockView::Text { text } => {
                assert(texts_of(a) + texts_of(d).push(text) =~= (texts_of(a) + texts_of(d)).push(text));
                assert(calls_of(a + b) == calls_of(a + d));
            },
            ContentBlockView::ToolCall { id, name, arguments } => {
                let x = plain_call(id, name, arguments);
                assert(calls_of(a) + calls_of(d).push(x) =~= (calls_of(a) + calls_of(d)).push(x));
            },
            ContentBlockView::Unknown(v) => match tool_call_of_json(v) {
                Some(x) => {
                    assert(calls_of(a) + calls_of(d).push(x) =~= (calls_of(a) + calls_of(d)).push(x));
                },
                None => {},
            },
        }
    }
}

/// Tool calls this dialect writes come back from their blocks as they were,
/// and none of their blocks is text.
proof fn lemma_ingest_calls(calls: Seq<ToolCallView>)
    requires
        forall|i: int| 0 <= i < calls.len() ==> dialect_call(#[trigger] calls[i]),
    ensures
        texts_of(calls.map_values(|c: ToolCallView| ingest_tool_call_spec(c))) == Seq::<Seq<char>>::empty(),
        calls_of(calls.map_values(|c: ToolCallView| ingest_tool_call_spec(c))) == calls,
    decreases calls.len(),
{
    let m = calls.map_values(|c: ToolCallView| ingest_tool_call_spec(c));
    if calls.len() == 0 {
        assert(m =~= Seq::<ContentBlockView>::empty());
        assert(calls =~= Seq::<ToolCallView>::empty());
    } else {
        let d = calls.drop_last();
        let c = calls.last();
        assert(dialect_call(calls[calls.len() - 1]));
        assert forall|i: int| 0 <= i < d.len() implies dialect_call(#[trigger] d[i]) by {
            assert(d[i] == calls[i]);
        }
        lemma_ingest_calls(d);
        assert(m.drop_last() =~= d.map_values(|c: ToolCallView| ingest_tool_call_spec(c)));
        assert(m.last() == ingest_tool_call_spec(c));
        match c {
            ToolCallView::Function(f) => {
                if f.kind == "function"@ && f.unknown_fields.len() == 0
                    && f.function.unknown_fields.len() == 0 {
                    assert(f.unknown_fields =~= Seq::<(Seq<char>, JsonView)>::empty());
                    assert(f.function.unknown_fields =~= Seq::<(Seq<char>, JsonView)>::empty());
                    assert(plain_call(f.id, f.function.name, f.function.arguments) == c);
                } else {
                    lemma_function_call_json(c);
                }
            },
            ToolCallView::Other(v) => {},
        }
        assert(d.push(c) =~= calls);
    }
}

/// No two slots share a name.
pub open spec fn distinct_slots(slots: Seq<(Seq<char>, Option<JsonView>)>) -> bool {
    forall|i: int, j: int| 0 <= i < j < slots.len() ==> #[trigger] slots[i].0 != #[trigger] slots[j].0
}

/// The residue of one slot.
pub open spec fn one(slot: (Seq<char>, Option<JsonView>)) -> FieldsView {
    match slot.1 {
        Some(v) => Seq::empty().push((slot.0, v)),
        None => Seq::empty(),
    }
}

proof fn lemma_push_opt_append(a: FieldsView, b: FieldsView, k: Seq<char>, o: Option<JsonView>)
    ensures
        push_opt(a + b, k, o) == a + push_opt(b, k, o),
{
    match o {
        Some(v) => {
            assert((a + b).push((k, v)) =~= a + b.push((k, v)));
        },
        None => {},
    }
}

proof fn lemma_stash_front(slots: Seq<(Seq<char>, Option<JsonView>)>)
    requires
        slots.len() > 0,
    ensures
        stash(slots) == one(slots[0]) + stash(slots.drop_first()),
    decreases slots.len(),
{
    let d = slots.drop_last();
    let e: FieldsView = Seq::empty();
    if slots.len() == 1 {
        assert(d =~= Seq::<(Seq<char>, Option<JsonView>)>::empty());
        assert(slots.drop_first() =~= Seq::<(Seq<char>, Option<JsonView>)>::empty());
        assert(slots.last() == slots[0]);
        assert(one(slots[0]) + e =~= one(slots[0]));
        assert(stash(d) == e);
        assert(stash(slots.drop_first()) == e);
    } else {
        lemma_stash_front(d);
        assert(d[0] == slots[0]);
        assert(slots.drop_first().drop_last() =~= d.drop_first());
        assert(slots.drop_first().last() == slots.last());
        lemma_push_opt_append(one(slots[0]), stash(d.drop_first()), slots.last().0, slots.last().1);
    }
}

proof fn lemma_stash_absent(slots: Seq<(Seq<char>, Option<JsonView>)>, k: Seq<char>)
    requires
        forall|i: int| 0 <= i < slots.len() ==> (#[trigger] slots[i]).0 != k,
    ensures
        fget(stash(slots), k) is None,
    decreases slots.len(),
{
    if slots.len() > 0 {
        let d = slots.drop_last();
        assert forall|i: int| 0 <= i < d.len() implies (#[trigger] d[i]).0 != k by {
            assert(d[i] == slots[i]);
        }
        lemma_stash_absent(d, k);
        assert(slots.last() == slots[slots.len() - 1]);
        match slots.last().1 {
            Some(v) => crate::json::lemma_fget_push(stash(d), (slots.last().0, v), k),
            None => {},
        }
    }
}

proof fn lemma_stash_unique(slots: Seq<(Seq<char>, Option<JsonView>)>)
    requires
        distinct_slots(slots),
    ensures
        unique_keys(stash(slots)),
    decreases slots.len(),
{
    if slots.len() == 0 {
        assert(unique_keys(Seq::<(Seq<char>, JsonView)>::empty()));
    } else {
        let d = slots.drop_last();
        assert forall|i: int, j: int| 0 <= i < j < d.len() implies #[trigger] d[i].0 != #[trigger] d[j].0 by {
            assert(d[i] == slots[i] && d[j] == slots[j]);
        }
        lemma_stash_unique(d);
        let x = slots.last();
        assert(x == slots[slots.len() - 1]);
        match x.1 {
            Some(v) => {
                assert forall|i: int| 0 <= i < d.len() implies (#[trigger] d[i]).0 != x.0 by {
                    assert(d[i] == slots[i]);
                }
                lemma_stash_absent(d, x.0);
                crate::json::lemma_unique_push(stash(d), (x.0, v));
            },
            None => {},
        }
    }
}

proof fn lemma_stash_disjoint(slots: Seq<(Seq<char>, Option<JsonView>)>, u: FieldsView)
    requires
        forall|i: int| 0 <= i < slots.len() ==> fget(u, (#[trigger] slots[i]).0) is None,
    ensures
        forall|k: Seq<char>| #[trigger] fget(stash(slots), k) is Some ==> fget(u, k) is None,
{
    assert forall|k: Seq<char>| #[trigger] fget(stash(slots), k) is Some implies fget(u, k) is None by {
        if forall|i: int| 0 <= i < slots.len() ==> (#[trigger] slots[i]).0 != k {
            lemma_stash_absent(slots, k);
        } else {
            let i = choose|i: int| 0 <= i < slots.len() && (#[trigger] slots[i]).0 == k;
            assert(fget(u, slots[i].0) is None);
        }
    }
}

/// Reading the slot at `i` from a stash followed by unknown members that
/// lack its name gives the slot's value, and removing it leaves the stash
/// without that slot.
proof fn lemma_stash_read(slots: Seq<(Seq<char>, Option<JsonView>)>, u: FieldsView, i: int)
    requires
        distinct_slots(slots),
        0 <= i < slots.len(),
        fget(u, slots[i].0) is None,
    ensures
        fget(stash(slots) + u, slots[i].0) == slots[i].1,
        fremove(stash(slots) + u, slots[i].0) == stash(slots.remove(i)) + u,
        distinct_slots(slots.remove(i)),
    decreases i,
{
    let k = slots[i].0;
    let e: FieldsView = Seq::empty();
    let a = one(slots[0]);
    let r = slots.drop_first();
    let b = stash(r);
    lemma_stash_front(slots);
    assert(stash(slots) + u =~= a + (b + u));
    crate::json::lemma_fget_append(a, b + u, k);
    crate::json::lemma_fremove_append(a, b + u, k);
    assert forall|x: int, y: int| 0 <= x < y < r.len() implies #[trigger] r[x].0 != #[trigger] r[y].0 by {
        assert(r[x] == slots[x + 1] && r[y] == slots[y + 1]);
    }
    let s2 = slots.remove(i);
    assert forall|x: int, y: int| 0 <= x < y < s2.len() implies #[trigger] s2[x].0 != #[trigger] s2[y].0 by {
        let x2 = if x < i { x } else { x + 1 };
        let y2 = if y < i { y } else { y + 1 };
        assert(s2[x] == slots[x2] && s2[y] == slots[y2]);
    }
    if i == 0 {
        assert forall|x: int| 0 <= x < r.len() implies (#[trigger] r[x]).0 != k by {
            assert(r[x] == slots[x + 1]);
        }
        lemma_stash_absent(r, k);
        crate::json::lemma_fget_append(b, u, k);
        crate::json::lemma_fremove_append(b, u, k);
        crate::json::lemma_absent(b, k);
        crate::json::lemma_absent(u, k);
        match slots[0].1 {
            Some(v) => {
                crate::json::lemma_fget_push(e, (k, v), k);
                crate::json::lemma_fremove_push(e, (k, v), k);
                assert(fget(e, k) is None);
                assert(fremove(e, k) =~= e);
            },
            None => {
                assert(fget(e, k) is None);
                assert(fremove(e, k) =~= e);
            },
        }
        assert(s2 =~= r);
        assert(e + (b + u) =~= b + u);
    } else {
        assert(r[i - 1] == slots[i]);
        lemma_stash_read(r, u, i - 1);
        assert(slots[0].0 != k);
        match slots[0].1 {
            Some(v) => {
                crate::json::lemma_fget_push(e, (slots[0].0, v), k);
                crate::json::lemma_fremove_push(e, (slots[0].0, v), k);
                assert(fget(e, k) is None);
                assert(fremove(e, k) =~= e);
                assert(fremove(a, k) == a);
            },
            None => {
                assert(fget(e, k) is None);
                assert(fremove(e, k) =~= e);
            },
        }
        lemma_stash_front(s2);
        assert(s2[0] == slots[0]);
        assert(s2.drop_first() =~= r.remove(i - 1));
        assert(a + (stash(r.remove(i - 1)) + u) =~= stash(s2) + u);
    }
}

/// What ingest stashes and keeps under the namespace, a render reads back as
/// the stash followed by the unknown members.
proof fn lemma_stash_setup(slots: Seq<(Seq<char>, Option<JsonView>)>, u: FieldsView, p: Seq<char>)
    requires
        distinct_slots(slots),
        unique_keys(u),
        forall|i: int| 0 <= i < slots.len() ==> fget(u, (#[trigger] slots[i]).0) is None,
    ensures
        merged_ext_spec(namespaced_spec(fextend(stash(slots), u)), p) == stash(slots) + u,
{
    lemma_stash_unique(slots);
    lemma_stash_disjoint(slots, u);
    lemma_stash(stash(slots), u);
    lemma_merged_namespaced(stash(slots) + u, p);
}

proof fn lemma_message_slots(m: ChatCompletionResponseMessageView)
    ensures
        distinct_slots(message_slots(m)),
{
    lemma_names();
    let slots = message_slots(m);
    assert forall|i: int, j: int| 0 <= i < j < 6 implies #[trigger] slots[i].0 != #[trigger] slots[j].0 by {
        if i == 0 {
            if j == 1 {
                assert(slots[0].0.len() != slots[1].0.len());
            } else if j == 2 {
                assert(slots[0].0.len() != slots[2].0.len());
            } else if j == 3 {
                assert(slots[0].0.len() != slots[3].0.len());
            } else if j == 4 {
                assert(slots[0].0.len() != slots[4].0.len());
            } else if j == 5 {
                assert(slots[0].0.len() != slots[5].0.len());
            }
        } else if i == 1 {
            if j == 2 {
                assert(slots[1].0.len() != slots[2].0.len());
            } else if j == 3 {
                assert(slots[1].0.len() != slots[3].0.len());
            } else if j == 4 {
                assert(slots[1].0.len() != slots[4].0.len());
            } else if j == 5 {
                assert(slots[1].0.len() != slots[5].0.len());
            }
        } else if i == 2 {
            if j == 3 {
                assert(slots[2].0.len() != slots[3].0.len());
            } else if j == 4 {
                assert(slots[2].0.len() != slots[4].0.len());
            } else if j == 5 {
                assert(slots[2].0.len() != slots[5].0.len());
            }
        } else if i == 3 {
            if j == 4 {
                assert(slots[3].0.len() != slots[4].0.len());
            } else if j == 5 {
                assert(slots[3].0.len() != slots[5].0.len());
            }
        } else if i == 4 {
            if j == 5 {
                assert(slots[4].0.len() != slots[5].0.len());
            }
        }
    }
}

/// A message as a round trip gives it back: unchanged, except that an empty
/// `tool_calls` list comes back as an empty `tool_calls` array among the
/// unknown members, ahead of the others, which writes the same JSON.
pub open spec fn as_rendered_message(m: ChatCompletionResponseMessageView) -> ChatCompletionResponseMessageView {
    if m.tool_calls matches Some(calls) && calls.len() == 0 {
        ChatCompletionResponseMessageView {
            content: m.content,
            refusal: m.refusal,
            role: m.role,
            annotations: m.annotations,
            audio: m.audio,
            function_call: m.function_call,
            tool_calls: None,
            unknown_fields: seq![("tool_calls"@, JsonView::Array(Seq::empty()))] + m.unknown_fields,
        }
    } else {
        m
    }
}

/// A choice as a round trip gives it back: its message as
/// [`as_rendered_message`] says, the rest unchanged.
pub open spec fn as_rendered_choice(c: ChoiceView) -> ChoiceView {
    ChoiceView {
        finish_reason: c.finish_reason,
        index: c.index,
        logprobs: c.logprobs,
        message: as_rendered_message(c.message),
        unknown_fields: c.unknown_fields,
    }
}

/// A response as a round trip gives it back: each choice as
/// [`as_rendered_choice`] says, the rest unchanged.
pub open spec fn as_rendered_response(w: CreateChatCompletionResponseView) -> CreateChatCompletionResponseView {
    CreateChatCompletionResponseView {
        id: w.id,
        choices: w.choices.map_values(|c: ChoiceView| as_rendered_choice(c)),
        created: w.created,
        model: w.model,
        object: w.object,
        moderation: w.moderation,
        service_tier: w.service_tier,
        system_fingerprint: w.system_fingerprint,
        usage: w.usage,
        unknown_fields: w.unknown_fields,
    }
}

/// Ingesting a message this dialect writes and rendering it back, to any
/// provider, gives it back as [`as_rendered_message`] says. In particular a
/// role none of the normalized roles spells, such as `developer`, comes back
/// verbatim and leaves no `role` among the unknown members, and a recognized
/// role comes back as its own spelling.
pub proof fn law_message_round_trip(m: ChatCompletionResponseMessageView, p: Seq<char>)
    requires
        dialect_message(m),
    ensures
        render_message_spec(ingest_message_spec(m), p) == as_rendered_message(m),
{
    lemma_names();
    let (role, raw) = role_of_wire(m.role);
    crate::normalized::law_role_round_trip(role, m.role);
    let slots = message_slots(m);
    let u = m.unknown_fields;
    lemma_message_slots(m);
    assert forall|i: int| 0 <= i < slots.len() implies fget(u, (#[trigger] slots[i]).0) is None by {
        if i == 0 {} else if i == 1 {} else if i == 2 {} else if i == 3 {} else if i == 4 {} else {}
    }
    lemma_stash_setup(slots, u, p);
    let mv = ingest_message_spec(m);
    assert(merged_ext_spec(mv.ext, p) == stash(slots) + u);
    lemma_stash_read(slots, u, 0);
    let s1 = slots.remove(0);
    assert(s1[4] == slots[5]);
    lemma_stash_read(s1, u, 4);
    let u1 = stash(s1) + u;
    let stashed = m.tool_calls matches Some(c) && c.len() == 0;
    let t = if stashed {
        s1
    } else {
        s1.remove(4)
    };
    let texts = match m.content {
        Some(t) => seq![ContentBlockView::Text { text: t }],
        None => Seq::<ContentBlockView>::empty(),
    };
    assert(texts_of(texts) == match m.content {
        Some(t) => seq![t],
        None => Seq::<Seq<char>>::empty(),
    }) by {
        assert(texts.len() > 0 ==> texts.drop_last() =~= Seq::<ContentBlockView>::empty());
        assert(texts_of(Seq::<ContentBlockView>::empty()) =~= Seq::<Seq<char>>::empty());
    }
    assert(calls_of(texts) == Seq::<ToolCallView>::empty()) by {
        assert(texts.len() > 0 ==> texts.drop_last() =~= Seq::<ContentBlockView>::empty());
        assert(calls_of(Seq::<ContentBlockView>::empty()) =~= Seq::<ToolCallView>::empty());
    }
    match m.tool_calls {
        Some(calls) => {
            lemma_ingest_calls(calls);
            lemma_blocks_append(texts, calls.map_values(|c: ToolCallView| ingest_tool_call_spec(c)));
            assert(texts_of(mv.content) =~= texts_of(texts));
            assert(calls_of(mv.content) =~= calls);
            if calls.len() == 0 {
                assert(calls =~= Seq::<ToolCallView>::empty());
            }
        },
        None => {
            assert(mv.content == texts);
            crate::json::lemma_absent(u1, "tool_calls"@);
        },
    }
    lemma_stash_read(t, u, 0);
    let t1 = t.remove(0);
    lemma_stash_read(t1, u, 0);
    let t2 = t1.remove(0);
    lemma_stash_read(t2, u, 0);
    let t3 = t2.remove(0);
    lemma_stash_read(t3, u, 0);
    let t4 = t3.remove(0);
    let e2: Seq<(Seq<char>, Option<JsonView>)> = Seq::empty();
    if stashed {
        assert(t4 =~= e2.push(slots[5]));
        lemma_stash_push(e2, slots[5]);
        assert(stash(e2) =~= Seq::<(Seq<char>, JsonView)>::empty());
        assert(stash(t4) =~= seq![("tool_calls"@, JsonView::Array(Seq::empty()))]);
    } else {
        assert(t4 =~= e2);
        assert(stash(t4) + u =~= u);
    }
    match m.content {
        Some(t) => {
            assert(join_lines(seq![t]) == t);
        },
        None => {},
    }
}

/// A count written into a details object reads back as itself.
proof fn lemma_count_written(n: Option<u64>)
    ensures
        count_of(match n {
            Some(c) => Some(JsonView::Number(decimal(c as nat))),
            None => None,
        }) == Some(n),
{
    match n {
        Some(c) => crate::text::lemma_decimal_reads_back(c),
        None => {},
    }
}

/// Lifting a count out of details and putting it back, where the details
/// lack its name: the count reads back, and removing it leaves the rest.
proof fn lemma_lift_one(fs: FieldsView, k: Seq<char>, n: Option<u64>, put: FieldsView)
    requires
        fget(fs, k) is None,
        put == match n {
            Some(c) => finsert(fs, k, JsonView::Number(decimal(c as nat))),
            None => fs,
        },
    ensures
        ({
            &&& count_of(fget(put, k)) == Some(n)
            &&& fremove(put, k) == fs
            &&& forall|k2: Seq<char>| k2 != k ==> #[trigger] fget(put, k2) == fget(fs, k2)
            &&& forall|k2: Seq<char>| k2 != k ==> #[trigger] fremove(put, k2) == match n {
                Some(c) => fremove(fs, k2).push((k, JsonView::Number(decimal(c as nat)))),
                None => fremove(fs, k2),
            }
        }),
{
    crate::json::lemma_absent(fs, k);
    lemma_count_written(n);
    match n {
        Some(c) => {
            let x = (k, JsonView::Number(decimal(c as nat)));
            crate::json::lemma_fget_push(fs, x, k);
            crate::json::lemma_fremove_push(fs, x, k);
            assert forall|k2: Seq<char>| k2 != k implies #[trigger] fget(fs.push(x), k2) == fget(fs, k2) by {
                crate::json::lemma_fget_push(fs, x, k2);
            }
            assert forall|k2: Seq<char>| k2 != k implies #[trigger] fremove(fs.push(x), k2) == fremove(fs, k2).push(x) by {
                crate::json::lemma_fremove_push(fs, x, k2);
            }
        },
        None => {},
    }
}

proof fn lemma_prompt_details_round_trip(d: Option<PromptTokensDetailsView>)
    requires
        d matches Some(x) ==> fget(x.unknown_fields, "cached_tokens"@) is None && fget(
            x.unknown_fields,
            "cache_write_tokens"@,
        ) is None,
    ensures
        ({
            let residue = match d {
                Some(x) => Some(JsonView::Object(x.unknown_fields)),
                None => None,
            };
            let lifted = Seq::empty().push(("cached_tokens"@, match d {
                Some(x) => x.cached_tokens,
                None => None,
            })).push(("cache_write_tokens"@, match d {
                Some(x) => x.cache_write_tokens,
                None => None,
            }));
            (match render_details_spec(residue, lifted) {
                Some(fs) => prompt_details_of(fs),
                None => None,
            }) == d
        }),
{
    lemma_names();
    let e2: Seq<(Seq<char>, Option<u64>)> = Seq::empty();
    let kc = "cached_tokens"@;
    let kw = "cache_write_tokens"@;
    match d {
        Some(x) => {
            let l0 = e2.push((kc, x.cached_tokens));
            let lifted = l0.push((kw, x.cache_write_tokens));
            assert(lifted.drop_last() =~= l0);
            assert(l0.drop_last() =~= e2);
            let du = x.unknown_fields;
            assert(put_lifted(du, e2) == du);
                        let r1 = put_lifted(du, l0);
            assert(kc != kw);
            assert(r1 == match x.cached_tokens {
                Some(c) => finsert(du, kc, JsonView::Number(decimal(c as nat))),
                None => du,
            });
            lemma_lift_one(du, kc, x.cached_tokens, r1);
            assert(fget(r1, kw) == fget(du, kw));
            let fs = put_lifted(du, lifted);
            assert(fs == match x.cache_write_tokens {
                Some(c) => finsert(r1, kw, JsonView::Number(decimal(c as nat))),
                None => r1,
            });
            lemma_lift_one(r1, kw, x.cache_write_tokens, fs);
            assert(fget(fs, kc) == fget(r1, kc));
            assert(count_of(fget(fs, kc)) == Some(x.cached_tokens));
            let f1 = fremove(fs, kc);
            assert(f1 == match x.cache_write_tokens {
                Some(c) => fremove(r1, kc).push((kw, JsonView::Number(decimal(c as nat)))),
                None => fremove(r1, kc),
            });
            assert(fremove(r1, kc) == du);
            match x.cache_write_tokens {
                Some(c) => {
                    let y = (kw, JsonView::Number(decimal(c as nat)));
                    crate::json::lemma_fget_push(du, y, kw);
                    crate::json::lemma_fremove_push(du, y, kw);
                    crate::json::lemma_absent(du, kw);
                },
                None => {
                    crate::json::lemma_absent(du, kw);
                },
            }
            lemma_count_written(x.cache_write_tokens);
        },
        None => {
            let lifted = e2.push((kc, None::<u64>)).push((kw, None::<u64>));
            assert forall|i: int| 0 <= i < lifted.len() implies (#[trigger] lifted[i]).1 is None by {
                if i == 0 {
                } else {
                }
            }
        },
    }
}

proof fn lemma_completion_details_round_trip(d: Option<CompletionTokensDetailsView>)
    requires
        d matches Some(x) ==> fget(x.unknown_fields, "reasoning_tokens"@) is None,
    ensures
        ({
            let residue = match d {
                Some(x) => Some(JsonView::Object(x.unknown_fields)),
                None => None,
            };
            let lifted = seq![("reasoning_tokens"@, match d {
                Some(x) => x.reasoning_tokens,
                None => None,
            })];
            (match render_details_spec(residue, lifted) {
                Some(fs) => completion_details_of(fs),
                None => None,
            }) == d
        }),
{
    let e2: Seq<(Seq<char>, Option<u64>)> = Seq::empty();
    let k = "reasoning_tokens"@;
    match d {
        Some(x) => {
            let lifted = e2.push((k, x.reasoning_tokens));
            assert(lifted.drop_last() =~= e2);
            let du = x.unknown_fields;
            assert(put_lifted(du, e2) == du);
            lemma_lift_one(du, k, x.reasoning_tokens, put_lifted(du, lifted));
        },
        None => {
            let lifted = e2.push((k, None::<u64>));
            assert forall|i: int| 0 <= i < lifted.len() implies (#[trigger] lifted[i]).1 is None by {
            }
        },
    }
}

/// Token accounting this dialect writes survives ingest and render unchanged.
proof fn lemma_usage_round_trip(w: CompletionUsageView, p: Seq<char>)
    requires
        dialect_usage(w),
    ensures
        render_usage_spec(ingest_usage_spec(w), p) == w,
{
    lemma_names();
    let slots = usage_slots(w);
    let u = w.unknown_fields;
    assert(distinct_slots(slots)) by {
        assert forall|i: int, j: int| 0 <= i < j < 2 implies #[trigger] slots[i].0 != #[trigger] slots[j].0 by {
            assert(slots[0].0.len() != slots[1].0.len());
        }
    }
    assert forall|i: int| 0 <= i < slots.len() implies fget(u, (#[trigger] slots[i]).0) is None by {
        if i == 0 {} else {}
    }
    lemma_stash_setup(slots, u, p);
    lemma_stash_read(slots, u, 0);
    let s1 = slots.remove(0);
    lemma_stash_read(s1, u, 0);
    assert(s1.remove(0) =~= Seq::<(Seq<char>, Option<JsonView>)>::empty());
    assert(stash(s1.remove(0)) + u =~= u);
    lemma_prompt_details_round_trip(w.prompt_tokens_details);
    lemma_completion_details_round_trip(w.completion_tokens_details);
}

/// Choices this dialect writes come back from ingest and render as
/// [`as_rendered_choice`] says, whatever their position.
proof fn lemma_choice_round_trip(c: ChoiceView, position: nat, p: Seq<char>)
    requires
        dialect_choice(c),
    ensures
        render_choice_spec(ingest_choice_spec(c), position, p) == as_rendered_choice(c),
{
    lemma_names();
    let slots = choice_slots(c);
    let u = c.unknown_fields;
    assert(distinct_slots(slots)) by {
        assert forall|i: int, j: int| 0 <= i < j < 2 implies #[trigger] slots[i].0 != #[trigger] slots[j].0 by {
            assert(slots[0].0.len() != slots[1].0.len());
        }
    }
    assert forall|i: int| 0 <= i < slots.len() implies fget(u, (#[trigger] slots[i]).0) is None by {
        if i == 0 {} else {}
    }
    lemma_stash_setup(slots, u, p);
    lemma_stash_read(slots, u, 0);
    let s1 = slots.remove(0);
    lemma_stash_read(s1, u, 0);
    assert(s1.remove(0) =~= Seq::<(Seq<char>, Option<JsonView>)>::empty());
    assert(stash(s1.remove(0)) + u =~= u);
    crate::text::lemma_decimal_reads_back(c.index as u64);
    law_message_round_trip(c.message, p);
}

/// Ingesting an OpenAI-compatible response and rendering it back, to any
/// provider, gives the response that came in, field for field, but for one
/// spelling: an empty `tool_calls` list comes back as an empty `tool_calls`
/// array among the message's unknown members, which serializes to the same
/// JSON ([`as_rendered_response`]). The conversion into the normalized form
/// is lossless. It holds of every response this dialect writes, as
/// [`dialect_response`] says.
pub proof fn law_response_round_trip(w: CreateChatCompletionResponseView, provider: Seq<char>)
    requires
        dialect_response(w),
    ensures
        render_response_spec(ingest_response_spec(w), provider) == as_rendered_response(w),
{
    lemma_names();
    let slots = response_slots(w);
    let u = w.unknown_fields;
    assert(distinct_slots(slots)) by {
        assert forall|i: int, j: int| 0 <= i < j < 4 implies #[trigger] slots[i].0 != #[trigger] slots[j].0 by {
            if i == 0 {
                if j == 1 {
                    assert(slots[0].0.len() != slots[1].0.len());
                } else if j == 2 {
                    assert(slots[0].0.len() != slots[2].0.len());
                } else if j == 3 {
                    assert(slots[0].0.len() != slots[3].0.len());
                }
            } else if i == 1 {
                if j == 2 {
                    assert(slots[1].0.len() != slots[2].0.len());
                } else if j == 3 {
                    assert(slots[1].0.len() != slots[3].0.len());
                }
            } else if i == 2 {
                if j == 3 {
                    assert(slots[2].0.len() != slots[3].0.len());
                }
            }
        }
    }
    assert forall|i: int| 0 <= i < slots.len() implies fget(u, (#[trigger] slots[i]).0) is None by {
        if i == 0 {} else if i == 1 {} else if i == 2 {} else {}
    }
    lemma_stash_setup(slots, u, provider);
    lemma_stash_read(slots, u, 0);
    let s1 = slots.remove(0);
    lemma_stash_read(s1, u, 0);
    let s2 = s1.remove(0);
    lemma_stash_read(s2, u, 0);
    let s3 = s2.remove(0);
    lemma_stash_read(s3, u, 0);
    assert(s3.remove(0) =~= Seq::<(Seq<char>, Option<JsonView>)>::empty());
    assert(stash(s3.remove(0)) + u =~= u);
    let r = ingest_response_spec(w);
    let back = render_response_spec(r, provider);
    let want = as_rendered_response(w);
    assert forall|i: int| 0 <= i < w.choices.len() implies #[trigger] back.choices[i] == want.choices[i] by {
        assert(dialect_choice(w.choices[i]));
        lemma_choice_round_trip(w.choices[i], i as nat, provider);
    }
    assert(back.choices =~= want.choices);
    match w.usage {
        Some(x) => lemma_usage_round_trip(x, provider),
        None => {},
    }
}

/// A rendered choice's index is the one stashed for it, when a numeral that
/// fits is stashed; otherwise it is the choice's position: with no stash, the
/// choices of a response are numbered 0, 1, 2, ... in order, and no two share
/// an index.
pub proof fn law_an_unstashed_choice_is_numbered_by_position(c: CompletionView, position: nat, p: Seq<char>)
    requires
        position <= u32::MAX,
    ensures
        ({
            let stashed = fget(merged_ext_spec(c.ext, p), "index"@);
            let idx = render_choice_spec(c, position, p).index;
            &&& (stashed matches Some(JsonView::Number(t)) && digits_u64(t) matches Some(n) && n <= u32::MAX)
                ==> idx == digits_u64(stashed->Some_0->Number_0)->Some_0
            &&& !(stashed matches Some(JsonView::Number(t)) && digits_u64(t) is Some) ==> idx == position
        }),
{
}

/// A rendered response's choices come in the order of its completions, and
/// each completion with no numeric index stashed gets its position as index.
pub proof fn law_rendered_choices_follow_the_completions(r: ChatResponseView, p: Seq<char>)
    requires
        r.completions.len() <= u32::MAX + 1,
    ensures
        render_response_spec(r, p).choices.len() == r.completions.len(),
        forall|i: int|
            0 <= i < r.completions.len() && !(fget(merged_ext_spec(r.completions[i].ext, p), "index"@) matches Some(
                JsonView::Number(t),
            ) && digits_u64(t) is Some) ==> (#[trigger] render_response_spec(r, p).choices[i]).index == i,
{
    assert forall|i: int|
        0 <= i < r.completions.len() && !(fget(merged_ext_spec(r.completions[i].ext, p), "index"@) matches Some(
            JsonView::Number(t),
        ) && digits_u64(t) is Some) implies (#[trigger] render_response_spec(r, p).choices[i]).index == i by {
        law_an_unstashed_choice_is_numbered_by_position(r.completions[i], i as nat, p);
    }
}

} // verus!
