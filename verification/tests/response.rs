use warpllm::client::{finish, Route};
use warpllm::error::Error;
use warpllm::http::ResponseParts;
use warpllm::json::{get_field, Fields, JsonNode};
use warpllm::registry::fetch_model;
use warpllm::normalized::{ChatResponse, ContentBlock, FinishReason};
use warpllm::response::{
    ingest_message, ingest_response, ingest_usage, render_message, render_response, render_usage,
};
use warpllm::wire::{
    ChatCompletionResponseMessage, Choice, CompletionTokensDetails, CompletionUsage,
    CreateChatCompletionResponse, FunctionCall, FunctionToolCall, PromptTokensDetails, ToolCall,
};

fn s(t: &str) -> String {
    t.to_string()
}

fn text(t: &str) -> JsonNode {
    JsonNode::Str(s(t))
}

fn num(t: &str) -> JsonNode {
    JsonNode::Number(s(t))
}

fn arr(items: Vec<JsonNode>) -> JsonNode {
    JsonNode::Array(items)
}

fn fields(members: Vec<(&str, JsonNode)>) -> Fields {
    members.into_iter().map(|(k, v)| (s(k), v)).collect()
}

fn obj(members: Vec<(&str, JsonNode)>) -> JsonNode {
    JsonNode::Object(fields(members))
}

fn compat<'a>(ext: &'a Fields) -> &'a Fields {
    match get_field(ext, "openai_compat") {
        Some(JsonNode::Object(fs)) => fs,
        other => panic!("no openai_compat namespace: {other:?}"),
    }
}

fn member<'a>(fs: &'a Fields, key: &str) -> &'a JsonNode {
    get_field(fs, key).unwrap_or_else(|| panic!("no member {key}"))
}

fn plain_call(id: &str, name: &str, arguments: &str, extra: Vec<(&str, JsonNode)>) -> ToolCall {
    ToolCall::Function(FunctionToolCall {
        id: s(id),
        kind: s("function"),
        function: FunctionCall { arguments: s(arguments), name: s(name), unknown_fields: Vec::new() },
        unknown_fields: fields(extra),
    })
}

/// The maximal body: every documented field, unknown fields at every nesting
/// level, function and custom tool calls, both moderation arms.
fn maximal_body() -> CreateChatCompletionResponse {
    let logprob = obj(vec![
        ("token", text("Hi")),
        ("bytes", arr(vec![num("72"), num("105")])),
        ("logprob", num("-0.1")),
        (
            "top_logprobs",
            arr(vec![obj(vec![("token", text("Hi")), ("bytes", JsonNode::Null), ("logprob", num("-0.1"))])]),
        ),
    ]);
    let message = ChatCompletionResponseMessage {
        content: Some(s("Hello there!")),
        refusal: Some(s("no thanks")),
        role: s("assistant"),
        annotations: Some(vec![obj(vec![
            ("type", text("url_citation")),
            (
                "url_citation",
                obj(vec![
                    ("end_index", num("5")),
                    ("start_index", num("0")),
                    ("title", text("Example")),
                    ("url", text("https://example.com")),
                ]),
            ),
        ])]),
        audio: Some(fields(vec![
            ("id", text("audio-1")),
            ("data", text("aGk=")),
            ("expires_at", num("1700000600")),
            ("transcript", text("hi")),
        ])),
        function_call: Some(fields(vec![("arguments", text("{}")), ("name", text("legacy_fn"))])),
        tool_calls: Some(vec![
            plain_call("call-1", "search", "{\"z\":1,\"a\":2}", vec![]),
            ToolCall::Other(obj(vec![
                ("id", text("call-2")),
                ("type", text("custom")),
                ("custom", obj(vec![("input", text("raw text")), ("name", text("my_tool"))])),
            ])),
            plain_call("call-3", "extended", "{}", vec![("vendor_extra", JsonNode::Bool(true))]),
        ]),
        unknown_fields: fields(vec![("reasoning_content", text("step by step"))]),
    };
    let moderation = fields(vec![
        (
            "input",
            obj(vec![
                ("type", text("moderation_results")),
                ("model", text("omni-moderation-latest")),
                (
                    "results",
                    arr(vec![obj(vec![
                        ("categories", obj(vec![("violence", JsonNode::Bool(false))])),
                        ("category_applied_input_types", obj(vec![("violence", arr(vec![text("text")]))])),
                        ("category_scores", obj(vec![("violence", num("0.001"))])),
                        ("flagged", JsonNode::Bool(false)),
                        ("model", text("omni-moderation-latest")),
                        ("type", text("moderation_result")),
                    ])]),
                ),
            ]),
        ),
        (
            "output",
            obj(vec![
                ("type", text("error")),
                ("code", text("moderation_unavailable")),
                ("message", text("try again")),
            ]),
        ),
    ]);
    CreateChatCompletionResponse {
        id: s("chatcmpl-123"),
        choices: vec![Choice {
            finish_reason: s("tool_calls"),
            index: 3,
            logprobs: Some(fields(vec![("content", arr(vec![logprob])), ("refusal", arr(vec![]))])),
            message,
            unknown_fields: fields(vec![("new_choice_field", JsonNode::Bool(true))]),
        }],
        created: 1_700_000_000,
        model: s("gpt-5.6-2024-08-06"),
        object: s("chat.completion"),
        moderation: Some(moderation),
        service_tier: Some(s("default")),
        system_fingerprint: Some(s("fp_44709d6fcb")),
        usage: Some(CompletionUsage {
            completion_tokens: 12,
            prompt_tokens: 9,
            total_tokens: 21,
            completion_tokens_details: Some(CompletionTokensDetails {
                reasoning_tokens: Some(5),
                unknown_fields: fields(vec![
                    ("accepted_prediction_tokens", num("0")),
                    ("audio_tokens", num("0")),
                    ("rejected_prediction_tokens", num("0")),
                ]),
            }),
            prompt_tokens_details: Some(PromptTokensDetails {
                cached_tokens: Some(3),
                cache_write_tokens: Some(2),
                unknown_fields: fields(vec![("audio_tokens", num("0"))]),
            }),
            unknown_fields: fields(vec![("new_usage_field", num("7"))]),
        }),
        unknown_fields: fields(vec![("new_top_level_field", text("surprise"))]),
    }
}

fn minimal_body(model: &str) -> CreateChatCompletionResponse {
    CreateChatCompletionResponse {
        id: s("chatcmpl-1"),
        choices: vec![Choice {
            finish_reason: s("stop"),
            index: 0,
            logprobs: None,
            message: ChatCompletionResponseMessage {
                content: None,
                refusal: None,
                role: s("assistant"),
                annotations: None,
                audio: None,
                function_call: None,
                tool_calls: None,
                unknown_fields: Vec::new(),
            },
            unknown_fields: Vec::new(),
        }],
        created: 1_700_000_000,
        model: s(model),
        object: s("chat.completion"),
        moderation: None,
        service_tier: None,
        system_fingerprint: None,
        usage: None,
        unknown_fields: Vec::new(),
    }
}

#[test]
fn openai_compat_response_round_trip_is_lossless() {
    let normalized: ChatResponse = ingest_response(maximal_body());
    let rendered = render_response(&normalized, "openai");
    assert_eq!(rendered, maximal_body());

    assert_eq!(normalized.id, "chatcmpl-123");
    assert_eq!(normalized.model, "gpt-5.6-2024-08-06");
    assert_eq!(normalized.created, Some(1_700_000_000));
    let completion = &normalized.completions[0];
    assert_eq!(completion.finish_reason, FinishReason::ToolCalls);
    assert_eq!(completion.finish_reason_raw, "tool_calls");
    assert_eq!(member(compat(&completion.ext), "index"), &num("3"));
}

#[test]
fn minimal_response_round_trips() {
    let normalized = ingest_response(minimal_body("deepseek-v4-flash"));
    assert!(normalized.completions[0].message.content.is_empty());
    let rendered = render_response(&normalized, "deepseek");
    assert_eq!(rendered, minimal_body("deepseek-v4-flash"));
}

#[test]
fn plain_function_tool_call_becomes_toolcall_block() {
    let normalized = ingest_response(maximal_body());
    let content = &normalized.completions[0].message.content;
    assert!(matches!(&content[0], ContentBlock::Text { text } if text == "Hello there!"));
    match &content[1] {
        ContentBlock::ToolCall { id, name, arguments } => {
            assert_eq!(id, "call-1");
            assert_eq!(name, "search");
            assert_eq!(arguments.as_str(), "{\"z\":1,\"a\":2}");
        },
        other => panic!("expected ToolCall, got {other:?}"),
    }
    match &content[2] {
        ContentBlock::Unknown(JsonNode::Object(v)) => {
            assert_eq!(member(v, "id"), &text("call-2"));
            assert_eq!(member(v, "type"), &text("custom"));
        },
        other => panic!("expected Unknown, got {other:?}"),
    }
    match &content[3] {
        ContentBlock::Unknown(JsonNode::Object(v)) => {
            assert_eq!(member(v, "id"), &text("call-3"));
            assert_eq!(member(v, "vendor_extra"), &JsonNode::Bool(true));
        },
        other => panic!("expected Unknown, got {other:?}"),
    }
}

#[test]
fn empty_tool_calls_array_survives() {
    let body = || {
        let mut b = minimal_body("gpt-5.6");
        b.choices[0].message.content = Some(s("hi"));
        b.choices[0].message.tool_calls = Some(Vec::new());
        b
    };
    let normalized = ingest_response(body());
    assert_eq!(member(compat(&normalized.completions[0].message.ext), "tool_calls"), &arr(vec![]));
    // The empty array comes back where serde would write it from: among the
    // unknown members, the typed list left absent.
    let mut want = body();
    want.choices[0].message.tool_calls = None;
    want.choices[0].message.unknown_fields = fields(vec![("tool_calls", arr(vec![]))]);
    assert_eq!(render_response(&normalized, "openai"), want);
}

#[test]
fn usage_maps_typed_token_fields() {
    let normalized = ingest_response(maximal_body());
    let usage = normalized.usage.as_ref().unwrap();
    assert_eq!(usage.input_tokens, Some(9));
    assert_eq!(usage.output_tokens, Some(12));
    assert_eq!(usage.total_tokens, Some(21));
    assert_eq!(usage.reasoning_tokens, Some(5));
    assert_eq!(usage.cache_read_tokens, Some(3));
    assert_eq!(usage.cache_write_tokens, Some(2));
    assert_eq!(member(compat(&usage.ext), "new_usage_field"), &num("7"));
}

#[test]
fn empty_details_object_presence_survives() {
    let body = || {
        let mut b = minimal_body("gpt-5.6");
        b.choices[0].message.content = Some(s("hi"));
        b.usage = Some(CompletionUsage {
            completion_tokens: 1,
            prompt_tokens: 2,
            total_tokens: 3,
            completion_tokens_details: None,
            prompt_tokens_details: Some(PromptTokensDetails {
                cached_tokens: None,
                cache_write_tokens: None,
                unknown_fields: Vec::new(),
            }),
            unknown_fields: Vec::new(),
        });
        b
    };
    let normalized = ingest_response(body());
    assert_eq!(render_response(&normalized, "openai"), body());
}

#[test]
fn dialect_extras_land_in_ext() {
    let normalized = ingest_response(maximal_body());
    let ext = compat(&normalized.ext);
    assert_eq!(member(ext, "object"), &text("chat.completion"));
    assert_eq!(member(ext, "service_tier"), &text("default"));
    assert_eq!(member(ext, "system_fingerprint"), &text("fp_44709d6fcb"));
    assert_eq!(member(ext, "new_top_level_field"), &text("surprise"));
    let message = compat(&normalized.completions[0].message.ext);
    assert_eq!(member(message, "refusal"), &text("no thanks"));
    assert_eq!(member(message, "reasoning_content"), &text("step by step"));
}

#[test]
fn a_provider_namespace_overlays_the_dialect_one() {
    let mut normalized = ingest_response(minimal_body("gpt-5.6"));
    normalized.ext.push((s("openai"), obj(vec![("service_tier", text("flex"))])));
    let for_openai = render_response(&normalized, "openai");
    assert_eq!(for_openai.service_tier, Some(s("flex")));
    let for_deepseek = render_response(&normalized, "deepseek");
    assert_eq!(for_deepseek.service_tier, None);
    assert_eq!(for_deepseek.object, "chat.completion");
}

#[test]
fn render_without_a_stash_falls_back_to_defaults() {
    let mut normalized = ingest_response(minimal_body("gpt-5.6"));
    normalized.ext.clear();
    normalized.completions[0].ext.clear();
    normalized.created = None;
    let rendered = render_response(&normalized, "openai");
    assert_eq!(rendered.object, "chat.completion");
    assert_eq!(rendered.created, 0);
    assert_eq!(rendered.choices[0].index, 0);
    assert_eq!(rendered.choices[0].message.role, "assistant");
}

#[test]
fn an_unrecognized_role_is_kept_and_restored() {
    let mut m = minimal_body("gpt-5.6").choices.remove(0).message;
    m.role = s("developer");
    let normalized = ingest_message(m);
    assert_eq!(member(compat(&normalized.ext), "role"), &text("developer"));
    let back = render_message(&normalized, "openai");
    assert_eq!(back.role, "developer");
}

#[test]
fn texts_join_with_newlines_on_render() {
    let m = minimal_body("gpt-5.6").choices.remove(0).message;
    let mut normalized = ingest_message(m);
    normalized.content.push(ContentBlock::Text { text: s("one") });
    normalized.content.push(ContentBlock::Text { text: s("two") });
    let back = render_message(&normalized, "openai");
    assert_eq!(back.content, Some(s("one\ntwo")));
    assert_eq!(back.tool_calls, None);
}

#[test]
fn usage_counts_render_back_into_details() {
    let usage = CompletionUsage {
        completion_tokens: 4,
        prompt_tokens: 5,
        total_tokens: 9,
        completion_tokens_details: None,
        prompt_tokens_details: None,
        unknown_fields: Vec::new(),
    };
    let mut normalized = ingest_usage(usage);
    normalized.cache_read_tokens = Some(11);
    let back = render_usage(&normalized, "openai");
    assert_eq!(back.prompt_tokens, 5);
    assert_eq!(
        back.prompt_tokens_details,
        Some(PromptTokensDetails { cached_tokens: Some(11), cache_write_tokens: None, unknown_fields: Vec::new() })
    );
    assert_eq!(back.completion_tokens_details, None);
}

#[test]
fn a_stashed_value_of_the_wrong_kind_is_dropped_on_render() {
    let m = minimal_body("gpt-5.6").choices.remove(0).message;
    let mut normalized = ingest_message(m);
    normalized.ext = fields(vec![(
        "openai_compat",
        obj(vec![("audio", text("not an object")), ("annotations", obj(vec![])), ("x", num("1"))]),
    )]);
    let back = render_message(&normalized, "openai");
    assert_eq!(back.audio, None);
    assert_eq!(back.annotations, None);
    assert_eq!(back.unknown_fields, fields(vec![("x", num("1"))]));
}

fn route() -> Route {
    let (provider, model) = fetch_model("openai/gpt-5.6").unwrap();
    Route {
        model_str: s("openai/gpt-5.6"),
        provider,
        model,
        api_key: s("sk-test"),
        base_url: s("https://api.openai.com/v1"),
        url: s("https://api.openai.com/v1/chat/completions"),
    }
}

fn parts(status: u16, body: &str) -> ResponseParts {
    ResponseParts { status, body: s(body), retry_after: Some(3), request_id: Some(s("req-1")) }
}

#[test]
fn a_finished_response_echoes_the_callers_model_string() {
    let c = finish(&route(), parts(200, "{}"), Ok(maximal_body())).unwrap();
    assert_eq!(c.model, "openai/gpt-5.6");
    let mut want = maximal_body();
    want.model = s("openai/gpt-5.6");
    assert_eq!(c, want);
}

#[test]
fn a_non_success_status_is_the_failure_its_body_describes() {
    let body = "{\"error\":{\"message\":\"no such model\",\"type\":\"invalid_request_error\",\"code\":\"model_not_found\"}}";
    let err = finish(&route(), parts(404, body), Ok(maximal_body())).unwrap_err();
    let upstream = err.provider_error().expect("provider evidence");
    assert_eq!(upstream.provider, "openai");
    assert_eq!(upstream.status, 404);
    assert_eq!(upstream.provider_code.as_deref(), Some("model_not_found"));
    assert_eq!(upstream.retry_after, Some(3));
    assert_eq!(upstream.request_id.as_deref(), Some("req-1"));
}

#[test]
fn a_success_that_did_not_decode_is_a_decode_error() {
    let err = finish(&route(), parts(200, "not json"), Err(s("expected value"))).unwrap_err();
    match err {
        Error::Decode { provider, message } => {
            assert_eq!(provider, "openai");
            assert_eq!(message, "expected value");
        },
        other => panic!("expected Decode, got {other:?}"),
    }
}
