use warpllm::registry::load::load;
use warpllm::{Api, Protocol};

const EVERY_API: &[(&str, Api)] = &[
    ("chat_completions", Api::ChatCompletions),
    ("chat_completions_stream", Api::ChatCompletionsStream),
    ("responses", Api::Responses),
];

#[test]
fn api_names_match_serde() {
    for &(name, expected) in EVERY_API {
        let parsed = Api::from_name(name).unwrap_or_else(|| panic!("`{name}` is what the roster writes"));
        assert_eq!(parsed, expected, "`{name}` read as something else");
        assert_eq!(parsed.as_str(), name, "`{name}` renders as something else");
        assert_eq!(parsed.protocol(), Protocol::OpenAiCompat, "`{name}`");
    }
}

#[test]
fn an_unknown_surface_is_rejected() {
    assert_eq!(Api::from_name("anthropic_messages"), None);
    let roster = "providers:
  demo:
    base_url: \"https://api.demo.test\"
    protocol: openai_compat
    supported_apis: [anthropic_messages]
    models:
      demo/plain: {}
";
    let err = load(roster).unwrap_err();
    assert!(err.contains("unknown variant"), "{err}");
    for (known, _) in EVERY_API {
        assert!(err.contains(known), "vocabulary missing {known}: {err}");
    }
}

#[test]
fn protocol_name_matches_serde() {
    for protocol in [Protocol::OpenAiCompat] {
        assert_eq!(Protocol::from_name(protocol.as_str()), Some(protocol), "{}", protocol.as_str());
    }
    assert_eq!(Protocol::from_name("anthropic"), None);
    assert_eq!(Protocol::OpenAiCompat.apis(), vec![Api::ChatCompletions, Api::ChatCompletionsStream, Api::Responses]);
}
