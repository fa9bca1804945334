use warpllm::client::{Client, ClientConfig, DEFAULT_TIMEOUT_SECS};
use warpllm::credentials::Credentials;
use warpllm::error::Error;
use warpllm::registry::fetch_model;
use warpllm::version;

fn client(config: ClientConfig, keys: Vec<(&str, &str)>) -> Client {
    let values = keys.into_iter().map(|(p, k)| (p.to_string(), Some(k.to_string()))).collect();
    Client::new(config, Credentials::from_values(values))
}

#[test]
fn base_url_defaults_to_each_providers_api() {
    let client = client(ClientConfig::default(), vec![]);
    let (openai, _) = fetch_model("openai/gpt-5.6").unwrap();
    let (deepseek, _) = fetch_model("deepseek/deepseek-v4-flash").unwrap();
    assert_eq!(client.base_url(&openai), "https://api.openai.com/v1");
    assert_eq!(client.base_url(&deepseek), "https://api.deepseek.com");
}

#[test]
fn configured_base_url_wins_over_the_default() {
    let config = ClientConfig { base_url: Some("http://localhost:9999".into()), ..Default::default() };
    let client = client(config, vec![]);
    let (openai, _) = fetch_model("openai/gpt-5.6").unwrap();
    assert_eq!(client.base_url(&openai), "http://localhost:9999");
}

#[test]
fn streaming_is_refused_before_anything_else() {
    let client = client(ClientConfig::default(), vec![]);
    match client.route("nope/nope", Some(true)) {
        Err(Error::NotImplemented(what)) => assert_eq!(what, "streaming"),
        other => panic!("{other:?}"),
    }
}

/// The roster is asked before the credentials: a typo is reported as one.
#[test]
fn an_unregistered_model_is_refused_before_its_key_is_looked_for() {
    let client = client(ClientConfig::default(), vec![]);
    match client.route("deepseek/typo", None) {
        Err(Error::InvalidModel { given }) => assert_eq!(given, "deepseek/typo"),
        other => panic!("{other:?}"),
    }
}

#[test]
fn a_registered_model_without_a_key_names_the_variable() {
    let client = client(ClientConfig::default(), vec![("openai", "sk-openai")]);
    match client.route("deepseek/deepseek-v4-pro", Some(false)) {
        Err(Error::MissingApiKey { provider, env_var }) => {
            assert_eq!(provider, "deepseek");
            assert_eq!(env_var.as_deref(), Some("DEEPSEEK_API_KEY"));
        },
        other => panic!("{other:?}"),
    }
}

#[test]
fn a_routed_request_carries_its_key_url_and_entry() {
    let config = ClientConfig { base_url: Some("http://localhost:9999/".into()), timeout_secs: Some(5) };
    let client = client(config, vec![("openai", "sk-openai")]);
    assert_eq!(client.config().timeout(), 5);
    let route = client.route("openai/gpt-5.6-luna", None).unwrap();
    assert_eq!(route.model_str, "openai/gpt-5.6-luna");
    assert_eq!(route.model.model(), "gpt-5.6-luna");
    assert_eq!(route.provider.name(), "openai");
    assert_eq!(route.api_key, "sk-openai");
    assert_eq!(route.base_url, "http://localhost:9999/");
    assert_eq!(route.url, "http://localhost:9999/chat/completions");
}

#[test]
fn the_default_timeout_is_the_sdks() {
    assert_eq!(ClientConfig::default().timeout(), DEFAULT_TIMEOUT_SECS);
    assert_eq!(DEFAULT_TIMEOUT_SECS, 600);
}

#[test]
fn a_provider_key_missing_from_the_snapshot_is_reported() {
    let client = client(ClientConfig::default(), vec![]);
    let (openai, _) = fetch_model("openai/gpt-5.6").unwrap();
    match client.api_key(&openai) {
        Err(e @ Error::MissingApiKey { .. }) => {
            assert!(e.text().contains("set the OPENAI_API_KEY environment variable"));
        },
        other => panic!("{other:?}"),
    }
}

#[test]
fn version_matches_manifest() {
    assert_eq!(version(), "0.2.0");
    assert_eq!(version().split('.').count(), 3);
}

/// A provider that names no environment variable has no key source at all,
/// so the error says that rather than naming a variable nothing reads.
#[test]
fn a_provider_with_no_env_api_key_names_the_roster() {
    let roster = "providers:
  demo:
    base_url: \"https://api.demo.test\"
    protocol: openai_compat
    supported_apis: [chat_completions]
    models:
      demo/plain: {}
";
    let registry = warpllm::registry::load::load(roster).unwrap();
    let demo = registry.provider("demo").unwrap();
    let client = client(ClientConfig::default(), vec![]);
    let err = client.api_key(demo).unwrap_err();
    match &err {
        Error::MissingApiKey { provider, env_var } => {
            assert_eq!(provider, "demo");
            assert_eq!(*env_var, None, "named a variable that does not exist");
        },
        other => panic!("expected MissingApiKey, got {other:?}"),
    }
    let message = err.text();
    assert!(message.contains("names no environment variable"), "{message}");
    assert!(!message.contains("set the"), "{message}");
    let wire: serde_json::Value = serde_json::from_str(&err.to_wire_json()).unwrap();
    assert_eq!(wire["code"], "missing_api_key");
    assert!(wire["env_var"].is_null());
    assert!(wire["message"].as_str().unwrap().contains("names no environment variable"));
}
