use warpllm::credentials::{key_variables, Credentials};

/// What the environment holds, as each roster provider's variable reads.
fn read(openai: Option<&str>, deepseek: Option<&str>) -> Credentials {
    let vars = key_variables().unwrap();
    let values = vars
        .into_iter()
        .map(|(provider, var)| {
            let value = match var.as_deref() {
                Some("OPENAI_API_KEY") => openai.map(str::to_string),
                Some("DEEPSEEK_API_KEY") => deepseek.map(str::to_string),
                _ => None,
            };
            (provider, value)
        })
        .collect();
    Credentials::from_values(values)
}

#[test]
fn one_key_admits_one_provider() {
    let credentials = read(Some("sk-openai"), None);
    assert_eq!(credentials.names(), vec!["openai"]);
    assert_eq!(credentials.get("openai"), Some("sk-openai"));
    assert_eq!(credentials.get("deepseek"), None);
}

#[test]
fn every_set_key_admits_its_provider() {
    let credentials = read(Some("sk-openai"), Some("sk-deepseek"));
    assert_eq!(credentials.names(), vec!["deepseek", "openai"]);
    assert_eq!(credentials.get("deepseek"), Some("sk-deepseek"));
}

#[test]
fn an_empty_environment_yields_no_providers() {
    let credentials = read(None, None);
    assert!(credentials.names().is_empty());
    assert_eq!(credentials.get("openai"), None);
}

#[test]
fn an_empty_value_is_not_a_key() {
    assert!(read(Some(""), None).names().is_empty());
}

#[test]
fn an_unknown_provider_is_never_available() {
    assert_eq!(read(Some("sk-openai"), None).get("mistral"), None);
}

/// What gets shown of a credential set is its provider names, never a key.
#[test]
fn debug_redacts_the_keys() {
    let rendered = format!("{:?}", read(Some("sk-secret-value"), None).names());
    assert!(rendered.contains("openai"), "{rendered}");
    assert!(!rendered.contains("sk-secret-value"), "{rendered}");
}

#[test]
fn the_roster_names_each_providers_variable() {
    assert_eq!(
        key_variables().unwrap(),
        vec![
            ("deepseek".to_string(), Some("DEEPSEEK_API_KEY".to_string())),
            ("openai".to_string(), Some("OPENAI_API_KEY".to_string())),
        ]
    );
}

/// A provider read twice keeps the later non-empty key; names stay unique
/// and sorted.
#[test]
fn a_later_key_wins_and_names_are_unique() {
    let credentials = Credentials::from_values(vec![
        ("zeta".to_string(), Some("k1".to_string())),
        ("alpha".to_string(), Some("k2".to_string())),
        ("zeta".to_string(), Some("k3".to_string())),
        ("zeta".to_string(), Some(String::new())),
    ]);
    assert_eq!(credentials.get("zeta"), Some("k3"));
    assert_eq!(credentials.names(), vec!["alpha", "zeta"]);
}
