use warpllm::balanced::BalancedClient;
use warpllm::balancer::{Balancer, Candidate};
use warpllm::client::{Client, ClientConfig};
use warpllm::credentials::Credentials;
use warpllm::registry::load::load;

/// Three single-model providers, so a candidate can be built for each name.
const ROSTER: &str = "providers:
  a:
    base_url: \"https://api.a.test\"
    protocol: openai_compat
    supported_apis: [chat_completions]
    models:
      a/test: {}
  b:
    base_url: \"https://api.b.test\"
    protocol: openai_compat
    supported_apis: [chat_completions]
    models:
      b/test: {}
  c:
    base_url: \"https://api.c.test\"
    protocol: openai_compat
    supported_apis: [chat_completions]
    models:
      c/test: {}
";

fn candidate(name: &str, weight: u32) -> Candidate {
    let registry = load(ROSTER).unwrap();
    let key = format!("{name}/test");
    Candidate {
        model_str: key.clone(),
        provider: registry.provider(name).unwrap().copy(),
        model: registry.model(&key).unwrap().copy(),
        weight,
    }
}

fn pick(balancer: &mut Balancer) -> String {
    balancer.select().provider.name().to_string()
}

#[test]
fn single_candidate_always_selects() {
    let mut balancer = Balancer::new(vec![candidate("a", 1)]);
    for _ in 0..100 {
        assert_eq!(pick(&mut balancer), "a");
    }
}

#[test]
fn two_equal_weight_candidates_alternate() {
    let mut balancer = Balancer::new(vec![candidate("a", 1), candidate("b", 1)]);
    let picks: Vec<String> = (0..6).map(|_| pick(&mut balancer)).collect();
    assert_eq!(picks, vec!["a", "b", "a", "b", "a", "b"]);
}

#[test]
fn three_to_one_ratio() {
    let mut balancer = Balancer::new(vec![candidate("a", 3), candidate("b", 1)]);
    let mut counts = [0u32; 2];
    for _ in 0..1000 {
        if pick(&mut balancer) == "a" {
            counts[0] += 1;
        } else {
            counts[1] += 1;
        }
    }
    assert_eq!(counts[0], 750, "weight-3 candidate should be selected 750 times");
    assert_eq!(counts[1], 250, "weight-1 candidate should be selected 250 times");
}

#[test]
fn distribution_is_exact_over_cycle() {
    let mut balancer = Balancer::new(vec![candidate("a", 2), candidate("b", 1), candidate("c", 1)]);
    let mut counts = [0u32; 3];
    for _ in 0..4 {
        let idx = match pick(&mut balancer).as_str() {
            "a" => 0,
            "b" => 1,
            "c" => 2,
            _ => unreachable!(),
        };
        counts[idx] += 1;
    }
    assert_eq!(counts, [2, 1, 1]);
}

#[test]
fn smoothness_no_two_identical_picks_are_far_apart() {
    let mut balancer = Balancer::new(vec![candidate("a", 5), candidate("b", 1)]);
    let picks: Vec<String> = (0..12).map(|_| pick(&mut balancer)).collect();
    let a_positions: Vec<usize> = picks
        .iter()
        .enumerate()
        .filter(|(_, name)| name.as_str() == "a")
        .map(|(i, _)| i)
        .collect();
    for pair in a_positions.windows(2) {
        let gap = pair[1] - pair[0];
        assert!(gap <= 2, "gap between A picks should be at most 2, got {gap}: {picks:?}");
    }
}

/// The weights [3, 1] walk-through: A, A, B, A, then the cycle repeats.
#[test]
fn the_documented_cycle_is_followed() {
    let mut balancer = Balancer::new(vec![candidate("a", 3), candidate("b", 1)]);
    let picks: Vec<String> = (0..8).map(|_| pick(&mut balancer)).collect();
    assert_eq!(picks, vec!["a", "a", "b", "a", "a", "a", "b", "a"]);
}

/// A zero-weight candidate is never picked while another has weight.
#[test]
fn a_zero_weight_candidate_is_never_picked() {
    let mut balancer = Balancer::new(vec![candidate("a", 0), candidate("b", 2)]);
    for _ in 0..10 {
        assert_eq!(pick(&mut balancer), "b");
    }
}

fn client() -> Client {
    Client::new(ClientConfig::default(), Credentials::from_values(Vec::new()))
}

#[test]
fn empty_candidates_rejected() {
    let client = client();
    let err = match BalancedClient::new(&client, &[]) {
        Err(e) => e,
        Ok(_) => panic!("an empty candidate list was accepted"),
    };
    assert!(err.text().contains("at least one candidate"));
}

#[test]
fn unknown_model_rejected() {
    let client = client();
    let err = match BalancedClient::new(&client, &[("nope/nope", 1)]) {
        Err(e) => e,
        Ok(_) => panic!("an unregistered model was accepted"),
    };
    assert!(err.text().contains("no registered model"));
}

#[test]
fn balancer_distribution_from_public_interface() {
    let mut balancer = Balancer::new(vec![candidate("a", 3), candidate("b", 1)]);
    let mut counts = [0u32; 2];
    for _ in 0..1000 {
        if pick(&mut balancer) == "a" {
            counts[0] += 1;
        } else {
            counts[1] += 1;
        }
    }
    assert_eq!(counts[0], 750);
    assert_eq!(counts[1], 250);
}

/// A balanced client rewrites each request to its candidates in turn.
#[test]
fn a_balanced_client_rotates_its_model_strings() {
    let client = client();
    let mut balanced =
        match BalancedClient::new(&client, &[("openai/gpt-5.6", 3), ("deepseek/deepseek-v4-pro", 1)]) {
            Ok(b) => b,
            Err(e) => panic!("{}", e.text()),
        };
    let picks: Vec<String> = (0..4).map(|_| balanced.next_model()).collect();
    assert_eq!(
        picks,
        vec!["openai/gpt-5.6", "openai/gpt-5.6", "deepseek/deepseek-v4-pro", "openai/gpt-5.6"]
    );
}

/// Over any whole number of cycles each candidate is picked exactly that many
/// times its weight, and the next cycle starts where the first one did.
#[test]
fn whole_cycles_are_exact() {
    let mut balancer = Balancer::new(vec![candidate("a", 2), candidate("b", 1), candidate("c", 1)]);
    let first: Vec<String> = (0..4).map(|_| pick(&mut balancer)).collect();
    let mut counts = [0u32; 3];
    for cycle in 0..3 {
        let picks: Vec<String> = (0..4).map(|_| pick(&mut balancer)).collect();
        assert_eq!(picks, first, "cycle {cycle} repeats the first");
        for p in &picks {
            counts[(p.as_bytes()[0] - b'a') as usize] += 1;
        }
    }
    assert_eq!(counts, [6, 3, 3]);
}
