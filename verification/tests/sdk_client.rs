use moderac::client::{prompt, Endpoint};
use moderac::help::agent_help;
use moderac::{Client, Mode, PromptTest, Skill, TestSuite};

#[test]
fn mode_is_remote_exactly_with_an_api_key() {
    assert!(matches!(Mode::from_env_values(None, Some("http://x".to_string())), Mode::Local));
    match Mode::from_env_values(Some("mdr_k".to_string()), None) {
        Mode::Remote { base_url, api_key } => {
            assert_eq!(base_url, "https://moderac.com");
            assert_eq!(api_key, "mdr_k");
        }
        Mode::Local => panic!("expected remote"),
    }
    match Mode::from_env_values(Some("k".to_string()), Some("http://localhost:3000".to_string())) {
        Mode::Remote { base_url, .. } => assert_eq!(base_url, "http://localhost:3000"),
        Mode::Local => panic!("expected remote"),
    }
}

#[test]
fn remote_targets_are_below_the_base_url() {
    let c = Client::new(Mode::Remote { base_url: "https://h".to_string(), api_key: "k".to_string() });
    assert_eq!(c.target(Endpoint::Tests).unwrap(), ("https://h/api/v1/tests".to_string(), "k".to_string()));
    assert_eq!(c.target(Endpoint::Runs).unwrap().0, "https://h/api/v1/runs");
    assert_eq!(c.target(Endpoint::Evaluate).unwrap().0, "https://h/api/v1/evaluate");
}

#[test]
fn local_client_refuses_remote_requests() {
    let c = Client::new(Mode::Local);
    assert_eq!(c.target(Endpoint::Evaluate).unwrap_err(), "Not in remote mode");
    assert!(matches!(c.mode(), Mode::Local));
}

#[test]
fn sync_sends_every_test_resolved() {
    let mut suite = TestSuite::new();
    suite.insert_skill(Skill { name: "k".to_string(), description: None, body: "K".to_string() });
    suite.push_test(PromptTest {
        name: "a".to_string(),
        tags: vec![],
        skills: vec!["k".to_string()],
        prompt: "A".to_string(),
        expected: Some("ok".to_string()),
    });
    suite.push_test(PromptTest {
        name: "b".to_string(),
        tags: vec![],
        skills: vec![],
        prompt: "B".to_string(),
        expected: None,
    });
    let ups = Client::sync_payloads(&suite);
    assert_eq!(ups.len(), 2);
    assert_eq!(ups[0].name, "a");
    assert_eq!(ups[0].prompt, "## Skill: k\nK\n\nA");
    assert_eq!(ups[0].expected.as_deref(), Some("ok"));
    assert_eq!(ups[1].prompt, "B");
    assert_eq!(ups[1].expected, None);
}

#[test]
fn builder_joins_expectations() {
    let b = prompt("Sign up a new user").expect("Returns a user ID").expect("Sends a welcome email");
    assert_eq!(b.prompt_text(), "Sign up a new user");
    assert_eq!(b.expected_text(), "Returns a user ID; Sends a welcome email");
    assert_eq!(prompt("p").expected_text(), "");
    assert_eq!(prompt("p").expect("one").expected_text(), "one");
}

#[test]
fn agent_help_describes_the_tool() {
    let h = agent_help();
    assert!(h.starts_with("# Moderac — Prompt-Based Testing SDK"));
    assert!(h.contains("moderac test --remote --json"));
    assert!(h.contains("## Skill: json-api\n<json-api body>"));
}
