use moderac::server::config::Config;
use moderac::server::eval::evaluate_test;
use moderac::server::handlers::api_keys::{api_key_from_random, create_key_record, new_api_key};
use moderac::server::handlers::auth::{
    login_code, login_response, logout_cookie, me, new_login_code, session_cookie,
};
use moderac::server::handlers::projects::{update_fields as update_project, Project, UpdateProject};
use moderac::server::handlers::public_api::{created_test_response, CreateTestRequest};
use moderac::server::handlers::runs::{result_response, RunOrigin, RunProgress};
use moderac::server::handlers::tests::{update_fields as update_test, Test, UpdateTest};
use moderac::server::handlers::{
    api_key_hash, bearer_token, new_record_id, removal_status, session_token, AuthUser,
};
use sha2::Digest;

#[test]
fn config_from_environment_values() {
    let c = Config::from_env_values(None, Some(String::new()), None, None, None, None);
    assert_eq!(c.listen_addr, "0.0.0.0:3000");
    assert_eq!(c.futureauth_api_url, "https://future-auth.com");
    assert!(c.openai_api_key.is_none());
    assert!(!c.has_db() && !c.has_auth() && !c.has_eval());
    let c = Config::from_env_values(
        Some("postgres://db".to_string()),
        Some("sk".to_string()),
        None,
        Some("8080".to_string()),
        Some("https://auth".to_string()),
        Some("secret".to_string()),
    );
    assert_eq!(c.listen_addr, "0.0.0.0:8080");
    assert_eq!(c.futureauth_api_url, "https://auth");
    assert!(c.has_db() && c.has_auth() && c.has_eval());
    let c = Config::from_env_values(Some("d".to_string()), None, Some("127.0.0.1:1".to_string()), Some("9".to_string()), None, None);
    assert_eq!(c.listen_addr, "127.0.0.1:1");
    assert!(c.has_db() && !c.has_auth());
}

#[test]
fn placeholder_evaluation() {
    let e = evaluate_test("", "Do X", Some("Y"), None);
    assert_eq!(e.status, "passed");
    assert_eq!(e.score_hundredths, 100);
    assert_eq!(e.evaluation, "Placeholder evaluation for prompt: 'Do X'. Expected: 'Y'");
    let e = evaluate_test("sk-1", "Do X", None, Some("{}"));
    assert_eq!(e.score_hundredths, 95);
    assert_eq!(e.evaluation, "LLM evaluation pending. Prompt: 'Do X', Expected: '(none)'");
}

#[test]
fn api_key_hash_is_hex_sha256() {
    assert_eq!(
        api_key_hash("abc"),
        "ba7816bf8f01cfea414140de5dae2223b00361a396177a9cb410ff61f20015ad"
    );
}

#[test]
fn api_key_from_known_bytes() {
    let m = api_key_from_random(&[0xab; 24]);
    assert_eq!(m.raw_key, format!("mdr_{}", "ab".repeat(24)));
    assert_eq!(m.key_prefix, "mdr_abababab...");
    assert_eq!(m.key_hash, hex::encode(sha2::Sha256::digest(m.raw_key.as_bytes())));
}

#[test]
fn created_key_authenticates() {
    let m = new_api_key();
    assert!(m.raw_key.starts_with("mdr_"));
    assert_eq!(m.raw_key.len(), 52);
    assert_eq!(&m.key_prefix[..12], &m.raw_key[..12]);
    assert!(m.key_prefix.ends_with("..."));
    let header = format!("Bearer {}", m.raw_key);
    let token = bearer_token(&header).unwrap();
    assert_eq!(api_key_hash(&token), m.key_hash);
}

#[test]
fn bearer_tokens() {
    assert_eq!(bearer_token("Bearer mdr_x").as_deref(), Some("mdr_x"));
    assert_eq!(bearer_token("Bearer ").as_deref(), Some(""));
    assert_eq!(bearer_token("bearer mdr_x"), None);
    assert_eq!(bearer_token("Basic abc"), None);
}

#[test]
fn session_tokens_from_cookies() {
    assert_eq!(session_token("futureauth_session=tok").as_deref(), Some("tok"));
    assert_eq!(session_token("a=b; futureauth_session=tok; c=d").as_deref(), Some("tok"));
    assert_eq!(session_token("a=b;futureauth_session=x;futureauth_session=y").as_deref(), Some("x"));
    assert_eq!(session_token("  futureauth_session=  tok  ").as_deref(), Some("  tok"));
    assert_eq!(session_token("futureauth_session=").as_deref(), Some(""));
    assert_eq!(session_token(""), None);
    assert_eq!(session_token("session=abc"), None);
    assert_eq!(session_token("xfutureauth_session=abc"), None);
}

#[test]
fn login_codes_have_six_digits() {
    assert_eq!(login_code(42), "000042");
    assert_eq!(login_code(1_234_567), "234567");
    assert_eq!(login_code(u32::MAX), "967295");
    assert_eq!(login_code(0), "000000");
    let c = new_login_code();
    assert_eq!(c.len(), 6);
    assert!(c.chars().all(|ch| ch.is_ascii_digit()));
    for r in [0u32, 7, 999_999, 1_000_000, 123_456_789] {
        assert_eq!(login_code(r), format!("{:06}", r % 1_000_000));
    }
}

#[test]
fn session_cookies() {
    assert_eq!(
        session_cookie("abc"),
        "session=abc; Path=/; HttpOnly; SameSite=Lax; Max-Age=2592000"
    );
    assert_eq!(logout_cookie(), "session=; Path=/; HttpOnly; SameSite=Lax; Max-Age=0");
    assert_eq!(login_response().message, "Code sent to your email");
    let u = me(AuthUser { user_id: "u1".to_string(), email: "a@b.c".to_string() });
    assert_eq!((u.id.as_str(), u.email.as_str()), ("u1", "a@b.c"));
}

fn project() -> Project {
    Project {
        id: "p".to_string(),
        user_id: "u".to_string(),
        name: "Old".to_string(),
        description: Some("desc".to_string()),
        base_url: None,
        created_at: "now".to_string(),
    }
}

#[test]
fn project_update_keeps_absent_fields() {
    let f = update_project(project(), UpdateProject { name: None, description: None, base_url: None });
    assert_eq!(f.name, "Old");
    assert_eq!(f.description.as_deref(), Some("desc"));
    assert_eq!(f.base_url, None);
    let f = update_project(
        project(),
        UpdateProject { name: Some("New".to_string()), description: None, base_url: Some("http://x".to_string()) },
    );
    assert_eq!(f.name, "New");
    assert_eq!(f.description.as_deref(), Some("desc"));
    assert_eq!(f.base_url.as_deref(), Some("http://x"));
}

#[test]
fn test_update_keeps_absent_fields() {
    let existing = Test {
        id: "t".to_string(),
        project_id: "p".to_string(),
        name: "n".to_string(),
        prompt: "p".to_string(),
        expected: None,
        eval_criteria: Some("{\"a\":1}".to_string()),
        config: None,
        created_at: "c".to_string(),
        updated_at: "u".to_string(),
    };
    let f = update_test(
        existing,
        UpdateTest { name: None, prompt: Some("q".to_string()), expected: Some("e".to_string()), eval_criteria: None, config: Some("{}".to_string()) },
    );
    assert_eq!(f.name, "n");
    assert_eq!(f.prompt, "q");
    assert_eq!(f.expected.as_deref(), Some("e"));
    assert_eq!(f.eval_criteria.as_deref(), Some("{\"a\":1}"));
    assert_eq!(f.config.as_deref(), Some("{}"));
}

#[test]
fn run_status_is_passed_only_when_all_pass() {
    let r = RunProgress::new();
    assert_eq!(r.final_status(), "passed");
    let mut r = RunProgress::new();
    r.record("passed");
    r.record("passed");
    assert_eq!(r.final_status(), "passed");
    r.record("failed");
    r.record("passed");
    assert_eq!(r.final_status(), "failed");
}

#[test]
fn result_responses() {
    assert_eq!(result_response(RunOrigin::Dashboard, "P"), "Evaluated prompt: P");
    assert_eq!(result_response(RunOrigin::PublicApi, "P"), "Evaluated: P");
}

#[test]
fn removal_statuses() {
    assert_eq!(removal_status(0), 404);
    assert_eq!(removal_status(1), 204);
    assert_eq!(removal_status(u64::MAX), 204);
}

#[test]
fn created_test_reply() {
    let r = created_test_response(
        "id1".to_string(),
        CreateTestRequest { name: "n".to_string(), prompt: "p".to_string(), expected: None, eval_criteria: None },
    );
    assert_eq!((r.id.as_str(), r.name.as_str(), r.prompt.as_str(), r.status.as_str()), ("id1", "n", "p", "created"));
}

#[test]
fn key_record_for_a_new_key() {
    let (created, hash) = create_key_record("ci".to_string());
    assert_eq!(created.name, "ci");
    assert_eq!(created.id.len(), 36);
    assert!(created.key.starts_with("mdr_") && created.key.len() == 52);
    assert_eq!(created.key_prefix, format!("{}...", &created.key[..12]));
    assert_eq!(hash, api_key_hash(&created.key));
}

fn is_uuid_v4_text(id: &str) -> bool {
    let cs: Vec<char> = id.chars().collect();
    cs.len() == 36
        && cs.iter().enumerate().all(|(i, c)| {
            if [8, 13, 18, 23].contains(&i) {
                *c == '-'
            } else {
                c.is_ascii_digit() || ('a'..='f').contains(c)
            }
        })
        && cs[14] == '4'
        && ['8', '9', 'a', 'b'].contains(&cs[19])
}

#[test]
fn record_ids_are_version_four_uuids() {
    for _ in 0..50 {
        let id = new_record_id();
        assert!(is_uuid_v4_text(&id), "{}", id);
    }
    let (created, _) = create_key_record("k".to_string());
    assert!(is_uuid_v4_text(&created.id));
    assert_ne!(new_record_id(), new_record_id());
}
