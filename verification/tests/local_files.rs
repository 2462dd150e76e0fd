use moderac::local::{
    init_files, parse_frontmatter, resolve_prompt, EXAMPLE_DUPLICATE_TEST, EXAMPLE_SIGNUP_TEST,
    EXAMPLE_SKILL,
};
use moderac::text::is_whitespace;
use moderac::{load_suite, PromptTest, Skill, SkillFrontmatter, TestFrontmatter, TestSuite};

fn strings(v: &[&str]) -> Vec<String> {
    v.iter().map(|s| s.to_string()).collect()
}

fn skill(name: &str, body: &str) -> Skill {
    Skill { name: name.to_string(), description: None, body: body.to_string() }
}

fn test_named(name: &str, skills: &[&str], prompt: &str) -> PromptTest {
    PromptTest {
        name: name.to_string(),
        tags: Vec::new(),
        skills: strings(skills),
        prompt: prompt.to_string(),
        expected: None,
    }
}

#[test]
fn frontmatter_is_split_from_body() {
    let (fm, body) = parse_frontmatter("---\nname: user-signup\ntags: [auth]\n---\n\nSign up a user.\n");
    assert_eq!(fm, Some("name: user-signup\ntags: [auth]"));
    assert_eq!(body, "Sign up a user.\n");
}

#[test]
fn document_without_frontmatter_is_all_body() {
    let (fm, body) = parse_frontmatter("Just a prompt.\n---\nstill body");
    assert_eq!(fm, None);
    assert_eq!(body, "Just a prompt.\n---\nstill body");
}

#[test]
fn unclosed_frontmatter_is_all_body() {
    let doc = "---\nname: x\nno closing fence";
    let (fm, body) = parse_frontmatter(doc);
    assert_eq!(fm, None);
    assert_eq!(body, doc);
}

#[test]
fn leading_white_space_before_the_fence_is_skipped() {
    let (fm, body) = parse_frontmatter(" \t\n---\n  name: x  \n---\n\n\nBody\n");
    assert_eq!(fm, Some("name: x"));
    assert_eq!(body, "Body\n");
}

#[test]
fn frontmatter_of_non_ascii_documents() {
    let (fm, body) = parse_frontmatter("\u{3000}---\nname: café\n---\nÜber — body");
    assert_eq!(fm, Some("name: café"));
    assert_eq!(body, "Über — body");
}

#[test]
fn white_space_agrees_with_std() {
    for u in 0u32..0x11_0000 {
        if let Some(c) = char::from_u32(u) {
            assert_eq!(is_whitespace(c), c.is_whitespace(), "{:?}", c);
        }
    }
}

#[test]
fn frontmatter_roundtrip_example() {
    let fm = "name: a\nskills: [b]";
    let doc = format!("---\n{}\n---\n{}", fm, "\n\nThe body.");
    let (got, body) = parse_frontmatter(&doc);
    assert_eq!(got, Some(fm));
    assert_eq!(body, "The body.");
}

#[test]
fn test_name_defaults_to_file_stem() {
    let fm = TestFrontmatter::default();
    let t = PromptTest::from_parts(fm, Some("user-signup"), "Prompt");
    assert_eq!(t.name, "user-signup");
    assert_eq!(t.prompt, "Prompt");
    assert!(t.tags.is_empty() && t.skills.is_empty() && t.expected.is_none());
    let t = PromptTest::from_parts(TestFrontmatter::default(), None, "P");
    assert_eq!(t.name, "unnamed");
}

#[test]
fn frontmatter_name_wins_over_file_stem() {
    let fm = TestFrontmatter {
        name: Some("named".to_string()),
        tags: strings(&["auth"]),
        skills: strings(&["json-api"]),
        expected: Some("201".to_string()),
    };
    let t = PromptTest::from_parts(fm, Some("file"), "P");
    assert_eq!(t.name, "named");
    assert_eq!(t.tags, strings(&["auth"]));
    assert_eq!(t.skills, strings(&["json-api"]));
    assert_eq!(t.expected.as_deref(), Some("201"));
    let s = Skill::from_parts(
        SkillFrontmatter { name: None, description: Some("d".to_string()) },
        Some("json-api"),
        "Body",
    );
    assert_eq!(s.name, "json-api");
    assert_eq!(s.description.as_deref(), Some("d"));
    assert_eq!(s.body, "Body");
}

#[test]
fn skill_composition_follows_docs() {
    let mut suite = TestSuite::new();
    suite.insert_skill(skill("json-api", "JSON body"));
    suite.insert_skill(skill("auth-flow", "Auth body"));
    let t = test_named("t", &["json-api", "auth-flow"], "The prompt");
    assert_eq!(
        resolve_prompt(&t, &suite),
        "## Skill: json-api\nJSON body\n\n## Skill: auth-flow\nAuth body\n\nThe prompt"
    );
}

#[test]
fn unknown_skills_contribute_nothing() {
    let mut suite = TestSuite::new();
    suite.insert_skill(skill("a", "A"));
    let t = test_named("t", &["missing", "a"], "P");
    assert_eq!(resolve_prompt(&t, &suite), "## Skill: a\nA\n\nP");
    let t = test_named("t", &[], "Only the prompt");
    assert_eq!(resolve_prompt(&t, &suite), "Only the prompt");
}

#[test]
fn later_skill_replaces_earlier_one() {
    let mut suite = TestSuite::new();
    suite.insert_skill(skill("a", "first"));
    suite.insert_skill(skill("b", "other"));
    suite.insert_skill(skill("a", "second"));
    assert_eq!(suite.get_skill(&"a".to_string()).unwrap().body, "second");
    assert_eq!(suite.get_skill(&"b".to_string()).unwrap().body, "other");
    assert!(suite.get_skill(&"c".to_string()).is_none());
}

#[test]
fn load_suite_keeps_order_and_reports_first_error() {
    let suite = load_suite(
        vec![Ok(skill("s", "1")), Ok(skill("s", "2"))],
        vec![Ok(test_named("x", &[], "X")), Ok(test_named("y", &[], "Y"))],
    )
    .unwrap();
    let names: Vec<&str> = suite.tests().iter().map(|t| t.name.as_str()).collect();
    assert_eq!(names, vec!["x", "y"]);
    assert_eq!(suite.get_skill(&"s".to_string()).unwrap().body, "2");

    let err = load_suite(
        vec![Ok(skill("s", "1")), Err("bad skill".to_string()), Err("worse".to_string())],
        vec![Err("bad test".to_string())],
    );
    assert_eq!(err.unwrap_err(), "bad skill");
    let err = load_suite(vec![], vec![Ok(test_named("x", &[], "X")), Err("bad test".to_string())]);
    assert_eq!(err.unwrap_err(), "bad test");
}

#[test]
fn empty_suite_loads() {
    let suite = load_suite(vec![], vec![]).unwrap();
    assert!(suite.tests().is_empty());
    let d = TestSuite::default();
    assert!(d.tests().is_empty());
}

#[test]
fn init_files_are_the_documented_examples() {
    let files = init_files();
    let paths: Vec<&str> = files.iter().map(|f| f.path.as_str()).collect();
    assert_eq!(paths, vec!["skills/json-api.md", "user-signup.md", "duplicate-email.md"]);
    assert_eq!(files[0].content, EXAMPLE_SKILL);
    assert_eq!(files[1].content, EXAMPLE_SIGNUP_TEST);
    assert_eq!(files[2].content, EXAMPLE_DUPLICATE_TEST);
    for (f, name) in files.iter().zip(["json-api", "user-signup", "duplicate-email"]) {
        let (fm, body) = parse_frontmatter(&f.content);
        let fm = fm.expect("example has frontmatter");
        assert!(fm.starts_with(&format!("name: {}", name)));
        assert!(!body.starts_with('\n'));
    }
}

#[test]
fn frontmatter_split_shape() {
    for doc in [
        "---\nname: a\n---\n\n\nbody\n",
        "  \n---\n  spaced  \n---body",
        "no frontmatter",
        "---\nunclosed",
        "\t---\n\n---\n",
    ] {
        let (fm, body) = parse_frontmatter(doc);
        assert!(doc.ends_with(body));
        match fm {
            None => assert_eq!(body, doc),
            Some(s) => {
                assert!(doc.trim_start().starts_with("---"));
                assert!(doc.contains(s));
                assert_eq!(s, s.trim());
                assert!(!body.starts_with('\n'));
            }
        }
    }
}

#[test]
fn suite_lists_each_skill_once_under_its_name() {
    let suite = load_suite(
        vec![Ok(skill("a", "1")), Ok(skill("b", "2")), Ok(skill("a", "3"))],
        vec![],
    )
    .unwrap();
    let mut names: Vec<(String, String)> =
        suite.skills().iter().map(|s| (s.name.clone(), s.body.clone())).collect();
    names.sort();
    assert_eq!(
        names,
        vec![("a".to_string(), "3".to_string()), ("b".to_string(), "2".to_string())]
    );
}

fn yaml_strings(v: &serde_yaml::Value, key: &str) -> Vec<String> {
    match v.get(key) {
        Some(serde_yaml::Value::Sequence(items)) => {
            items.iter().map(|i| i.as_str().unwrap().to_string()).collect()
        }
        _ => Vec::new(),
    }
}

fn yaml_opt(v: &serde_yaml::Value, key: &str) -> Option<String> {
    v.get(key).and_then(|x| x.as_str()).map(|s| s.to_string())
}

#[test]
fn initialised_directory_loads_back_as_documented() {
    let files = init_files();
    let found: Vec<Vec<String>> = files
        .iter()
        .map(|f| {
            let mut p = vec!["d".to_string()];
            p.extend(f.path.split('/').map(|c| c.to_string()));
            p
        })
        .collect();
    let dir = vec!["d".to_string()];
    let content_of = |p: &Vec<String>| {
        let rel = p[1..].join("/");
        files.iter().find(|f| f.path == rel).unwrap().content.clone()
    };
    let skill_paths = moderac::discover_skills(found.clone(), &dir);
    let test_paths = moderac::discover_tests(found, &dir);
    let skills: Vec<Result<Skill, String>> = skill_paths
        .iter()
        .map(|p| {
            let c = content_of(p);
            let (fm, body) = parse_frontmatter(&c);
            let v: serde_yaml::Value = serde_yaml::from_str(fm.unwrap()).unwrap();
            let fm = SkillFrontmatter { name: yaml_opt(&v, "name"), description: yaml_opt(&v, "description") };
            Ok(Skill::from_parts(fm, p.last().unwrap().strip_suffix(".md"), body))
        })
        .collect();
    let tests: Vec<Result<PromptTest, String>> = test_paths
        .iter()
        .map(|p| {
            let c = content_of(p);
            let (fm, body) = parse_frontmatter(&c);
            let v: serde_yaml::Value = serde_yaml::from_str(fm.unwrap()).unwrap();
            let fm = TestFrontmatter {
                name: yaml_opt(&v, "name"),
                tags: yaml_strings(&v, "tags"),
                skills: yaml_strings(&v, "skills"),
                expected: yaml_opt(&v, "expected"),
            };
            Ok(PromptTest::from_parts(fm, p.last().unwrap().strip_suffix(".md"), body))
        })
        .collect();
    let suite = load_suite(skills, tests).unwrap();
    let names: Vec<&str> = suite.tests().iter().map(|t| t.name.as_str()).collect();
    assert_eq!(names, vec!["duplicate-email", "user-signup"]);
    assert_eq!(suite.tests()[0].tags, strings(&["auth", "error"]));
    assert_eq!(suite.tests()[1].tags, strings(&["auth", "signup"]));
    for t in suite.tests() {
        assert_eq!(t.skills, strings(&["json-api"]));
    }
    let skill_names: Vec<&str> = suite.skills().iter().map(|s| s.name.as_str()).collect();
    assert_eq!(skill_names, vec!["json-api"]);
}

#[test]
fn cloned_suite_keeps_tests_and_skills() {
    let suite = load_suite(
        vec![Ok(skill("a", "1")), Ok(skill("b", "2"))],
        vec![Ok(test_named("t", &["a"], "p"))],
    )
    .unwrap();
    let copy = suite.clone();
    assert_eq!(copy.tests().len(), 1);
    assert_eq!(copy.tests()[0].name, suite.tests()[0].name);
    assert_eq!(copy.tests()[0].skills, suite.tests()[0].skills);
    assert_eq!(copy.tests()[0].prompt, suite.tests()[0].prompt);
    assert_eq!(resolve_prompt(&copy.tests()[0], &copy), resolve_prompt(&suite.tests()[0], &suite));
    let mut names: Vec<String> = copy.skills().iter().map(|s| s.name.clone()).collect();
    names.sort();
    assert_eq!(names, strings(&["a", "b"]));
}
