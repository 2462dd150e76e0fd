use moderac::cli::{
    check_test_run, error_exit_code, is_skill_path, list_meta, loaded_entries, outcome_of_status,
    prompt_preview, select_tests, TestOutcome, TestTally,
};
use moderac::order::sort_paths;
use moderac::{discover_skills, discover_tests, PromptTest};
use std::path::PathBuf;

fn strings(v: &[&str]) -> Vec<String> {
    v.iter().map(|s| s.to_string()).collect()
}

fn t(name: &str, tags: &[&str]) -> PromptTest {
    PromptTest {
        name: name.to_string(),
        tags: strings(tags),
        skills: vec![],
        prompt: String::new(),
        expected: None,
    }
}

#[test]
fn filters_select_tests() {
    let tests = vec![t("a", &["auth"]), t("b", &["smoke"]), t("c", &["auth", "smoke"])];
    assert_eq!(select_tests(&tests, &None, &None), vec![0, 1, 2]);
    assert_eq!(select_tests(&tests, &None, &Some("auth".to_string())), vec![0, 2]);
    assert_eq!(select_tests(&tests, &Some("b".to_string()), &None), vec![1]);
    // A name filter takes precedence over a tag filter.
    assert_eq!(select_tests(&tests, &Some("b".to_string()), &Some("auth".to_string())), vec![1]);
    assert!(select_tests(&tests, &Some("zz".to_string()), &None).is_empty());
}

#[test]
fn tally_gives_exit_codes() {
    let mut tally = TestTally::new();
    assert_eq!(tally.exit_code(), 0);
    assert_eq!(tally.overall_status(), "passed");
    tally.record(outcome_of_status("passed"));
    assert_eq!(tally.exit_code(), 0);
    tally.record(outcome_of_status("failed"));
    assert_eq!(tally.passed(), 1);
    assert_eq!(tally.failed(), 1);
    assert_eq!(tally.errored(), 0);
    assert_eq!(tally.overall_status(), "failed");
    assert_eq!(tally.exit_code(), 1);
    // A test that could not be evaluated (a network failure, a bad
    // configuration) makes the whole run an error.
    tally.record(TestOutcome::Error);
    assert_eq!(tally.passed(), 1);
    assert_eq!(tally.failed(), 2);
    assert_eq!(tally.errored(), 1);
    assert_eq!(tally.overall_status(), "error");
    assert_eq!(tally.exit_code(), 2);
    assert_eq!(error_exit_code(), 2);
    assert_eq!(outcome_of_status("PASSED"), TestOutcome::Failed);
}

#[test]
fn listing_metadata() {
    assert_eq!(list_meta(&vec![], &vec![]), None);
    assert_eq!(list_meta(&strings(&["auth", "signup"]), &vec![]).unwrap(), "tags: auth, signup");
    assert_eq!(
        list_meta(&strings(&["auth"]), &strings(&["json-api", "x"])).unwrap(),
        "tags: auth | skills: json-api, x"
    );
    assert_eq!(list_meta(&vec![], &strings(&["s"])).unwrap(), "skills: s");
}

#[test]
fn skill_files_are_recognised_by_path() {
    assert!(is_skill_path(&strings(&["moderac-tests", "skills", "json-api.md"])));
    assert!(!is_skill_path(&strings(&["moderac-tests", "user-signup.md"])));
    assert!(!is_skill_path(&strings(&["my-skills", "a.md"])));
}

#[test]
fn prompt_preview_shows_three_lines() {
    assert_eq!(prompt_preview("a\nb"), (strings(&["a", "b"]), false));
    assert_eq!(prompt_preview("a\r\nb\r\nc\n"), (strings(&["a", "b", "c"]), false));
    assert_eq!(prompt_preview("1\n2\n3\n4"), (strings(&["1", "2", "3"]), true));
    assert_eq!(prompt_preview(""), (vec![], false));
    assert_eq!(prompt_preview("\n"), (strings(&[""]), false));
    assert_eq!(prompt_preview("x\r"), (strings(&["x\r"]), false));
    for s in ["a\n\nb\n\n", "one", "a\r\n\r\nb\nc\nd", "\n\n\n\n"] {
        let lines: Vec<String> = s.lines().map(|l| l.to_string()).collect();
        let (shown, more) = prompt_preview(s);
        assert_eq!(shown, lines.iter().take(3).cloned().collect::<Vec<_>>());
        assert_eq!(more, lines.len() > 3);
    }
}

fn p(s: &str) -> Vec<String> {
    s.split('/').map(|c| c.to_string()).collect()
}

#[test]
fn discovered_tests_skip_skills_and_are_sorted() {
    let found = vec![p("t/z.md"), p("t/skills/s.md"), p("t/a/b.md"), p("t/a.md"), p("t/skillsx.md")];
    let got = discover_tests(found, &p("t"));
    assert_eq!(got, vec![p("t/a/b.md"), p("t/a.md"), p("t/skillsx.md"), p("t/z.md")]);
}

#[test]
fn discovered_skills_are_sorted() {
    let got = discover_skills(
        vec![p("t/skills/b.md"), p("t/skills/a.md"), p("t/skills/a.md"), p("t/x.md")],
        &p("t"),
    );
    assert_eq!(got, vec![p("t/skills/a.md"), p("t/skills/a.md"), p("t/skills/b.md")]);
}

#[test]
fn discovery_splits_tests_from_skills() {
    let found = vec![p("t/a.md"), p("t/skills/s.md"), p("t/skills/x/y.md"), p("t/b/c.md")];
    let tests = discover_tests(found.clone(), &p("t"));
    let skills = discover_skills(found, &p("t"));
    assert_eq!(tests, vec![p("t/a.md"), p("t/b/c.md")]);
    assert_eq!(skills, vec![p("t/skills/s.md"), p("t/skills/x/y.md")]);
    assert!(tests.iter().all(|t| !skills.contains(t)));
}

#[test]
fn remote_run_stops_early_on_empty_suite_or_selection() {
    assert_eq!(check_test_run(0, 0), Err("No test files found. Run `moderac init` first.".to_string()));
    assert_eq!(check_test_run(3, 0), Err("No tests matched the given filters.".to_string()));
    assert_eq!(check_test_run(3, 1), Ok(()));
}

#[test]
fn listings_skip_unreadable_files() {
    let rs: Vec<Result<u32, String>> = vec![Ok(1), Err("bad".to_string()), Ok(3)];
    assert_eq!(loaded_entries(rs), vec![1, 3]);
    assert_eq!(loaded_entries::<u32>(vec![Err("x".to_string())]), Vec::<u32>::new());
}

#[test]
fn path_order_matches_std() {
    let names = ["b.md", "a/b.md", "a.md", "a-b.md", "ab.md", "A.md", "é.md", "a/a/a.md", "z"];
    let found: Vec<Vec<String>> = names.iter().map(|n| p(&format!("d/{}", n))).collect();
    let sorted = sort_paths(found);
    let mut expected: Vec<PathBuf> = names.iter().map(|n| PathBuf::from(format!("d/{}", n))).collect();
    expected.sort();
    let expected: Vec<Vec<String>> = expected
        .iter()
        .map(|pb| pb.components().map(|c| c.as_os_str().to_string_lossy().into_owned()).collect())
        .collect();
    assert_eq!(sorted, expected);
}

#[test]
fn discovered_paths_are_strictly_ascending() {
    let found = vec![p("t/b.md"), p("t/skills/z.md"), p("t/a.md"), p("t/skills/y.md"), p("t/c/d.md")];
    let tests = discover_tests(found.clone(), &p("t"));
    let skills = discover_skills(found, &p("t"));
    assert!(tests.windows(2).all(|w| w[0] < w[1]));
    assert!(skills.windows(2).all(|w| w[0] < w[1]));
}
