//! Reading tests and skills: frontmatter splitting, suite assembly and prompt
//! resolution. Reading files from disk is left to the caller.
use vstd::prelude::*;
use crate::order::{
    distinct_paths, lemma_sorted_distinct_ascending, paths_ascending, paths_sorted, sort_paths,
};
use crate::suite::{TestSuite};
use crate::types::{PromptTest, PromptTestView, Skill, SkillFrontmatter, SkillView, TestFrontmatter};
use crate::text::{
    copy_strings,
    chars_of, count_nl_lead, count_ws_lead, count_ws_trail, find, find_from, occurs_at, lemma_nl_lead_max, lemma_trim_facts,
    is_ws, lemma_lead_bounds, nl_lead, strip_leading_newlines, trim, trim_start, ws_lead,
};

verus! {

/// Default test directory
pub const DEFAULT_TEST_DIR: &'static str = "moderac-tests";

/// Skills subdirectory within the test directory
pub const SKILLS_DIR: &'static str = "skills";

/// The example skill a new test directory starts with.
pub const EXAMPLE_SKILL: &'static str = r#"---
name: json-api
description: Skill for testing JSON REST APIs
---

You are testing a JSON REST API. All requests and responses use JSON.
When evaluating responses, check for:
- Correct HTTP status codes
- Valid JSON structure
- Required fields present in response body
- Appropriate error messages for failure cases
"#;

/// The example test of a sign-up a new test directory starts with.
pub const EXAMPLE_SIGNUP_TEST: &'static str = r#"---
name: user-signup
tags: [auth, signup]
skills: [json-api]
expected: Returns a success response with a user ID and sends a welcome email
---

Sign up a new user with email test@example.com and password "SecurePass123!".

The system should:
- Create the user account
- Return the new user's ID
- Send a welcome email to the provided address
"#;

/// The example test of a duplicate e-mail a new test directory starts with.
pub const EXAMPLE_DUPLICATE_TEST: &'static str = r#"---
name: duplicate-email
tags: [auth, error]
skills: [json-api]
expected: Returns an appropriate error message about duplicate email
---

Attempt to sign up with an email address that is already registered in the system.

The system should reject the request and return a clear error indicating the email is taken.
"#;

/// A file a new test directory starts with: its path below the directory and
/// its content.
#[derive(Debug, Clone)]
pub struct InitFile {
    pub path: String,
    pub content: String,
}

/// The files of a new test directory: the example skill under `skills/` and
/// the two example tests, in the order they are written.
pub fn init_files() -> (r: Vec<InitFile>)
    ensures
        r.len() == 3,
        r@[0].path@ == "skills/json-api.md"@,
        r@[0].content@ == EXAMPLE_SKILL@,
        r@[1].path@ == "user-signup.md"@,
        r@[1].content@ == EXAMPLE_SIGNUP_TEST@,
        r@[2].path@ == "duplicate-email.md"@,
        r@[2].content@ == EXAMPLE_DUPLICATE_TEST@,
{
    let mut r: Vec<InitFile> = Vec::new();
    r.push(
        InitFile {
            path: String::from_str("skills/json-api.md"),
            content: String::from_str(EXAMPLE_SKILL),
        },
    );
    r.push(
        InitFile {
            path: String::from_str("user-signup.md"),
            content: String::from_str(EXAMPLE_SIGNUP_TEST),
        },
    );
    r.push(
        InitFile {
            path: String::from_str("duplicate-email.md"),
            content: String::from_str(EXAMPLE_DUPLICATE_TEST),
        },
    );
    r
}

/// The opening fence of a frontmatter block.
pub open spec fn fence() -> Seq<char> {
    seq!['-', '-', '-']
}

/// The line that closes a frontmatter block: a line feed and a fence.
pub open spec fn closing_fence() -> Seq<char> {
    seq!['\n', '-', '-', '-']
}

/// How a markdown document splits into frontmatter and body.
///
/// After leading white space the document must open with `---`; the
/// frontmatter runs up to the first `\n---` after it and is trimmed, and the
/// body is what follows that line with its leading line feeds removed. Without
/// both fences there is no frontmatter and the body is the whole document.
pub open spec fn split_frontmatter(content: Seq<char>) -> (Option<Seq<char>>, Seq<char>) {
    let t = trim_start(content);
    if t.len() >= 3 && t.take(3) == fence() {
        let rest = t.skip(3);
        match find(rest, closing_fence()) {
            Some(end) => (
                Some(trim(rest.take(end))),
                strip_leading_newlines(rest.skip(end + 4)),
            ),
            None => (None, content),
        }
    } else {
        (None, content)
    }
}

/// Split a markdown file into YAML frontmatter and body content.
pub fn parse_frontmatter(content: &str) -> (r: (Option<&str>, &str))
    ensures
        r.0 matches Some(fm) ==> split_frontmatter(content@).0 == Some(fm@),
        r.0 is None ==> split_frontmatter(content@).0 is None,
        r.1@ == split_frontmatter(content@).1,
{
    let cs = chars_of(content);
    let n = cs.len();
    let k = count_ws_lead(&cs, 0, n);
    proof {
        assert(cs@.subrange(0, n as int) == cs@);
    }
    let ghost t = trim_start(content@);
    assert(t == cs@.subrange(k as int, n as int));
    if !(n - k >= 3 && cs[k] == '-' && cs[k + 1] == '-' && cs[k + 2] == '-') {
        proof {
            if t.len() >= 3 && t.take(3) == fence() {
                assert(t.take(3)[0] == '-' && t.take(3)[1] == '-' && t.take(3)[2] == '-');
            }
        }
        return (None, content);
    }
    assert(t.take(3) =~= fence());
    let start = k + 3;
    let ghost rest = t.skip(3);
    assert(rest == cs@.subrange(start as int, n as int));
    let mut j = start;
    while n - j >= 4
        invariant
            k + 3 == start <= j <= n == cs.len(),
            cs@ == content@,
            t == cs@.subrange(k as int, n as int),
            t == trim_start(content@),
            t.len() >= 3 && t.take(3) == fence(),
            rest == t.skip(3),
            rest == cs@.subrange(start as int, n as int),
            find(rest, closing_fence()) == find_from(rest, closing_fence(), j - start),
        decreases n - j,
    {
        let idx: Ghost<int> = Ghost(j - start);
        if cs[j] == '\n' && cs[j + 1] == '-' && cs[j + 2] == '-' && cs[j + 3] == '-' {
            assert(rest.subrange(idx@, idx@ + 4) =~= closing_fence());
            let a = count_ws_lead(&cs, start, j);
            let b = count_ws_trail(&cs, start + a, j);
            proof {
                assert(rest.take(idx@) == cs@.subrange(start as int, j as int));
                assert(trim_start(rest.take(idx@)) =~= cs@.subrange(start + a, j as int));
                assert(trim(rest.take(idx@)) =~= cs@.subrange(start + a, j - b));
            }
            let c = count_nl_lead(&cs, j + 4, n);
            proof {
                assert(rest.skip(idx@ + 4) =~= cs@.subrange(j + 4, n as int));
                assert(strip_leading_newlines(rest.skip(idx@ + 4)) =~= cs@.subrange(
                    j + 4 + c,
                    n as int,
                ));
            }
            let fm = content.substring_char(start + a, j - b);
            let body = content.substring_char(j + 4 + c, n);
            return (Some(fm), body);
        }
        proof {
            if occurs_at(rest, closing_fence(), idx@) {
                let w = rest.subrange(idx@, idx@ + 4);
                assert(w[0] == cs@[j as int]);
                assert(w[1] == cs@[j + 1]);
                assert(w[2] == cs@[j + 2]);
                assert(w[3] == cs@[j + 3]);
            }
        }
        j = j + 1;
    }
    (None, content)
}


/// The name a file gets when its frontmatter names none: the file's stem, or
/// `unnamed` when the path has no stem that is valid UTF-8.
pub open spec fn default_name(file_stem: Option<Seq<char>>) -> Seq<char> {
    match file_stem {
        Some(stem) => stem,
        None => "unnamed"@,
    }
}

fn name_or_default(name: Option<String>, file_stem: Option<&str>) -> (r: String)
    ensures
        r@ == match name {
            Some(n) => n@,
            None => default_name(file_stem.deep_view()),
        },
{
    match name {
        Some(n) => n,
        None => match file_stem {
            Some(stem) => String::from_str(stem),
            None => String::from_str("unnamed"),
        },
    }
}

impl PromptTest {
    /// The test a file describes, from its parsed frontmatter (the default
    /// frontmatter where the file has none), its file stem and its body.
    pub fn from_parts(fm: TestFrontmatter, file_stem: Option<&str>, body: &str) -> (t: PromptTest)
        ensures
            t.name@ == match fm.name {
                Some(n) => n@,
                None => default_name(file_stem.deep_view()),
            },
            t.tags == fm.tags,
            t.skills == fm.skills,
            t.prompt@ == body@,
            t.expected == fm.expected,
    {
        let name = name_or_default(fm.name, file_stem);
        PromptTest {
            name,
            tags: fm.tags,
            skills: fm.skills,
            prompt: String::from_str(body),
            expected: fm.expected,
        }
    }
}

impl Skill {
    /// The skill a file describes, from its parsed frontmatter (the default
    /// frontmatter where the file has none), its file stem and its body.
    pub fn from_parts(fm: SkillFrontmatter, file_stem: Option<&str>, body: &str) -> (s: Skill)
        ensures
            s.name@ == match fm.name {
                Some(n) => n@,
                None => default_name(file_stem.deep_view()),
            },
            s.description == fm.description,
            s.body@ == body@,
    {
        let name = name_or_default(fm.name, file_stem);
        Skill { name, description: fm.description, body: String::from_str(body) }
    }
}

/// Every entry of `rs` is `Ok`.
pub open spec fn all_ok<T>(rs: Seq<Result<T, String>>) -> bool {
    forall|i: int| 0 <= i < rs.len() ==> (#[trigger] rs[i]) is Ok
}

/// The values of a sequence of results that are all `Ok`.
pub open spec fn ok_values<T>(rs: Seq<Result<T, String>>) -> Seq<T> {
    rs.map_values(|r: Result<T, String>| r->Ok_0)
}

/// The first error in `rs`, if any.
pub open spec fn first_error<T>(rs: Seq<Result<T, String>>) -> Option<String>
    decreases rs.len(),
{
    if rs.len() == 0 {
        None
    } else {
        match rs[0] {
            Err(e) => Some(e),
            Ok(_) => first_error(rs.drop_first()),
        }
    }
}

/// The skills of `skills` by name, each inserted in turn so that a later
/// skill replaces an earlier one of the same name.
pub open spec fn skills_by_name(skills: Seq<Skill>) -> Map<Seq<char>, SkillView>
    decreases skills.len(),
{
    if skills.len() == 0 {
        Map::empty()
    } else {
        skills_by_name(skills.drop_last()).insert(skills.last().name@, skills.last()@)
    }
}

proof fn lemma_first_error_skip<T>(rs: Seq<Result<T, String>>, k: int)
    requires
        0 <= k < rs.len(),
        forall|i: int| 0 <= i < k ==> (#[trigger] rs[i]) is Ok,
    ensures
        first_error(rs) == first_error(rs.skip(k)),
    decreases k,
{
    if k == 0 {
        assert(rs.skip(0) == rs);
    } else {
        assert(rs[0] is Ok);
        assert forall|i: int| 0 <= i < k - 1 implies (#[trigger] rs.drop_first()[i]) is Ok by {
            assert(rs[i + 1] is Ok);
        }
        lemma_first_error_skip(rs.drop_first(), k - 1);
        assert(rs.drop_first().skip(k - 1) == rs.skip(k));
    }
}

proof fn lemma_first_error_none<T>(rs: Seq<Result<T, String>>)
    ensures
        first_error(rs) is None <==> all_ok(rs),
    decreases rs.len(),
{
    if rs.len() > 0 {
        lemma_first_error_none(rs.drop_first());
        if all_ok(rs) {
            assert forall|i: int| 0 <= i < rs.drop_first().len() implies (
            #[trigger] rs.drop_first()[i]) is Ok by {
                assert(rs[i + 1] is Ok);
            }
        }
        if rs[0] is Ok && all_ok(rs.drop_first()) {
            assert forall|i: int| 0 <= i < rs.len() implies (#[trigger] rs[i]) is Ok by {
                if i > 0 {
                    assert(rs.drop_first()[i - 1] is Ok);
                }
            }
        }
    }
}

/// Consumes `rs` in order: the values up to the first error, or that error.
fn collect_all<T>(results: Vec<Result<T, String>>) -> (r: Result<Vec<T>, String>)
    ensures
        r is Ok <==> all_ok(results@),
        r matches Ok(v) ==> v@ == ok_values(results@),
        r matches Err(e) ==> first_error(results@) == Some(e),
{
    let ghost orig = results@;
    let mut rs = results;
    let mut out: Vec<T> = Vec::new();
    let mut k: usize = 0;
    let n = rs.len();
    while k < n
        invariant
            k <= n == orig.len(),
            rs@ == orig.skip(k as int),
            orig == results@,
            forall|i: int| 0 <= i < k ==> (#[trigger] orig[i]) is Ok,
            out@ == ok_values(orig.take(k as int)),
        decreases n - k,
    {
        proof {
            lemma_first_error_skip(orig, k as int);
        }
        let r = rs.remove(0);
        assert(r == orig[k as int]);
        match r {
            Err(e) => {
                assert(orig.skip(k as int)[0] == orig[k as int]);
                assert(first_error(orig.skip(k as int)) == Some(e));
                assert(!all_ok(orig));
                assert(first_error(orig) == Some(e));
                return Err(e);
            },
            Ok(v) => {
                out.push(v);
                assert(out@ =~= ok_values(orig.take(k + 1)));
                assert(rs@ =~= orig.skip(k + 1));
            },
        }
        k = k + 1;
    }
    assert(orig.take(n as int) == orig);
    proof {
        lemma_first_error_none(orig);
    }
    Ok(out)
}

/// Load the full test suite from the loaded skill and test files, in the order
/// they were found: the first error among the skills, else the first among the
/// tests; otherwise every skill under its name and every test in order.
pub fn load_suite(skills: Vec<Result<Skill, String>>, tests: Vec<Result<PromptTest, String>>) -> (r:
    Result<TestSuite, String>)
    ensures
        r is Ok <==> all_ok(skills@) && all_ok(tests@),
        r matches Ok(suite) ==> {
            &&& suite@.tests == ok_values(tests@)
            &&& suite@.skills == skills_by_name(ok_values(skills@))
        },
        r matches Err(e) ==> match first_error(skills@) {
            Some(x) => e == x,
            None => first_error(tests@) == Some(e),
        },
{
    proof {
        lemma_first_error_none(skills@);
    }
    let loaded_skills = match collect_all(skills) {
        Ok(v) => v,
        Err(e) => return Err(e),
    };
    let loaded_tests = match collect_all(tests) {
        Ok(v) => v,
        Err(e) => return Err(e),
    };
    let ghost sv = ok_values(skills@);
    let ghost tv = ok_values(tests@);
    let mut suite = TestSuite::new();
    let ns = loaded_skills.len();
    let mut loaded_skills = loaded_skills;
    let mut i: usize = 0;
    assert(sv.take(0) == Seq::<Skill>::empty());
    while i < ns
        invariant
            i <= ns == loaded_skills.len() + i,
            sv.len() == ns,
            suite@.tests.len() == 0,
            suite@.skills == skills_by_name(sv.take(i as int)),
            loaded_skills@ == sv.skip(i as int),
        decreases ns - i,
    {
        let s = loaded_skills.remove(0);
        assert(sv.take(i + 1).drop_last() == sv.take(i as int));
        assert(sv.take(i + 1).last() == s);
        suite.insert_skill(s);
        assert(loaded_skills@ =~= sv.skip(i + 1));
        i = i + 1;
    }
    assert(sv.take(ns as int) == sv);
    let mut j: usize = 0;
    let n = loaded_tests.len();
    let mut loaded_tests = loaded_tests;
    while j < n
        invariant
            j <= n == loaded_tests.len() + j,
            tv.len() == n,
            suite@.tests == tv.take(j as int),
            suite@.skills == skills_by_name(sv),
            loaded_tests@ == tv.skip(j as int),
        decreases n - j,
    {
        let t = loaded_tests.remove(0);
        suite.push_test(t);
        assert(suite@.tests =~= tv.take(j + 1));
        assert(loaded_tests@ =~= tv.skip(j + 1));
        j = j + 1;
    }
    assert(tv.take(n as int) == tv);
    Ok(suite)
}

/// The block a skill contributes to a resolved prompt.
pub open spec fn skill_section(sk: SkillView) -> Seq<char> {
    "## Skill: "@ + sk.name + "\n"@ + sk.body + "\n\n"@
}

/// The blocks of the named skills that `skills` holds, in the order named;
/// a name with no skill contributes nothing.
pub open spec fn skill_context(names: Seq<Seq<char>>, skills: Map<Seq<char>, SkillView>) -> Seq<char>
    decreases names.len(),
{
    if names.len() == 0 {
        Seq::empty()
    } else {
        let prev = skill_context(names.drop_last(), skills);
        if skills.contains_key(names.last()) {
            prev + skill_section(skills[names.last()])
        } else {
            prev
        }
    }
}

/// A test's prompt with the blocks of its skills before it.
pub open spec fn resolved_prompt(test: PromptTestView, skills: Map<Seq<char>, SkillView>) -> Seq<char> {
    skill_context(test.skills, skills) + test.prompt
}

/// Resolve a test's prompt by inlining any referenced skills.
pub fn resolve_prompt(test: &PromptTest, suite: &TestSuite) -> (r: String)
    ensures
        r@ == resolved_prompt(test@, suite@.skills),
{
    if test.skills.len() == 0 {
        assert(test@.skills.len() == 0);
        return test.prompt.clone();
    }
    let ghost names = test@.skills;
    let mut ctx = String::new();
    let mut i: usize = 0;
    while i < test.skills.len()
        invariant
            i <= test.skills.len(),
            names == test@.skills,
            ctx@ == skill_context(names.take(i as int), suite@.skills),
        decreases test.skills.len() - i,
    {
        assert(names.take(i + 1).drop_last() == names.take(i as int));
        assert(names.take(i + 1).last() == test.skills@[i as int]@);
        if let Some(skill) = suite.get_skill(&test.skills[i]) {
            ctx.append("## Skill: ");
            ctx.append(skill.name.as_str());
            ctx.append("\n");
            ctx.append(skill.body.as_str());
            ctx.append("\n\n");
            assert(ctx@ =~= skill_context(names.take(i as int), suite@.skills) + skill_section(suite@.skills[names.take(i + 1).last()]));
        }
        i = i + 1;
    }
    assert(names.take(i as int) == names);
    ctx.append(test.prompt.as_str());
    ctx
}


/// Whether `path` lies in `dir`: the components of `dir` begin it
/// (`Path::starts_with`).
pub open spec fn is_under(path: Seq<Seq<char>>, dir: Seq<Seq<char>>) -> bool {
    dir.len() <= path.len() && path.take(dir.len() as int) == dir
}

/// The paths, in order, that do not lie in `dir`.
pub open spec fn outside(paths: Seq<Vec<String>>, dir: Seq<Seq<char>>) -> Seq<Vec<String>>
    decreases paths.len(),
{
    if paths.len() == 0 {
        Seq::empty()
    } else {
        let prev = outside(paths.drop_last(), dir);
        if is_under(paths.last().deep_view(), dir) {
            prev
        } else {
            prev.push(paths.last())
        }
    }
}

/// Whether the path's components begin with those of `dir`.
pub fn components_start_with(path: &Vec<String>, dir: &Vec<String>) -> (r: bool)
    ensures
        r == is_under(path.deep_view(), dir.deep_view()),
{
    if dir.len() > path.len() {
        return false;
    }
    let mut i: usize = 0;
    while i < dir.len()
        invariant
            i <= dir.len() <= path.len(),
            path.deep_view().take(i as int) == dir.deep_view().take(i as int),
        decreases dir.len() - i,
    {
        if !path[i].eq(&dir[i]) {
            assert(path.deep_view().take(dir.len() as int)[i as int] == path@[i as int]@);
            return false;
        }
        assert(path.deep_view().take(i + 1) =~= dir.deep_view().take(i + 1));
        i = i + 1;
    }
    assert(dir.deep_view().take(dir.len() as int) == dir.deep_view());
    true
}

proof fn lemma_outside_excludes(paths: Seq<Vec<String>>, dir: Seq<Seq<char>>, p: Vec<String>)
    requires
        outside(paths, dir).contains(p),
    ensures
        !is_under(p.deep_view(), dir),
    decreases paths.len(),
{
    if paths.len() > 0 {
        let prev = outside(paths.drop_last(), dir);
        if prev.contains(p) {
            lemma_outside_excludes(paths.drop_last(), dir, p);
        } else if !is_under(paths.last().deep_view(), dir) {
            let k = choose|k: int| 0 <= k < prev.push(paths.last()).len() && prev.push(paths.last())[k] == p;
            if k < prev.len() {
                assert(prev[k] == p);
            }
        }
    }
}

/// The test files among the `.md` files found below `dir` (each path as its
/// components): those outside `dir/skills`, in path order.
pub fn discover_tests(found: Vec<Vec<String>>, dir: &Vec<String>) -> (r: Vec<Vec<String>>)
    ensures
        paths_sorted(r@),
        distinct_paths(found@) ==> paths_ascending(r@),
        r@.to_multiset() == outside(found@, dir.deep_view().push("skills"@)).to_multiset(),
        forall|i: int|
            0 <= i < r.len() ==> !is_under(
                (#[trigger] r@[i]).deep_view(),
                dir.deep_view().push("skills"@),
            ),
{
    let mut skills_dir = copy_strings(dir);
    skills_dir.push(String::from_str("skills"));
    let ghost sd = dir.deep_view().push("skills"@);
    assert(skills_dir.deep_view() =~= sd);
    let ghost orig = found@;
    let mut rest = found;
    let mut kept: Vec<Vec<String>> = Vec::new();
    let n = rest.len();
    let mut k: usize = 0;
    assert(orig.take(0) =~= Seq::<Vec<String>>::empty());
    while k < n
        invariant
            k <= n == orig.len(),
            rest@ == orig.skip(k as int),
            skills_dir.deep_view() == sd,
            kept@ == outside(orig.take(k as int), sd),
        decreases n - k,
    {
        let entry = rest.remove(0);
        assert(entry == orig[k as int]);
        assert(rest@ =~= orig.skip(k + 1));
        assert(orig.take(k + 1).drop_last() =~= orig.take(k as int));
        if !components_start_with(&entry, &skills_dir) {
            kept.push(entry);
        }
        k = k + 1;
    }
    assert(orig.take(n as int) =~= orig);
    let r = sort_paths(kept);
    proof {
        assert forall|i: int| 0 <= i < r.len() implies !is_under(
            (#[trigger] r@[i]).deep_view(),
            sd,
        ) by {
            vstd::seq_lib::to_multiset_contains(r@, r@[i]);
            assert(r@.contains(r@[i]));
            vstd::seq_lib::to_multiset_contains(outside(orig, sd), r@[i]);
            lemma_outside_excludes(orig, sd, r@[i]);
        }
        if distinct_paths(orig) {
            lemma_kept_distinct(orig, sd);
            lemma_sorted_distinct_ascending(r@, outside(orig, sd));
        }
    }
    r
}

/// The paths, in order, that lie in `dir`.
pub open spec fn inside(paths: Seq<Vec<String>>, dir: Seq<Seq<char>>) -> Seq<Vec<String>>
    decreases paths.len(),
{
    if paths.len() == 0 {
        Seq::empty()
    } else {
        let prev = inside(paths.drop_last(), dir);
        if is_under(paths.last().deep_view(), dir) {
            prev.push(paths.last())
        } else {
            prev
        }
    }
}

proof fn lemma_inside_includes(paths: Seq<Vec<String>>, dir: Seq<Seq<char>>, p: Vec<String>)
    requires
        inside(paths, dir).contains(p),
    ensures
        is_under(p.deep_view(), dir),
    decreases paths.len(),
{
    if paths.len() > 0 {
        let prev = inside(paths.drop_last(), dir);
        if prev.contains(p) {
            lemma_inside_includes(paths.drop_last(), dir, p);
        } else if is_under(paths.last().deep_view(), dir) {
            let k = choose|k: int| 0 <= k < prev.push(paths.last()).len() && prev.push(paths.last())[k] == p;
            if k < prev.len() {
                assert(prev[k] == p);
            }
        }
    }
}

proof fn lemma_kept_from(paths: Seq<Vec<String>>, dir: Seq<Seq<char>>, p: Vec<String>)
    ensures
        inside(paths, dir).contains(p) ==> paths.contains(p),
        outside(paths, dir).contains(p) ==> paths.contains(p),
    decreases paths.len(),
{
    if paths.len() > 0 {
        let pre = paths.drop_last();
        lemma_kept_from(pre, dir, p);
        if pre.contains(p) {
            let k = choose|k: int| 0 <= k < pre.len() && pre[k] == p;
            assert(paths[k] == p);
        }
        if paths.last() == p {
            assert(paths[paths.len() - 1] == p);
        }
        if inside(paths, dir).contains(p) && !inside(pre, dir).contains(p) {
            let k = choose|k: int| 0 <= k < inside(paths, dir).len() && inside(paths, dir)[k] == p;
            if k < inside(pre, dir).len() {
                assert(inside(pre, dir)[k] == p);
            }
        }
        if outside(paths, dir).contains(p) && !outside(pre, dir).contains(p) {
            let k = choose|k: int| 0 <= k < outside(paths, dir).len() && outside(paths, dir)[k] == p;
            if k < outside(pre, dir).len() {
                assert(outside(pre, dir)[k] == p);
            }
        }
    }
}

proof fn lemma_kept_distinct(paths: Seq<Vec<String>>, dir: Seq<Seq<char>>)
    requires
        distinct_paths(paths),
    ensures
        distinct_paths(inside(paths, dir)),
        distinct_paths(outside(paths, dir)),
    decreases paths.len(),
{
    if paths.len() > 0 {
        let pre = paths.drop_last();
        let last = paths.last();
        assert(distinct_paths(pre)) by {
            assert forall|i: int, j: int|
                0 <= i < pre.len() && 0 <= j < pre.len() && i != j implies (#[trigger] pre[i]).deep_view()
                != (#[trigger] pre[j]).deep_view() by {
                assert(pre[i] == paths[i] && pre[j] == paths[j]);
            }
        }
        lemma_kept_distinct(pre, dir);
        assert forall|x: Vec<String>| pre.contains(x) implies x.deep_view() != last.deep_view() by {
            let k = choose|k: int| 0 <= k < pre.len() && pre[k] == x;
            assert(paths[k] == x);
            assert(paths[paths.len() - 1] == last);
        }
        let a = inside(pre, dir);
        assert forall|i: int| 0 <= i < a.len() implies (#[trigger] a[i]).deep_view() != last.deep_view() by {
            assert(a.contains(a[i]));
            lemma_kept_from(pre, dir, a[i]);
        }
        let b = outside(pre, dir);
        assert forall|i: int| 0 <= i < b.len() implies (#[trigger] b[i]).deep_view() != last.deep_view() by {
            assert(b.contains(b[i]));
            lemma_kept_from(pre, dir, b[i]);
        }
    }
}

/// The skill files among the `.md` files found below `dir/skills` (each path
/// as its components): those that lie in `dir/skills`, in path order.
pub fn discover_skills(found: Vec<Vec<String>>, dir: &Vec<String>) -> (r: Vec<Vec<String>>)
    ensures
        paths_sorted(r@),
        distinct_paths(found@) ==> paths_ascending(r@),
        r@.to_multiset() == inside(found@, dir.deep_view().push("skills"@)).to_multiset(),
        forall|i: int|
            0 <= i < r.len() ==> is_under(
                (#[trigger] r@[i]).deep_view(),
                dir.deep_view().push("skills"@),
            ),
{
    let mut skills_dir = copy_strings(dir);
    skills_dir.push(String::from_str("skills"));
    let ghost sd = dir.deep_view().push("skills"@);
    assert(skills_dir.deep_view() =~= sd);
    let ghost orig = found@;
    let mut rest = found;
    let mut kept: Vec<Vec<String>> = Vec::new();
    let n = rest.len();
    let mut k: usize = 0;
    assert(orig.take(0) =~= Seq::<Vec<String>>::empty());
    while k < n
        invariant
            k <= n == orig.len(),
            rest@ == orig.skip(k as int),
            skills_dir.deep_view() == sd,
            kept@ == inside(orig.take(k as int), sd),
        decreases n - k,
    {
        let entry = rest.remove(0);
        assert(entry == orig[k as int]);
        assert(rest@ =~= orig.skip(k + 1));
        assert(orig.take(k + 1).drop_last() =~= orig.take(k as int));
        if components_start_with(&entry, &skills_dir) {
            kept.push(entry);
        }
        k = k + 1;
    }
    assert(orig.take(n as int) =~= orig);
    let r = sort_paths(kept);
    proof {
        assert forall|i: int| 0 <= i < r.len() implies is_under(
            (#[trigger] r@[i]).deep_view(),
            sd,
        ) by {
            vstd::seq_lib::to_multiset_contains(r@, r@[i]);
            assert(r@.contains(r@[i]));
            vstd::seq_lib::to_multiset_contains(inside(orig, sd), r@[i]);
            lemma_inside_includes(orig, sd, r@[i]);
        }
        if distinct_paths(orig) {
            lemma_kept_distinct(orig, sd);
            lemma_sorted_distinct_ascending(r@, inside(orig, sd));
        }
    }
    r
}

/// No file is discovered both as a test and as a skill: the tests are the
/// found paths outside `dir/skills`, the skills those inside it.
pub proof fn law_discovery_disjoint(
    found_tests: Seq<Vec<String>>,
    found_skills: Seq<Vec<String>>,
    dir: Seq<Seq<char>>,
    p: Vec<String>,
)
    ensures
        !(outside(found_tests, dir.push("skills"@)).contains(p) && inside(
            found_skills,
            dir.push("skills"@),
        ).contains(p)),
{
    let sd = dir.push("skills"@);
    if outside(found_tests, sd).contains(p) && inside(found_skills, sd).contains(p) {
        lemma_outside_excludes(found_tests, sd, p);
        lemma_inside_includes(found_skills, sd, p);
    }
}

proof fn lemma_find_first(hay: Seq<char>, pat: Seq<char>, i: int, at: int)
    requires
        0 <= i <= at,
        occurs_at(hay, pat, at),
        forall|j: int| i <= j < at ==> !occurs_at(hay, pat, j),
    ensures
        find_from(hay, pat, i) == Some(at),
    decreases at - i,
{
    if i < at {
        lemma_find_first(hay, pat, i + 1, at);
    }
}

proof fn lemma_first_closing(head: Seq<char>, after: Seq<char>)
    requires
        forall|i: int| !occurs_at(head, closing_fence(), i),
    ensures
        find(head + closing_fence() + after, closing_fence()) == Some(head.len() as int),
{
    let cf = closing_fence();
    let rest = head + cf + after;
    let l = head.len() as int;
    assert(rest.subrange(l, l + 4) =~= cf);
    assert forall|j: int| 0 <= j < l implies !occurs_at(rest, cf, j) by {
        lemma_no_early_closing(head, after, j);
    }
    lemma_find_first(rest, cf, 0, l);
}

proof fn lemma_no_early_closing(head: Seq<char>, after: Seq<char>, j: int)
    requires
        forall|i: int| !occurs_at(head, closing_fence(), i),
        0 <= j < head.len(),
    ensures
        !occurs_at(head + closing_fence() + after, closing_fence(), j),
{
    let cf = closing_fence();
    let rest = head + cf + after;
    let l = head.len() as int;
    if j + 4 <= l {
        assert(!occurs_at(head, cf, j));
        assert(rest.subrange(j, j + 4) =~= head.subrange(j, j + 4));
    } else if j + 4 <= rest.len() {
        let w = rest.subrange(j, j + 4);
        assert(rest[l] == '\n');
        assert(w[l - j] == rest[l]);
        assert(cf[l - j] == '-');
        assert(w != cf);
    }
}

proof fn lemma_trim_after_newline(s: Seq<char>)
    ensures
        trim(seq!['\n'] + s) == trim(s),
        strip_leading_newlines(seq!['\n'] + s) == strip_leading_newlines(s),
{
    let h = seq!['\n'] + s;
    lemma_lead_bounds(s);
    assert(h.drop_first() =~= s);
    assert(ws_lead(h) == 1 + ws_lead(s));
    let k = ws_lead(s) as int;
    assert(h.skip(1 + k) =~= s.skip(k));
    assert(trim_start(h) == h.skip(1 + k));
    assert(trim_start(h) == trim_start(s));
    assert(nl_lead(h) == 1 + nl_lead(s));
    let m = nl_lead(s) as int;
    assert(h.skip(1 + m) =~= s.skip(m));
    assert(strip_leading_newlines(h) == strip_leading_newlines(s));
}

/// A document written as a fence line, the frontmatter, a closing fence line
/// and the body splits back into the trimmed frontmatter and the body without
/// its leading line feeds, provided no line of the frontmatter starts with
/// `---`.
pub proof fn law_frontmatter_roundtrip(fm: Seq<char>, body: Seq<char>)
    requires
        forall|i: int| !occurs_at(seq!['\n'] + fm, closing_fence(), i),
    ensures
        split_frontmatter(fence() + seq!['\n'] + fm + closing_fence() + seq!['\n'] + body) == (
            Some(trim(fm)),
            strip_leading_newlines(body),
        ),
{
    let head = seq!['\n'] + fm;
    let after = seq!['\n'] + body;
    let content = fence() + seq!['\n'] + fm + closing_fence() + seq!['\n'] + body;
    assert(content[0] == '-');
    assert(ws_lead(content) == 0);
    assert(trim_start(content) =~= content);
    assert(content.take(3) =~= fence());
    let rest = content.skip(3);
    assert(rest =~= head + closing_fence() + after);
    lemma_first_closing(head, after);
    let l = head.len() as int;
    assert(rest.take(l) =~= head);
    assert(rest.skip(l + 4) =~= after);
    lemma_trim_after_newline(fm);
    lemma_trim_after_newline(body);
}


/// Whatever the document, the body is a suffix of it, and it is the whole
/// document when there is no frontmatter. When there is frontmatter, the
/// document opens with `---` after its leading white space, the frontmatter
/// occurs in the document, is already trimmed, and the body does not start
/// with a line feed.
pub proof fn law_frontmatter_shape(content: Seq<char>)
    ensures
        split_frontmatter(content).1.is_suffix_of(content),
        split_frontmatter(content).0 is None ==> split_frontmatter(content).1 == content,
        split_frontmatter(content).0 matches Some(fm) ==> {
            &&& fence().is_prefix_of(trim_start(content))
            &&& exists|i: int| #[trigger] occurs_at(content, fm, i)
            &&& trim(fm) == fm
            &&& !(split_frontmatter(content).1.len() > 0 && split_frontmatter(content).1[0]
                == '\n')
        },
{
    lemma_lead_bounds(content);
    let wl = ws_lead(content) as int;
    let t = trim_start(content);
    if t.len() >= 3 && t.take(3) == fence() {
        let rest = t.skip(3);
        match find(rest, closing_fence()) {
            Some(end) => {
                lemma_find_some(rest, closing_fence(), 0);
                let head = rest.take(end);
                let fm = trim(head);
                lemma_trim_facts(head);
                let hl = ws_lead(head) as int;
                let i = wl + 3 + hl;
                assert(fm =~= content.subrange(i, i + fm.len()));
                assert(occurs_at(content, fm, i));
                let after = rest.skip(end + 4);
                lemma_nl_lead_max(after);
                let body = strip_leading_newlines(after);
                let k = wl + 3 + end + 4 + nl_lead(after);
                assert(body =~= content.skip(k));
                assert(body =~= content.subrange(content.len() - body.len(), content.len() as int));
                assert(fence() =~= t.subrange(0, 3));
            },
            None => {
                assert(content =~= content.subrange(0, content.len() as int));
            },
        }
    } else {
        assert(content =~= content.subrange(0, content.len() as int));
    }
}

/// A match that `find_from` reports lies within the text and is a match.
proof fn lemma_find_some(hay: Seq<char>, pat: Seq<char>, i: int)
    ensures
        find_from(hay, pat, i) matches Some(k) ==> i <= k && k + pat.len() <= hay.len()
            && occurs_at(hay, pat, k),
    decreases hay.len() + 1 - i,
{
    if !(i < 0 || i + pat.len() > hay.len()) && !occurs_at(hay, pat, i) {
        lemma_find_some(hay, pat, i + 1);
    }
}

proof fn lemma_find_exists(hay: Seq<char>, pat: Seq<char>, k: int, i: int)
    requires
        0 <= k <= i,
        occurs_at(hay, pat, i),
    ensures
        find_from(hay, pat, k) is Some,
    decreases i - k,
{
    if k < i && !occurs_at(hay, pat, k) {
        lemma_find_exists(hay, pat, k + 1, i);
    }
}

/// A document has frontmatter exactly when, after its leading white space, it
/// opens with `---` and a line starting with `---` follows somewhere after
/// that, whatever comes right after the opening `---` (a `\r` of a CRLF file
/// too). The frontmatter is then the trimmed text up to the first such line,
/// and the body is what follows that line, without its leading line feeds.
pub proof fn law_frontmatter_recognised(content: Seq<char>, end: int)
    ensures
        split_frontmatter(content).0 is Some <==> ("---"@.is_prefix_of(trim_start(content))
            && exists|i: int| #[trigger] occurs_at(trim_start(content).skip(3), "\n---"@, i)),
        ("---"@.is_prefix_of(trim_start(content)) && occurs_at(
            trim_start(content).skip(3),
            "\n---"@,
            end,
        ) && forall|j: int| 0 <= j < end ==> !#[trigger] occurs_at(
            trim_start(content).skip(3),
            "\n---"@,
            j,
        )) ==> split_frontmatter(content) == (
            Some(trim(trim_start(content).skip(3).take(end))),
            strip_leading_newlines(trim_start(content).skip(3).skip(end + 4)),
        ),
{
    let t = trim_start(content);
    reveal_strlit("\n---");
    reveal_strlit("---");
    assert("\n---"@ =~= closing_fence());
    assert("---"@ =~= fence());
    if t.len() >= 3 && t.take(3) == fence() {
        let rest = t.skip(3);
        assert("---"@.is_prefix_of(t)) by {
            assert(t.subrange(0, 3) =~= t.take(3));
        }
        match find(rest, closing_fence()) {
            Some(e) => {
                lemma_find_some(rest, closing_fence(), 0);
                assert(occurs_at(rest, "\n---"@, e));
            },
            None => {
                if exists|i: int| #[trigger] occurs_at(rest, "\n---"@, i) {
                    let i = choose|i: int| #[trigger] occurs_at(rest, "\n---"@, i);
                    lemma_find_exists(rest, closing_fence(), 0, i);
                }
            },
        }
        if occurs_at(rest, "\n---"@, end) && forall|j: int| 0 <= j < end ==> !#[trigger] occurs_at(
            rest,
            "\n---"@,
            j,
        ) {
            lemma_find_first(rest, closing_fence(), 0, end);
        }
    } else {
        if "---"@.is_prefix_of(t) {
            assert(t.take(3) =~= t.subrange(0, 3));
        }
    }
}

/// Naming one more skill that the suite holds adds that skill's block
/// (`## Skill: <name>`, a line feed, its body and a blank line) just before
/// the prompt, after the blocks of the skills named before it; naming one it
/// does not hold changes nothing. With no skill named the prompt is left as
/// it is (see [`law_no_skills_no_context`]), so every named skill the suite
/// holds contributes its block, in order, however many are named.
pub proof fn law_resolve_one_more_skill(
    test: PromptTestView,
    skills: Map<Seq<char>, SkillView>,
    k: Seq<char>,
)
    ensures
        skills.contains_key(k) ==> resolved_prompt(
            PromptTestView { skills: test.skills.push(k), ..test },
            skills,
        ) == resolved_prompt(
            PromptTestView {
                prompt: "## Skill: "@ + skills[k].name + "\n"@ + skills[k].body + "\n\n"@
                    + test.prompt,
                ..test
            },
            skills,
        ),
        !skills.contains_key(k) ==> resolved_prompt(
            PromptTestView { skills: test.skills.push(k), ..test },
            skills,
        ) == resolved_prompt(test, skills),
{
    let names = test.skills.push(k);
    assert(names.drop_last() =~= test.skills);
    assert(names.last() == k);
    let ctx = skill_context(test.skills, skills);
    if skills.contains_key(k) {
        let blk = "## Skill: "@ + skills[k].name + "\n"@ + skills[k].body + "\n\n"@;
        assert(skill_section(skills[k]) =~= blk);
        assert(ctx + blk + test.prompt =~= ctx + (blk + test.prompt));
    }
}

/// Composition of skills: a test that names two skills the suite holds
/// resolves to the first skill's block, then the second's, then its prompt.
pub proof fn law_skill_composition(test: PromptTestView, skills: Map<Seq<char>, SkillView>)
    requires
        test.skills.len() == 2,
        skills.contains_key(test.skills[0]),
        skills.contains_key(test.skills[1]),
    ensures
        resolved_prompt(test, skills) == skill_section(skills[test.skills[0]]) + skill_section(
            skills[test.skills[1]],
        ) + test.prompt,
{
    let names = test.skills;
    assert(names.drop_last().drop_last() =~= Seq::<Seq<char>>::empty());
    assert(names.drop_last().last() == names[0]);
    assert(skill_context(names.drop_last().drop_last(), skills) == Seq::<char>::empty());
    assert(skill_context(names.drop_last(), skills) =~= skill_section(skills[names[0]]));
}

/// A test that names no skill resolves to its own prompt.
pub proof fn law_no_skills_no_context(test: PromptTestView, skills: Map<Seq<char>, SkillView>)
    requires
        test.skills.len() == 0,
    ensures
        resolved_prompt(test, skills) == test.prompt,
{
    assert(resolved_prompt(test, skills) =~= test.prompt);
}

/// Of several skills with one name, the one loaded last is the one the suite
/// keeps; skills of other names are unaffected by it.
pub proof fn law_later_skill_wins(skills: Seq<Skill>, s: Skill, other: Seq<char>)
    requires
        other != s.name@,
    ensures
        skills_by_name(skills.push(s)).contains_key(s.name@),
        skills_by_name(skills.push(s))[s.name@] == s@,
        skills_by_name(skills.push(s)).contains_key(other) == skills_by_name(skills).contains_key(
            other,
        ),
        skills_by_name(skills).contains_key(other) ==> skills_by_name(skills.push(s))[other]
            == skills_by_name(skills)[other],
{
    assert(skills.push(s).drop_last() == skills);
}

/// Every skill of a loaded suite is kept under its own name, and every name
/// of a loaded skill is a key; a suite holds one test per loaded test file.
pub proof fn law_loaded_suite(skills: Seq<Skill>, tests: Seq<Result<PromptTest, String>>)
    ensures
        forall|k: Seq<char>|
            #[trigger] skills_by_name(skills).contains_key(k) ==> skills_by_name(skills)[k].name
                == k,
        forall|i: int|
            0 <= i < skills.len() ==> skills_by_name(skills).contains_key(
                (#[trigger] skills[i]).name@,
            ),
        ok_values(tests).len() == tests.len(),
    decreases skills.len(),
{
    if skills.len() > 0 {
        let prev = skills.drop_last();
        law_loaded_suite(prev, tests);
        assert forall|i: int|
            0 <= i < skills.len() implies skills_by_name(skills).contains_key(
            (#[trigger] skills[i]).name@,
        ) by {
            if i < prev.len() {
                assert(prev[i] == skills[i]);
            }
        }
    }
}

} // verus!
