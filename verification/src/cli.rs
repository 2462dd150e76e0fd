//! The decisions of the command-line tool: which tests a command selects, how
//! results are tallied into an exit code, and how tests are summarised.
use vstd::prelude::*;
use crate::text::{
    chars_of, find_char_from, join, join_strings, lemma_next_index_of, next_index_of, string_of,
};
use crate::types::{PromptTest, PromptTestView};

verus! {

/// Whether `v` holds a string equal to `s`.
pub fn contains_string(v: &Vec<String>, s: &String) -> (r: bool)
    ensures
        r == v.deep_view().contains(s@),
{
    let mut i: usize = 0;
    while i < v.len()
        invariant
            i <= v.len(),
            forall|j: int| 0 <= j < i ==> (#[trigger] v@[j])@ != s@,
        decreases v.len() - i,
    {
        if v[i].eq(s) {
            assert(v.deep_view()[i as int] == s@);
            return true;
        }
        i = i + 1;
    }
    proof {
        if v.deep_view().contains(s@) {
            let k = choose|k: int| 0 <= k < v.deep_view().len() && v.deep_view()[k] == s@;
            assert(v@[k]@ == s@);
        }
    }
    false
}

/// Whether a command with the given `--name` and `--tag` filters runs a
/// test: a name selects only the test of that name (and then the tag is not
/// looked at), a tag selects the tests that carry it, and no filter selects
/// every test.
pub open spec fn selects(test: PromptTestView, name: Option<Seq<char>>, tag: Option<Seq<char>>) -> bool {
    match name {
        Some(n) => test.name == n,
        None => match tag {
            Some(g) => test.tags.contains(g),
            None => true,
        },
    }
}

/// A name filter selects exactly the tests of that name, whatever the tag
/// filter; without a name, a tag filter selects exactly the tests that carry
/// that tag; with neither, every test is selected.
pub proof fn law_selection(test: PromptTestView, n: Seq<char>, g: Seq<char>, tag: Option<Seq<char>>)
    ensures
        selects(test, Some(n), tag) <==> test.name =~= n,
        selects(test, None, Some(g)) <==> exists|i: int|
            0 <= i < test.tags.len() && #[trigger] test.tags[i] == g,
        selects(test, None, None),
{
}

/// The indices, in order, of the tests the filters select.
pub fn select_tests(tests: &Vec<PromptTest>, name: &Option<String>, tag: &Option<String>) -> (r: Vec<
    usize,
>)
    ensures
        forall|k: int|
            0 <= k < r.len() ==> (#[trigger] r@[k]) < tests.len() && selects(
                tests@[r@[k] as int]@,
                name.deep_view(),
                tag.deep_view(),
            ),
        forall|k: int, l: int| 0 <= k < l < r.len() ==> r@[k] < r@[l],
        forall|i: int|
            0 <= i < tests.len() && selects(tests@[i]@, name.deep_view(), tag.deep_view())
                ==> r@.contains(i as usize),
{
    let mut r: Vec<usize> = Vec::new();
    let mut i: usize = 0;
    while i < tests.len()
        invariant
            i <= tests.len(),
            forall|k: int|
                0 <= k < r.len() ==> (#[trigger] r@[k]) < i && selects(
                    tests@[r@[k] as int]@,
                    name.deep_view(),
                    tag.deep_view(),
                ),
            forall|k: int, l: int| 0 <= k < l < r.len() ==> r@[k] < r@[l],
            forall|j: int|
                0 <= j < i && selects(tests@[j]@, name.deep_view(), tag.deep_view())
                    ==> r@.contains(j as usize),
        decreases tests.len() - i,
    {
        let t = &tests[i];
        let keep = match name {
            Some(n) => t.name.eq(n),
            None => match tag {
                Some(g) => contains_string(&t.tags, g),
                None => true,
            },
        };
        let ghost before = r@;
        if keep {
            r.push(i);
            assert(r@[r@.len() - 1] == i);
            assert forall|j: int|
                0 <= j <= i && selects(
                    tests@[j]@,
                    name.deep_view(),
                    tag.deep_view(),
                ) implies r@.contains(j as usize) by {
                if j < i {
                    let k = choose|k: int| 0 <= k < before.len() && before[k] == j as usize;
                    assert(r@[k] == j as usize);
                } else {
                    assert(r@[r@.len() - 1] == j as usize);
                }
            }
        }
        i = i + 1;
    }
    r
}

/// The error of a test command in a directory that holds no tests.
pub open spec fn no_tests_error() -> Seq<char> {
    "No test files found. Run `moderac init` first."@
}

/// The error of a test command whose filters select no test.
pub open spec fn no_match_error() -> Seq<char> {
    "No tests matched the given filters."@
}

/// Whether a test command goes on to run its tests, given how many tests the
/// suite holds and how many the filters selected: an error (and exit code 2)
/// when the suite is empty, or else when nothing was selected.
pub fn check_test_run(total: usize, selected: usize) -> (r: Result<(), String>)
    ensures
        total == 0 ==> (r matches Err(e) && e@ == no_tests_error()),
        total > 0 && selected == 0 ==> (r matches Err(e) && e@ == no_match_error()),
        total > 0 && selected > 0 ==> r is Ok,
{
    if total == 0 {
        Err(String::from_str("No test files found. Run `moderac init` first."))
    } else if selected == 0 {
        Err(String::from_str("No tests matched the given filters."))
    } else {
        Ok(())
    }
}

/// The values of the entries of `rs` that are `Ok`, in order; the others are
/// left out.
pub open spec fn ok_entries<T>(rs: Seq<Result<T, String>>) -> Seq<T>
    decreases rs.len(),
{
    if rs.len() == 0 {
        Seq::empty()
    } else {
        let prev = ok_entries(rs.drop_last());
        match rs.last() {
            Ok(v) => prev.push(v),
            Err(_) => prev,
        }
    }
}

/// What a listing shows of the files it loaded: those that loaded, in order,
/// with the files that could not be read or parsed passed over.
pub fn loaded_entries<T>(results: Vec<Result<T, String>>) -> (r: Vec<T>)
    ensures
        r@ == ok_entries(results@),
{
    let ghost orig = results@;
    let mut rest = results;
    let mut out: Vec<T> = Vec::new();
    let n = rest.len();
    let mut k: usize = 0;
    assert(orig.take(0) =~= Seq::<Result<T, String>>::empty());
    while k < n
        invariant
            k <= n == orig.len(),
            rest@ == orig.skip(k as int),
            out@ == ok_entries(orig.take(k as int)),
        decreases n - k,
    {
        let entry = rest.remove(0);
        assert(entry == orig[k as int]);
        assert(rest@ =~= orig.skip(k + 1));
        assert(orig.take(k + 1).drop_last() =~= orig.take(k as int));
        assert(orig.take(k + 1).last() == orig[k as int]);
        match entry {
            Ok(v) => out.push(v),
            Err(_) => {},
        }
        k = k + 1;
    }
    assert(orig.take(n as int) =~= orig);
    out
}

/// How one test fared in a remote run.
#[derive(Debug, Clone, Copy, PartialEq, Eq)]
pub enum TestOutcome {
    /// The judge passed it.
    Passed,
    /// The judge failed it.
    Failed,
    /// It could not be evaluated.
    Error,
}

/// The outcome a judge's status means: `passed` passes, anything else fails.
pub fn outcome_of_status(status: &str) -> (r: TestOutcome)
    ensures
        r == if status@ == "passed"@ {
            TestOutcome::Passed
        } else {
            TestOutcome::Failed
        },
{
    let s = String::from_str(status);
    let passed = String::from_str("passed");
    if s.eq(&passed) {
        TestOutcome::Passed
    } else {
        TestOutcome::Failed
    }
}

/// The number of passes among `outcomes`.
pub open spec fn count_passed(outcomes: Seq<TestOutcome>) -> nat
    decreases outcomes.len(),
{
    if outcomes.len() == 0 {
        0
    } else {
        count_passed(outcomes.drop_last()) + if outcomes.last() == TestOutcome::Passed {
            1nat
        } else {
            0nat
        }
    }
}

/// The number of tests among `outcomes` that could not be evaluated.
pub open spec fn count_errors(outcomes: Seq<TestOutcome>) -> nat
    decreases outcomes.len(),
{
    if outcomes.len() == 0 {
        0
    } else {
        count_errors(outcomes.drop_last()) + if outcomes.last() == TestOutcome::Error {
            1nat
        } else {
            0nat
        }
    }
}

/// The status of a remote run with the given outcomes: `error` when some test
/// could not be evaluated, else `failed` when some test failed, else `passed`.
pub open spec fn run_verdict(outcomes: Seq<TestOutcome>) -> Seq<char> {
    if count_errors(outcomes) > 0 {
        "error"@
    } else if count_passed(outcomes) < outcomes.len() {
        "failed"@
    } else {
        "passed"@
    }
}

/// The exit code of a remote run with the given outcomes: 2 when some test
/// could not be evaluated (a network failure or a bad configuration), else 1
/// when some test failed, else 0.
pub open spec fn run_exit_code(outcomes: Seq<TestOutcome>) -> i32 {
    if count_errors(outcomes) > 0 {
        2
    } else if count_passed(outcomes) < outcomes.len() {
        1
    } else {
        0
    }
}

/// The passes and the errors together never outnumber the outcomes recorded,
/// so the tests that passed and those that did not add up to the tests run.
pub proof fn law_passed_within_total(outcomes: Seq<TestOutcome>)
    ensures
        count_passed(outcomes) <= outcomes.len(),
        count_passed(outcomes) + count_errors(outcomes) <= outcomes.len(),
    decreases outcomes.len(),
{
    if outcomes.len() > 0 {
        law_passed_within_total(outcomes.drop_last());
    }
}

proof fn lemma_counts_meaning(outcomes: Seq<TestOutcome>)
    ensures
        count_passed(outcomes) == outcomes.len() <==> forall|i: int|
            0 <= i < outcomes.len() ==> #[trigger] outcomes[i] == TestOutcome::Passed,
        count_errors(outcomes) > 0 <==> exists|i: int|
            0 <= i < outcomes.len() && #[trigger] outcomes[i] == TestOutcome::Error,
    decreases outcomes.len(),
{
    if outcomes.len() > 0 {
        let pre = outcomes.drop_last();
        lemma_counts_meaning(pre);
        law_passed_within_total(pre);
        let n = outcomes.len() - 1;
        assert forall|i: int| 0 <= i < pre.len() implies #[trigger] pre[i] == outcomes[i] by {}
        if forall|i: int| 0 <= i < outcomes.len() ==> #[trigger] outcomes[i] == TestOutcome::Passed {
            assert(outcomes[n] == TestOutcome::Passed);
            assert forall|i: int| 0 <= i < pre.len() implies #[trigger] pre[i] == TestOutcome::Passed by {
                assert(outcomes[i] == TestOutcome::Passed);
            }
        }
        if count_passed(outcomes) == outcomes.len() {
            assert forall|i: int| 0 <= i < outcomes.len() implies #[trigger] outcomes[i]
                == TestOutcome::Passed by {
                if i < n {
                    assert(pre[i] == TestOutcome::Passed);
                }
            }
        }
        if exists|i: int| 0 <= i < outcomes.len() && #[trigger] outcomes[i] == TestOutcome::Error {
            let i = choose|i: int| 0 <= i < outcomes.len() && #[trigger] outcomes[i] == TestOutcome::Error;
            if i < n {
                assert(pre[i] == TestOutcome::Error);
            }
        }
        if count_errors(pre) > 0 {
            let i = choose|i: int| 0 <= i < pre.len() && #[trigger] pre[i] == TestOutcome::Error;
            assert(outcomes[i] == TestOutcome::Error);
        }
        if outcomes.last() == TestOutcome::Error {
            assert(outcomes[n] == TestOutcome::Error);
        }
    }
}

/// What a remote run's exit code and status mean, over its outcomes: 2 and
/// `error` exactly when some test could not be evaluated; 0 and `passed`
/// exactly when every test passed; 1 and `failed` exactly when none erred and
/// some failed.
pub proof fn law_exit_code_meaning(outcomes: Seq<TestOutcome>)
    ensures
        run_exit_code(outcomes) == 2 <==> exists|i: int|
            0 <= i < outcomes.len() && #[trigger] outcomes[i] == TestOutcome::Error,
        run_exit_code(outcomes) == 0 <==> forall|i: int|
            0 <= i < outcomes.len() ==> #[trigger] outcomes[i] == TestOutcome::Passed,
        run_exit_code(outcomes) == 1 <==> (forall|i: int|
            0 <= i < outcomes.len() ==> #[trigger] outcomes[i] != TestOutcome::Error) && exists|i: int|
            0 <= i < outcomes.len() && #[trigger] outcomes[i] == TestOutcome::Failed,
        run_verdict(outcomes) == "error"@ <==> run_exit_code(outcomes) == 2,
        run_verdict(outcomes) == "failed"@ <==> run_exit_code(outcomes) == 1,
        run_verdict(outcomes) == "passed"@ <==> run_exit_code(outcomes) == 0,
{
    lemma_counts_meaning(outcomes);
    law_passed_within_total(outcomes);
    reveal_strlit("error");
    reveal_strlit("failed");
    reveal_strlit("passed");
    assert("error"@[0] != "failed"@[0] && "error"@[0] != "passed"@[0] && "failed"@[0]
        != "passed"@[0]);
    if count_errors(outcomes) == 0 && count_passed(outcomes) < outcomes.len() {
        let i = choose|i: int|
            0 <= i < outcomes.len() && !(#[trigger] outcomes[i] == TestOutcome::Passed);
        assert(outcomes[i] != TestOutcome::Error);
        assert(outcomes[i] == TestOutcome::Failed);
    }
    if exists|i: int| 0 <= i < outcomes.len() && #[trigger] outcomes[i] == TestOutcome::Failed {
        let i = choose|i: int| 0 <= i < outcomes.len() && #[trigger] outcomes[i] == TestOutcome::Failed;
        assert(outcomes[i] != TestOutcome::Passed);
    }
    if count_errors(outcomes) > 0 {
        let i = choose|i: int| 0 <= i < outcomes.len() && #[trigger] outcomes[i] == TestOutcome::Error;
        assert(!(outcomes[i] != TestOutcome::Error));
    }
}

/// The running tally of a remote run: a test that errs counts as not passed
/// and is also counted among the errors.
pub struct TestTally {
    passed: usize,
    failed: usize,
    errored: usize,
    outcomes: Ghost<Seq<TestOutcome>>,
}

impl TestTally {
    /// The outcomes recorded so far, in order.
    pub closed spec fn outcomes(&self) -> Seq<TestOutcome> {
        self.outcomes@
    }

    /// The invariant: the counters count the outcomes.
    #[verifier::type_invariant]
    spec fn inv(&self) -> bool {
        &&& self.passed == count_passed(self.outcomes@)
        &&& self.errored == count_errors(self.outcomes@)
        &&& self.passed + self.failed == self.outcomes@.len()
    }

    /// A tally of no tests.
    pub fn new() -> (t: Self)
        ensures
            t.outcomes() == Seq::<TestOutcome>::empty(),
    {
        TestTally { passed: 0, failed: 0, errored: 0, outcomes: Ghost(Seq::empty()) }
    }

    /// Records one more outcome.
    pub fn record(&mut self, outcome: TestOutcome)
        requires
            old(self).outcomes().len() < usize::MAX,
        ensures
            final(self).outcomes() == old(self).outcomes().push(outcome),
    {
        proof {
            use_type_invariant(&*self);
            law_passed_within_total(self.outcomes@);
        }
        let ghost prev = self.outcomes@;
        let ghost next = prev.push(outcome);
        assert(next.drop_last() == prev);
        let (passed, failed, errored) = match outcome {
            TestOutcome::Passed => (self.passed + 1, self.failed, self.errored),
            TestOutcome::Failed => (self.passed, self.failed + 1, self.errored),
            TestOutcome::Error => (self.passed, self.failed + 1, self.errored + 1),
        };
        *self = TestTally { passed, failed, errored, outcomes: Ghost(next) };
    }

    /// The number of tests that passed.
    pub fn passed(&self) -> (n: usize)
        ensures
            n == count_passed(self.outcomes()),
    {
        proof {
            use_type_invariant(self);
        }
        self.passed
    }

    /// The number of tests that did not pass: those that failed and those
    /// that erred.
    pub fn failed(&self) -> (n: usize)
        ensures
            n == self.outcomes().len() - count_passed(self.outcomes()),
    {
        proof {
            use_type_invariant(self);
        }
        self.failed
    }

    /// The number of tests that could not be evaluated.
    pub fn errored(&self) -> (n: usize)
        ensures
            n == count_errors(self.outcomes()),
    {
        proof {
            use_type_invariant(self);
        }
        self.errored
    }

    /// The run's status: `error`, `failed` or `passed` (see [`run_verdict`]).
    pub fn overall_status(&self) -> (r: String)
        ensures
            r@ == run_verdict(self.outcomes()),
    {
        proof {
            use_type_invariant(self);
        }
        if self.errored > 0 {
            String::from_str("error")
        } else if self.failed > 0 {
            String::from_str("failed")
        } else {
            String::from_str("passed")
        }
    }

    /// The exit code of the run: 2 when some test erred, 1 when some test
    /// failed, 0 when every test passed.
    pub fn exit_code(&self) -> (code: i32)
        ensures
            code == run_exit_code(self.outcomes()),
    {
        proof {
            use_type_invariant(self);
        }
        if self.errored > 0 {
            2
        } else if self.failed > 0 {
            1
        } else {
            0
        }
    }
}

/// The exit code of a command that could not do its work.
pub fn error_exit_code() -> (code: i32)
    ensures
        code == 2,
{
    2
}

/// The parts of a test's summary line in a listing: its tags and its skills,
/// each only when there are any.
pub open spec fn meta_parts(tags: Seq<Seq<char>>, skills: Seq<Seq<char>>) -> Seq<Seq<char>> {
    (if tags.len() > 0 {
        seq!["tags: "@ + join(tags, ", "@)]
    } else {
        Seq::empty()
    }) + (if skills.len() > 0 {
        seq!["skills: "@ + join(skills, ", "@)]
    } else {
        Seq::empty()
    })
}

/// The metadata shown after a test's name in a listing, if it has any.
pub fn list_meta(tags: &Vec<String>, skills: &Vec<String>) -> (r: Option<String>)
    ensures
        r.deep_view() == if meta_parts(tags.deep_view(), skills.deep_view()).len() == 0 {
            None
        } else {
            Some(join(meta_parts(tags.deep_view(), skills.deep_view()), " | "@))
        },
{
    let mut parts: Vec<String> = Vec::new();
    if tags.len() > 0 {
        let mut p = String::from_str("tags: ");
        let joined = join_strings(tags, ", ");
        p.append(joined.as_str());
        parts.push(p);
    }
    if skills.len() > 0 {
        let mut p = String::from_str("skills: ");
        let joined = join_strings(skills, ", ");
        p.append(joined.as_str());
        parts.push(p);
    }
    assert(parts.deep_view() =~= meta_parts(tags.deep_view(), skills.deep_view()));
    if parts.len() == 0 {
        None
    } else {
        Some(join_strings(&parts, " | "))
    }
}

/// Whether a file is shown as a skill: some component of its path is
/// `skills`.
pub fn is_skill_path(components: &Vec<String>) -> (r: bool)
    ensures
        r == components.deep_view().contains("skills"@),
{
    let skills = String::from_str("skills");
    contains_string(components, &skills)
}

/// A line without the carriage return of a `\r\n` ending.
pub open spec fn strip_cr(line: Seq<char>) -> Seq<char> {
    if line.len() > 0 && line.last() == '\r' {
        line.drop_last()
    } else {
        line
    }
}

/// The lines of `s` from index `i` on (`str::lines`): split at `\n`, a
/// `\r\n` ending counts as one, and a final line ending adds no empty line.
pub open spec fn lines_from(s: Seq<char>, i: int) -> Seq<Seq<char>>
    decreases s.len() - i,
{
    if i < 0 || i >= s.len() {
        Seq::empty()
    } else {
        let j = next_index_of(s, '\n', i);
        proof {
            lemma_next_index_of(s, '\n', i);
        }
        if j < s.len() {
            seq![strip_cr(s.subrange(i, j))] + lines_from(s, j + 1)
        } else {
            seq![s.subrange(i, j)]
        }
    }
}

/// The lines of `s` (`str::lines`).
pub open spec fn lines(s: Seq<char>) -> Seq<Seq<char>> {
    lines_from(s, 0)
}

/// The preview of a prompt: its first three lines, and whether it has more.
pub fn prompt_preview(prompt: &str) -> (r: (Vec<String>, bool))
    ensures
        r.0.deep_view() == lines(prompt@).take(
            if lines(prompt@).len() < 3 {
                lines(prompt@).len() as int
            } else {
                3
            },
        ),
        r.1 == (lines(prompt@).len() > 3),
{
    let cs = chars_of(prompt);
    let n = cs.len();
    let ghost all = lines(prompt@);
    let mut collected: Vec<String> = Vec::new();
    let mut i: usize = 0;
    assert(all == collected.deep_view() + lines_from(cs@, 0)) by {
        assert(collected.deep_view() =~= Seq::<Seq<char>>::empty());
        assert(Seq::<Seq<char>>::empty() + lines_from(cs@, 0) =~= lines_from(cs@, 0));
    }
    while i < n && collected.len() < 4
        invariant
            i <= n == cs.len(),
            cs@ == prompt@,
            all == lines(prompt@),
            collected.len() <= 4,
            all == collected.deep_view() + lines_from(cs@, i as int),
        decreases n - i,
    {
        let j = find_char_from(&cs, '\n', i);
        proof {
            lemma_next_index_of(cs@, '\n', i as int);
        }
        let ghost prev = collected.deep_view();
        if j < n {
            let end = if j > i && cs[j - 1] == '\r' {
                j - 1
            } else {
                j
            };
            assert(cs@.subrange(i as int, end as int) =~= strip_cr(
                cs@.subrange(i as int, j as int),
            ));
            let line = string_of(&cs, i, end);
            collected.push(line);
            assert(collected.deep_view() =~= prev.push(line@));
            assert(lines_from(cs@, i as int) == seq![line@] + lines_from(cs@, j + 1));
            assert(all =~= collected.deep_view() + lines_from(cs@, j + 1));
            i = j + 1;
        } else {
            let line = string_of(&cs, i, n);
            collected.push(line);
            assert(collected.deep_view() =~= prev.push(line@));
            assert(lines_from(cs@, i as int) == seq![line@]);
            assert(lines_from(cs@, n as int) == Seq::<Seq<char>>::empty());
            assert(all =~= collected.deep_view() + lines_from(cs@, n as int));
            i = n;
        }
    }
    if i >= n {
        assert(lines_from(cs@, i as int) == Seq::<Seq<char>>::empty());
        assert(all =~= collected.deep_view());
    }
    let more = collected.len() > 3;
    let ghost full = collected.deep_view();
    if collected.len() == 4 {
        collected.pop();
        assert(collected.deep_view() =~= full.take(3));
        assert(all.take(3) =~= full.take(3));
    } else {
        assert(all.take(all.len() as int) =~= all);
    }
    (collected, more)
}

} // verus!
