//! Test runs: every test of a project evaluated once, and the run's verdict.
use vstd::prelude::*;

verus! {

/// A run as stored and returned.
#[derive(Debug, Clone)]
pub struct TestRun {
    pub id: String,
    pub project_id: String,
    pub status: String,
    pub started_at: Option<String>,
    pub completed_at: Option<String>,
    pub created_at: String,
}

/// Whether a result status counts as a pass.
pub open spec fn is_pass(status: Seq<char>) -> bool {
    status == "passed"@
}

/// Every status passes.
pub open spec fn all_pass(statuses: Seq<Seq<char>>) -> bool {
    forall|i: int| 0 <= i < statuses.len() ==> is_pass(#[trigger] statuses[i])
}

/// The verdict of a run whose results have the given statuses: passed when
/// every result passed (so also when there are none), failed otherwise.
pub open spec fn run_status(statuses: Seq<Seq<char>>) -> Seq<char> {
    if all_pass(statuses) {
        "passed"@
    } else {
        "failed"@
    }
}

/// A run in progress: the statuses of the results recorded so far.
pub struct RunProgress {
    all_passed: bool,
    recorded: Ghost<Seq<Seq<char>>>,
}

impl RunProgress {
    /// The statuses recorded so far, in order.
    pub closed spec fn statuses(&self) -> Seq<Seq<char>> {
        self.recorded@
    }

    /// The invariant: the flag tells whether every status passed.
    #[verifier::type_invariant]
    spec fn inv(&self) -> bool {
        self.all_passed == all_pass(self.recorded@)
    }

    /// A run with no results yet.
    pub fn new() -> (r: Self)
        ensures
            r.statuses() == Seq::<Seq<char>>::empty(),
    {
        RunProgress { all_passed: true, recorded: Ghost(Seq::empty()) }
    }

    /// Records the status of one more result.
    pub fn record(&mut self, status: &str)
        ensures
            final(self).statuses() == old(self).statuses().push(status@),
    {
        proof {
            use_type_invariant(&*self);
        }
        let passed = String::from_str("passed");
        let s = String::from_str(status);
        let is_passed = s.eq(&passed);
        let ghost prev = self.recorded@;
        let ghost next = prev.push(status@);
        let all_passed = self.all_passed && is_passed;
        proof {
            assert(is_passed == is_pass(status@));
            if all_passed {
                assert forall|i: int| 0 <= i < next.len() implies is_pass(#[trigger] next[i]) by {
                    if i < prev.len() {
                        assert(next[i] == prev[i]);
                    }
                }
            } else if !is_passed {
                assert(!is_pass(next[prev.len() as int]));
            } else {
                let k = choose|k: int| 0 <= k < prev.len() && !is_pass(#[trigger] prev[k]);
                assert(next[k] == prev[k]);
            }
        }
        assert(all_passed == all_pass(next));
        *self = RunProgress { all_passed, recorded: Ghost(next) };
    }

    /// The verdict of the run so far.
    pub fn final_status(&self) -> (r: String)
        ensures
            r@ == run_status(self.statuses()),
    {
        proof {
            use_type_invariant(self);
        }
        if self.all_passed {
            String::from_str("passed")
        } else {
            String::from_str("failed")
        }
    }
}

/// Where a run was started: from the dashboard or through the public API.
#[derive(Debug, Clone, Copy, PartialEq, Eq)]
pub enum RunOrigin {
    Dashboard,
    PublicApi,
}

/// The response text stored with each result of a run.
pub open spec fn response_text(origin: RunOrigin, prompt: Seq<char>) -> Seq<char> {
    match origin {
        RunOrigin::Dashboard => "Evaluated prompt: "@ + prompt,
        RunOrigin::PublicApi => "Evaluated: "@ + prompt,
    }
}

/// The response text stored with a result of a run started from `origin`.
pub fn result_response(origin: RunOrigin, prompt: &str) -> (r: String)
    ensures
        r@ == response_text(origin, prompt@),
{
    let mut r = match origin {
        RunOrigin::Dashboard => String::from_str("Evaluated prompt: "),
        RunOrigin::PublicApi => String::from_str("Evaluated: "),
    };
    r.append(prompt);
    r
}

} // verus!
