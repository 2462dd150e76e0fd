//! The client's side of the remote evaluation protocol: its mode, where each
//! request goes, and what a sync or a prompt-test builder sends.
use vstd::prelude::*;
use crate::local::{resolve_prompt, resolved_prompt};
use crate::suite::TestSuite;
use crate::text::{copy_opt, join, join_strings};
use crate::types::{Mode, PromptTest};

verus! {

/// The routes of the remote server's public API.
#[derive(Debug, Clone, Copy, PartialEq, Eq)]
pub enum Endpoint {
    /// Create a test.
    Tests,
    /// Trigger a test run.
    Runs,
    /// Evaluate a single prompt.
    Evaluate,
}

/// The path of an endpoint below the server's base URL.
pub open spec fn endpoint_path(e: Endpoint) -> Seq<char> {
    match e {
        Endpoint::Tests => "/api/v1/tests"@,
        Endpoint::Runs => "/api/v1/runs"@,
        Endpoint::Evaluate => "/api/v1/evaluate"@,
    }
}

/// The error a client that is not in remote mode answers every request with.
pub open spec fn not_remote_error() -> Seq<char> {
    "Not in remote mode"@
}

/// A client of the remote evaluation server.
#[derive(Debug, Clone)]
pub struct Client {
    mode: Mode,
}

impl Client {
    /// The client's mode.
    pub closed spec fn spec_mode(&self) -> Mode {
        self.mode
    }

    pub fn new(mode: Mode) -> (c: Self)
        ensures
            c.spec_mode() == mode,
    {
        Client { mode }
    }

    /// The client's mode.
    pub fn mode(&self) -> (m: &Mode)
        ensures
            *m == self.spec_mode(),
    {
        &self.mode
    }

    fn remote_url(&self) -> (r: Option<(&str, &str)>)
        ensures
            self.spec_mode() is Local ==> r is None,
            self.spec_mode() matches Mode::Remote { base_url, api_key } ==> (r matches Some((b, k))
                && b@ == base_url@ && k@ == api_key@),
    {
        match &self.mode {
            Mode::Remote { base_url, api_key } => Some((base_url.as_str(), api_key.as_str())),
            Mode::Local => None,
        }
    }

    /// Where a request to `endpoint` goes and the bearer key it carries; an
    /// error in local mode.
    pub fn target(&self, endpoint: Endpoint) -> (r: Result<(String, String), String>)
        ensures
            self.spec_mode() is Local ==> (r matches Err(e) && e@ == not_remote_error()),
            self.spec_mode() matches Mode::Remote { base_url, api_key } ==> (r matches Ok((url, key))
                && url@ == base_url@ + endpoint_path(endpoint) && key@ == api_key@),
    {
        match self.remote_url() {
            None => Err(String::from_str("Not in remote mode")),
            Some((base_url, api_key)) => {
                let mut url = String::from_str(base_url);
                match endpoint {
                    Endpoint::Tests => url.append("/api/v1/tests"),
                    Endpoint::Runs => url.append("/api/v1/runs"),
                    Endpoint::Evaluate => url.append("/api/v1/evaluate"),
                }
                Ok((url, String::from_str(api_key)))
            },
        }
    }

    /// What syncing a suite sends: one test per local test, in order, with
    /// its skills resolved into the prompt.
    pub fn sync_payloads(suite: &TestSuite) -> (r: Vec<TestUpload>)
        ensures
            r.len() == suite@.tests.len(),
            forall|i: int|
                0 <= i < r.len() ==> {
                    &&& (#[trigger] r@[i]).name == suite@.tests[i].name
                    &&& r@[i].prompt@ == resolved_prompt(suite@.tests[i]@, suite@.skills)
                    &&& r@[i].expected == suite@.tests[i].expected
                },
    {
        let tests = suite.tests();
        let mut out: Vec<TestUpload> = Vec::new();
        let mut i: usize = 0;
        while i < tests.len()
            invariant
                i <= tests.len(),
                tests@ == suite@.tests,
                    out.len() == i,
                forall|j: int|
                    0 <= j < i ==> {
                        &&& (#[trigger] out@[j]).name == suite@.tests[j].name
                        &&& out@[j].prompt@ == resolved_prompt(suite@.tests[j]@, suite@.skills)
                        &&& out@[j].expected == suite@.tests[j].expected
                    },
            decreases tests.len() - i,
        {
            let t: &PromptTest = &tests[i];
            let prompt = resolve_prompt(t, suite);
            out.push(TestUpload { name: t.name.clone(), prompt, expected: copy_opt(&t.expected) });
            i = i + 1;
        }
        out
    }
}

/// A test as the client uploads it.
#[derive(Debug, Clone)]
pub struct TestUpload {
    pub name: String,
    pub prompt: String,
    pub expected: Option<String>,
}

/// Convenience builder for prompt-based tests (library usage).
#[derive(Debug, Clone)]
pub struct PromptTestBuilder {
    prompt: String,
    expectations: Vec<String>,
}

/// What a [`PromptTestBuilder`] holds: the prompt and the expectations in the
/// order they were added.
pub struct PromptTestBuilderView {
    pub prompt: Seq<char>,
    pub expectations: Seq<Seq<char>>,
}

impl View for PromptTestBuilder {
    type V = PromptTestBuilderView;

    closed spec fn view(&self) -> PromptTestBuilderView {
        PromptTestBuilderView { prompt: self.prompt@, expectations: self.expectations.deep_view() }
    }
}

/// Starts a prompt test with no expectations.
pub fn prompt(text: &str) -> (b: PromptTestBuilder)
    ensures
        b@.prompt == text@,
        b@.expectations.len() == 0,
{
    let b = PromptTestBuilder { prompt: String::from_str(text), expectations: Vec::new() };
    assert(b@.expectations =~= Seq::<Seq<char>>::empty());
    b
}

impl PromptTestBuilder {
    /// Adds an expectation.
    pub fn expect(self, expectation: &str) -> (b: Self)
        ensures
            b@.prompt == self@.prompt,
            b@.expectations == self@.expectations.push(expectation@),
    {
        let mut b = self;
        b.expectations.push(String::from_str(expectation));
        assert(b@.expectations =~= self@.expectations.push(expectation@));
        b
    }

    /// The prompt under test.
    pub fn prompt_text(&self) -> (r: &str)
        ensures
            r@ == self@.prompt,
    {
        self.prompt.as_str()
    }

    /// The expected behaviour the judge is given: the expectations joined by
    /// `"; "`.
    pub fn expected_text(&self) -> (r: String)
        ensures
            r@ == join(self@.expectations, "; "@),
    {
        join_strings(&self.expectations, "; ")
    }
}

} // verus!
