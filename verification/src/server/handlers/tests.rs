//! Tests stored in a project. JSON-valued fields are held as their text.
use vstd::prelude::*;

verus! {

/// A test as stored and returned.
#[derive(Debug, Clone)]
pub struct Test {
    pub id: String,
    pub project_id: String,
    pub name: String,
    pub prompt: String,
    pub expected: Option<String>,
    pub eval_criteria: Option<String>,
    pub config: Option<String>,
    pub created_at: String,
    pub updated_at: String,
}

/// A request to create a test; `eval_criteria` and `config` are JSON text.
#[derive(Debug, Clone)]
pub struct CreateTest {
    pub name: String,
    pub prompt: String,
    pub expected: Option<String>,
    pub eval_criteria: Option<String>,
    pub config: Option<String>,
}

/// A request to change a test; an absent field keeps its value.
#[derive(Debug, Clone)]
pub struct UpdateTest {
    pub name: Option<String>,
    pub prompt: Option<String>,
    pub expected: Option<String>,
    pub eval_criteria: Option<String>,
    pub config: Option<String>,
}

/// The editable fields of a test, as an update writes them.
#[derive(Debug, Clone)]
pub struct TestFields {
    pub name: String,
    pub prompt: String,
    pub expected: Option<String>,
    pub eval_criteria: Option<String>,
    pub config: Option<String>,
}

fn pick(given: Option<String>, stored: Option<String>) -> (r: Option<String>)
    ensures
        r == match given {
            Some(g) => Some(g),
            None => stored,
        },
{
    match given {
        Some(g) => Some(g),
        None => stored,
    }
}

/// The fields a test has after an update: each field the update gives
/// replaces the stored one, the others stay.
pub fn update_fields(existing: Test, body: UpdateTest) -> (r: TestFields)
    ensures
        r.name == match body.name {
            Some(n) => n,
            None => existing.name,
        },
        r.prompt == match body.prompt {
            Some(p) => p,
            None => existing.prompt,
        },
        r.expected == match body.expected {
            Some(e) => Some(e),
            None => existing.expected,
        },
        r.eval_criteria == match body.eval_criteria {
            Some(e) => Some(e),
            None => existing.eval_criteria,
        },
        r.config == match body.config {
            Some(c) => Some(c),
            None => existing.config,
        },
{
    let name = match body.name {
        Some(n) => n,
        None => existing.name,
    };
    let prompt = match body.prompt {
        Some(p) => p,
        None => existing.prompt,
    };
    TestFields {
        name,
        prompt,
        expected: pick(body.expected, existing.expected),
        eval_criteria: pick(body.eval_criteria, existing.eval_criteria),
        config: pick(body.config, existing.config),
    }
}

} // verus!
