//! The public API, authenticated by project API keys. JSON-valued fields are
//! held as their text.
use vstd::prelude::*;

verus! {

/// A request to create a test through the public API.
#[derive(Debug, Clone)]
pub struct CreateTestRequest {
    pub name: String,
    pub prompt: String,
    pub expected: Option<String>,
    pub eval_criteria: Option<String>,
}

/// The reply to a test created through the public API.
#[derive(Debug, Clone)]
pub struct TestResponse {
    pub id: String,
    pub name: String,
    pub prompt: String,
    pub status: String,
}

/// A request to evaluate one prompt.
#[derive(Debug, Clone)]
pub struct EvaluateRequest {
    pub prompt: String,
    pub expected: Option<String>,
    pub eval_criteria: Option<String>,
}

/// The reply to a created test: its id, name and prompt, status `created`.
pub fn created_test_response(id: String, body: CreateTestRequest) -> (r: TestResponse)
    ensures
        r.id == id,
        r.name == body.name,
        r.prompt == body.prompt,
        r.status@ == "created"@,
{
    TestResponse { id, name: body.name, prompt: body.prompt, status: String::from_str("created") }
}

} // verus!
